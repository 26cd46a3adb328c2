//! The log on disk: where it lies, how events are laid out in it, and how they are read back.
//!
//! The log holds one record to a line. Records are only ever added at its end.

use vstd::prelude::*;

use crate::error::{ErrorView, LokinError};
use crate::session;
use crate::session::{StoredEvent, StoredEventView, SCHEMA_VERSION};
use crate::text;

verus! {

/// The environment variable that says where the log lies.
pub const DATA_DIR_ENV: &'static str = "LOKIN_DATA_DIR";

/// The directory of the log, below the one for application data.
pub const APPLICATION_DIRECTORY: &'static str = "lokin";

/// The file that holds the log.
pub const EVENTS_FILE: &'static str = "events.jsonl";

/// The file that is locked while the log is read or written.
pub const LOCK_FILE: &'static str = "events.lock";

/// `path` is `name` in the directory `base`. If `base` is empty or ends in a slash, nothing stands
/// between them; otherwise a separator does, unless `base` ends in one or may be a bare drive.
pub open spec fn is_joined(base: Seq<char>, name: Seq<char>, path: Seq<char>) -> bool {
    if base.len() == 0 || base.last() == '/' {
        path == base + name
    } else {
        ||| path == base + "/"@ + name
        ||| path == base + "\\"@ + name
        ||| path == base + name && (base.last() == '\\' || base.last() == ':')
    }
}

/// `path` ends in `name`.
pub open spec fn ends_in(path: Seq<char>, name: Seq<char>) -> bool {
    name.len() <= path.len() && path.skip(path.len() - name.len()) == name
}

/// The path begins with the prefix by which Windows takes a path verbatim.
pub open spec fn is_verbatim(path: Seq<char>) -> bool {
    text::has_prefix(path, "\\\\?\\"@)
}

/// Joining leaves the directory `base` as it is written. Windows normalizes a verbatim one, which
/// changes nothing if it has no dot, no slash, and no empty part.
pub open spec fn stays_as_written(base: Seq<char>) -> bool {
    is_verbatim(base) ==> {
        &&& forall|i: int| 0 <= i < base.len() ==> #[trigger] base[i] != '.' && base[i] != '/'
        &&& forall|i: int|
            1 <= i < base.len() - 1 ==> !(#[trigger] base[i] == '\\' && base[i + 1] == '\\')
    }
}

/// `path` is `name` in the directory `base`; where joining may rewrite `base`, only the end of
/// `path` is told.
pub open spec fn lies_in(base: Seq<char>, name: Seq<char>, path: Seq<char>) -> bool {
    &&& ends_in(path, name)
    &&& stays_as_written(base) ==> is_joined(base, name, path)
}

/// The name of a file: no separator in it, no drive, and no reference to a directory.
pub open spec fn is_file_name(name: Seq<char>) -> bool {
    &&& name.len() > 0
    &&& name != seq!['.']
    &&& name != seq!['.', '.']
    &&& forall|i: int| 0 <= i < name.len() ==> #[trigger] name[i] != '/' && name[i] != '\\' && name[i]
        != ':'
}

/// Calls `std::path::Path::join`: the path of `name` in the directory `base`. Which separator
/// stands between them depends on the system, and the contract leaves that open; none does behind
/// an empty `base` or a slash. Windows takes `.` and `..` out of a verbatim `base`; of one that it
/// may rewrite, the contract tells only how the path ends.
#[verifier::external_body]
fn join_path(base: &str, name: &str) -> (res: String)
    requires
        is_file_name(name@),
    ensures
        lies_in(base@, name@, res@),
{
    std::path::Path::new(base).join(name).into_os_string().into_string().unwrap()
}

/// Where the log lies.
#[derive(Debug)]
pub struct EventStore {
    data_dir: String,
    events_path: String,
    lock_path: String,
}

/// The model of [`EventStore`].
pub struct EventStoreView {
    pub data_dir: Seq<char>,
    pub events_path: Seq<char>,
    pub lock_path: Seq<char>,
}

impl View for EventStore {
    type V = EventStoreView;

    closed spec fn view(&self) -> EventStoreView {
        EventStoreView {
            data_dir: self.data_dir@,
            events_path: self.events_path@,
            lock_path: self.lock_path@,
        }
    }
}

impl Clone for EventStore {
    fn clone(&self) -> (res: EventStore)
        ensures
            res@ == self@,
    {
        EventStore {
            data_dir: self.data_dir.clone(),
            events_path: self.events_path.clone(),
            lock_path: self.lock_path.clone(),
        }
    }
}

impl EventStore {
    /// The log in the directory `data_dir`.
    pub fn new(data_dir: String) -> (res: EventStore)
        ensures
            res@.data_dir == data_dir@,
            lies_in(data_dir@, EVENTS_FILE@, res@.events_path),
            lies_in(data_dir@, LOCK_FILE@, res@.lock_path),
            res@.events_path != res@.lock_path,
    {
        proof {
            reveal_strlit("events.jsonl");
            reveal_strlit("events.lock");
            assert(EVENTS_FILE@.len() == 12 && LOCK_FILE@.len() == 11);
        }
        let events_path = join_path(data_dir.as_str(), EVENTS_FILE);
        let lock_path = join_path(data_dir.as_str(), LOCK_FILE);
        proof {
            let (events, lock) = (EVENTS_FILE@, LOCK_FILE@);
            assert(events_path@.last() == events_path@.skip(
                events_path@.len() - events.len(),
            ).last());
            assert(lock_path@.last() == lock_path@.skip(lock_path@.len() - lock.len()).last());
            assert(events_path@.last() == 'l' && lock_path@.last() == 'k');
        }
        EventStore { data_dir, events_path, lock_path }
    }

    /// The directory of the log.
    pub fn data_dir(&self) -> (res: &str)
        ensures
            res@ == self@.data_dir,
    {
        self.data_dir.as_str()
    }

    /// The file that holds the log.
    pub fn events_path(&self) -> (res: &str)
        ensures
            res@ == self@.events_path,
    {
        self.events_path.as_str()
    }

    /// The file that is locked while the log is read or written.
    pub fn lock_path(&self) -> (res: &str)
        ensures
            res@ == self@.lock_path,
    {
        self.lock_path.as_str()
    }
}

/// The directory of the log, out of the one that the environment names and the one of the system.
pub open spec fn chosen_directory<T>(
    configured: Option<T>,
    configured_is_empty: bool,
    local: Option<T>,
) -> Result<T, LokinError> {
    if configured is Some && !configured_is_empty {
        Ok(configured->0)
    } else {
        match local {
            Some(dir) => Ok(dir),
            None => Err(LokinError::DataDirectoryUnavailable),
        }
    }
}

/// The directory of the log: the one that the environment names, unless the name is empty, or else
/// the one that the system has for application data.
pub fn data_directory<T>(configured: Option<T>, configured_is_empty: bool, local: Option<T>) -> (res:
    Result<T, LokinError>)
    ensures
        res == chosen_directory(configured, configured_is_empty, local),
{
    match configured {
        Some(dir) if !configured_is_empty => Ok(dir),
        _ => match local {
            Some(dir) => Ok(dir),
            None => Err(LokinError::DataDirectoryUnavailable),
        },
    }
}

/// What comes of work that was done under a lock, and of the unlocking.
pub open spec fn settled<T, E>(result: Result<T, E>, unlocked: Result<(), E>) -> Result<T, E> {
    match result {
        Err(e) => Err(e),
        Ok(value) => match unlocked {
            Err(e) => Err(e),
            Ok(()) => Ok(value),
        },
    }
}

/// What comes of work that was done under a lock: its own failure goes before one to unlock.
pub fn settle<T, E>(result: Result<T, E>, unlocked: Result<(), E>) -> (res: Result<T, E>)
    ensures
        res == settled(result, unlocked),
{
    match result {
        Err(e) => Err(e),
        Ok(value) => match unlocked {
            Err(e) => Err(e),
            Ok(()) => Ok(value),
        },
    }
}

/// The byte that ends a line.
pub const NEWLINE: u8 = 10;

/// The byte that may stand before the end of a line.
pub const CARRIAGE_RETURN: u8 = 13;

/// The bytes of each record.
pub open spec fn bytes_of(records: Seq<Vec<u8>>) -> Seq<Seq<u8>> {
    Seq::new(records.len(), |i: int| records[i]@)
}

/// The records as lines: each with a newline behind it.
pub open spec fn framed(records: Seq<Seq<u8>>) -> Seq<u8>
    decreases records.len(),
{
    if records.len() == 0 {
        seq![]
    } else {
        framed(records.drop_last()) + records.last().push(NEWLINE)
    }
}

/// What is to be written at the end of the log for some records; nothing, if there are none.
pub fn frame_records(records: &[Vec<u8>]) -> (res: Option<Vec<u8>>)
    ensures
        res is None <==> records@.len() == 0,
        res matches Some(payload) ==> payload@ == framed(bytes_of(records@)),
{
    if records.len() == 0 {
        return None;
    }
    let ghost all = bytes_of(records@);
    let mut payload: Vec<u8> = Vec::new();
    let mut i: usize = 0;
    assert(all.take(0) =~= seq![]);
    while i < records.len()
        invariant
            i <= records.len(),
            all == bytes_of(records@),
            payload@ == framed(all.take(i as int)),
        decreases records.len() - i,
    {
        let record = &records[i];
        let ghost before = payload@;
        let mut k: usize = 0;
        assert(before + record@.take(0) =~= before);
        while k < record.len()
            invariant
                k <= record.len(),
                payload@ == before + record@.take(k as int),
            decreases record.len() - k,
        {
            payload.push(record[k]);
            assert(payload@ =~= before + record@.take(k + 1));
            k = k + 1;
        }
        payload.push(NEWLINE);
        proof {
            assert(record@.take(k as int) =~= record@);
            assert(all.take(i + 1).drop_last() =~= all.take(i as int));
            assert(payload@ =~= framed(all.take(i + 1)));
        }
        i = i + 1;
    }
    assert(all.take(i as int) =~= all);
    Some(payload)
}

/// The number of bytes before the first newline, or of all bytes if there is none.
pub open spec fn line_length(bytes: Seq<u8>) -> nat
    decreases bytes.len(),
{
    if bytes.len() == 0 || bytes[0] == NEWLINE {
        0
    } else {
        1 + line_length(bytes.drop_first())
    }
}

/// A line that a newline ended: a carriage return before the newline belongs to its end.
pub open spec fn without_return(line: Seq<u8>) -> Seq<u8> {
    if line.len() > 0 && line.last() == CARRIAGE_RETURN {
        line.drop_last()
    } else {
        line
    }
}

/// The lines of the log. The last one need not end in a newline.
pub open spec fn lines(bytes: Seq<u8>) -> Seq<Seq<u8>>
    decreases bytes.len(),
{
    if bytes.len() == 0 {
        seq![]
    } else {
        let n = line_length(bytes) as int;
        if n >= bytes.len() {
            seq![bytes]
        } else {
            seq![without_return(bytes.take(n))] + lines(bytes.skip(n + 1))
        }
    }
}

proof fn lemma_line_length(bytes: Seq<u8>, n: int)
    requires
        0 <= n <= bytes.len(),
        forall|i: int| 0 <= i < n ==> #[trigger] bytes[i] != NEWLINE,
        n < bytes.len() ==> bytes[n] == NEWLINE,
    ensures
        line_length(bytes) == n,
    decreases n,
{
    if n > 0 {
        assert(bytes[0] != NEWLINE);
        let rest = bytes.drop_first();
        assert forall|i: int| 0 <= i < n - 1 implies #[trigger] rest[i] != NEWLINE by {
            assert(rest[i] == bytes[i + 1]);
        }
        lemma_line_length(rest, n - 1);
    }
}

/// A part of some bytes.
fn copied(bytes: &[u8], from: usize, to: usize) -> (res: Vec<u8>)
    requires
        from <= to <= bytes@.len(),
    ensures
        res@ == bytes@.subrange(from as int, to as int),
{
    let mut res: Vec<u8> = Vec::new();
    let mut i: usize = from;
    while i < to
        invariant
            from <= i <= to <= bytes@.len(),
            res@ == bytes@.subrange(from as int, i as int),
        decreases to - i,
    {
        res.push(bytes[i]);
        assert(res@ =~= bytes@.subrange(from as int, i + 1));
        i = i + 1;
    }
    res
}

/// The lines of the log.
pub fn split_lines(bytes: &[u8]) -> (res: Vec<Vec<u8>>)
    ensures
        bytes_of(res@) == lines(bytes@),
{
    let mut res: Vec<Vec<u8>> = Vec::new();
    let mut from: usize = 0;
    proof {
        assert(bytes@.skip(0) =~= bytes@);
        assert(bytes_of(res@) + lines(bytes@) =~= lines(bytes@));
    }
    while from < bytes.len()
        invariant
            from <= bytes.len(),
            bytes_of(res@) + lines(bytes@.skip(from as int)) == lines(bytes@),
        decreases bytes.len() - from,
    {
        let ghost rest = bytes@.skip(from as int);
        let mut to: usize = from;
        while to < bytes.len() && bytes[to] != NEWLINE
            invariant
                from <= to <= bytes.len(),
                forall|i: int| from <= i < to ==> #[trigger] bytes@[i] != NEWLINE,
            decreases bytes.len() - to,
        {
            to = to + 1;
        }
        proof {
            assert forall|i: int| 0 <= i < to - from implies #[trigger] rest[i] != NEWLINE by {
                assert(rest[i] == bytes@[i + from]);
            }
            lemma_line_length(rest, to - from);
        }
        let ghost before = bytes_of(res@);
        if to == bytes.len() {
            let line = copied(bytes, from, to);
            assert(line@ =~= rest);
            res.push(line);
            assert(bytes_of(res@) =~= before + seq![rest]);
            assert(lines(rest) == seq![rest]);
            proof {
                assert(bytes@.skip(to as int) =~= seq![]);
                assert(bytes_of(res@) + lines(bytes@.skip(to as int)) =~= before + lines(rest));
            }
            from = to;
        } else {
            let end: usize = if to > from && bytes[to - 1] == CARRIAGE_RETURN {
                to - 1
            } else {
                to
            };
            let line = copied(bytes, from, end);
            let ghost kept = without_return(rest.take(to - from));
            assert(line@ =~= kept);
            res.push(line);
            proof {
                assert(bytes_of(res@) =~= before.push(kept));
                assert(rest.skip(to - from + 1) =~= bytes@.skip(to + 1));
                assert(bytes_of(res@) + lines(bytes@.skip(to + 1)) =~= before + (seq![kept]
                    + lines(bytes@.skip(to + 1))));
            }
            from = to + 1;
        }
    }
    proof {
        assert(bytes@.skip(from as int) =~= seq![]);
        assert(bytes_of(res@) + lines(bytes@.skip(from as int)) =~= bytes_of(res@));
    }
    res
}

/// A line of the log, as far as it could be read.
pub enum LogLine {
    /// The line could not be read, for the given reason.
    Unreadable(String),
    /// The text of the line, and the event that it decodes to, or the reason why it decodes to
    /// none.
    Text { text: String, decoded: Result<StoredEvent, String> },
}

/// The model of [`LogLine`].
pub enum LogLineView {
    Unreadable(Seq<char>),
    Text { text: Seq<char>, decoded: Result<StoredEventView, Seq<char>> },
}

impl View for LogLine {
    type V = LogLineView;

    open spec fn view(&self) -> LogLineView {
        match self {
            LogLine::Unreadable(reason) => LogLineView::Unreadable(reason@),
            LogLine::Text { text, decoded } => LogLineView::Text {
                text: text@,
                decoded: match decoded {
                    Ok(event) => Ok(event@),
                    Err(reason) => Err(reason@),
                },
            },
        }
    }
}

/// The event in a line of the log: none in a blank line. Lines are counted from one.
pub open spec fn line_event(line: LogLineView, number: nat) -> Result<
    Option<StoredEventView>,
    ErrorView,
> {
    match line {
        LogLineView::Unreadable(reason) => Err(ErrorView::Io(reason)),
        LogLineView::Text { text, decoded } => if text::blank(text) {
            Ok(None)
        } else {
            match decoded {
                Err(reason) => Err(
                    ErrorView::CorruptLog(
                        "line "@ + text::decimal(number) + " is not valid JSON: "@ + reason,
                    ),
                ),
                Ok(event) => if event.schema_version != SCHEMA_VERSION {
                    Err(ErrorView::UnsupportedSchemaVersion(event.schema_version))
                } else {
                    Ok(Some(event))
                },
            }
        },
    }
}

/// The events in the lines of the log, or what is wrong with the first line that is wrong.
pub open spec fn log_events(lines: Seq<LogLineView>) -> Result<Seq<StoredEventView>, ErrorView>
    decreases lines.len(),
{
    if lines.len() == 0 {
        Ok(seq![])
    } else {
        match log_events(lines.drop_last()) {
            Err(e) => Err(e),
            Ok(events) => match line_event(lines.last(), lines.len()) {
                Err(e) => Err(e),
                Ok(None) => Ok(events),
                Ok(Some(event)) => Ok(events.push(event)),
            },
        }
    }
}

proof fn lemma_first_wrong_line(lines: Seq<LogLineView>, n: int)
    requires
        0 <= n <= lines.len(),
    ensures
        log_events(lines.take(n)) is Err ==> log_events(lines) == log_events(lines.take(n)),
    decreases lines.len() - n,
{
    if n < lines.len() {
        lemma_first_wrong_line(lines, n + 1);
        assert(lines.take(n + 1).drop_last() =~= lines.take(n));
    } else {
        assert(lines.take(n) =~= lines);
    }
}

/// The events in the lines of the log.
pub fn read_log(lines: &[LogLine]) -> (res: Result<Vec<StoredEvent>, LokinError>)
    ensures
        session::list_view(res) == log_events(session::views(lines@)),
{
    let ghost all = session::views(lines@);
    let mut events: Vec<StoredEvent> = Vec::new();
    let mut index: usize = 0;
    proof {
        assert(all.take(0) =~= seq![]);
        assert(session::views(events@) =~= seq![]);
    }
    while index < lines.len()
        invariant
            index <= lines.len(),
            all == session::views(lines@),
            log_events(all.take(index as int)) == Ok::<_, ErrorView>(session::views(events@)),
        decreases lines.len() - index,
    {
        let ghost before = session::views(events@);
        proof {
            assert(all.take(index + 1).drop_last() =~= all.take(index as int));
            assert(all.take(index + 1).last() == lines@[index as int]@);
            lemma_first_wrong_line(all, index + 1);
        }
        match &lines[index] {
            LogLine::Unreadable(reason) => {
                return Err(LokinError::Io(reason.clone()));
            },
            LogLine::Text { text, decoded } => {
                if !text::is_blank(text.as_str()) {
                    match decoded {
                        Err(reason) => {
                            let line_number: u128 = index as u128 + 1;
                            return Err(
                                LokinError::CorruptLog(
                                    "line ".to_owned().concat(
                                        text::decimal_text(line_number).as_str(),
                                    ).concat(" is not valid JSON: ").concat(reason.as_str()),
                                ),
                            );
                        },
                        Ok(event) => {
                            if event.schema_version != SCHEMA_VERSION {
                                return Err(
                                    LokinError::UnsupportedSchemaVersion(event.schema_version),
                                );
                            }
                            events.push(event.clone());
                            assert(session::views(events@) =~= before.push(event@));
                        },
                    }
                }
            },
        }
        index = index + 1;
    }
    assert(all.take(index as int) =~= all);
    Ok(events)
}

/// What `decode` makes of `line`, or one of the things that it may make of it, is `out`.
pub open spec fn line_decodes<D: Fn(&[u8]) -> LogLine>(
    decode: D,
    line: Seq<u8>,
    out: LogLine,
) -> bool {
    exists|bytes: &[u8]| bytes@ == line && #[trigger] call_ensures(decode, (bytes,), out)
}

/// What `decode` makes of `lines`, line by line, is `decoded`.
pub open spec fn lines_decode<D: Fn(&[u8]) -> LogLine>(
    decode: D,
    lines: Seq<Seq<u8>>,
    decoded: Seq<LogLine>,
) -> bool {
    &&& decoded.len() == lines.len()
    &&& forall|i: int| 0 <= i < lines.len() ==> line_decodes(decode, lines[i], #[trigger] decoded[i])
}

/// What `decode` makes of a line is always what `model` says of it.
pub open spec fn follows<D: Fn(&[u8]) -> LogLine>(
    decode: D,
    model: spec_fn(Seq<u8>) -> LogLineView,
) -> bool {
    forall|line: &[u8], out: LogLine| #[trigger]
        call_ensures(decode, (line,), out) ==> out@ == model(line@)
}

/// The events in the bytes of a log, where `decode` says what each line holds.
pub open spec fn stored_events(bytes: Seq<u8>, decode: spec_fn(Seq<u8>) -> LogLineView) -> Result<
    Seq<StoredEventView>,
    ErrorView,
> {
    log_events(lines(bytes).map_values(decode))
}

/// Lines that were decoded hold what the model of the decoding says.
proof fn lemma_follows<D: Fn(&[u8]) -> LogLine>(
    decode: D,
    model: spec_fn(Seq<u8>) -> LogLineView,
    lines: Seq<Seq<u8>>,
    decoded: Seq<LogLine>,
)
    requires
        follows(decode, model),
        lines_decode(decode, lines, decoded),
    ensures
        session::views(decoded) == lines.map_values(model),
{
    assert forall|i: int| 0 <= i < lines.len() implies decoded[i]@ == model(lines[i]) by {
        assert(line_decodes(decode, lines[i], decoded[i]));
    }
    assert(session::views(decoded) =~= lines.map_values(model));
}

/// Decodes the lines of the log.
fn decode_lines<D: Fn(&[u8]) -> LogLine>(bytes: &[u8], decode: D) -> (res: Vec<LogLine>)
    requires
        forall|line: &[u8]| call_requires(decode, (line,)),
    ensures
        lines_decode(decode, lines(bytes@), res@),
{
    let found = split_lines(bytes);
    let mut res: Vec<LogLine> = Vec::new();
    let mut i: usize = 0;
    while i < found.len()
        invariant
            i <= found.len(),
            bytes_of(found@) == lines(bytes@),
            forall|line: &[u8]| call_requires(decode, (line,)),
            res.len() == i,
            forall|j: int|
                0 <= j < i ==> line_decodes(decode, lines(bytes@)[j], #[trigger] res@[j]),
        decreases found.len() - i,
    {
        let line = found[i].as_slice();
        assert(line@ == bytes_of(found@)[i as int]);
        let out = decode(line);
        assert(line_decodes(decode, lines(bytes@)[i as int], out));
        res.push(out);
        i = i + 1;
    }
    assert(bytes_of(found@).len() == found.len());
    res
}

/// Reads the events from the bytes of a log. What a line holds is for `decode` to say.
pub fn read_bytes<D: Fn(&[u8]) -> LogLine>(bytes: &[u8], decode: D) -> (res: Result<
    Vec<StoredEvent>,
    LokinError,
>)
    requires
        forall|line: &[u8]| call_requires(decode, (line,)),
    ensures
        exists|decoded: Seq<LogLine>| #[trigger]
            lines_decode(decode, lines(bytes@), decoded) && session::list_view(res) == log_events(
                session::views(decoded),
            ),
        forall|model: spec_fn(Seq<u8>) -> LogLineView| #[trigger]
            follows(decode, model) ==> session::list_view(res) == stored_events(bytes@, model),
{
    let decoded = decode_lines(bytes, decode);
    proof {
        assert forall|model: spec_fn(Seq<u8>) -> LogLineView| #[trigger]
            follows(decode, model) implies session::views(decoded@) == lines(bytes@).map_values(
            model,
        ) by {
            lemma_follows(decode, model, lines(bytes@), decoded@);
        }
    }
    read_log(decoded.as_slice())
}

/// `outcome` is what `operation` makes of `events`, or one of the things that it may make of them.
pub open spec fn operates<
    T,
    F: FnOnce(&[StoredEvent]) -> Result<(T, Vec<StoredEvent>), LokinError>,
>(
    operation: F,
    events: Seq<StoredEventView>,
    outcome: Result<(T, Vec<StoredEvent>), LokinError>,
) -> bool {
    exists|current: &[StoredEvent]|
        session::views(current@) == events && #[trigger] call_ensures(
            operation,
            (current,),
            outcome,
        )
}

/// What comes of an operation on what could be read: of nothing but its own failure, if it could
/// not be read.
pub open spec fn mutates<
    T,
    F: FnOnce(&[StoredEvent]) -> Result<(T, Vec<StoredEvent>), LokinError>,
>(
    operation: F,
    read: Result<Seq<StoredEventView>, ErrorView>,
    outcome: Result<(T, Vec<StoredEvent>), LokinError>,
) -> bool {
    match read {
        Err(e) => outcome is Err && outcome->Err_0@ == e,
        Ok(events) => operates(operation, events, outcome),
    }
}

/// Reads the events from the bytes of a log and hands them all, in their order, to `operation`,
/// which says what it comes to and which events go to the end of the log. If the log cannot be
/// read, that is the failure, and there is no operation.
pub fn mutate_bytes<
    T,
    D: Fn(&[u8]) -> LogLine,
    F: FnOnce(&[StoredEvent]) -> Result<(T, Vec<StoredEvent>), LokinError>,
>(bytes: &[u8], decode: D, operation: F) -> (res: Result<(T, Vec<StoredEvent>), LokinError>)
    requires
        forall|line: &[u8]| call_requires(decode, (line,)),
        forall|current: &[StoredEvent]| call_requires(operation, (current,)),
    ensures
        exists|decoded: Seq<LogLine>| #[trigger]
            lines_decode(decode, lines(bytes@), decoded) && mutates(
                operation,
                log_events(session::views(decoded)),
                res,
            ),
        forall|model: spec_fn(Seq<u8>) -> LogLineView| #[trigger]
            follows(decode, model) ==> mutates(operation, stored_events(bytes@, model), res),
{
    match read_bytes(bytes, decode) {
        Err(e) => Err(e),
        Ok(current) => {
            let res = operation(current.as_slice());
            assert(operates(operation, session::views(current@), res));
            res
        },
    }
}

/// A record that stays one line: no newline in it, no carriage return at its end.
pub open spec fn is_one_line(record: Seq<u8>) -> bool {
    &&& forall|i: int| 0 <= i < record.len() ==> #[trigger] record[i] != NEWLINE
    &&& record.len() > 0 ==> record.last() != CARRIAGE_RETURN
}

/// A log that ends where a line ends.
pub open spec fn is_whole(log: Seq<u8>) -> bool {
    log.len() == 0 || log.last() == NEWLINE
}

/// A log that ends where a line ends has its own lines, whatever follows it.
proof fn lemma_lines_add(log: Seq<u8>, more: Seq<u8>)
    requires
        is_whole(log),
    ensures
        lines(log + more) == lines(log) + lines(more),
    decreases log.len(),
{
    if log.len() == 0 {
        assert(log + more =~= more);
        assert(lines(log) + lines(more) =~= lines(more));
    } else {
        lemma_newline_position(log);
        let n = line_length(log) as int;
        lemma_line_length(log + more, n);
        let rest = log.skip(n + 1);
        assert((log + more).take(n) =~= log.take(n));
        assert((log + more).skip(n + 1) =~= rest + more);
        lemma_lines_add(rest, more);
        let first = seq![without_return(log.take(n))];
        assert(first + (lines(rest) + lines(more)) =~= (first + lines(rest)) + lines(more));
    }
}

/// Where the first newline of some bytes is.
proof fn lemma_newline_position(bytes: Seq<u8>)
    ensures
        line_length(bytes) <= bytes.len(),
        forall|i: int| 0 <= i < line_length(bytes) ==> #[trigger] bytes[i] != NEWLINE,
        line_length(bytes) < bytes.len() ==> bytes[line_length(bytes) as int] == NEWLINE,
        bytes.len() > 0 && bytes.last() == NEWLINE ==> line_length(bytes) < bytes.len(),
    decreases bytes.len(),
{
    if bytes.len() > 0 && bytes[0] != NEWLINE {
        let rest = bytes.drop_first();
        lemma_newline_position(rest);
        assert forall|i: int| 0 <= i < line_length(bytes) implies #[trigger] bytes[i] != NEWLINE by {
            if i > 0 {
                assert(bytes[i] == rest[i - 1]);
            }
        }
    }
}

/// What is written can be read: when records, each of them one line, go to the end of a log that
/// ends where a line ends, then the lines of the log are those that it had and, behind them, the
/// records, in their order; and the log again ends where a line ends.
pub proof fn the_log_gives_back_its_records(log: Seq<u8>, records: Seq<Seq<u8>>)
    requires
        is_whole(log),
        forall|i: int| 0 <= i < records.len() ==> is_one_line(#[trigger] records[i]),
    ensures
        lines(log + framed(records)) == lines(log) + records,
        is_whole(log + framed(records)),
    decreases records.len(),
{
    if records.len() == 0 {
        assert(log + framed(records) =~= log);
        assert(lines(log) + records =~= lines(log));
    } else {
        let before = records.drop_last();
        let record = records.last();
        assert forall|i: int| 0 <= i < before.len() implies is_one_line(#[trigger] before[i]) by {
            assert(before[i] == records[i]);
        }
        the_log_gives_back_its_records(log, before);
        let head = log + framed(before);
        let tail = record.push(NEWLINE);
        assert(log + framed(records) =~= head + tail);
        lemma_lines_add(head, tail);
        assert(is_one_line(records[records.len() - 1]));
        lemma_line_length(tail, record.len() as int);
        assert(tail.take(record.len() as int) =~= record);
        assert(tail.skip(record.len() as int + 1) =~= seq![]);
        assert(lines(tail.skip(record.len() as int + 1)) =~= seq![]);
        assert(lines(tail) =~= seq![record]);
        assert(lines(log) + before + seq![record] =~= lines(log) + records);
    }
}

/// The line is not blank, and it decodes to `event`, which is of the present schema.
pub open spec fn holds_event(line: LogLineView, event: StoredEventView) -> bool {
    match line {
        LogLineView::Unreadable(_) => false,
        LogLineView::Text { text, decoded } => !text::blank(text) && decoded == Ok::<_, Seq<char>>(
            event,
        ) && event.schema_version == SCHEMA_VERSION,
    }
}

/// Events that were appended come back in their order, behind those that were there: lines that
/// decode to events of the present schema add just these events to what the log held.
pub proof fn the_log_gives_back_its_events(
    log: Seq<LogLineView>,
    more: Seq<LogLineView>,
    events: Seq<StoredEventView>,
)
    requires
        more.len() == events.len(),
        forall|i: int|
            0 <= i < more.len() ==> holds_event(#[trigger] more[i], events[i]),
    ensures
        log_events(log) is Ok ==> log_events(log + more) == Ok::<_, ErrorView>(
            log_events(log)->Ok_0 + events,
        ),
        log_events(log) is Err ==> log_events(log + more) == log_events(log),
    decreases more.len(),
{
    if more.len() == 0 {
        assert(log + more =~= log);
        if log_events(log) is Ok {
            assert(log_events(log)->Ok_0 + events =~= log_events(log)->Ok_0);
        }
    } else {
        let before = more.drop_last();
        assert forall|i: int| 0 <= i < before.len() implies holds_event(
            #[trigger] before[i],
            events.drop_last()[i],
        ) by {
            assert(before[i] == more[i]);
        }
        the_log_gives_back_its_events(log, before, events.drop_last());
        assert((log + more).drop_last() =~= log + before);
        let last = more[more.len() - 1];
        assert((log + more).last() == last);
        if log_events(log) is Ok {
            assert((log_events(log)->Ok_0 + events.drop_last()).push(events.last())
                =~= log_events(log)->Ok_0 + events);
        }
    }
}

/// Reading gives back what was written, from the bytes up: when records, each of them one line that
/// decodes to an event of the present schema, go to the end of a log that ends where a line ends,
/// then a later read gives the events that the log held and, behind them, those of the records, in
/// their order. If the log could not be read, it still cannot, for the same reason. Without records
/// the log stays as it is.
pub proof fn a_later_read_gives_what_was_written(
    log: Seq<u8>,
    records: Seq<Seq<u8>>,
    events: Seq<StoredEventView>,
    decode: spec_fn(Seq<u8>) -> LogLineView,
)
    requires
        is_whole(log),
        records.len() == events.len(),
        forall|i: int|
            0 <= i < records.len() ==> is_one_line(#[trigger] records[i]) && holds_event(
                decode(records[i]),
                events[i],
            ),
    ensures
        stored_events(log, decode) matches Ok(held) ==> stored_events(log + framed(records), decode)
            == Ok::<_, ErrorView>(held + events),
        stored_events(log, decode) is Err ==> stored_events(log + framed(records), decode)
            == stored_events(log, decode),
        is_whole(log + framed(records)),
        records.len() == 0 ==> log + framed(records) == log,
{
    the_log_gives_back_its_records(log, records);
    let more = records.map_values(decode);
    assert((lines(log) + records).map_values(decode) =~= lines(log).map_values(decode) + more);
    assert forall|i: int| 0 <= i < more.len() implies holds_event(#[trigger] more[i], events[i]) by {
        assert(is_one_line(records[i]));
    }
    the_log_gives_back_its_events(lines(log).map_values(decode), more, events);
    if records.len() == 0 {
        assert(log + framed(records) =~= log);
    }
}

/// What comes of an operation on the bytes of a log.
pub open spec fn mutation<T>(
    log: Seq<u8>,
    decode: spec_fn(Seq<u8>) -> LogLineView,
    operation: spec_fn(Seq<StoredEventView>) -> Result<(T, Seq<StoredEventView>), ErrorView>,
) -> Result<(T, Seq<StoredEventView>), ErrorView> {
    match stored_events(log, decode) {
        Err(e) => Err(e),
        Ok(events) => operation(events),
    }
}

/// The bytes of a log after an operation: with the records of its events at the end, if it came to
/// something.
pub open spec fn log_after_mutation<T>(
    log: Seq<u8>,
    outcome: Result<(T, Seq<StoredEventView>), ErrorView>,
    encode: spec_fn(StoredEventView) -> Seq<u8>,
) -> Seq<u8> {
    match outcome {
        Err(_) => log,
        Ok((_, appended)) => log + framed(appended.map_values(encode)),
    }
}

/// The record of an event is one line, and it decodes to the event, which is of the present schema.
pub open spec fn survives(
    event: StoredEventView,
    encode: spec_fn(StoredEventView) -> Seq<u8>,
    decode: spec_fn(Seq<u8>) -> LogLineView,
) -> bool {
    is_one_line(encode(event)) && holds_event(decode(encode(event)), event)
}

/// A mutation does what its operation says and nothing else. If the log cannot be read, that is
/// what comes of it, and the log stays as it is. Otherwise the operation is given all events of the
/// log. If it fails, so does the mutation, and a later read gives the same events. If it comes to
/// something, a later read gives those events and, behind them, what it appended, in its order; if
/// that is nothing, nothing is written.
pub proof fn a_mutation_is_read_back<T>(
    log: Seq<u8>,
    decode: spec_fn(Seq<u8>) -> LogLineView,
    encode: spec_fn(StoredEventView) -> Seq<u8>,
    operation: spec_fn(Seq<StoredEventView>) -> Result<(T, Seq<StoredEventView>), ErrorView>,
)
    requires
        is_whole(log),
        mutation(log, decode, operation) matches Ok(outcome) ==> forall|i: int|
            0 <= i < outcome.1.len() ==> survives(#[trigger] outcome.1[i], encode, decode),
    ensures
        ({
            let outcome = mutation(log, decode, operation);
            let later = log_after_mutation(log, outcome, encode);
            &&& is_whole(later)
            &&& match stored_events(log, decode) {
                Err(e) => outcome == Err::<(T, Seq<StoredEventView>), _>(e) && later == log,
                Ok(held) => {
                    &&& outcome == operation(held)
                    &&& outcome is Err ==> later == log && stored_events(later, decode) == Ok::<
                        _,
                        ErrorView,
                    >(held)
                    &&& outcome matches Ok(done) ==> stored_events(later, decode) == Ok::<
                        _,
                        ErrorView,
                    >(held + done.1)
                    &&& outcome matches Ok(done) ==> done.1.len() == 0 ==> later == log
                },
            }
        }),
{
    if let Ok((_, appended)) = mutation(log, decode, operation) {
        let records = appended.map_values(encode);
        assert forall|i: int| 0 <= i < records.len() implies is_one_line(#[trigger] records[i])
            && holds_event(decode(records[i]), appended[i]) by {
            assert(survives(appended[i], encode, decode));
        }
        a_later_read_gives_what_was_written(log, records, appended, decode);
    }
}

/// A log is read line by line, and one more line adds at most one event: none if it is blank, and
/// the one that it decodes to if that is of schema version one. A line that cannot be read, does
/// not decode, or is of another version is a failure that says so, with the number of the line
/// where it does not decode; and what comes behind a line that fails changes nothing.
pub proof fn a_line_adds_its_event(lines: Seq<LogLineView>, line: LogLineView)
    ensures
        log_events(Seq::empty()) == Ok::<_, ErrorView>(Seq::<StoredEventView>::empty()),
        log_events(lines) is Err ==> log_events(lines.push(line)) == log_events(lines),
        log_events(lines) matches Ok(events) ==> log_events(lines.push(line)) == match line {
            LogLineView::Unreadable(reason) => Err(ErrorView::Io(reason)),
            LogLineView::Text { text: written, decoded } => if text::blank(written) {
                Ok(events)
            } else {
                match decoded {
                    Err(reason) => Err(
                        ErrorView::CorruptLog(
                            "line "@ + text::decimal((lines.len() + 1) as nat)
                                + " is not valid JSON: "@ + reason,
                        ),
                    ),
                    Ok(event) => if event.schema_version == 1 {
                        Ok(events.push(event))
                    } else {
                        Err(ErrorView::UnsupportedSchemaVersion(event.schema_version))
                    },
                }
            },
        },
{
    assert(lines.push(line).drop_last() =~= lines);
}

/// Bytes without a newline behind whole lines are one more line, if there are any; with a newline
/// behind them they are one in any case, and then a carriage return before the newline is not part
/// of it.
pub proof fn bytes_up_to_a_newline_are_a_line(log: Seq<u8>, bytes: Seq<u8>)
    requires
        is_whole(log),
        forall|i: int| 0 <= i < bytes.len() ==> #[trigger] bytes[i] != 10,
    ensures
        lines(Seq::empty()) == Seq::<Seq<u8>>::empty(),
        bytes.len() > 0 ==> lines(log + bytes) == lines(log).push(bytes),
        lines(log + bytes.push(10)) == lines(log).push(
            if bytes.len() > 0 && bytes.last() == 13 {
                bytes.drop_last()
            } else {
                bytes
            },
        ),
{
    lemma_lines_add(log, bytes);
    lemma_lines_add(log, bytes.push(10));
    lemma_line_length(bytes, bytes.len() as int);
    let line = bytes.push(10);
    lemma_line_length(line, bytes.len() as int);
    assert(line.take(bytes.len() as int) =~= bytes);
    let rest = line.skip(bytes.len() as int + 1);
    assert(rest =~= seq![]);
    assert(lines(rest) =~= seq![]);
    assert(lines(line) =~= seq![without_return(bytes)]);
    assert(lines(log) + seq![without_return(bytes)] =~= lines(log).push(without_return(bytes)));
    if bytes.len() > 0 {
        assert(lines(log) + seq![bytes] =~= lines(log).push(bytes));
    }
}

/// A record that is written is its bytes and a newline behind those of the records before it.
pub proof fn a_record_is_written_with_a_newline(records: Seq<Seq<u8>>, record: Seq<u8>)
    ensures
        framed(Seq::empty()) == Seq::<u8>::empty(),
        framed(records.push(record)) == framed(records) + record + seq![10u8],
{
    assert(records.push(record).drop_last() =~= records);
    assert(framed(records.push(record)) =~= framed(records) + record + seq![10u8]);
}

/// The log lies where the environment says, if it says something; else where the system keeps
/// application data, if it says where; else nowhere.
pub proof fn where_the_log_lies<T>(configured: Option<T>, configured_is_empty: bool, local: T)
    ensures
        configured is Some ==> chosen_directory(configured, false, Some(local)) == Ok::<
            _,
            LokinError,
        >(configured->0) && chosen_directory(configured, false, None) == Ok::<_, LokinError>(
            configured->0,
        ),
        chosen_directory(None, configured_is_empty, Some(local)) == Ok::<_, LokinError>(local),
        chosen_directory(configured, true, Some(local)) == Ok::<_, LokinError>(local),
        chosen_directory(None::<T>, configured_is_empty, None) == Err::<T, _>(
            LokinError::DataDirectoryUnavailable,
        ),
        chosen_directory(configured, true, None) == Err::<T, _>(
            LokinError::DataDirectoryUnavailable,
        ),
{
}

/// Work under a lock succeeds exactly if it and the unlocking do, and gives what the work gave; the
/// failure of the work is told before that of the unlocking.
pub proof fn work_under_a_lock<T, E>(result: Result<T, E>, unlocked: Result<(), E>)
    ensures
        settled(result, unlocked) is Ok <==> result is Ok && unlocked is Ok,
        settled(result, unlocked) is Ok ==> settled(result, unlocked)->Ok_0 == result->Ok_0,
        result is Err ==> settled(result, unlocked) is Err && settled(result, unlocked)->Err_0
            == result->Err_0,
        result is Ok && unlocked is Err ==> settled(result, unlocked)->Err_0 == unlocked->Err_0,
{
}

} // verus!

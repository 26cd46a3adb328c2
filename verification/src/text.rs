//! Text: what the library reads from strings and how it builds them.
//!
//! A string is modelled as the sequence of its characters.

use vstd::prelude::*;

verus! {

/// The characters of each string, in order.
pub open spec fn texts(strings: Seq<String>) -> Seq<Seq<char>> {
    Seq::new(strings.len(), |i: int| strings[i]@)
}

/// The characters of an optional string.
pub open spec fn optional_text(text: Option<&str>) -> Option<Seq<char>> {
    match text {
        Some(text) => Some(text@),
        None => None,
    }
}

/// The Unicode property `White_Space`.
pub open spec fn white_space(c: char) -> bool {
    let code = c as u32;
    ||| 0x09 <= code <= 0x0d
    ||| code == 0x20
    ||| code == 0x85
    ||| code == 0xa0
    ||| code == 0x1680
    ||| 0x2000 <= code <= 0x200a
    ||| code == 0x2028
    ||| code == 0x2029
    ||| code == 0x202f
    ||| code == 0x205f
    ||| code == 0x3000
}

/// Whether `c` has the Unicode property `White_Space`.
pub fn is_white_space(c: char) -> (res: bool)
    ensures
        res == white_space(c),
{
    let code: u32 = c as u32;
    (0x09 <= code && code <= 0x0d) || code == 0x20 || code == 0x85 || code == 0xa0 || code == 0x1680
        || (0x2000 <= code && code <= 0x200a) || code == 0x2028 || code == 0x2029 || code == 0x202f
        || code == 0x205f || code == 0x3000
}

/// `s` without its leading white space.
pub open spec fn trimmed_start(s: Seq<char>) -> Seq<char>
    decreases s.len(),
{
    if s.len() > 0 && white_space(s[0]) {
        trimmed_start(s.drop_first())
    } else {
        s
    }
}

/// `s` without its trailing white space.
pub open spec fn trimmed_end(s: Seq<char>) -> Seq<char>
    decreases s.len(),
{
    if s.len() > 0 && white_space(s.last()) {
        trimmed_end(s.drop_last())
    } else {
        s
    }
}

/// `s` without leading and trailing white space.
pub open spec fn trimmed(s: Seq<char>) -> Seq<char> {
    trimmed_end(trimmed_start(s))
}

/// Every character of `s` is white space.
pub open spec fn blank(s: Seq<char>) -> bool {
    forall|i: int| 0 <= i < s.len() ==> white_space(#[trigger] s[i])
}

/// What is left of `s` after white space was taken off its front is a suffix of `s`, and nothing
/// else was taken off.
proof fn lemma_trimmed_start(s: Seq<char>, from: int)
    requires
        0 <= from <= s.len(),
        forall|i: int| 0 <= i < from ==> white_space(#[trigger] s[i]),
        from < s.len() ==> !white_space(s[from]),
    ensures
        trimmed_start(s) == s.subrange(from, s.len() as int),
    decreases from,
{
    if from > 0 {
        assert(white_space(s[0]));
        let t = s.drop_first();
        assert forall|i: int| 0 <= i < from - 1 implies white_space(#[trigger] t[i]) by {
            assert(t[i] == s[i + 1]);
        }
        lemma_trimmed_start(t, from - 1);
        assert(t.subrange(from - 1, t.len() as int) =~= s.subrange(from, s.len() as int));
    } else {
        assert(s.subrange(0, s.len() as int) =~= s);
    }
}

proof fn lemma_trimmed_end(s: Seq<char>, to: int)
    requires
        0 <= to <= s.len(),
        forall|i: int| to <= i < s.len() ==> white_space(#[trigger] s[i]),
        to > 0 ==> !white_space(s[to - 1]),
    ensures
        trimmed_end(s) == s.subrange(0, to),
    decreases s.len() - to,
{
    if to < s.len() {
        assert(white_space(s[s.len() - 1]));
        let t = s.drop_last();
        lemma_trimmed_end(t, to);
        assert(t.subrange(0, to) =~= s.subrange(0, to));
    } else {
        assert(s.subrange(0, to) =~= s);
    }
}

/// A text is blank exactly if trimming leaves nothing of it, and what trimming leaves has no white
/// space at either end, so that a second trimming changes nothing.
pub proof fn trimming_is_stable(s: Seq<char>)
    ensures
        blank(s) <==> trimmed(s).len() == 0,
        blank(s) <==> blank(trimmed(s)),
        trimmed(trimmed(s)) == trimmed(s),
{
    let from = first_ink(s);
    lemma_first_ink(s);
    lemma_trimmed_start(s, from);
    let t = s.subrange(from, s.len() as int);
    let to = last_ink(t);
    lemma_last_ink(t);
    lemma_trimmed_end(t, to);
    let u = t.subrange(0, to);
    if u.len() > 0 {
        assert(u[0] == s[from]);
        assert(u[to - 1] == t[to - 1]);
        lemma_trimmed_start(u, 0);
        assert(u.subrange(0, u.len() as int) =~= u);
        lemma_trimmed_end(u, to);
    } else {
        assert(from == s.len()) by {
            if from < s.len() {
                assert(t[0] == s[from]);
            }
        }
    }
}

/// The index of the first character of `s` that is not white space.
spec fn first_ink(s: Seq<char>) -> int
    decreases s.len(),
{
    if s.len() > 0 && white_space(s[0]) {
        1 + first_ink(s.drop_first())
    } else {
        0
    }
}

/// The index just after the last character of `s` that is not white space.
spec fn last_ink(s: Seq<char>) -> int
    decreases s.len(),
{
    if s.len() > 0 && white_space(s.last()) {
        last_ink(s.drop_last())
    } else {
        s.len() as int
    }
}

proof fn lemma_first_ink(s: Seq<char>)
    ensures
        0 <= first_ink(s) <= s.len(),
        forall|i: int| 0 <= i < first_ink(s) ==> white_space(#[trigger] s[i]),
        first_ink(s) < s.len() ==> !white_space(s[first_ink(s)]),
    decreases s.len(),
{
    if s.len() > 0 && white_space(s[0]) {
        let t = s.drop_first();
        lemma_first_ink(t);
        assert forall|i: int| 0 <= i < first_ink(s) implies white_space(#[trigger] s[i]) by {
            if i > 0 {
                assert(s[i] == t[i - 1]);
            }
        }
    }
}

proof fn lemma_last_ink(s: Seq<char>)
    ensures
        0 <= last_ink(s) <= s.len(),
        forall|i: int| last_ink(s) <= i < s.len() ==> white_space(#[trigger] s[i]),
        last_ink(s) > 0 ==> !white_space(s[last_ink(s) - 1]),
    decreases s.len(),
{
    if s.len() > 0 && white_space(s.last()) {
        let t = s.drop_last();
        lemma_last_ink(t);
        assert forall|i: int| last_ink(s) <= i < s.len() implies white_space(#[trigger] s[i]) by {
            if i < t.len() {
                assert(s[i] == t[i]);
            }
        }
    }
}

/// The characters of `s`.
fn chars_of(s: &str) -> (res: Vec<char>)
    ensures
        res@ == s@,
{
    let mut res: Vec<char> = Vec::new();
    for c in it: s.chars()
        invariant
            res@ == it.seq().take(it.index() as int),
            it.seq() == s@,
    {
        res.push(c);
    }
    res
}

/// `s` without leading and trailing white space.
pub fn trim(s: &str) -> (res: String)
    ensures
        res@ == trimmed(s@),
{
    let chars = chars_of(s);
    let len: usize = chars.len();
    let mut from: usize = 0;
    while from < len && is_white_space(chars[from])
        invariant
            len == chars.len(),
            from <= len,
            forall|i: int| 0 <= i < from ==> white_space(#[trigger] chars@[i]),
        decreases len - from,
    {
        from = from + 1;
    }
    let mut to: usize = len;
    while from < to && is_white_space(chars[to - 1])
        invariant
            len == chars.len(),
            from <= to <= len,
            forall|i: int| to <= i < len ==> white_space(#[trigger] chars@[i]),
        decreases to - from,
    {
        to = to - 1;
    }
    proof {
        lemma_trimmed_start(s@, from as int);
        let t = s@.subrange(from as int, len as int);
        assert forall|i: int| to - from <= i < t.len() implies white_space(#[trigger] t[i]) by {
            assert(t[i] == chars@[i + from]);
        }
        lemma_trimmed_end(t, to - from);
        assert(t.subrange(0, to - from) =~= s@.subrange(from as int, to as int));
    }
    s.substring_char(from, to).to_owned()
}

/// Whether `s` holds nothing but white space.
pub fn is_blank(s: &str) -> (res: bool)
    ensures
        res == blank(s@),
{
    let chars = chars_of(s);
    let mut i: usize = 0;
    while i < chars.len()
        invariant
            i <= chars.len(),
            chars@ == s@,
            forall|j: int| 0 <= j < i ==> white_space(#[trigger] s@[j]),
        decreases chars.len() - i,
    {
        if !is_white_space(chars[i]) {
            return false;
        }
        i = i + 1;
    }
    true
}

/// Whether two strings hold the same characters.
pub fn same_text(a: &str, b: &str) -> (res: bool)
    ensures
        res == (a@ == b@),
{
    a.to_owned() == b.to_owned()
}

/// `s` begins with `prefix`.
pub open spec fn has_prefix(s: Seq<char>, prefix: Seq<char>) -> bool {
    prefix.len() <= s.len() && s.take(prefix.len() as int) == prefix
}

/// `needle` stands in `s` at `at`.
pub open spec fn occurs_at(s: Seq<char>, needle: Seq<char>, at: int) -> bool {
    0 <= at && at + needle.len() <= s.len() && s.subrange(at, at + needle.len()) == needle
}

/// `needle` stands somewhere in `s`.
pub open spec fn has_infix(s: Seq<char>, needle: Seq<char>) -> bool {
    exists|at: int| occurs_at(s, needle, at)
}

/// Whether the characters of `needle` stand in `s` at `at`.
fn matches_at(s: &Vec<char>, needle: &Vec<char>, at: usize) -> (res: bool)
    requires
        at + needle.len() <= s.len(),
    ensures
        res == occurs_at(s@, needle@, at as int),
{
    let mut i: usize = 0;
    while i < needle.len()
        invariant
            i <= needle.len(),
            at + needle.len() <= s.len(),
            forall|j: int| 0 <= j < i ==> s@[at + j] == needle@[j],
        decreases needle.len() - i,
    {
        if s[at + i] != needle[i] {
            assert(s@.subrange(at as int, at + needle.len())[i as int] != needle@[i as int]);
            return false;
        }
        i = i + 1;
    }
    assert(s@.subrange(at as int, at + needle.len()) =~= needle@);
    true
}

/// Whether `s` begins with `prefix`.
pub fn starts_with(s: &str, prefix: &str) -> (res: bool)
    ensures
        res == has_prefix(s@, prefix@),
{
    let chars = chars_of(s);
    let wanted = chars_of(prefix);
    if wanted.len() > chars.len() {
        return false;
    }
    assert(s@.take(prefix@.len() as int) == s@.subrange(0, prefix@.len() as int));
    matches_at(&chars, &wanted, 0)
}

/// Whether `needle` stands somewhere in `s`.
pub fn contains(s: &str, needle: &str) -> (res: bool)
    ensures
        res == has_infix(s@, needle@),
{
    let chars = chars_of(s);
    let wanted = chars_of(needle);
    if wanted.len() > chars.len() {
        return false;
    }
    let last: usize = chars.len() - wanted.len();
    let mut at: usize = 0;
    loop
        invariant
            chars@ == s@,
            wanted@ == needle@,
            last + wanted.len() == chars.len(),
            at <= last,
            forall|k: int| 0 <= k < at ==> !occurs_at(s@, needle@, k),
        decreases last - at,
    {
        if matches_at(&chars, &wanted, at) {
            return true;
        }
        if at == last {
            return false;
        }
        at = at + 1;
    }
}

/// `s` without the slashes at its end.
pub open spec fn without_slashes(s: Seq<char>) -> Seq<char>
    decreases s.len(),
{
    if s.len() > 0 && s.last() == '/' {
        without_slashes(s.drop_last())
    } else {
        s
    }
}

/// `s` without the slashes at its end.
pub fn strip_slashes(s: &str) -> (res: String)
    ensures
        res@ == without_slashes(s@),
{
    let chars = chars_of(s);
    let mut to: usize = chars.len();
    assert(s@.take(to as int) =~= s@);
    while to > 0 && chars[to - 1] == '/'
        invariant
            chars@ == s@,
            to <= chars.len(),
            without_slashes(s@) == without_slashes(s@.take(to as int)),
        decreases to,
    {
        assert(s@.take(to as int).drop_last() =~= s@.take(to - 1));
        to = to - 1;
    }
    assert(s@.take(to as int) =~= s@.subrange(0, to as int));
    s.substring_char(0, to).to_owned()
}

/// A digit below ten as a character.
pub open spec fn digit(n: nat) -> char {
    (48 + n % 10) as char
}

/// `n` in decimal, without leading zeros.
pub open spec fn decimal(n: nat) -> Seq<char>
    decreases n,
{
    if n < 10 {
        seq![digit(n)]
    } else {
        decimal(n / 10).push(digit(n % 10))
    }
}

/// `n` in decimal.
pub fn decimal_text(n: u128) -> (res: String)
    ensures
        res@ == decimal(n as nat),
    decreases n,
{
    let mut res: String = if n < 10 {
        String::new()
    } else {
        decimal_text(n / 10)
    };
    let d: u128 = n % 10;
    proof {
        reveal_strlit("0");
        reveal_strlit("1");
        reveal_strlit("2");
        reveal_strlit("3");
        reveal_strlit("4");
        reveal_strlit("5");
        reveal_strlit("6");
        reveal_strlit("7");
        reveal_strlit("8");
        reveal_strlit("9");
    }
    let last: &str = if d == 0 {
        "0"
    } else if d == 1 {
        "1"
    } else if d == 2 {
        "2"
    } else if d == 3 {
        "3"
    } else if d == 4 {
        "4"
    } else if d == 5 {
        "5"
    } else if d == 6 {
        "6"
    } else if d == 7 {
        "7"
    } else if d == 8 {
        "8"
    } else {
        "9"
    };
    assert(last@ =~= seq![digit(d as nat)]);
    res.append(last);
    assert(res@ =~= decimal(n as nat));
    res
}

/// `n` in decimal, with a zero in front where it has one digit.
pub open spec fn two_digits(n: nat) -> Seq<char> {
    if n < 10 {
        "0"@ + decimal(n)
    } else {
        decimal(n)
    }
}

/// `n` in decimal, with at least two digits.
pub fn two_digit_text(n: u128) -> (res: String)
    ensures
        res@ == two_digits(n as nat),
{
    let mut res = String::new();
    if n < 10 {
        res.append("0");
    }
    res.append(decimal_text(n).as_str());
    assert(res@ =~= two_digits(n as nat));
    res
}

/// `n` spaces.
pub open spec fn spaces(n: nat) -> Seq<char> {
    Seq::new(n, |i: int| ' ')
}

/// `s` with spaces behind it, up to `width` characters.
pub open spec fn padded_end(s: Seq<char>, width: nat) -> Seq<char> {
    s + spaces(if s.len() < width { (width - s.len()) as nat } else { 0 })
}

/// `s` with spaces in front of it, up to `width` characters.
pub open spec fn padded_start(s: Seq<char>, width: nat) -> Seq<char> {
    spaces(if s.len() < width { (width - s.len()) as nat } else { 0 }) + s
}

/// As many spaces as `s` lacks to be `width` characters long.
fn filler(s: &str, width: usize) -> (res: String)
    ensures
        res@ == spaces(if s@.len() < width { (width - s@.len()) as nat } else { 0 }),
{
    let len: usize = s.unicode_len();
    let mut res = String::new();
    let mut i: usize = len;
    assert(res@ =~= spaces(0));
    while i < width
        invariant
            len == s@.len(),
            len <= i,
            i <= width || i == len,
            res@ == spaces((i - len) as nat),
        decreases width - i,
    {
        proof {
            reveal_strlit(" ");
        }
        res.append(" ");
        assert(res@ =~= spaces((i + 1 - len) as nat));
        i = i + 1;
    }
    res
}

/// `s` with spaces behind it, up to `width` characters.
pub fn pad_end(s: &str, width: usize) -> (res: String)
    ensures
        res@ == padded_end(s@, width as nat),
{
    let mut res = s.to_owned();
    res.append(filler(s, width).as_str());
    res
}

/// `s` with spaces in front of it, up to `width` characters.
pub fn pad_start(s: &str, width: usize) -> (res: String)
    ensures
        res@ == padded_start(s@, width as nat),
{
    let mut res = filler(s, width);
    res.append(s);
    res
}

/// The parts, with `separator` between each two of them.
pub open spec fn joined(parts: Seq<Seq<char>>, separator: Seq<char>) -> Seq<char>
    decreases parts.len(),
{
    if parts.len() == 0 {
        seq![]
    } else if parts.len() == 1 {
        parts[0]
    } else {
        joined(parts.drop_last(), separator) + separator + parts.last()
    }
}

/// The strings, with `separator` between each two of them.
pub fn join(parts: &[String], separator: &str) -> (res: String)
    ensures
        res@ == joined(texts(parts@), separator@),
{
    let mut res = String::new();
    let mut i: usize = 0;
    let ghost all = texts(parts@);
    assert(all.take(0) =~= seq![]);
    while i < parts.len()
        invariant
            i <= parts.len(),
            all == texts(parts@),
            res@ == joined(all.take(i as int), separator@),
        decreases parts.len() - i,
    {
        if i > 0 {
            res.append(separator);
        }
        res.append(parts[i].as_str());
        proof {
            let next = all.take(i + 1);
            assert(next.drop_last() =~= all.take(i as int));
            assert(next.last() == parts@[i as int]@);
            assert(res@ =~= joined(next, separator@));
        }
        i = i + 1;
    }
    assert(all.take(i as int) =~= all);
    res
}

/// The parts, one behind the other.
pub open spec fn concatenated(parts: Seq<Seq<char>>) -> Seq<char>
    decreases parts.len(),
{
    if parts.len() == 0 {
        seq![]
    } else {
        concatenated(parts.drop_last()) + parts.last()
    }
}

/// The strings, one behind the other.
pub fn concatenate(parts: &[String]) -> (res: String)
    ensures
        res@ == concatenated(texts(parts@)),
{
    let mut res = String::new();
    let mut i: usize = 0;
    let ghost all = texts(parts@);
    assert(all.take(0) =~= seq![]);
    while i < parts.len()
        invariant
            i <= parts.len(),
            all == texts(parts@),
            res@ == concatenated(all.take(i as int)),
        decreases parts.len() - i,
    {
        res.append(parts[i].as_str());
        assert(all.take(i + 1).drop_last() =~= all.take(i as int));
        i = i + 1;
    }
    assert(all.take(i as int) =~= all);
    res
}

/// `s` holds ASCII characters only.
pub open spec fn ascii(s: Seq<char>) -> bool {
    forall|i: int| 0 <= i < s.len() ==> (#[trigger] s[i]) as u32 <= 0x7f
}

/// `c`, in lower case if it is one of the letters `A` to `Z`.
pub open spec fn ascii_lower(c: char) -> char {
    if 'A' <= c <= 'Z' {
        (c as u32 + 32) as char
    } else {
        c
    }
}

/// `s` with the letters `A` to `Z` in lower case.
pub open spec fn ascii_lowered(s: Seq<char>) -> Seq<char> {
    Seq::new(s.len(), |i: int| ascii_lower(s[i]))
}

/// What `str::to_lowercase` returns for a string.
pub uninterp spec fn lowercased(s: Seq<char>) -> Seq<char>;

/// Calls `str::to_lowercase` of the standard library. Its result depends on the string alone. In a
/// string of ASCII characters it maps the letters `A` to `Z` to `a` to `z` and leaves the others as
/// they are; of other strings, the Unicode table that it follows is not restated.
#[verifier::external_body]
fn lowercase(s: &str) -> (res: String)
    ensures
        res@ == lowercased(s@),
        ascii(s@) ==> res@ == ascii_lowered(s@),
{
    s.to_lowercase()
}

/// `s` in lower case.
pub open spec fn lowered(s: Seq<char>) -> Seq<char> {
    if ascii(s) {
        ascii_lowered(s)
    } else {
        lowercased(s)
    }
}

/// `s` in lower case.
pub fn lower(s: &str) -> (res: String)
    ensures
        res@ == lowered(s@),
{
    lowercase(s)
}

/// Trimming leaves a part of the text that stood in one piece: all that it takes off, before and
/// behind, is white space, and what it leaves neither begins nor ends with any.
pub proof fn trimming_takes_off_white_space_only(s: Seq<char>)
    ensures
        exists|from: int, to: int|
            0 <= from <= to <= s.len() && trimmed(s) == #[trigger] s.subrange(from, to) && (
            forall|i: int| 0 <= i < from || to <= i < s.len() ==> white_space(#[trigger] s[i])) && (
            from < to ==> !white_space(s[from]) && !white_space(s[to - 1])),
{
    let from = first_ink(s);
    lemma_first_ink(s);
    lemma_trimmed_start(s, from);
    let t = s.subrange(from, s.len() as int);
    let to = last_ink(t);
    lemma_last_ink(t);
    lemma_trimmed_end(t, to);
    assert(t.subrange(0, to) =~= s.subrange(from, from + to));
    assert forall|i: int| from + to <= i < s.len() implies white_space(#[trigger] s[i]) by {
        assert(s[i] == t[i - from]);
    }
    if to > 0 {
        assert(t[to - 1] == s[from + to - 1]);
    }
}

/// A text begins with another if it is the other and something behind it, and only then.
pub proof fn a_prefix_stands_in_front(s: Seq<char>, prefix: Seq<char>)
    ensures
        has_prefix(s, prefix) <==> exists|rest: Seq<char>| s == #[trigger] (prefix + rest),
{
    if has_prefix(s, prefix) {
        assert(s =~= prefix + s.skip(prefix.len() as int));
    }
    assert forall|rest: Seq<char>| s == #[trigger] (prefix + rest) implies has_prefix(
        s,
        prefix,
    ) by {
        assert(s.take(prefix.len() as int) =~= prefix);
    }
}

/// A text holds another if it is something, the other, and something behind it, and only then.
pub proof fn an_infix_stands_between(s: Seq<char>, needle: Seq<char>)
    ensures
        has_infix(s, needle) <==> exists|before: Seq<char>, behind: Seq<char>|
            s == #[trigger] (before + needle + behind),
{
    if has_infix(s, needle) {
        let at = choose|at: int| occurs_at(s, needle, at);
        assert(s =~= s.take(at) + needle + s.skip(at + needle.len()));
    }
    assert forall|before: Seq<char>, behind: Seq<char>|
        s == #[trigger] (before + needle + behind) implies has_infix(s, needle) by {
        let at = before.len() as int;
        assert(s.subrange(at, at + needle.len()) =~= needle);
        assert(occurs_at(s, needle, at));
    }
}

/// Nothing but slashes is taken off the end of a text, and none is left there.
pub proof fn only_slashes_are_stripped(s: Seq<char>)
    ensures
        has_prefix(s, without_slashes(s)),
        forall|i: int| without_slashes(s).len() <= i < s.len() ==> #[trigger] s[i] == '/',
        without_slashes(s).len() > 0 ==> without_slashes(s).last() != '/',
    decreases s.len(),
{
    if s.len() > 0 && s.last() == '/' {
        let t = s.drop_last();
        only_slashes_are_stripped(t);
        let n = without_slashes(s).len() as int;
        assert(s.take(n) =~= t.take(n));
        assert forall|i: int| n <= i < s.len() implies #[trigger] s[i] == '/' by {
            if i < t.len() {
                assert(s[i] == t[i]);
            }
        }
    } else {
        assert(s.take(s.len() as int) =~= s);
    }
}

/// The number that decimal digits stand for.
pub open spec fn number_of(digits: Seq<char>) -> int {
    digits.fold_left(0int, |n: int, c: char| 10 * n + (c as int - 48))
}

/// A number in decimal stands for that number. It has digits only, at least one of them, and no
/// zero in front unless it is zero.
pub proof fn decimal_digits_stand_for_the_number(n: nat)
    ensures
        number_of(decimal(n)) == n,
        decimal(n).len() >= 1,
        forall|i: int| 0 <= i < decimal(n).len() ==> '0' <= #[trigger] decimal(n)[i] <= '9',
        n > 0 ==> decimal(n)[0] != '0',
        n < 10 <==> decimal(n).len() == 1,
    decreases n,
{
    let f = |n: int, c: char| 10 * n + (c as int - 48);
    if n < 10 {
        let s = decimal(n);
        assert(s.drop_last() =~= seq![]);
        assert(s.drop_last().fold_left(0int, f) == 0);
        assert(s.fold_left(0int, f) == f(0, s.last()));
    } else {
        decimal_digits_stand_for_the_number(n / 10);
        let s = decimal(n);
        assert(s.drop_last() =~= decimal(n / 10));
        assert(s.fold_left(0int, f) == f(decimal(n / 10).fold_left(0int, f), s.last()));
        assert(s[0] == decimal(n / 10)[0]);
    }
}

/// A number with at least two digits is the number in decimal, with one zero in front if it would
/// otherwise have one digit.
pub proof fn two_digits_are_at_least_two(n: nat)
    ensures
        number_of(two_digits(n)) == n,
        two_digits(n).len() >= 2,
        n >= 10 ==> two_digits(n) == decimal(n),
        n < 10 ==> two_digits(n) == seq!['0'] + decimal(n),
{
    reveal_strlit("0");
    decimal_digits_stand_for_the_number(n);
    assert("0"@ =~= seq!['0']);
    if n < 10 {
        let f = |n: int, c: char| 10 * n + (c as int - 48);
        let s = two_digits(n);
        assert(s =~= seq!['0', digit(n)]);
        assert(s.drop_last() =~= seq!['0']);
        assert(s.drop_last().drop_last() =~= seq![]);
        assert(s.drop_last().drop_last().fold_left(0int, f) == 0);
        assert(s.drop_last().fold_left(0int, f) == f(0, '0'));
        assert(s.fold_left(0int, f) == f(0, s.last()));
    }
}

/// A text that is padded keeps its characters and gets spaces, at one end only, until it has the
/// width; one that has it already stays as it is.
pub proof fn padding_adds_spaces_only(s: Seq<char>, width: nat)
    ensures
        padded_end(s, width).len() == if s.len() < width { width } else { s.len() },
        padded_start(s, width).len() == if s.len() < width { width } else { s.len() },
        padded_end(s, width).take(s.len() as int) == s,
        padded_start(s, width).skip(padded_start(s, width).len() - s.len()) == s,
        forall|i: int|
            s.len() <= i < padded_end(s, width).len() ==> #[trigger] padded_end(s, width)[i] == ' ',
        forall|i: int|
            0 <= i < padded_start(s, width).len() - s.len() ==> #[trigger] padded_start(
                s,
                width,
            )[i] == ' ',
{
    assert(padded_end(s, width).take(s.len() as int) =~= s);
    assert(padded_start(s, width).skip(padded_start(s, width).len() - s.len()) =~= s);
}

/// Parts that are joined stand in their order, with the separator between each two neighbours and
/// nowhere else.
pub proof fn joining_puts_the_separator_between(
    parts: Seq<Seq<char>>,
    last: Seq<char>,
    separator: Seq<char>,
)
    ensures
        joined(Seq::<Seq<char>>::empty(), separator) == Seq::<char>::empty(),
        joined(seq![last], separator) == last,
        parts.len() > 0 ==> joined(parts.push(last), separator) == joined(parts, separator)
            + separator + last,
{
    assert(parts.push(last).drop_last() =~= parts);
}

/// Parts that stand one behind the other are all there, in their order.
pub proof fn concatenating_drops_nothing(parts: Seq<Seq<char>>, more: Seq<Seq<char>>)
    ensures
        concatenated(Seq::<Seq<char>>::empty()) == Seq::<char>::empty(),
        forall|part: Seq<char>| concatenated(#[trigger] seq![part]) == part,
        concatenated(parts + more) == concatenated(parts) + concatenated(more),
    decreases more.len(),
{
    assert forall|part: Seq<char>| concatenated(#[trigger] seq![part]) == part by {
        let none = seq![part].drop_last();
        assert(none =~= Seq::<Seq<char>>::empty());
        assert(concatenated(none) == Seq::<char>::empty());
        assert(seq![part].last() == part);
        assert(concatenated(none) + part =~= part);
    }
    if more.len() == 0 {
        assert(parts + more =~= parts);
        assert(concatenated(parts) + concatenated(more) =~= concatenated(parts));
    } else {
        concatenating_drops_nothing(parts, more.drop_last());
        assert((parts + more).drop_last() =~= parts + more.drop_last());
        assert((parts + more).last() == more.last());
        assert(concatenated(parts + more) =~= concatenated(parts) + concatenated(more));
    }
}

/// In a text of ASCII characters, lower case changes the letters `A` to `Z`, each to its own small
/// letter, and nothing else; so a second time changes nothing.
pub proof fn lower_case_changes_capitals_only(s: Seq<char>)
    requires
        ascii(s),
    ensures
        lowered(s).len() == s.len(),
        forall|i: int|
            0 <= i < s.len() ==> if 'A' <= s[i] <= 'Z' {
                #[trigger] lowered(s)[i] as int == s[i] as int + 32
            } else {
                lowered(s)[i] == s[i]
            },
        lowered(lowered(s)) == lowered(s),
{
    let t = lowered(s);
    assert forall|i: int| 0 <= i < t.len() implies (#[trigger] t[i]) as u32 <= 0x7f && ascii_lower(
        t[i],
    ) == t[i] by {
        assert(s[i] as u32 <= 0x7f);
    }
    assert(lowered(t) =~= t);
}

} // verus!

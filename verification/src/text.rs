//! Text as sequences of characters: conversion to and from `String`, whitespace trimming,
//! lines, joining, decimal numbers and lower-casing.
use vstd::prelude::*;

verus! {

/// Appends `c` to `s` with `String::push`. Claimed: the characters of `s` get `c` at the end.
#[verifier::external_body]
fn push_char(s: &mut String, c: char)
    ensures
        final(s)@ == old(s)@.push(c),
{
    s.push(c);
}

/// What `str::to_lowercase` makes of a string that is not all ASCII and does not start with
/// an ASCII character other than a letter.
pub uninterp spec fn str_lowercase(s: Seq<char>) -> Seq<char>;

/// The text is all ASCII.
pub open spec fn is_ascii_text(s: Seq<char>) -> bool {
    forall|i: int| 0 <= i < s.len() ==> (s[i] as u32) < 128
}

/// An ASCII letter `A` to `Z` lower-cased; any other character as it is.
pub open spec fn ascii_lower(c: char) -> char {
    if 'A' <= c <= 'Z' {
        ((c as u32) + 32) as char
    } else {
        c
    }
}

/// An ASCII character that is not a letter: lower-casing keeps it, and it is never a cased
/// letter that the rule for a final sigma looks back at.
pub open spec fn ascii_non_letter(c: char) -> bool {
    &&& (c as u32) < 128
    &&& !('A' <= c <= 'Z')
    &&& !('a' <= c <= 'z')
}

/// `s` lower-cased as `str::to_lowercase` does it: ASCII text has its letters `A` to `Z`
/// lower-cased and nothing else changed; other text keeps a leading ASCII character that is
/// not a letter and lower-cases the rest; any other text gives `str_lowercase(s)`.
pub open spec fn lowered(s: Seq<char>) -> Seq<char>
    decreases s.len(),
{
    if is_ascii_text(s) {
        s.map_values(|c: char| ascii_lower(c))
    } else if s.len() > 0 && ascii_non_letter(s[0]) {
        seq![s[0]] + lowered(s.drop_first())
    } else {
        str_lowercase(s)
    }
}

/// Lower-cases `s` with `str::to_lowercase`. Claimed, as std documents it: lower case is
/// Unicode's mapping, character by character, except that a capital sigma at the end of a
/// word becomes a final sigma. So ASCII letters `A` to `Z` become `a` to `z`, every other
/// ASCII character is kept, and a leading ASCII character that is not a letter is kept
/// without changing how the rest is lower-cased (it is not cased, so the final-sigma rule,
/// which looks back for a cased letter, finds none there either way). The result is
/// `lowered(s)`; what is left is `str_lowercase`.
#[verifier::external_body]
fn str_to_lowercase(s: &str) -> (res: String)
    ensures
        res@ == lowered(s@),
        !is_ascii_text(s@) && !(s@.len() > 0 && ascii_non_letter(s@[0])) ==> res@
            == str_lowercase(s@),
{
    s.to_lowercase()
}

/// The characters of `s`.
pub fn chars_of(s: &str) -> (res: Vec<char>)
    ensures
        res@ == s@,
{
    let mut out: Vec<char> = Vec::new();
    for c in it: s.chars()
        invariant
            it.seq() == s@,
            out@ == it.seq().take(it.index() as int),
    {
        proof {
            assert(it.seq().take(it.index() as int + 1) =~= out@.push(c));
        }
        out.push(c);
    }
    proof {
        assert(out@ =~= s@);
    }
    out
}

/// The string of the characters of `v`.
pub fn string_of(v: &[char]) -> (res: String)
    ensures
        res@ == v@,
{
    let mut out = String::new();
    let mut i: usize = 0;
    while i < v.len()
        invariant
            i <= v.len(),
            out@ == v@.take(i as int),
        decreases v.len() - i,
    {
        proof {
            assert(v@.take(i as int + 1) =~= out@.push(v@[i as int]));
        }
        push_char(&mut out, v[i]);
        i = i + 1;
    }
    proof {
        assert(v@.take(i as int) =~= v@);
    }
    out
}

/// `s` lower-cased as `str::to_lowercase` does it.
pub fn lowercase(s: &[char]) -> (res: Vec<char>)
    ensures
        res@ == lowered(s@),
{
    let st = string_of(s);
    let low = str_to_lowercase(st.as_str());
    chars_of(low.as_str())
}

/// Unicode's White_Space property, which `char::is_whitespace` tests.
pub open spec fn is_white_space(c: char) -> bool {
    let u = c as u32;
    ||| 0x09 <= u <= 0x0d
    ||| u == 0x20
    ||| u == 0x85
    ||| u == 0xa0
    ||| u == 0x1680
    ||| 0x2000 <= u <= 0x200a
    ||| u == 0x2028
    ||| u == 0x2029
    ||| u == 0x202f
    ||| u == 0x205f
    ||| u == 0x3000
}

pub fn is_whitespace(c: char) -> (res: bool)
    ensures
        res == is_white_space(c),
{
    let u = c as u32;
    (0x09 <= u && u <= 0x0d) || u == 0x20 || u == 0x85 || u == 0xa0 || u == 0x1680 || (0x2000
        <= u && u <= 0x200a) || u == 0x2028 || u == 0x2029 || u == 0x202f || u == 0x205f || u
        == 0x3000
}

/// `s` without its leading whitespace.
pub open spec fn trim_start_seq(s: Seq<char>) -> Seq<char>
    decreases s.len(),
{
    if s.len() > 0 && is_white_space(s[0]) {
        trim_start_seq(s.drop_first())
    } else {
        s
    }
}

/// `s` without its trailing whitespace.
pub open spec fn trim_end_seq(s: Seq<char>) -> Seq<char>
    decreases s.len(),
{
    if s.len() > 0 && is_white_space(s.last()) {
        trim_end_seq(s.drop_last())
    } else {
        s
    }
}

/// `s` without leading and trailing whitespace, as `str::trim` gives it.
pub open spec fn trim_seq(s: Seq<char>) -> Seq<char> {
    trim_end_seq(trim_start_seq(s))
}

/// `s` without leading and trailing whitespace.
pub fn trim(s: &[char]) -> (res: Vec<char>)
    ensures
        res@ == trim_seq(s@),
{
    let mut start: usize = 0;
    assert(s@.skip(0) =~= s@);
    while start < s.len() && is_whitespace(s[start])
        invariant
            start <= s.len(),
            trim_start_seq(s@) == trim_start_seq(s@.skip(start as int)),
        decreases s.len() - start,
    {
        proof {
            assert(s@.skip(start as int).drop_first() =~= s@.skip(start as int + 1));
        }
        start = start + 1;
    }
    let ghost front = s@.skip(start as int);
    assert(trim_start_seq(s@) == front);
    let mut end: usize = s.len();
    while end > start && is_whitespace(s[end - 1])
        invariant
            start <= end <= s.len(),
            front == s@.skip(start as int),
            trim_end_seq(front) == trim_end_seq(s@.subrange(start as int, end as int)),
        decreases end,
    {
        proof {
            assert(s@.subrange(start as int, end as int).drop_last() =~= s@.subrange(
                start as int,
                end as int - 1,
            ));
        }
        end = end - 1;
    }
    let mut out: Vec<char> = Vec::new();
    let mut i: usize = start;
    while i < end
        invariant
            start <= i <= end,
            end <= s.len(),
            out@ == s@.subrange(start as int, i as int),
        decreases end - i,
    {
        proof {
            assert(s@.subrange(start as int, i as int + 1) =~= out@.push(s@[i as int]));
        }
        out.push(s[i]);
        i = i + 1;
    }
    out
}

/// `s` trimmed is empty exactly when all of `s` is whitespace.
pub proof fn lemma_trim_empty(s: Seq<char>)
    ensures
        (trim_seq(s).len() == 0) <==> (forall|i: int| 0 <= i < s.len() ==> is_white_space(s[i])),
    decreases s.len(),
{
    lemma_trim_start_all(s);
    lemma_trim_end_empty(trim_start_seq(s));
}

proof fn lemma_trim_start_all(s: Seq<char>)
    ensures
        (trim_start_seq(s).len() == 0) <==> (forall|i: int|
            0 <= i < s.len() ==> is_white_space(s[i])),
        trim_start_seq(s).len() > 0 ==> !is_white_space(trim_start_seq(s)[0]),
    decreases s.len(),
{
    if s.len() > 0 && is_white_space(s[0]) {
        lemma_trim_start_all(s.drop_first());
        if forall|i: int| 0 <= i < s.len() - 1 ==> is_white_space(s.drop_first()[i]) {
            assert forall|i: int| 0 <= i < s.len() implies is_white_space(s[i]) by {
                if i > 0 {
                    assert(s[i] == s.drop_first()[i - 1]);
                }
            }
        }
    }
}

proof fn lemma_trim_end_empty(s: Seq<char>)
    ensures
        trim_start_seq(s) == s ==> ((trim_end_seq(s).len() == 0) <==> (s.len() == 0) || (
        trim_end_seq(s).len() == 0)),
        s.len() > 0 && !is_white_space(s[0]) ==> trim_end_seq(s).len() > 0,
    decreases s.len(),
{
    if s.len() > 0 && is_white_space(s.last()) {
        lemma_trim_end_empty(s.drop_last());
        if s.len() > 1 && !is_white_space(s[0]) {
            assert(s.drop_last()[0] == s[0]);
        }
    }
}

/// Decimal digit for `d < 10`.
pub open spec fn digit_char(d: nat) -> char {
    ((d + 48) as u8) as char
}

/// The decimal digits of `n`, as `Display` writes an unsigned number.
pub open spec fn decimal(n: nat) -> Seq<char>
    decreases n,
{
    if n < 10 {
        seq![digit_char(n)]
    } else {
        decimal(n / 10).push(digit_char(n % 10))
    }
}

/// The decimal digits of `n`.
pub fn decimal_chars(n: u64) -> (res: Vec<char>)
    ensures
        res@ == decimal(n as nat),
    decreases n,
{
    let d: u8 = (n % 10) as u8;
    let c: char = (d + 48) as char;
    if n < 10 {
        let mut v: Vec<char> = Vec::new();
        v.push(c);
        v
    } else {
        let mut v = decimal_chars(n / 10);
        v.push(c);
        v
    }
}

/// The decimal digits of `n` as a string.
pub fn decimal_string(n: u64) -> (res: String)
    ensures
        res@ == decimal(n as nat),
{
    let v = decimal_chars(n);
    string_of(v.as_slice())
}

pub open spec fn is_ascii_digit(c: char) -> bool {
    '0' <= c <= '9'
}

/// The number that the decimal digits `s` stand for.
pub open spec fn digits_number(s: Seq<char>) -> nat
    decreases s.len(),
{
    if s.len() == 0 {
        0
    } else {
        digits_number(s.drop_last()) * 10 + ((s.last() as u32) - 48) as nat
    }
}

pub open spec fn all_digits(s: Seq<char>) -> bool {
    forall|i: int| 0 <= i < s.len() ==> is_ascii_digit(#[trigger] s[i])
}

/// What `str::parse` gives for an unsigned integer type whose largest value is `max`: an
/// optional `+`, then one or more ASCII digits, whose number is at most `max`.
pub open spec fn parse_unsigned(s: Seq<char>, max: nat) -> Option<nat> {
    let d = if s.len() > 0 && s[0] == '+' {
        s.drop_first()
    } else {
        s
    };
    if d.len() == 0 {
        None
    } else if !all_digits(d) {
        None
    } else if digits_number(d) > max {
        None
    } else {
        Some(digits_number(d))
    }
}

/// Parses `s` as an unsigned number no greater than `max`, the way `str::parse` does for the
/// unsigned integer type whose largest value is `max`.
pub fn parse_unsigned_max(s: &[char], max: u32) -> (res: Option<u32>)
    ensures
        match parse_unsigned(s@, max as nat) {
            Some(v) => res == Some(v as u32),
            None => res is None,
        },
{
    let mut i: usize = 0;
    if s.len() > 0 && s[0] == '+' {
        i = 1;
    }
    let ghost d = if s@.len() > 0 && s@[0] == '+' {
        s@.drop_first()
    } else {
        s@
    };
    assert(d =~= s@.skip(i as int));
    if i == s.len() {
        return None;
    }
    let start = i;
    let mut acc: u64 = 0;
    while i < s.len()
        invariant
            start <= i <= s.len(),
            d =~= s@.skip(start as int),
            d == (if s@.len() > 0 && s@[0] == '+' {
                s@.drop_first()
            } else {
                s@
            }),
            forall|j: int| start <= j < i ==> is_ascii_digit(s@[j]),
            acc == if digits_number(s@.subrange(start as int, i as int)) > max {
                max as nat + 1
            } else {
                digits_number(s@.subrange(start as int, i as int))
            },
            max <= u32::MAX,
        decreases s.len() - i,
    {
        let c = s[i];
        if !('0' <= c && c <= '9') {
            proof {
                assert(d[i - start] == c);
                assert(0 <= i - start < d.len());
                assert(!is_ascii_digit(d[(i - start) as int]));
                assert(!all_digits(d));

            }
            return None;
        }
        let ghost prefix = s@.subrange(start as int, i as int + 1);
        proof {
            assert(prefix.drop_last() =~= s@.subrange(start as int, i as int));
            assert(prefix.last() == c);
        }
        let dig: u64 = ((c as u32) - 48) as u64;
        if acc > max as u64 {
            acc = max as u64 + 1;
        } else {
            let next = acc * 10 + dig;
            acc = if next > max as u64 {
                max as u64 + 1
            } else {
                next
            };
        }
        i = i + 1;
    }
    proof {
        assert(s@.subrange(start as int, i as int) =~= d);
    }
    if acc > max as u64 {
        None
    } else {
        Some(acc as u32)
    }
}

/// Lines split as `str::lines` splits them, given the characters after the current line's
/// start (`rest`) and the part of the current line seen so far (`cur`): a line ends at `\n`,
/// which is dropped together with a `\r` right before it; a last line without `\n` keeps all
/// its characters, and there is no empty last line after a final `\n`.
pub open spec fn lines_from(rest: Seq<char>, cur: Seq<char>) -> Seq<Seq<char>>
    decreases rest.len(),
{
    if rest.len() == 0 {
        if cur.len() == 0 {
            Seq::empty()
        } else {
            seq![cur]
        }
    } else if rest[0] == '\n' {
        seq![strip_cr(cur)] + lines_from(rest.drop_first(), Seq::empty())
    } else {
        lines_from(rest.drop_first(), cur.push(rest[0]))
    }
}

/// A line whose `\n` was dropped loses a `\r` before it.
pub open spec fn strip_cr(line: Seq<char>) -> Seq<char> {
    if line.len() > 0 && line.last() == '\r' {
        line.drop_last()
    } else {
        line
    }
}

/// The lines of `s`, as `str::lines` gives them.
pub open spec fn lines_of(s: Seq<char>) -> Seq<Seq<char>> {
    lines_from(s, Seq::empty())
}

/// The views of a list of character vectors.
pub open spec fn views(v: Seq<Vec<char>>) -> Seq<Seq<char>> {
    v.map_values(|x: Vec<char>| x@)
}

fn strip_cr_vec(line: Vec<char>) -> (res: Vec<char>)
    ensures
        res@ == strip_cr(line@),
{
    let mut line = line;
    if line.len() > 0 && line[line.len() - 1] == '\r' {
        line.pop();
    }
    line
}

/// The lines of `s`.
pub fn lines(s: &[char]) -> (res: Vec<Vec<char>>)
    ensures
        views(res@) == lines_of(s@),
{
    let mut out: Vec<Vec<char>> = Vec::new();
    let mut cur: Vec<char> = Vec::new();
    let mut i: usize = 0;
    proof {
        assert(s@.skip(0) =~= s@);
        assert(views(out@) =~= Seq::<Seq<char>>::empty());
        assert(views(out@) + lines_from(s@, cur@) =~= lines_from(s@, cur@));
        assert(cur@ =~= Seq::<char>::empty());
    }
    while i < s.len()
        invariant
            i <= s.len(),
            views(out@) + lines_from(s@.skip(i as int), cur@) == lines_of(s@),
        decreases s.len() - i,
    {
        let ghost rest = s@.skip(i as int);
        proof {
            assert(rest.drop_first() =~= s@.skip(i as int + 1));
        }
        if s[i] == '\n' {
            let line = strip_cr_vec(cur);
            proof {
                assert(views(out@.push(line)) =~= views(out@) + seq![line@]);
            }
            out.push(line);
            cur = Vec::new();
        } else {
            cur.push(s[i]);
        }
        i = i + 1;
    }
    if cur.len() > 0 {
        proof {
            assert(views(out@.push(cur)) =~= views(out@) + seq![cur@]);
        }
        out.push(cur);
    }
    proof {
        assert(views(out@) =~= lines_of(s@));
    }
    out
}

/// `parts` joined with `sep` between each two of them.
pub open spec fn join_seq(parts: Seq<Seq<char>>, sep: Seq<char>) -> Seq<char>
    decreases parts.len(),
{
    if parts.len() == 0 {
        Seq::empty()
    } else if parts.len() == 1 {
        parts[0]
    } else {
        join_seq(parts.drop_last(), sep) + sep + parts.last()
    }
}

pub fn append_chars(out: &mut Vec<char>, s: &[char])
    ensures
        final(out)@ == old(out)@ + s@,
{
    let mut i: usize = 0;
    while i < s.len()
        invariant
            i <= s.len(),
            out@ == old(out)@ + s@.take(i as int),
        decreases s.len() - i,
    {
        proof {
            assert(s@.take(i as int + 1) =~= s@.take(i as int).push(s@[i as int]));
        }
        out.push(s[i]);
        i = i + 1;
    }
    proof {
        assert(s@.take(i as int) =~= s@);
    }
}

/// `parts` joined with `sep` between each two of them.
pub fn join(parts: &Vec<Vec<char>>, sep: &[char]) -> (res: Vec<char>)
    ensures
        res@ == join_seq(views(parts@), sep@),
{
    let mut out: Vec<char> = Vec::new();
    let mut i: usize = 0;
    while i < parts.len()
        invariant
            i <= parts.len(),
            out@ == join_seq(views(parts@).take(i as int), sep@),
        decreases parts.len() - i,
    {
        proof {
            let t = views(parts@).take(i as int + 1);
            assert(t.drop_last() =~= views(parts@).take(i as int));
            assert(t.last() == parts@[i as int]@);
        }
        if i > 0 {
            append_chars(&mut out, sep);
        }
        append_chars(&mut out, parts[i].as_slice());
        i = i + 1;
    }
    proof {
        assert(views(parts@).take(i as int) =~= views(parts@));
    }
    out
}

/// Whether two character sequences are equal.
pub fn chars_eq(a: &[char], b: &[char]) -> (res: bool)
    ensures
        res == (a@ == b@),
{
    if a.len() != b.len() {
        return false;
    }
    let mut i: usize = 0;
    while i < a.len()
        invariant
            i <= a.len(),
            a.len() == b.len(),
            forall|j: int| 0 <= j < i ==> a@[j] == b@[j],
        decreases a.len() - i,
    {
        if a[i] != b[i] {
            return false;
        }
        i = i + 1;
    }
    proof {
        assert(a@ =~= b@);
    }
    true
}

/// Whether two strings are equal.
pub fn str_eq(a: &str, b: &str) -> (res: bool)
    ensures
        res == (a@ == b@),
{
    let x = chars_of(a);
    let y = chars_of(b);
    chars_eq(x.as_slice(), y.as_slice())
}

} // verus!

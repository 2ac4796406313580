//! The `server.properties` file: `key=value` lines, which the proxy reads and rewrites.
use vstd::prelude::*;

use crate::text::{
    append_chars, chars_eq, chars_of, is_ascii_text, is_white_space, join, join_seq,
    lemma_trim_empty, lines, lines_from, lines_of, lowercase, lowered, strip_cr, string_of, trim,
    trim_end_seq, trim_seq, trim_start_seq, views,
};

verus! {

/// Line separator written into a rewritten file.
pub open spec fn eol() -> Seq<char> {
    seq!['\r', '\n']
}

/// Index of the first `=` in `line`.
pub open spec fn first_eq(line: Seq<char>) -> Option<nat>
    decreases line.len(),
{
    if line.len() == 0 {
        None
    } else if line[0] == '=' {
        Some(0)
    } else {
        match first_eq(line.drop_first()) {
            Some(i) => Some(i + 1),
            None => None,
        }
    }
}

/// `line` split at its first `=` into key and value, as `str::split_once('=')` splits it.
pub open spec fn split_at_eq(line: Seq<char>) -> Option<(Seq<char>, Seq<char>)> {
    match first_eq(line) {
        Some(i) => Some((line.take(i as int), line.skip(i + 1int))),
        None => None,
    }
}

/// A change to apply: a key and its new value.
pub type Change = (Seq<char>, Seq<char>);

/// Position of the change for `key`.
pub open spec fn key_pos(changes: Seq<Change>, key: Seq<char>) -> Option<nat>
    decreases changes.len(),
{
    if changes.len() == 0 {
        None
    } else if changes[0].0 == key {
        Some(0)
    } else {
        match key_pos(changes.drop_first(), key) {
            Some(i) => Some(i + 1),
            None => None,
        }
    }
}

/// One line rewritten with the pending changes: comments, blank lines and lines without `=`
/// stay; a line whose key (trimmed, lower-cased) has a pending change uses up that change and
/// gets the new value after its key when the value differs. Gives the line, the changes still
/// pending, and whether the line changed.
pub open spec fn rewrite_line(line: Seq<char>, changes: Seq<Change>) -> (Seq<char>, Seq<Change>, bool) {
    let t = trim_seq(line);
    if t.len() == 0 || t[0] == '#' {
        (line, changes, false)
    } else {
        match split_at_eq(line) {
            None => (line, changes, false),
            Some((key, value)) => match key_pos(changes, lowered(trim_seq(key))) {
                None => (line, changes, false),
                Some(i) => {
                    let new = changes[i as int].1;
                    let rest = changes.remove(i as int);
                    if value != new {
                        (key + seq!['='] + new, rest, true)
                    } else {
                        (line, rest, false)
                    }
                },
            },
        }
    }
}

/// All lines rewritten in order, each with the changes the lines before it left pending.
pub open spec fn rewrite_lines(lines: Seq<Seq<char>>, changes: Seq<Change>) -> (Seq<Seq<char>>, Seq<Change>, bool)
    decreases lines.len(),
{
    if lines.len() == 0 {
        (Seq::empty(), changes, false)
    } else {
        let (l, c1, ch1) = rewrite_line(lines[0], changes);
        let (rest, c2, ch2) = rewrite_lines(lines.drop_first(), c1);
        (seq![l] + rest, c2, ch1 || ch2)
    }
}

/// `text` with a `key=value` line added for each change, each after a line separator.
pub open spec fn append_changes(text: Seq<char>, changes: Seq<Change>) -> Seq<char>
    decreases changes.len(),
{
    if changes.len() == 0 {
        text
    } else {
        append_changes(text, changes.drop_last()) + eol() + changes.last().0 + seq!['=']
            + changes.last().1
    }
}

/// The file rewritten with `changes`: its lines rewritten and joined by line separators, then
/// the changes no line used appended. None when there are no changes or nothing changed.
pub open spec fn spec_rewrite_contents(contents: Seq<char>, changes: Seq<Change>) -> Option<Seq<char>> {
    if changes.len() == 0 {
        None
    } else {
        let (ls, rest, changed) = rewrite_lines(lines_of(contents), changes);
        if changed || rest.len() > 0 {
            Some(append_changes(join_seq(ls, eol()), rest))
        } else {
            None
        }
    }
}

/// The value of `property` in a file: the value, trimmed, of the first line with a `=` whose
/// key matches the property, both trimmed (the key) and lower-cased.
pub open spec fn find_property(lines: Seq<Seq<char>>, property: Seq<char>) -> Option<Seq<char>>
    decreases lines.len(),
{
    if lines.len() == 0 {
        None
    } else {
        match split_at_eq(lines[0]) {
            Some((key, value)) => if lowered(trim_seq(key)) == lowered(property) {
                Some(trim_seq(value))
            } else {
                find_property(lines.drop_first(), property)
            },
            None => find_property(lines.drop_first(), property),
        }
    }
}

pub open spec fn change_views(v: Seq<(Vec<char>, Vec<char>)>) -> Seq<Change> {
    v.map_values(|p: (Vec<char>, Vec<char>)| (p.0@, p.1@))
}

pub open spec fn string_pair_views(v: Seq<(String, String)>) -> Seq<Change> {
    v.map_values(|p: (String, String)| (p.0@, p.1@))
}

fn find_eq(line: &[char]) -> (res: Option<usize>)
    ensures
        match first_eq(line@) {
            Some(i) => res matches Some(j) && j == i,
            None => res is None,
        },
        res matches Some(i) ==> i < line@.len(),
{
    let mut i: usize = 0;
    while i < line.len()
        invariant
            i <= line.len(),
            forall|j: int| 0 <= j < i ==> line@[j] != '=',
        decreases line.len() - i,
    {
        if line[i] == '=' {
            proof {
                lemma_first_eq_at(line@, i as nat);
            }
            return Some(i);
        }
        i = i + 1;
    }
    proof {
        lemma_first_eq_none(line@);
    }
    None
}

proof fn lemma_first_eq_at(line: Seq<char>, i: nat)
    requires
        i < line.len(),
        line[i as int] == '=',
        forall|j: int| 0 <= j < i ==> line[j] != '=',
    ensures
        first_eq(line) == Some(i),
    decreases i,
{
    if i > 0 {
        lemma_first_eq_at(line.drop_first(), (i - 1) as nat);
    }
}

proof fn lemma_first_eq_none(line: Seq<char>)
    requires
        forall|j: int| 0 <= j < line.len() ==> line[j] != '=',
    ensures
        first_eq(line) is None,
    decreases line.len(),
{
    if line.len() > 0 {
        lemma_first_eq_none(line.drop_first());
    }
}

proof fn lemma_key_pos_at(changes: Seq<Change>, key: Seq<char>, i: nat)
    requires
        i < changes.len(),
        changes[i as int].0 == key,
        forall|j: int| 0 <= j < i ==> changes[j].0 != key,
    ensures
        key_pos(changes, key) == Some(i),
    decreases i,
{
    if i > 0 {
        lemma_key_pos_at(changes.drop_first(), key, (i - 1) as nat);
    }
}

proof fn lemma_key_pos_none(changes: Seq<Change>, key: Seq<char>)
    requires
        forall|j: int| 0 <= j < changes.len() ==> changes[j].0 != key,
    ensures
        key_pos(changes, key) is None,
    decreases changes.len(),
{
    if changes.len() > 0 {
        lemma_key_pos_none(changes.drop_first(), key);
    }
}

fn find_key(changes: &Vec<(Vec<char>, Vec<char>)>, key: &[char]) -> (res: Option<usize>)
    ensures
        match key_pos(change_views(changes@), key@) {
            Some(i) => res matches Some(j) && j == i,
            None => res is None,
        },
        res matches Some(i) ==> i < changes@.len(),
{
    let ghost cv = change_views(changes@);
    let mut i: usize = 0;
    while i < changes.len()
        invariant
            i <= changes.len(),
            cv == change_views(changes@),
            forall|j: int| 0 <= j < i ==> cv[j].0 != key@,
        decreases changes.len() - i,
    {
        if chars_eq(changes[i].0.as_slice(), key) {
            proof {
                lemma_key_pos_at(cv, key@, i as nat);
            }
            return Some(i);
        }
        i = i + 1;
    }
    proof {
        lemma_key_pos_none(cv, key@);
    }
    None
}

fn slice_chars(s: &[char], from: usize, to: usize) -> (res: Vec<char>)
    requires
        from <= to <= s@.len(),
    ensures
        res@ == s@.subrange(from as int, to as int),
{
    let mut out: Vec<char> = Vec::new();
    let mut i: usize = from;
    while i < to
        invariant
            from <= i <= to,
            to <= s@.len(),
            out@ == s@.subrange(from as int, i as int),
        decreases to - i,
    {
        proof {
            assert(s@.subrange(from as int, i as int + 1) =~= out@.push(s@[i as int]));
        }
        out.push(s[i]);
        i = i + 1;
    }
    out
}

fn copy_chars(s: &[char]) -> (res: Vec<char>)
    ensures
        res@ == s@,
{
    let mut out: Vec<char> = Vec::new();
    append_chars(&mut out, s);
    out
}

/// One line rewritten with the pending changes, which it may use up; tells whether the line
/// changed.
fn rewrite_one(line: &[char], changes: &mut Vec<(Vec<char>, Vec<char>)>) -> (res: (Vec<char>, bool))
    ensures
        (res.0@, change_views(final(changes)@), res.1) == rewrite_line(
            line@,
            change_views(old(changes)@),
        ),
{
    let t = trim(line);
    if t.len() == 0 || t[0] == '#' {
        return (copy_chars(line), false);
    }
    let eq = match find_eq(line) {
        Some(i) => i,
        None => return (copy_chars(line), false),
    };
    assert(eq < line.len());
    let key = slice_chars(line, 0, eq);
    let value = slice_chars(line, eq + 1, line.len());
    proof {
        assert(key@ =~= line@.take(eq as int));
        assert(value@ =~= line@.skip(eq as int + 1));
    }
    let lookup = lowercase(trim(key.as_slice()).as_slice());
    let pos = match find_key(changes, lookup.as_slice()) {
        Some(p) => p,
        None => return (copy_chars(line), false),
    };
    let ghost before = change_views(changes@);
    let (_, new) = changes.remove(pos);
    proof {
        assert(change_views(changes@) =~= before.remove(pos as int));
        assert(new@ == before[pos as int].1);
    }
    if !chars_eq(value.as_slice(), new.as_slice()) {
        let mut out = key;
        out.push('=');
        append_chars(&mut out, new.as_slice());
        proof {
            assert(out@ =~= key@ + seq!['='] + new@);
        }
        (out, true)
    } else {
        (copy_chars(line), false)
    }
}

/// The contents of a properties file rewritten with `changes`, those that no line uses
/// appended in their order; none when there is nothing to change. A key may come twice: a
/// line uses the first change pending for its key, and the later one goes to a later line
/// with that key, or is appended.
pub fn rewrite_contents(contents: &str, changes: Vec<(String, String)>) -> (res: Option<String>)
    ensures
        match spec_rewrite_contents(contents@, string_pair_views(changes@)) {
            Some(text) => res matches Some(s) && s@ == text,
            None => res is None,
        },
{
    if changes.len() == 0 {
        return None;
    }
    let ghost ch0 = string_pair_views(changes@);
    let mut pending: Vec<(Vec<char>, Vec<char>)> = Vec::new();
    let mut k: usize = 0;
    while k < changes.len()
        invariant
            k <= changes.len(),
            ch0 == string_pair_views(changes@),
            change_views(pending@) == ch0.take(k as int),
        decreases changes.len() - k,
    {
        let key = chars_of(changes[k].0.as_str());
        let value = chars_of(changes[k].1.as_str());
        proof {
            assert(ch0.take(k as int + 1) =~= ch0.take(k as int).push((key@, value@)));
            assert(change_views(pending@.push((key, value))) =~= change_views(pending@).push(
                (key@, value@),
            ));
        }
        pending.push((key, value));
        k = k + 1;
    }
    proof {
        assert(ch0.take(k as int) =~= ch0);
    }
    let text = chars_of(contents);
    let all = lines(text.as_slice());
    let ghost ls = views(all@);
    let mut out: Vec<Vec<char>> = Vec::new();
    let mut changed = false;
    let mut i: usize = 0;
    proof {
        assert(ls.skip(0) =~= ls);
        assert(views(out@) + Seq::<Seq<char>>::empty() =~= Seq::<Seq<char>>::empty());
    }
    while i < all.len()
        invariant
            i <= all.len(),
            ls == views(all@),
            ls == lines_of(contents@),
            ch0 == string_pair_views(changes@),
            ch0.len() > 0,
            ({
                let (r, rest, ch) = rewrite_lines(ls.skip(i as int), change_views(pending@));
                rewrite_lines(ls, ch0) == (views(out@) + r, rest, changed || ch)
            }),
        decreases all.len() - i,
    {
        let ghost cur = change_views(pending@);
        proof {
            assert(ls.skip(i as int).drop_first() =~= ls.skip(i as int + 1));
            assert(ls.skip(i as int)[0] == all@[i as int]@);
        }
        let (line, ch) = rewrite_one(all[i].as_slice(), &mut pending);
        proof {
            let (r, rest, c) = rewrite_lines(ls.skip(i as int + 1), change_views(pending@));
            assert(views(out@.push(line)) + r =~= views(out@) + (seq![line@] + r));
        }
        out.push(line);
        changed = changed || ch;
        i = i + 1;
    }
    proof {
        assert(ls.skip(i as int) =~= Seq::<Seq<char>>::empty());
        assert(views(out@) + Seq::<Seq<char>>::empty() =~= views(out@));
    }
    let mut sep: Vec<char> = Vec::new();
    sep.push('\r');
    sep.push('\n');
    proof {
        assert(sep@ =~= eol());
    }
    let mut result = join(&out, sep.as_slice());
    let ghost joined = result@;
    let ghost changed0 = changed;
    let mut m: usize = 0;
    while m < pending.len()
        invariant
            m <= pending.len(),
            result@ == append_changes(joined, change_views(pending@).take(m as int)),
            sep@ == eol(),
            changed == (changed0 || m > 0),
        decreases pending.len() - m,
    {
        proof {
            let t = change_views(pending@).take(m as int + 1);
            assert(t.drop_last() =~= change_views(pending@).take(m as int));
            assert(t.last() == (pending@[m as int].0@, pending@[m as int].1@));
        }
        append_chars(&mut result, sep.as_slice());
        append_chars(&mut result, pending[m].0.as_slice());
        result.push('=');
        append_chars(&mut result, pending[m].1.as_slice());
        changed = true;
        m = m + 1;
    }
    proof {
        assert(change_views(pending@).take(m as int) =~= change_views(pending@));
    }
    if changed {
        Some(string_of(result.as_slice()))
    } else {
        None
    }
}

/// The value of `property` in the contents of a properties file, if a line sets it.
pub fn read_property_in(contents: &str, property: &str) -> (res: Option<String>)
    ensures
        match find_property(lines_of(contents@), property@) {
            Some(v) => res matches Some(s) && s@ == v,
            None => res is None,
        },
{
    let text = chars_of(contents);
    let all = lines(text.as_slice());
    let ghost ls = views(all@);
    let prop = chars_of(property);
    let wanted = lowercase(prop.as_slice());
    let mut i: usize = 0;
    proof {
        assert(ls.skip(0) =~= ls);
    }
    while i < all.len()
        invariant
            i <= all.len(),
            ls == views(all@),
            ls == lines_of(contents@),
            wanted@ == lowered(property@),
            find_property(ls, property@) == find_property(ls.skip(i as int), property@),
        decreases all.len() - i,
    {
        proof {
            assert(ls.skip(i as int).drop_first() =~= ls.skip(i as int + 1));
            assert(ls.skip(i as int)[0] == all@[i as int]@);
        }
        let line = all[i].as_slice();
        match find_eq(line) {
            Some(eq) => {
                assert(eq < line.len());
                let key = slice_chars(line, 0, eq);
                let value = slice_chars(line, eq + 1, line.len());
                proof {
                    assert(key@ =~= line@.take(eq as int));
                    assert(value@ =~= line@.skip(eq as int + 1));
                }
                let low = lowercase(trim(key.as_slice()).as_slice());
                if chars_eq(low.as_slice(), wanted.as_slice()) {
                    let v = trim(value.as_slice());
                    return Some(string_of(v.as_slice()));
                }
            },
            None => {},
        }
        i = i + 1;
    }
    None
}


/// A key that rewriting and reading treat alike: not empty, already lower case, without `=`
/// or line breaks, without surrounding whitespace, and not starting with `#`.
pub open spec fn plain_key(k: Seq<char>) -> bool {
    &&& k.len() > 0
    &&& lowered(k) == k
    &&& forall|j: int| 0 <= j < k.len() ==> #[trigger] k[j] != '=' && k[j] != '\n'
    &&& trim_seq(k) == k
    &&& k[0] != '#'
}

/// Text without a line break.
pub open spec fn one_line(v: Seq<char>) -> bool {
    forall|j: int| 0 <= j < v.len() ==> v[j] != '\n'
}

/// Changes with plain keys, one-line values, and no key twice.
pub open spec fn plain_changes(c: Seq<Change>) -> bool {
    &&& forall|j: int| 0 <= j < c.len() ==> plain_key(#[trigger] c[j].0) && one_line(c[j].1)
    &&& forall|a: int, b: int|
        #![trigger c[a], c[b]]
        0 <= a < c.len() && 0 <= b < c.len() && a != b ==> c[a].0 != c[b].0
}

/// The file after rewriting it with `changes`: the rewritten contents, or the contents as they
/// were when there was nothing to change.
pub open spec fn rewritten(contents: Seq<char>, changes: Seq<Change>) -> Seq<char> {
    match spec_rewrite_contents(contents, changes) {
        Some(text) => text,
        None => contents,
    }
}

proof fn lemma_lowered_plain(k: Seq<char>)
    requires
        plain_key(k),
    ensures
        lowered(k) == k,
{
}

/// Lower-cased text that starts with `#` still does.
proof fn lemma_lowered_hash(t: Seq<char>)
    requires
        t.len() > 0,
        t[0] == '#',
    ensures
        lowered(t).len() > 0,
        lowered(t)[0] == '#',
{
}

proof fn lemma_lines_from_plain(rest: Seq<char>, cur: Seq<char>)
    requires
        one_line(cur),
    ensures
        forall|j: int|
            0 <= j < lines_from(rest, cur).len() ==> one_line(#[trigger] lines_from(rest, cur)[j]),
    decreases rest.len(),
{
    if rest.len() == 0 {
        if cur.len() > 0 {
            assert(lines_from(rest, cur) == seq![cur]);
        }
    } else if rest[0] == '\n' {
        lemma_lines_from_plain(rest.drop_first(), Seq::empty());
        let sc = strip_cr(cur);
        assert(lines_from(rest, cur) == seq![sc] + lines_from(rest.drop_first(), Seq::empty()));
        assert(one_line(sc));
        let tail = lines_from(rest.drop_first(), Seq::empty());
        assert forall|j: int| 0 <= j < (seq![sc] + tail).len() implies one_line(
            #[trigger] (seq![sc] + tail)[j],
        ) by {
            if j > 0 {
                assert((seq![sc] + tail)[j] == tail[j - 1]);
            }
        }
    } else {
        let nc = cur.push(rest[0]);
        assert(one_line(nc));
        lemma_lines_from_plain(rest.drop_first(), nc);
        assert(lines_from(rest, cur) == lines_from(rest.drop_first(), nc));
    }
}

proof fn lemma_first_eq_some(line: Seq<char>, e: nat)
    requires
        first_eq(line) == Some(e),
    ensures
        e < line.len(),
        line[e as int] == '=',
        forall|j: int| 0 <= j < e ==> line[j] != '=',
    decreases line.len(),
{
    if line[0] != '=' {
        lemma_first_eq_some(line.drop_first(), (e - 1) as nat);
        assert forall|j: int| 0 <= j < e implies line[j] != '=' by {
            if j > 0 {
                assert(line[j] == line.drop_first()[j - 1]);
            }
        }
    }
}

proof fn lemma_split_set(key: Seq<char>, v: Seq<char>)
    requires
        forall|j: int| 0 <= j < key.len() ==> key[j] != '=',
    ensures
        split_at_eq(key + seq!['='] + v) == Some((key, v)),
{
    let l = key + seq!['='] + v;
    lemma_first_eq_at(l, key.len());
    assert(l.take(key.len() as int) =~= key);
    assert(l.skip(key.len() + 1int) =~= v);
}

proof fn lemma_trim_start_at(x: Seq<char>, m: int)
    requires
        0 <= m < x.len(),
        !is_white_space(x[m]),
        forall|j: int| 0 <= j < m ==> is_white_space(x[j]),
    ensures
        trim_start_seq(x) == x.skip(m),
    decreases m,
{
    if m == 0 {
        assert(x.skip(0) =~= x);
    } else {
        lemma_trim_start_at(x.drop_first(), m - 1);
        assert(x.drop_first().skip(m - 1) =~= x.skip(m));
    }
}

proof fn lemma_lead(x: Seq<char>) -> (m: int)
    requires
        trim_start_seq(x).len() > 0,
    ensures
        0 <= m < x.len(),
        !is_white_space(x[m]),
        forall|j: int| 0 <= j < m ==> is_white_space(x[j]),
        trim_start_seq(x) == x.skip(m),
    decreases x.len(),
{
    if is_white_space(x[0]) {
        let m1 = lemma_lead(x.drop_first());
        assert forall|j: int| 0 <= j < m1 + 1 implies is_white_space(x[j]) by {
            if j > 0 {
                assert(x[j] == x.drop_first()[j - 1]);
            }
        }
        assert(x.drop_first().skip(m1) =~= x.skip(m1 + 1));
        m1 + 1
    } else {
        assert(x.skip(0) =~= x);
        0
    }
}

proof fn lemma_trim_end_first(y: Seq<char>)
    requires
        y.len() > 0,
        !is_white_space(y[0]),
    ensures
        trim_end_seq(y).len() > 0,
        trim_end_seq(y)[0] == y[0],
    decreases y.len(),
{
    if is_white_space(y.last()) {
        lemma_trim_end_first(y.drop_last());
    }
}

/// The key of a comment line with an `=`, trimmed, starts with `#`.
proof fn lemma_comment_key(l: Seq<char>, key: Seq<char>, value: Seq<char>)
    requires
        trim_seq(l).len() > 0,
        trim_seq(l)[0] == '#',
        split_at_eq(l) == Some((key, value)),
    ensures
        trim_seq(key).len() > 0,
        trim_seq(key)[0] == '#',
{
    let m = lemma_lead(l);
    lemma_trim_end_first(l.skip(m));
    assert(l[m] == '#');
    let e = first_eq(l)->Some_0;
    lemma_first_eq_some(l, e);
    assert(key == l.take(e as int));
    assert(!is_white_space('='));
    assert(e > m);
    lemma_trim_start_at(key, m);
    lemma_trim_end_first(key.skip(m));
}

proof fn lemma_key_pos_some(changes: Seq<Change>, key: Seq<char>)
    ensures
        key_pos(changes, key) matches Some(i) ==> i < changes.len() && changes[i as int].0 == key,
        key_pos(changes, key) is None ==> forall|j: int|
            0 <= j < changes.len() ==> #[trigger] changes[j].0 != key,
    decreases changes.len(),
{
    if changes.len() > 0 && changes[0].0 != key {
        lemma_key_pos_some(changes.drop_first(), key);
        assert forall|j: int| 0 <= j < changes.len() && key_pos(changes, key) is None
            implies #[trigger] changes[j].0 != key by {
            if j > 0 {
                assert(changes[j] == changes.drop_first()[j - 1]);
            }
        }
    }
}

proof fn lemma_find_concat(a: Seq<Seq<char>>, b: Seq<Seq<char>>, p: Seq<char>)
    ensures
        find_property(a + b, p) == match find_property(a, p) {
            Some(x) => Some(x),
            None => find_property(b, p),
        },
    decreases a.len(),
{
    if a.len() == 0 {
        assert(a + b =~= b);
    } else {
        assert((a + b).drop_first() =~= a.drop_first() + b);
        assert((a + b)[0] == a[0]);
        lemma_find_concat(a.drop_first(), b, p);
    }
}


proof fn lemma_lines_from_prefix(x: Seq<char>, y: Seq<char>, cur: Seq<char>)
    requires
        one_line(x),
    ensures
        lines_from(x + y, cur) == lines_from(y, cur + x),
    decreases x.len(),
{
    if x.len() == 0 {
        assert(x + y =~= y);
        assert(cur + x =~= cur);
    } else {
        assert((x + y)[0] == x[0]);
        assert((x + y).drop_first() =~= x.drop_first() + y);
        lemma_lines_from_prefix(x.drop_first(), y, cur.push(x[0]));
        assert(cur.push(x[0]) + x.drop_first() =~= cur + x);
    }
}

proof fn lemma_join_front(l0: Seq<char>, r: Seq<Seq<char>>, sep: Seq<char>)
    requires
        r.len() > 0,
    ensures
        join_seq(seq![l0] + r, sep) == l0 + sep + join_seq(r, sep),
    decreases r.len(),
{
    let lr = seq![l0] + r;
    assert(lr.last() == r.last());
    if r.len() == 1 {
        assert(lr.drop_last() =~= seq![l0]);
        assert(join_seq(seq![l0], sep) == l0);
        assert(join_seq(r, sep) == r[0]);
    } else {
        assert(lr.drop_last() =~= seq![l0] + r.drop_last());
        assert(join_seq(r, sep) == join_seq(r.drop_last(), sep) + sep + r.last());
        lemma_join_front(l0, r.drop_last(), sep);
        assert(l0 + sep + join_seq(r.drop_last(), sep) + sep + r.last() =~= l0 + sep + (join_seq(
            r.drop_last(),
            sep,
        ) + sep + r.last()));
    }
}

/// `lines` without an empty last line, which reading the lines joined back drops.
pub open spec fn without_empty_last(ls: Seq<Seq<char>>) -> Seq<Seq<char>> {
    if ls.len() > 0 && ls.last().len() == 0 {
        ls.drop_last()
    } else {
        ls
    }
}

proof fn lemma_lines_of_join(ls: Seq<Seq<char>>)
    requires
        forall|j: int| 0 <= j < ls.len() ==> one_line(#[trigger] ls[j]),
    ensures
        lines_of(join_seq(ls, eol())) == without_empty_last(ls),
    decreases ls.len(),
{
    if ls.len() == 0 {
    } else if ls.len() == 1 {
        let l0 = ls[0];
        lemma_lines_from_prefix(l0, Seq::empty(), Seq::empty());
        assert(l0 + Seq::<char>::empty() =~= l0);
        assert(Seq::<char>::empty() + l0 =~= l0);
        if l0.len() > 0 {
            assert(lines_from(Seq::empty(), l0) == seq![l0]);
            assert(without_empty_last(ls) =~= seq![l0]);
        } else {
            assert(without_empty_last(ls) =~= Seq::<Seq<char>>::empty());
        }
    } else {
        let l0 = ls[0];
        let r = ls.drop_first();
        assert(ls =~= seq![l0] + r);
        lemma_join_front(l0, r, eol());
        let jr = join_seq(r, eol());
        let x = l0.push('\r');
        assert(one_line(x));
        assert(l0 + eol() + jr =~= x + (seq!['\n'] + jr));
        lemma_lines_from_prefix(x, seq!['\n'] + jr, Seq::empty());
        assert(Seq::<char>::empty() + x =~= x);
        assert((seq!['\n'] + jr)[0] == '\n');
        assert((seq!['\n'] + jr).drop_first() =~= jr);
        assert(strip_cr(x) =~= l0);
        assert forall|j: int| 0 <= j < r.len() implies one_line(#[trigger] r[j]) by {
            assert(r[j] == ls[j + 1]);
        }
        lemma_lines_of_join(r);
        assert(lines_of(join_seq(ls, eol())) == seq![l0] + without_empty_last(r));
        if r.last().len() == 0 {
            assert(seq![l0] + r.drop_last() =~= ls.drop_last());
        } else {
            assert(seq![l0] + r =~= ls);
        }
    }
}

proof fn lemma_find_without_empty_last(ls: Seq<Seq<char>>, p: Seq<char>)
    ensures
        find_property(without_empty_last(ls), p) == find_property(ls, p),
{
    if ls.len() > 0 && ls.last().len() == 0 {
        assert(ls =~= ls.drop_last() + seq![ls.last()]);
        lemma_find_concat(ls.drop_last(), seq![ls.last()], p);
        assert(first_eq(ls.last()) is None);
        assert(split_at_eq(ls.last()) is None);
        assert(seq![ls.last()][0] == ls.last());
        assert(seq![ls.last()].drop_first() =~= Seq::<Seq<char>>::empty());
        assert(find_property(Seq::<Seq<char>>::empty(), p) is None);
        assert(find_property(seq![ls.last()], p) is None);
    }
}

/// The line `key=value` of a change.
pub open spec fn change_line(c: Change) -> Seq<char> {
    c.0 + seq!['='] + c.1
}

/// The lines of the rewritten file: the rewritten lines, then one per change that no line
/// used (behind an empty first line when the file had no lines).
pub open spec fn rewritten_lines(ls: Seq<Seq<char>>, rest: Seq<Change>) -> Seq<Seq<char>> {
    let added = rest.map_values(|c: Change| change_line(c));
    if ls.len() == 0 && rest.len() > 0 {
        seq![Seq::<char>::empty()] + added
    } else {
        ls + added
    }
}

proof fn lemma_append_changes(ls: Seq<Seq<char>>, rest: Seq<Change>)
    ensures
        append_changes(join_seq(ls, eol()), rest) == join_seq(rewritten_lines(ls, rest), eol()),
    decreases rest.len(),
{
    if rest.len() == 0 {
        assert(rest.map_values(|c: Change| change_line(c)) =~= Seq::<Seq<char>>::empty());
        assert(ls + Seq::<Seq<char>>::empty() =~= ls);
    } else {
        let front = rest.drop_last();
        lemma_append_changes(ls, front);
        let p = rewritten_lines(ls, front);
        let line = change_line(rest.last());
        assert(rewritten_lines(ls, rest) =~= if p.len() == 0 {
            seq![Seq::<char>::empty(), line]
        } else {
            p.push(line)
        });
        let a = append_changes(join_seq(ls, eol()), front);
        assert(a + eol() + rest.last().0 + seq!['='] + rest.last().1 =~= a + eol() + line);
        if p.len() == 0 {
            let q = seq![Seq::<char>::empty(), line];
            assert(q.drop_last() =~= seq![Seq::<char>::empty()]);
            assert(join_seq(p, eol()) =~= Seq::<char>::empty());
            assert(Seq::<char>::empty() + eol() + line =~= join_seq(seq![Seq::<char>::empty()], eol())
                + eol() + line);
        } else {
            assert(p.push(line).drop_last() =~= p);
        }
    }
}


#[verifier::spinoff_prover]
proof fn lemma_remove_plain(c: Seq<Change>, i: int)
    requires
        plain_changes(c),
        0 <= i < c.len(),
    ensures
        plain_changes(c.remove(i)),
        forall|j: int| 0 <= j < c.remove(i).len() ==> c.contains(#[trigger] c.remove(i)[j]),
        forall|x: Change| c.contains(x) && x != c[i] ==> #[trigger] c.remove(i).contains(x),
{
    let d = c.remove(i);
    assert forall|j: int| 0 <= j < d.len() implies plain_key(#[trigger] d[j].0) && one_line(d[j].1)
        && c.contains(d[j]) by {
        if j < i {
            assert(d[j] == c[j]);
            assert(plain_key(c[j].0) && one_line(c[j].1));
        } else {
            assert(d[j] == c[j + 1]);
            assert(plain_key(c[j + 1].0) && one_line(c[j + 1].1));
        }
    }
    assert forall|a: int, b: int|
        #![trigger d[a], d[b]]
        0 <= a < d.len() && 0 <= b < d.len() && a != b implies d[a].0 != d[b].0 by {
        let a2 = if a < i { a } else { a + 1 };
        let b2 = if b < i { b } else { b + 1 };
        assert(d[a] == c[a2]);
        assert(d[b] == c[b2]);
        assert(c[a2].0 != c[b2].0);
    }
    assert forall|x: Change| c.contains(x) && x != c[i] implies #[trigger] d.contains(x) by {
        let q = choose|q: int| 0 <= q < c.len() && c[q] == x;
        if q < i {
            assert(d[q] == x);
        } else {
            assert(q != i);
            assert(d[q - 1] == x);
        }
    }
}

proof fn lemma_rewrite_line_plain(l: Seq<char>, c: Seq<Change>)
    requires
        one_line(l),
        plain_changes(c),
    ensures
        ({
            let (l2, c1, ch1) = rewrite_line(l, c);
            &&& plain_changes(c1)
            &&& forall|j: int| 0 <= j < c1.len() ==> c.contains(#[trigger] c1[j])
            &&& one_line(l2)
            &&& !ch1 ==> l2 == l
        }),
{
    let t = trim_seq(l);
    if !(t.len() == 0 || t[0] == '#') {
        match split_at_eq(l) {
            None => {},
            Some((key, value)) => {
                let lk = lowered(trim_seq(key));
                lemma_key_pos_some(c, lk);
                match key_pos(c, lk) {
                    None => {},
                    Some(i) => {
                        lemma_remove_plain(c, i as int);
                        let e = first_eq(l)->Some_0;
                        lemma_first_eq_some(l, e);
                        let l2 = key + seq!['='] + c[i as int].1;
                        assert forall|j: int| 0 <= j < l2.len() implies l2[j] != '\n' by {
                            if j < key.len() {
                                assert(l2[j] == l[j]);
                            } else if j > key.len() {
                                assert(l2[j] == c[i as int].1[j - key.len() - 1]);
                            }
                        }
                    },
                }
            },
        }
    }
    assert forall|j: int| 0 <= j < c.len() implies c.contains(#[trigger] c[j]) by {}
}

proof fn lemma_rewrite_line_key(l: Seq<char>, c: Seq<Change>, k: Seq<char>, v: Seq<char>)
    requires
        one_line(l),
        plain_changes(c),
        c.contains((k, v)),
    ensures
        ({
            let (l2, c1, ch1) = rewrite_line(l, c);
            &&& c1.contains((k, v)) ==> !(split_at_eq(l2) matches Some((key2, _)) && lowered(
                trim_seq(key2),
            ) == k)
            &&& !c1.contains((k, v)) ==> (split_at_eq(l2) matches Some((key2, val2)) && lowered(
                trim_seq(key2),
            ) == k && val2 == v)
        }),
{
    let p = choose|p: int| 0 <= p < c.len() && c[p] == (k, v);
    assert(plain_key(c[p].0));
    let t = trim_seq(l);
    if t.len() == 0 {
        lemma_trim_empty(l);
        assert(!is_white_space('='));
        lemma_first_eq_none(l);
    } else if t[0] == '#' {
        match split_at_eq(l) {
            None => {},
            Some((key, value)) => {
                lemma_comment_key(l, key, value);
                lemma_lowered_hash(trim_seq(key));
            },
        }
    } else {
        match split_at_eq(l) {
            None => {},
            Some((key, value)) => {
                let lk = lowered(trim_seq(key));
                lemma_key_pos_some(c, lk);
                let e = first_eq(l)->Some_0;
                lemma_first_eq_some(l, e);
                assert(key == l.take(e as int));
                match key_pos(c, lk) {
                    None => {
                        assert(c[p].0 != lk);
                    },
                    Some(i) => {
                        let new = c[i as int].1;
                        lemma_remove_plain(c, i as int);
                        if c[i as int].0 == k {
                            assert(i == p);
                            assert forall|j: int| 0 <= j < c.remove(i as int).len() implies c.remove(
                                i as int,
                            )[j] != (k, v) by {
                                let j2 = if j < i { j } else { j + 1 };
                                assert(c.remove(i as int)[j] == c[j2]);
                                assert(j2 != p);
                            }
                            if value != new {
                                lemma_split_set(key, new);
                            }
                        } else {
                            assert(c[i as int] != c[p]);
                            assert(c.remove(i as int).contains((k, v)));
                            if value != new {
                                lemma_split_set(key, new);
                            }
                        }
                    },
                }
            },
        }
    }
}

proof fn lemma_scan_plain(ls: Seq<Seq<char>>, c: Seq<Change>)
    requires
        forall|j: int| 0 <= j < ls.len() ==> one_line(#[trigger] ls[j]),
        plain_changes(c),
    ensures
        ({
            let (r, rest, ch) = rewrite_lines(ls, c);
            &&& plain_changes(rest)
            &&& forall|j: int| 0 <= j < rest.len() ==> c.contains(#[trigger] rest[j])
            &&& forall|j: int| 0 <= j < r.len() ==> one_line(#[trigger] r[j])
        }),
    decreases ls.len(),
{
    if ls.len() == 0 {
        assert forall|j: int| 0 <= j < c.len() implies c.contains(#[trigger] c[j]) by {}
    } else {
        let (l2, c1, ch1) = rewrite_line(ls[0], c);
        lemma_rewrite_line_plain(ls[0], c);
        let tail = ls.drop_first();
        assert forall|j: int| 0 <= j < tail.len() implies one_line(#[trigger] tail[j]) by {
            assert(tail[j] == ls[j + 1]);
        }
        lemma_scan_plain(tail, c1);
        let (rt, rest, ch2) = rewrite_lines(tail, c1);
        assert forall|j: int| 0 <= j < rest.len() implies c.contains(#[trigger] rest[j]) by {
            assert(c1.contains(rest[j]));
            let q = choose|q: int| 0 <= q < c1.len() && c1[q] == rest[j];
            assert(c.contains(c1[q]));
        }
        assert forall|j: int| 0 <= j < (seq![l2] + rt).len() implies one_line(
            #[trigger] (seq![l2] + rt)[j],
        ) by {
            if j > 0 {
                assert((seq![l2] + rt)[j] == rt[j - 1]);
            }
        }
    }
}

proof fn lemma_scan(ls: Seq<Seq<char>>, c: Seq<Change>, k: Seq<char>, v: Seq<char>)
    requires
        forall|j: int| 0 <= j < ls.len() ==> one_line(#[trigger] ls[j]),
        plain_changes(c),
        c.contains((k, v)),
    ensures
        ({
            let (r, rest, ch) = rewrite_lines(ls, c);
            &&& rest.contains((k, v)) ==> find_property(r, k) is None
            &&& !rest.contains((k, v)) ==> find_property(r, k) == Some(trim_seq(v)) && (!ch
                ==> find_property(ls, k) == Some(trim_seq(v)))
        }),
    decreases ls.len(),
{
    let p = choose|p: int| 0 <= p < c.len() && c[p] == (k, v);
    assert(plain_key(c[p].0));
    lemma_lowered_plain(k);
    if ls.len() > 0 {
        let l = ls[0];
        let (l2, c1, ch1) = rewrite_line(l, c);
        lemma_rewrite_line_key(l, c, k, v);
        lemma_rewrite_line_plain(l, c);
        let tail = ls.drop_first();
        assert forall|j: int| 0 <= j < tail.len() implies one_line(#[trigger] tail[j]) by {
            assert(tail[j] == ls[j + 1]);
        }
        lemma_scan_plain(tail, c1);
        let (rt, rest, ch2) = rewrite_lines(tail, c1);
        let r = seq![l2] + rt;
        assert(r[0] == l2);
        assert(r.drop_first() =~= rt);
        if c1.contains((k, v)) {
            lemma_scan(tail, c1, k, v);
        } else {
            assert forall|j: int| 0 <= j < rest.len() implies rest[j] != (k, v) by {
                assert(c1.contains(rest[j]));
            }
        }
    }
}

proof fn lemma_find_added(rest: Seq<Change>, k: Seq<char>, v: Seq<char>)
    requires
        plain_changes(rest),
        rest.contains((k, v)),
    ensures
        find_property(rest.map_values(|c: Change| change_line(c)), k) == Some(trim_seq(v)),
    decreases rest.len(),
{
    let p = choose|p: int| 0 <= p < rest.len() && rest[p] == (k, v);
    assert(plain_key(rest[p].0));
    lemma_lowered_plain(k);
    let a = rest.map_values(|c: Change| change_line(c));
    let c0 = rest[0];
    assert(plain_key(c0.0));
    assert(a[0] == change_line(c0));
    lemma_split_set(c0.0, c0.1);
    lemma_lowered_plain(c0.0);
    if c0 != (k, v) {
        assert(p != 0);
        assert(c0.0 != k);
        let d = rest.drop_first();
        assert(d[p - 1] == (k, v));
        assert forall|j: int| 0 <= j < d.len() implies plain_key(#[trigger] d[j].0) && one_line(
            d[j].1,
        ) by {
            assert(d[j] == rest[j + 1]);
        }
        assert forall|x: int, y: int|
            #![trigger d[x], d[y]]
            0 <= x < d.len() && 0 <= y < d.len() && x != y implies d[x].0 != d[y].0 by {
            assert(d[x] == rest[x + 1]);
            assert(d[y] == rest[y + 1]);
        }
        lemma_find_added(d, k, v);
        assert(a.drop_first() =~= d.map_values(|c: Change| change_line(c)));
    }
}

/// A property that a rewrite sets reads back as its new value, trimmed, from the rewritten
/// file (or from the file as it was, when it already held every value), for changes with
/// plain keys, one-line values and no key twice.
pub proof fn lemma_rewrite_then_read(contents: Seq<char>, changes: Seq<Change>, i: int)
    requires
        plain_changes(changes),
        0 <= i < changes.len(),
    ensures
        find_property(lines_of(rewritten(contents, changes)), changes[i].0) == Some(
            trim_seq(changes[i].1),
        ),
{
    let k = changes[i].0;
    let v = changes[i].1;
    assert(changes[i] == (k, v));
    assert(changes.contains((k, v)));
    let ls = lines_of(contents);
    lemma_lines_from_plain(contents, Seq::empty());
    lemma_scan_plain(ls, changes);
    lemma_scan(ls, changes, k, v);
    let (r, rest, ch) = rewrite_lines(ls, changes);
    if ch || rest.len() > 0 {
        lemma_append_changes(r, rest);
        let added = rest.map_values(|c: Change| change_line(c));
        let all = rewritten_lines(r, rest);
        assert forall|j: int| 0 <= j < added.len() implies one_line(#[trigger] added[j]) by {
            let cj = rest[j];
            assert(plain_key(cj.0));
            assert(added[j] == cj.0 + seq!['='] + cj.1);
            assert forall|m: int| 0 <= m < added[j].len() implies added[j][m] != '\n' by {
                if m < cj.0.len() {
                    assert(added[j][m] == cj.0[m]);
                } else if m > cj.0.len() {
                    assert(added[j][m] == cj.1[m - cj.0.len() - 1]);
                }
            }
        }
        assert forall|j: int| 0 <= j < all.len() implies one_line(#[trigger] all[j]) by {
            if r.len() == 0 && rest.len() > 0 {
                if j > 0 {
                    assert(all[j] == added[j - 1]);
                }
            } else if j < r.len() {
                assert(all[j] == r[j]);
            } else {
                assert(all[j] == added[j - r.len()]);
            }
        }
        lemma_lines_of_join(all);
        lemma_find_without_empty_last(all, k);
        if r.len() == 0 && rest.len() > 0 {
            lemma_find_concat(seq![Seq::<char>::empty()], added, k);
            assert(split_at_eq(Seq::<char>::empty()) is None);
            assert(find_property(Seq::<Seq<char>>::empty(), k) is None);
            assert(seq![Seq::<char>::empty()].drop_first() =~= Seq::<Seq<char>>::empty());
            assert(find_property(seq![Seq::<char>::empty()], k) is None);
        } else {
            lemma_find_concat(r, added, k);
        }
        if rest.contains((k, v)) {
            lemma_find_added(rest, k, v);
        }
    }
}


proof fn lemma_rewrite_lines_concat(a: Seq<Seq<char>>, b: Seq<Seq<char>>, c: Seq<Change>)
    ensures
        ({
            let (ra, ca, cha) = rewrite_lines(a, c);
            let (rb, cb, chb) = rewrite_lines(b, ca);
            rewrite_lines(a + b, c) == (ra + rb, cb, cha || chb)
        }),
    decreases a.len(),
{
    if a.len() == 0 {
        assert(a + b =~= b);
        let (rb, cb, chb) = rewrite_lines(b, c);
        assert(Seq::<Seq<char>>::empty() + rb =~= rb);
    } else {
        assert((a + b)[0] == a[0]);
        assert((a + b).drop_first() =~= a.drop_first() + b);
        let (l, c1, ch1) = rewrite_line(a[0], c);
        lemma_rewrite_lines_concat(a.drop_first(), b, c1);
        let (rt, ct, cht) = rewrite_lines(a.drop_first(), c1);
        let (rb, cb, chb) = rewrite_lines(b, ct);
        assert(seq![l] + (rt + rb) =~= (seq![l] + rt) + rb);
    }
}

proof fn lemma_trim_start_len(x: Seq<char>)
    ensures
        trim_start_seq(x).len() <= x.len(),
    decreases x.len(),
{
    if x.len() > 0 && is_white_space(x[0]) {
        lemma_trim_start_len(x.drop_first());
    }
}

proof fn lemma_trim_end_len(x: Seq<char>)
    ensures
        trim_end_seq(x).len() <= x.len(),
    decreases x.len(),
{
    if x.len() > 0 && is_white_space(x.last()) {
        lemma_trim_end_len(x.drop_last());
    }
}

/// A plain key starts with a character that is not whitespace.
proof fn lemma_plain_first(k: Seq<char>)
    requires
        plain_key(k),
    ensures
        !is_white_space(k[0]),
{
    if is_white_space(k[0]) {
        lemma_trim_start_len(k.drop_first());
        lemma_trim_end_len(trim_start_seq(k));
    }
}

/// Trimmed, a line `key=value` whose key holds a character that is not whitespace starts
/// with the same character as the key trimmed, whatever the value.
proof fn lemma_trim_line_start(key: Seq<char>, v: Seq<char>)
    requires
        trim_seq(key).len() > 0,
    ensures
        trim_seq(key + seq!['='] + v).len() > 0,
        trim_seq(key + seq!['='] + v)[0] == trim_seq(key)[0],
{
    lemma_trim_end_len(trim_start_seq(key));
    let m = lemma_lead(key);
    lemma_trim_end_first(key.skip(m));
    let l = key + seq!['='] + v;
    lemma_trim_start_at(l, m);
    lemma_trim_end_first(l.skip(m));
}

proof fn lemma_line_reread(l: Seq<char>, c: Seq<Change>)
    requires
        one_line(l),
        plain_changes(c),
    ensures
        ({
            let (l2, c1, ch1) = rewrite_line(l, c);
            rewrite_line(l2, c) == (l2, c1, false)
        }),
{
    let t = trim_seq(l);
    if !(t.len() == 0 || t[0] == '#') {
        match split_at_eq(l) {
            None => {},
            Some((key, value)) => {
                let lk = lowered(trim_seq(key));
                lemma_key_pos_some(c, lk);
                match key_pos(c, lk) {
                    None => {},
                    Some(i) => {
                        let new = c[i as int].1;
                        if value != new {
                            assert(plain_key(c[i as int].0));
                            let e = first_eq(l)->Some_0;
                            lemma_first_eq_some(l, e);
                            assert(key == l.take(e as int));
                            lemma_split_set(key, new);
                            if trim_seq(key).len() == 0 {
                                assert(trim_seq(key) =~= Seq::<char>::empty());
                                assert(is_ascii_text(trim_seq(key)));
                                assert(lowered(trim_seq(key)) =~= Seq::<char>::empty());
                            }
                            lemma_trim_line_start(key, value);
                            lemma_trim_line_start(key, new);
                            assert(l == key + seq!['='] + value) by {
                                lemma_first_eq_some(l, e);
                                assert(l =~= l.take(e as int) + seq!['='] + l.skip(e + 1int));
                            }
                        }
                    },
                }
            },
        }
    }
}

proof fn lemma_reread(ls: Seq<Seq<char>>, c: Seq<Change>)
    requires
        forall|j: int| 0 <= j < ls.len() ==> one_line(#[trigger] ls[j]),
        plain_changes(c),
    ensures
        ({
            let (r, rest, ch) = rewrite_lines(ls, c);
            rewrite_lines(r, c) == (r, rest, false)
        }),
    decreases ls.len(),
{
    if ls.len() > 0 {
        let (l2, c1, ch1) = rewrite_line(ls[0], c);
        lemma_line_reread(ls[0], c);
        lemma_rewrite_line_plain(ls[0], c);
        let tail = ls.drop_first();
        assert forall|j: int| 0 <= j < tail.len() implies one_line(#[trigger] tail[j]) by {
            assert(tail[j] == ls[j + 1]);
        }
        lemma_reread(tail, c1);
        let (rt, rest, ch2) = rewrite_lines(tail, c1);
        let r = seq![l2] + rt;
        assert(r[0] == l2);
        assert(r.drop_first() =~= rt);
    }
}

proof fn lemma_added_reread(rest: Seq<Change>)
    requires
        plain_changes(rest),
    ensures
        ({
            let added = rest.map_values(|c: Change| change_line(c));
            rewrite_lines(added, rest) == (added, Seq::<Change>::empty(), false)
        }),
    decreases rest.len(),
{
    let added = rest.map_values(|c: Change| change_line(c));
    if rest.len() == 0 {
        assert(rest =~= Seq::<Change>::empty());
    } else {
        let c0 = rest[0];
        assert(plain_key(c0.0));
        let line = change_line(c0);
        assert(added[0] == line);
        lemma_plain_first(c0.0);
        lemma_trim_line_start(c0.0, c0.1);
        lemma_split_set(c0.0, c0.1);
        lemma_lowered_plain(c0.0);
        lemma_key_pos_at(rest, c0.0, 0);
        assert(rest.remove(0) =~= rest.drop_first());
        let d = rest.drop_first();
        assert forall|j: int| 0 <= j < d.len() implies plain_key(#[trigger] d[j].0) && one_line(
            d[j].1,
        ) by {
            assert(d[j] == rest[j + 1]);
        }
        assert forall|x: int, y: int|
            #![trigger d[x], d[y]]
            0 <= x < d.len() && 0 <= y < d.len() && x != y implies d[x].0 != d[y].0 by {
            assert(d[x] == rest[x + 1]);
            assert(d[y] == rest[y + 1]);
        }
        lemma_added_reread(d);
        assert(added.drop_first() =~= d.map_values(|c: Change| change_line(c)));
        assert(seq![line] + added.drop_first() =~= added);
    }
}

/// Rewriting a file a second time with the same changes finds nothing left to change, for
/// changes with plain keys, one-line values and no key twice.
pub proof fn lemma_rewrite_twice(contents: Seq<char>, changes: Seq<Change>)
    requires
        plain_changes(changes),
    ensures
        spec_rewrite_contents(rewritten(contents, changes), changes) is None,
{
    let ls = lines_of(contents);
    lemma_lines_from_plain(contents, Seq::empty());
    lemma_scan_plain(ls, changes);
    let (r, rest, ch) = rewrite_lines(ls, changes);
    if changes.len() > 0 && (ch || rest.len() > 0) {
        lemma_append_changes(r, rest);
        let added = rest.map_values(|c: Change| change_line(c));
        let all = rewritten_lines(r, rest);
        assert forall|j: int| 0 <= j < added.len() implies one_line(#[trigger] added[j]) by {
            let cj = rest[j];
            assert(plain_key(cj.0));
            assert(added[j] == cj.0 + seq!['='] + cj.1);
            assert forall|m: int| 0 <= m < added[j].len() implies added[j][m] != '\n' by {
                if m < cj.0.len() {
                    assert(added[j][m] == cj.0[m]);
                } else if m > cj.0.len() {
                    assert(added[j][m] == cj.1[m - cj.0.len() - 1]);
                }
            }
        }
        assert forall|j: int| 0 <= j < all.len() implies one_line(#[trigger] all[j]) by {
            if r.len() == 0 && rest.len() > 0 {
                if j > 0 {
                    assert(all[j] == added[j - 1]);
                }
            } else if j < r.len() {
                assert(all[j] == r[j]);
            } else {
                assert(all[j] == added[j - r.len()]);
            }
        }
        lemma_lines_of_join(all);
        lemma_reread(ls, changes);
        lemma_added_reread(rest);
        let front = if r.len() == 0 && rest.len() > 0 {
            seq![Seq::<char>::empty()]
        } else {
            r
        };
        assert(all == front + added);
        assert(rewrite_lines(front, changes) == (front, rest, false)) by {
            if r.len() == 0 && rest.len() > 0 {
                assert(trim_seq(Seq::<char>::empty()) =~= Seq::<char>::empty());
                assert(rewrite_lines(ls, changes) == (r, rest, ch));
                assert(ls.len() == 0) by {
                    if ls.len() > 0 {
                        let (l2, c1, ch1) = rewrite_line(ls[0], changes);
                        assert(rewrite_lines(ls, changes).0.len() > 0);
                    }
                }
                assert(rest == changes);
                assert(seq![Seq::<char>::empty()].drop_first() =~= Seq::<Seq<char>>::empty());
            }
        }
        lemma_rewrite_lines_concat(front, added, changes);
        assert(rewrite_lines(all, changes) == (all, Seq::<Change>::empty(), false));
        if all.len() > 0 && all.last().len() == 0 {
            let w = all.drop_last();
            assert(all =~= w + seq![all.last()]);
            lemma_rewrite_lines_concat(w, seq![all.last()], changes);
            let (rw, cw, chw) = rewrite_lines(w, changes);
            assert(trim_seq(all.last()) =~= Seq::<char>::empty());
            assert(rewrite_line(all.last(), cw) == (all.last(), cw, false));
            assert(seq![all.last()].drop_first() =~= Seq::<Seq<char>>::empty());
            assert(rewrite_lines(Seq::<Seq<char>>::empty(), cw) == (
                Seq::<Seq<char>>::empty(),
                cw,
                false,
            ));
            assert(rewrite_lines(seq![all.last()], cw).1 == cw);
            assert(!rewrite_lines(seq![all.last()], cw).2);
            assert(cw == Seq::<Change>::empty());
            assert(!chw);
        }
        let wl = without_empty_last(all);
        assert(rewrite_lines(wl, changes).1 == Seq::<Change>::empty());
        assert(!rewrite_lines(wl, changes).2);
        assert(rewritten(contents, changes) == join_seq(all, eol()));
        assert(lines_of(rewritten(contents, changes)) == wl);
    }
}

} // verus!

//! A standalone key/value line parser, shared by the launcher's own
//! configuration file and the resource-pack metadata entry.
//!
//! The grammar, over raw bytes: the input is split into lines at `\n`.
//! A line whose trimmed form is empty, or starts with `#` or `;`, is
//! skipped. Every other line must contain `=`; the first `=` splits the
//! line into a key and a value, both trimmed of ASCII whitespace. A line
//! without `=` makes the whole parse fail. Duplicate keys are kept in
//! order; lookup returns the first match.

use vstd::prelude::*;

verus! {

/// ASCII whitespace: space, tab, line feed, vertical tab, form feed,
/// carriage return. These are trimmed from line ends, keys and values.
pub open spec fn is_space(b: u8) -> bool {
    b == 32 || b == 9 || b == 10 || b == 11 || b == 12 || b == 13
}

/// `s` with leading whitespace removed.
pub open spec fn trim_front(s: Seq<u8>) -> Seq<u8>
    decreases s.len(),
{
    if s.len() > 0 && is_space(s[0]) {
        trim_front(s.drop_first())
    } else {
        s
    }
}

/// `s` with trailing whitespace removed.
pub open spec fn trim_back(s: Seq<u8>) -> Seq<u8>
    decreases s.len(),
{
    if s.len() > 0 && is_space(s.last()) {
        trim_back(s.drop_last())
    } else {
        s
    }
}

/// `s` with whitespace removed from both ends.
pub open spec fn trim(s: Seq<u8>) -> Seq<u8> {
    trim_back(trim_front(s))
}

/// Index of the first occurrence of `b` in `s`, or `s.len()` if absent.
pub open spec fn find(s: Seq<u8>, b: u8) -> int
    decreases s.len(),
{
    if s.len() == 0 {
        0
    } else if s[0] == b {
        0
    } else {
        1 + find(s.drop_first(), b)
    }
}

proof fn lemma_find_bounds(s: Seq<u8>, b: u8)
    ensures
        0 <= find(s, b) <= s.len(),
        find(s, b) < s.len() ==> s[find(s, b)] == b,
        forall|k: int| 0 <= k < find(s, b) ==> s[k] != b,
    decreases s.len(),
{
    if s.len() > 0 && s[0] != b {
        lemma_find_bounds(s.drop_first(), b);
        assert forall|k: int| 0 <= k < find(s, b) implies s[k] != b by {
            if k > 0 {
                assert(s.drop_first()[k - 1] != b);
            }
        }
    }
}

/// `find` is determined by the position of the first occurrence: if no byte
/// before `i` is `b`, and `i` is the end or holds `b`, then `find` is `i`.
proof fn lemma_find_at(s: Seq<u8>, b: u8, i: int)
    requires
        0 <= i <= s.len(),
        forall|k: int| 0 <= k < i ==> s[k] != b,
        i == s.len() || s[i] == b,
    ensures
        find(s, b) == i,
    decreases s.len(),
{
    if s.len() > 0 && s[0] != b {
        lemma_find_at(s.drop_first(), b, i - 1);
    }
}

/// The segments of `s`, split at every occurrence of `b`. An input
/// without `b` is a single segment; a trailing `b` yields a final empty
/// segment.
pub open spec fn split_byte(s: Seq<u8>, b: u8) -> Seq<Seq<u8>>
    decreases s.len(),
    via split_byte_decreases
{
    let i = find(s, b);
    if i == s.len() {
        seq![s]
    } else {
        seq![s.take(i)] + split_byte(s.skip(i + 1), b)
    }
}

#[via_fn]
proof fn split_byte_decreases(s: Seq<u8>, b: u8) {
    lemma_find_bounds(s, b);
}

/// The lines of `s`: its segments between line feeds.
pub open spec fn split_lines(s: Seq<u8>) -> Seq<Seq<u8>> {
    split_byte(s, 10)
}

/// The reading of a single line.
pub enum LineParse {
    /// Blank, or a comment: the line holds nothing.
    Skip,
    /// A `key = value` line, both parts trimmed.
    Pair(Seq<u8>, Seq<u8>),
    /// Neither blank nor a comment, and without `=`.
    Bad,
}

/// Parse one line: blank and comment lines (first trimmed byte `#` or `;`)
/// are skipped, any other line is split at its first `=`.
pub open spec fn parse_line(line: Seq<u8>) -> LineParse {
    let t = trim(line);
    if t.len() == 0 {
        LineParse::Skip
    } else if t[0] == 35 || t[0] == 59 {
        LineParse::Skip
    } else {
        let i = find(line, 61);
        if i == line.len() {
            LineParse::Bad
        } else {
            LineParse::Pair(trim(line.take(i)), trim(line.skip(i + 1)))
        }
    }
}

/// Parse a sequence of lines into the ordered key/value pairs, or nothing
/// if some line is malformed.
pub open spec fn parse_lines(lines: Seq<Seq<u8>>) -> Option<Seq<(Seq<u8>, Seq<u8>)>>
    decreases lines.len(),
{
    if lines.len() == 0 {
        Some(Seq::empty())
    } else {
        match parse_line(lines[0]) {
            LineParse::Bad => None,
            LineParse::Skip => parse_lines(lines.drop_first()),
            LineParse::Pair(k, v) => match parse_lines(lines.drop_first()) {
                None => None,
                Some(rest) => Some(seq![(k, v)] + rest),
            },
        }
    }
}

/// The whole format: what parsing an input yields, if it is well formed.
pub open spec fn parse_kv(s: Seq<u8>) -> Option<Seq<(Seq<u8>, Seq<u8>)>> {
    parse_lines(split_lines(s))
}

/// The value of the first pair whose key is exactly `key`.
pub open spec fn lookup(pairs: Seq<(Seq<u8>, Seq<u8>)>, key: Seq<u8>) -> Option<Seq<u8>>
    decreases pairs.len(),
{
    if pairs.len() == 0 {
        None
    } else if pairs[0].0 == key {
        Some(pairs[0].1)
    } else {
        lookup(pairs.drop_first(), key)
    }
}

/// The views of a vector of byte-vector pairs.
pub open spec fn pairs_view(pairs: Seq<(Vec<u8>, Vec<u8>)>) -> Seq<(Seq<u8>, Seq<u8>)> {
    pairs.map(|i: int, p: (Vec<u8>, Vec<u8>)| (p.0@, p.1@))
}

/// `trim_front` removes exactly the leading run of whitespace: if the first
/// `a` bytes are whitespace and byte `a` (if any) is not, the rest remains.
proof fn lemma_trim_front_at(s: Seq<u8>, a: int)
    requires
        0 <= a <= s.len(),
        forall|k: int| 0 <= k < a ==> is_space(s[k]),
        a == s.len() || !is_space(s[a]),
    ensures
        trim_front(s) == s.skip(a),
    decreases a,
{
    if a == 0 {
        assert(s.skip(0) =~= s);
    } else {
        lemma_trim_front_at(s.drop_first(), a - 1);
        assert(s.drop_first().skip(a - 1) =~= s.skip(a));
    }
}

/// `trim_back` removes exactly the trailing run of whitespace.
proof fn lemma_trim_back_at(s: Seq<u8>, b: int)
    requires
        0 <= b <= s.len(),
        forall|k: int| b <= k < s.len() ==> is_space(s[k]),
        b == 0 || !is_space(s[b - 1]),
    ensures
        trim_back(s) == s.take(b),
    decreases s.len(),
{
    if b == s.len() {
        assert(s.take(b) =~= s);
    } else {
        lemma_trim_back_at(s.drop_last(), b);
    }
}

fn is_space_byte(b: u8) -> (r: bool)
    ensures
        r == is_space(b),
{
    b == 32 || b == 9 || b == 10 || b == 11 || b == 12 || b == 13
}

/// The bounds of the trimmed middle of `s`: `trim(s@)` is `s@` between the
/// two returned indices.
fn trim_bounds(s: &[u8]) -> (r: (usize, usize))
    ensures
        0 <= r.0 <= r.1 <= s@.len(),
        trim(s@) == s@.subrange(r.0 as int, r.1 as int),
{
    let n: usize = s.len();
    let mut a: usize = 0;
    while a < n && is_space_byte(s[a])
        invariant
            0 <= a <= n == s@.len(),
            forall|k: int| 0 <= k < a ==> is_space(s@[k]),
        decreases n - a,
    {
        a = a + 1;
    }
    proof {
        lemma_trim_front_at(s@, a as int);
    }
    if a == n {
        proof {
            assert(trim(s@) =~= s@.subrange(a as int, a as int));
        }
        return (a, a);
    }
    let mut b: usize = n;
    while b > a + 1 && is_space_byte(s[b - 1])
        invariant
            a + 1 <= b <= n == s@.len(),
            a < n,
            forall|k: int| b <= k < n ==> is_space(s@[k]),
        decreases b,
    {
        b = b - 1;
    }
    proof {
        let t = s@.skip(a as int);
        lemma_trim_back_at(t, b - a);
        assert(t.take(b - a) =~= s@.subrange(a as int, b as int));
    }
    (a, b)
}

/// Whether two byte slices hold the same bytes.
pub fn bytes_eq(a: &[u8], b: &[u8]) -> (r: bool)
    ensures
        r == (a@ == b@),
{
    if a.len() != b.len() {
        return false;
    }
    let n: usize = a.len();
    let mut i: usize = 0;
    while i < n
        invariant
            0 <= i <= n == a@.len() == b@.len(),
            forall|k: int| 0 <= k < i ==> a@[k] == b@[k],
        decreases n - i,
    {
        if a[i] != b[i] {
            return false;
        }
        i = i + 1;
    }
    proof {
        assert(a@ =~= b@);
    }
    true
}

/// Index of the first occurrence of `b` in `s` at or after `from`, or the
/// length of `s` if there is none.
fn find_byte_from(s: &[u8], from: usize, b: u8) -> (r: usize)
    requires
        from <= s@.len(),
    ensures
        from <= r <= s@.len(),
        find(s@.skip(from as int), b) == r - from,
        r < s@.len() ==> s@[r as int] == b,
        forall|k: int| from <= k < r ==> s@[k] != b,
{
    let n: usize = s.len();
    let mut j: usize = from;
    while j < n && s[j] != b
        invariant
            from <= j <= n == s@.len(),
            forall|k: int| from <= k < j ==> s@[k] != b,
        decreases n - j,
    {
        j = j + 1;
    }
    proof {
        let t = s@.skip(from as int);
        assert forall|k: int| 0 <= k < j - from implies t[k] != b by {
            assert(s@[k + from] != b);
        }
        lemma_find_at(t, b, j - from);
    }
    j
}

/// Parse one line, as `parse_line` reads it: nothing for a blank or
/// comment line, a trimmed key/value pair for a `key = value` line, and
/// no result at all for a malformed line.
fn parse_line_bytes(line: &[u8]) -> (r: Option<Option<(Vec<u8>, Vec<u8>)>>)
    ensures
        match r {
            None => parse_line(line@) == LineParse::Bad,
            Some(None) => parse_line(line@) == LineParse::Skip,
            Some(Some((k, v))) => parse_line(line@) == LineParse::Pair(k@, v@),
        },
{
    let (a, b) = trim_bounds(line);
    if a == b {
        return Some(None);
    }
    let first = line[a];
    if first == 35 || first == 59 {
        // '#' or ';'
        return Some(None);
    }
    let i = find_byte_from(line, 0, 61);  // '='
    proof {
        assert(line@.skip(0) =~= line@);
    }
    if i == line.len() {
        return None;
    }
    let before = vstd::slice::slice_subrange(line, 0, i);
    let after = vstd::slice::slice_subrange(line, i + 1, line.len());
    let (ka, kb) = trim_bounds(before);
    let (va, vb) = trim_bounds(after);
    let key = vstd::slice::slice_to_vec(vstd::slice::slice_subrange(before, ka, kb));
    let value = vstd::slice::slice_to_vec(vstd::slice::slice_subrange(after, va, vb));
    proof {
        assert(before@ =~= line@.take(i as int));
        assert(after@ =~= line@.skip(i + 1));
    }
    Some(Some((key, value)))
}

/// Parse a whole input, as `parse_kv` reads it: the ordered pairs of every
/// `key = value` line, or no result if some line is malformed.
pub fn parse_kv_bytes(data: &[u8]) -> (r: Option<Vec<(Vec<u8>, Vec<u8>)>>)
    ensures
        match r {
            Some(pairs) => parse_kv(data@) == Some(pairs_view(pairs@)),
            None => parse_kv(data@) is None,
        },
{
    let mut pairs: Vec<(Vec<u8>, Vec<u8>)> = Vec::new();
    let mut pos: usize = 0;
    proof {
        assert(pairs_view(pairs@) =~= Seq::<(Seq<u8>, Seq<u8>)>::empty());
        assert(data@.skip(0) =~= data@);
    }
    loop
        invariant
            pos <= data@.len(),
            parse_kv(data@) == match parse_lines(split_lines(data@.skip(pos as int))) {
                None => None::<Seq<(Seq<u8>, Seq<u8>)>>,
                Some(rest) => Some(pairs_view(pairs@) + rest),
            },
        decreases data@.len() - pos + 1,
    {
        let j = find_byte_from(data, pos, 10);  // '\n'
        let line = vstd::slice::slice_subrange(data, pos, j);
        let ghost tail = data@.skip(pos as int);
        proof {
            lemma_find_bounds(tail, 10);
            assert(line@ =~= tail.take(j - pos));
        }
        let parsed = parse_line_bytes(line);
        proof {
            if j < data.len() {
                assert(find(tail, 10) != tail.len());
                assert(split_lines(tail) == seq![line@] + split_lines(tail.skip(j - pos + 1)));
                assert(tail.skip(j - pos + 1) =~= data@.skip(j + 1));
                assert((seq![line@] + split_lines(data@.skip(j + 1))).drop_first() =~= split_lines(
                    data@.skip(j + 1),
                ));
            } else {
                assert(find(tail, 10) == tail.len());
                assert(line@ =~= tail);
                assert(split_lines(tail) == seq![tail]);
                assert(seq![tail].drop_first() =~= Seq::<Seq<u8>>::empty());
            }
        }
        match parsed {
            None => {
                return None;
            },
            Some(None) => {},
            Some(Some((k, v))) => {
                let ghost old_pairs = pairs@;
                pairs.push((k, v));
                proof {
                    assert(pairs_view(pairs@) =~= pairs_view(old_pairs) + seq![(k@, v@)]);
                    assert forall|rest: Seq<(Seq<u8>, Seq<u8>)>| (pairs_view(old_pairs) + (seq![
                        (k@, v@),
                    ] + rest)) == (pairs_view(pairs@) + rest) by {
                        assert(pairs_view(old_pairs) + (seq![(k@, v@)] + rest) =~= pairs_view(
                            pairs@,
                        ) + rest);
                    }
                }
            },
        }
        if j == data.len() {
            proof {
                assert(parse_lines(Seq::<Seq<u8>>::empty()) == Some(
                    Seq::<(Seq<u8>, Seq<u8>)>::empty(),
                ));
                assert(pairs_view(pairs@) + Seq::<(Seq<u8>, Seq<u8>)>::empty() =~= pairs_view(
                    pairs@,
                ));
            }
            return Some(pairs);
        }
        pos = j + 1;
    }
}

/// The views of a vector of byte vectors.
pub open spec fn vecs_view(s: Seq<Vec<u8>>) -> Seq<Seq<u8>> {
    s.map(|i: int, v: Vec<u8>| v@)
}

/// Split `data` at every occurrence of `b`, as `split_byte` does.
pub fn split_all(data: &[u8], b: u8) -> (r: Vec<Vec<u8>>)
    ensures
        vecs_view(r@) == split_byte(data@, b),
{
    let mut segs: Vec<Vec<u8>> = Vec::new();
    let mut pos: usize = 0;
    proof {
        assert(vecs_view(segs@) =~= Seq::<Seq<u8>>::empty());
        assert(data@.skip(0) =~= data@);
        assert(Seq::<Seq<u8>>::empty() + split_byte(data@, b) =~= split_byte(data@, b));
    }
    loop
        invariant
            pos <= data@.len(),
            split_byte(data@, b) == vecs_view(segs@) + split_byte(data@.skip(pos as int), b),
        decreases data@.len() - pos + 1,
    {
        let j = find_byte_from(data, pos, b);
        let seg = vstd::slice::slice_to_vec(vstd::slice::slice_subrange(data, pos, j));
        let ghost tail = data@.skip(pos as int);
        let ghost old_segs = segs@;
        proof {
            lemma_find_bounds(tail, b);
            assert(seg@ =~= tail.take(j - pos));
        }
        segs.push(seg);
        proof {
            assert(vecs_view(segs@) =~= vecs_view(old_segs) + seq![seg@]);
        }
        if j == data.len() {
            proof {
                assert(find(tail, b) == tail.len());
                assert(seg@ =~= tail);
                assert(split_byte(tail, b) == seq![tail]);
                assert(vecs_view(old_segs) + seq![tail] =~= vecs_view(segs@));
            }
            return segs;
        }
        proof {
            assert(find(tail, b) == j - pos);
            assert(find(tail, b) != tail.len());
            assert(split_byte(tail, b) == seq![tail.take(find(tail, b))] + split_byte(
                tail.skip(find(tail, b) + 1),
                b,
            ));
            assert(tail.skip(j - pos + 1) =~= data@.skip(j + 1));
            assert(vecs_view(old_segs) + (seq![seg@] + split_byte(data@.skip(j + 1), b))
                =~= vecs_view(segs@) + split_byte(data@.skip(j + 1), b));
        }
        pos = j + 1;
    }
}

/// No pair among the first `i` has key `key`: lookup passes them over.
proof fn lemma_lookup_skip(pairs: Seq<(Seq<u8>, Seq<u8>)>, key: Seq<u8>, i: int)
    requires
        0 <= i <= pairs.len(),
        forall|k: int| 0 <= k < i ==> pairs[k].0 != key,
    ensures
        lookup(pairs, key) == lookup(pairs.skip(i), key),
    decreases i,
{
    if i == 0 {
        assert(pairs.skip(0) =~= pairs);
    } else {
        lemma_lookup_skip(pairs, key, i - 1);
        assert(pairs.skip(i - 1).drop_first() =~= pairs.skip(i));
        assert(pairs.skip(i - 1)[0] == pairs[i - 1]);
    }
}

/// The value of the first pair whose key is exactly `key`, as `lookup`
/// gives it.
pub fn lookup_value(pairs: &Vec<(Vec<u8>, Vec<u8>)>, key: &[u8]) -> (r: Option<Vec<u8>>)
    ensures
        match r {
            Some(v) => lookup(pairs_view(pairs@), key@) == Some(v@),
            None => lookup(pairs_view(pairs@), key@) is None,
        },
{
    let n: usize = pairs.len();
    let mut i: usize = 0;
    while i < n
        invariant
            0 <= i <= n == pairs@.len(),
            forall|k: int| 0 <= k < i ==> pairs_view(pairs@)[k].0 != key@,
        decreases n - i,
    {
        if bytes_eq(pairs[i].0.as_slice(), key) {
            let v = vstd::slice::slice_to_vec(pairs[i].1.as_slice());
            proof {
                lemma_lookup_skip(pairs_view(pairs@), key@, i as int);
                assert(pairs_view(pairs@).skip(i as int)[0] == pairs_view(pairs@)[i as int]);
            }
            return Some(v);
        }
        i = i + 1;
    }
    proof {
        lemma_lookup_skip(pairs_view(pairs@), key@, n as int);
        assert(pairs_view(pairs@).skip(n as int) =~= Seq::<(Seq<u8>, Seq<u8>)>::empty());
    }
    None
}

} // verus!

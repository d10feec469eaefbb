//! Character-level helpers shared by the encoders and decoders.

use vstd::prelude::*;

verus! {

/// The characters of `s`, in order.
pub fn chars_of(s: &str) -> (v: Vec<char>)
    ensures
        v@ == s@,
{
    broadcast use vstd::string::group_string_axioms;

    let mut v: Vec<char> = Vec::new();
    for c in it: s.chars()
        invariant
            it.seq() == s@,
            v@ == s@.take(it.index() as int),
    {
        v.push(c);
    }
    v
}

/// Calls `Iterator::collect` of std on the characters: the string that comes
/// out is made of exactly those characters, in the same order.
#[verifier::external_body]
pub(crate) fn string_from_chars(chars: &Vec<char>) -> (s: String)
    ensures
        s@ == chars@,
{
    chars.iter().collect()
}

/// Whether two character vectors hold the same characters.
pub fn chars_eq(a: &Vec<char>, b: &Vec<char>) -> (r: bool)
    ensures
        r == (a@ == b@),
{
    if a.len() != b.len() {
        return false;
    }
    let mut i: usize = 0;
    while i < a.len()
        invariant
            a.len() == b.len(),
            i <= a.len(),
            a@.take(i as int) == b@.take(i as int),
        decreases a.len() - i,
    {
        if a[i] != b[i] {
            return false;
        }
        assert(a@.take(i + 1) =~= a@.take(i as int).push(a@[i as int]));
        assert(b@.take(i + 1) =~= b@.take(i as int).push(b@[i as int]));
        i += 1;
    }
    assert(a@ =~= a@.take(a.len() as int));
    assert(b@ =~= b@.take(b.len() as int));
    true
}

/// Whether two strings hold the same characters.
pub fn str_eq(a: &str, b: &str) -> (r: bool)
    ensures
        r == (a@ == b@),
{
    let x = chars_of(a);
    let y = chars_of(b);
    chars_eq(&x, &y)
}

/// Whether `t` occurs in `s` starting at position `pos`.
pub open spec fn has_at(s: Seq<char>, pos: int, t: Seq<char>) -> bool {
    &&& 0 <= pos
    &&& pos + t.len() <= s.len()
    &&& s.subrange(pos, pos + t.len()) == t
}

/// Reads `l` at `pos`: the position behind it.
pub open spec fn lit(s: Seq<char>, pos: int, l: Seq<char>) -> Option<int> {
    if has_at(s, pos, l) {
        Some(pos + l.len())
    } else {
        None
    }
}

/// The characters of each string of `v`.
pub open spec fn strings_view(v: Seq<String>) -> Seq<Seq<char>> {
    Seq::new(v.len(), |i: int| v[i]@)
}

/// A text made of two parts occurs at `pos` exactly where the first part
/// occurs at `pos` and the second right behind it.
pub proof fn lemma_has_at_concat(s: Seq<char>, pos: int, a: Seq<char>, b: Seq<char>)
    ensures
        has_at(s, pos, a + b) <==> (has_at(s, pos, a) && has_at(s, pos + a.len(), b)),
{
    let t = a + b;
    if has_at(s, pos, t) {
        let sub = s.subrange(pos, pos + t.len());
        assert(s.subrange(pos, pos + a.len()) =~= sub.subrange(0, a.len() as int));
        assert(sub.subrange(0, a.len() as int) =~= a);
        assert(s.subrange(pos + a.len(), pos + a.len() + b.len()) =~= sub.subrange(
            a.len() as int,
            t.len() as int,
        ));
        assert(sub.subrange(a.len() as int, t.len() as int) =~= b);
    }
    if has_at(s, pos, a) && has_at(s, pos + a.len(), b) {
        assert(s.subrange(pos, pos + t.len()) =~= s.subrange(pos, pos + a.len()) + s.subrange(
            pos + a.len(),
            pos + a.len() + b.len(),
        ));
    }
}

/// A stretch of `s` is its two parts, one behind the other.
pub proof fn lemma_subrange_join(s: Seq<char>, a: int, b: int, c: int)
    requires
        0 <= a <= b <= c <= s.len(),
    ensures
        s.subrange(a, c) == s.subrange(a, b) + s.subrange(b, c),
{
    assert(s.subrange(a, c) =~= s.subrange(a, b) + s.subrange(b, c));
}

/// The character at `pos`, where a non-empty text occurs there, is the
/// text's first.
pub proof fn lemma_has_at_first(s: Seq<char>, pos: int, t: Seq<char>)
    requires
        has_at(s, pos, t),
        t.len() > 0,
    ensures
        pos < s.len(),
        s[pos] == t[0],
{
    assert(s.subrange(pos, pos + t.len())[0] == s[pos]);
}

/// Appends the characters of `lit` to `out`.
pub fn push_str(out: &mut Vec<char>, lit: &str)
    ensures
        final(out)@ == old(out)@ + lit@,
{
    broadcast use vstd::string::group_string_axioms;

    let ghost before = out@;
    for c in it: lit.chars()
        invariant
            it.seq() == lit@,
            out@ == before + lit@.take(it.index() as int),
    {
        out.push(c);
        assert(lit@.take(it.index() + 1) =~= lit@.take(it.index() as int).push(c));
    }
    assert(lit@.take(lit@.len() as int) =~= lit@);
}

/// Tests whether `l` occurs in `s` at `pos`; on success returns the position
/// just behind it.
pub fn expect(s: &Vec<char>, pos: usize, l: &str) -> (r: Option<usize>)
    ensures
        match r {
            Some(end) => lit(s@, pos as int, l@) == Some(end as int),
            None => lit(s@, pos as int, l@) is None,
        },
{
    let want = chars_of(l);
    if pos > s.len() || want.len() > s.len() - pos {
        return None;
    }
    let mut i: usize = 0;
    while i < want.len()
        invariant
            i <= want.len(),
            pos + want.len() <= s.len(),
            want@ == l@,
            s@.subrange(pos as int, pos + i) == want@.take(i as int),
        decreases want.len() - i,
    {
        if s[pos + i] != want[i] {
            assert(s@.subrange(pos as int, pos + want.len())[i as int] != want@[i as int]);
            return None;
        }
        assert(s@.subrange(pos as int, pos + i + 1) =~= s@.subrange(pos as int, pos + i).push(
            s@[pos + i],
        ));
        assert(want@.take(i + 1) =~= want@.take(i as int).push(want@[i as int]));
        i += 1;
    }
    assert(want@.take(want.len() as int) =~= want@);
    Some(pos + want.len())
}

} // verus!

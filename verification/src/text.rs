//! Character-level utilities shared by the version grammar, the release
//! resolver and the state-document codec: conversions between `str` and
//! `Vec<char>`, scanning, and a verified first-occurrence splitter.

use vstd::prelude::*;
use vstd::string::StrSliceExecFns;

verus! {

/// Relies on String::push: appends the given character to the end of the string.
#[verifier::external_body]
pub fn push_char(s: &mut String, c: char)
    ensures
        final(s)@ == old(s)@.push(c),
{
    s.push(c);
}

/// The characters of a string slice, as an indexable vector.
pub fn chars_of(s: &str) -> (r: Vec<char>)
    ensures
        r@ == s@,
{
    let n = s.unicode_len();
    let mut r: Vec<char> = Vec::new();
    let mut i: usize = 0;
    while i < n
        invariant
            i <= n,
            n == s@.len(),
            r@ == s@.take(i as int),
        decreases n - i,
    {
        let c = s.get_char(i);
        r.push(c);
        i = i + 1;
        proof {
            assert(r@ =~= s@.take(i as int));
        }
    }
    proof {
        assert(s@.take(n as int) =~= s@);
    }
    r
}

/// A `String` holding exactly the given characters.
pub fn string_of(v: &[char]) -> (r: String)
    ensures
        r@ == v@,
{
    let mut r = String::new();
    let mut i: usize = 0;
    while i < v.len()
        invariant
            i <= v@.len(),
            r@ == v@.take(i as int),
        decreases v@.len() - i,
    {
        push_char(&mut r, v[i]);
        i = i + 1;
        proof {
            assert(r@ =~= v@.take(i as int));
        }
    }
    proof {
        assert(v@.take(v@.len() as int) =~= v@);
    }
    r
}

/// First index at or after `from` holding `c`.
pub fn find_from(v: &[char], c: char, from: usize) -> (r: Option<usize>)
    requires
        from <= v@.len(),
    ensures
        match r {
            Some(i) => from <= i < v@.len() && v@[i as int] == c && (forall|j: int|
                from <= j < i ==> v@[j] != c),
            None => forall|j: int| from <= j < v@.len() ==> v@[j] != c,
        },
{
    let mut i: usize = from;
    while i < v.len()
        invariant
            from <= i <= v@.len(),
            forall|j: int| from <= j < i ==> v@[j] != c,
        decreases v@.len() - i,
    {
        if v[i] == c {
            return Some(i);
        }
        i = i + 1;
    }
    None
}

/// A copy of `v[from .. to]`.
pub fn subvec(v: &[char], from: usize, to: usize) -> (r: Vec<char>)
    requires
        from <= to <= v@.len(),
    ensures
        r@ == v@.subrange(from as int, to as int),
{
    let mut r: Vec<char> = Vec::new();
    let mut i: usize = from;
    while i < to
        invariant
            from <= i <= to <= v@.len(),
            r@ == v@.subrange(from as int, i as int),
        decreases to - i,
    {
        r.push(v[i]);
        i = i + 1;
        proof {
            assert(r@ =~= v@.subrange(from as int, i as int));
        }
    }
    r
}

/// Whether two character sequences are equal.
pub fn chars_eq(a: &[char], b: &[char]) -> (r: bool)
    ensures
        r == (a@ == b@),
{
    if a.len() != b.len() {
        proof {
            assert(a@ != b@);
        }
        return false;
    }
    let mut i: usize = 0;
    while i < a.len()
        invariant
            i <= a@.len(),
            a@.len() == b@.len(),
            forall|j: int| 0 <= j < i ==> a@[j] == b@[j],
        decreases a@.len() - i,
    {
        if a[i] != b[i] {
            proof {
                assert(a@ != b@);
            }
            return false;
        }
        i = i + 1;
    }
    proof {
        assert(a@ =~= b@);
    }
    true
}

/// The segments of `s` between occurrences of the separator `c`: splitting
/// at every occurrence, with empty segments kept. The result always has at
/// least one segment, and splitting a separator-free string yields that
/// string as its only segment.
pub open spec fn spec_split_all(s: Seq<char>, c: char) -> Seq<Seq<char>>
    decreases s.len(),
{
    if s.len() == 0 {
        seq![Seq::<char>::empty()]
    } else if s[0] == c {
        seq![Seq::<char>::empty()] + spec_split_all(s.drop_first(), c)
    } else {
        let rest = spec_split_all(s.drop_first(), c);
        seq![seq![s[0]] + rest[0]] + rest.drop_first()
    }
}

pub proof fn lemma_split_all_len(s: Seq<char>, c: char)
    ensures
        spec_split_all(s, c).len() >= 1,
    decreases s.len(),
{
    if s.len() != 0 {
        lemma_split_all_len(s.drop_first(), c);
    }
}

/// Splitting a separator-free string yields the string itself.
pub proof fn lemma_split_all_none(s: Seq<char>, c: char)
    requires
        forall|j: int| 0 <= j < s.len() ==> s[j] != c,
    ensures
        spec_split_all(s, c) == seq![s],
    decreases s.len(),
{
    if s.len() == 0 {
        assert(spec_split_all(s, c) =~~= seq![s]);
    } else {
        lemma_split_all_none(s.drop_first(), c);
        lemma_split_all_len(s.drop_first(), c);
        assert(seq![s[0]] + s.drop_first() =~= s);
        assert(spec_split_all(s, c) =~~= seq![s]);
    }
}

/// Splitting at the first occurrence of the separator peels off the prefix
/// before it.
pub proof fn lemma_split_all_at(s: Seq<char>, c: char, i: int)
    requires
        0 <= i < s.len(),
        s[i] == c,
        forall|j: int| 0 <= j < i ==> s[j] != c,
    ensures
        spec_split_all(s, c) == seq![s.take(i)] + spec_split_all(
            s.subrange(i + 1, s.len() as int),
            c,
        ),
    decreases i,
{
    if i == 0 {
        assert(s.take(0) =~= Seq::<char>::empty());
        assert(s.drop_first() =~= s.subrange(1, s.len() as int));
        assert(spec_split_all(s, c) =~~= seq![s.take(0)] + spec_split_all(
            s.subrange(1, s.len() as int),
            c,
        ));
    } else {
        let t = s.drop_first();
        assert(forall|j: int| 0 <= j < i - 1 ==> t[j] != c);
        lemma_split_all_at(t, c, i - 1);
        lemma_split_all_len(t.subrange(i, t.len() as int), c);
        let rest = spec_split_all(t, c);
        assert(rest[0] == t.take(i - 1));
        assert(seq![s[0]] + t.take(i - 1) =~= s.take(i));
        assert(t.subrange(i, t.len() as int) =~= s.subrange(i + 1, s.len() as int));
        assert(rest.drop_first() =~~= spec_split_all(s.subrange(i + 1, s.len() as int), c));
        assert(spec_split_all(s, c) =~~= seq![s.take(i)] + spec_split_all(
            s.subrange(i + 1, s.len() as int),
            c,
        ));
    }
}

/// Split `v` at every occurrence of `c`.
pub fn split_all(v: &[char], c: char) -> (r: Vec<Vec<char>>)
    ensures
        r.deep_view() == spec_split_all(v@, c),
{
    let mut r: Vec<Vec<char>> = Vec::new();
    let mut pos: usize = 0;
    proof {
        assert(v@.subrange(0, v@.len() as int) =~= v@);
        assert(r.deep_view() + spec_split_all(v@, c) =~~= spec_split_all(v@, c));
    }
    loop
        invariant
            pos <= v@.len(),
            spec_split_all(v@, c) == r.deep_view() + spec_split_all(
                v@.subrange(pos as int, v@.len() as int),
                c,
            ),
        decreases v@.len() - pos,
    {
        let ghost tail = v@.subrange(pos as int, v@.len() as int);
        match find_from(v, c, pos) {
            None => {
                let seg = subvec(v, pos, v.len());
                proof {
                    assert(forall|j: int| 0 <= j < tail.len() ==> tail[j] != c);
                    lemma_split_all_none(tail, c);
                }
                r.push(seg);
                proof {
                    assert(r.deep_view() =~~= spec_split_all(v@, c));
                }
                return r;
            },
            Some(i) => {
                let n = v.len();
                proof {
                    assert(i < n);
                }
                let seg = subvec(v, pos, i);
                proof {
                    assert(tail[(i - pos) as int] == c);
                    assert(forall|j: int| 0 <= j < i - pos ==> tail[j] != c);
                    lemma_split_all_at(tail, c, i - pos);
                    assert(tail.take(i - pos) =~= v@.subrange(pos as int, i as int));
                    assert(tail.subrange(i - pos + 1, tail.len() as int) =~= v@.subrange(
                        i + 1,
                        v@.len() as int,
                    ));
                }
                r.push(seg);
                proof {
                    assert(r.deep_view() + spec_split_all(
                        v@.subrange(i + 1, v@.len() as int),
                        c,
                    ) =~~= spec_split_all(v@, c));
                }
                pos = i + 1;
            },
        }
    }
}

} // verus!

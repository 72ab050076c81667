//! Semantic-version ordering: compare by major, minor, patch; a pre-release
//! sorts below its release; pre-release tags compare identifier by
//! identifier, numeric identifiers numerically and before alphanumeric ones,
//! alphanumeric ones lexically. Because numeric identifiers carry no leading
//! zeros, their numeric order is the length-then-lexicographic order used
//! here.

use vstd::prelude::*;

use crate::text::chars_of;
use crate::text::chars_eq;
use crate::version::{all_digits, Version, VersionView};

verus! {

/// Strict lexicographic order on character sequences; a proper prefix sorts
/// below its extensions.
pub open spec fn lex_lt(a: Seq<char>, b: Seq<char>) -> bool
    decreases a.len() + b.len(),
{
    if b.len() == 0 {
        false
    } else if a.len() == 0 {
        true
    } else if a[0] != b[0] {
        a[0] < b[0]
    } else {
        lex_lt(a.drop_first(), b.drop_first())
    }
}

/// Strict order on pre-release identifiers.
pub open spec fn ident_lt(a: Seq<char>, b: Seq<char>) -> bool {
    if all_digits(a) && all_digits(b) {
        a.len() < b.len() || (a.len() == b.len() && lex_lt(a, b))
    } else if all_digits(a) {
        true
    } else if all_digits(b) {
        false
    } else {
        lex_lt(a, b)
    }
}

/// Strict order on pre-release tags: identifier by identifier, a shorter tag
/// sorting below its extensions.
pub open spec fn pre_lt(a: Seq<Seq<char>>, b: Seq<Seq<char>>) -> bool
    decreases a.len() + b.len(),
{
    if b.len() == 0 {
        false
    } else if a.len() == 0 {
        true
    } else if a[0] != b[0] {
        ident_lt(a[0], b[0])
    } else {
        pre_lt(a.drop_first(), b.drop_first())
    }
}

/// Strict semantic-version order.
pub open spec fn version_lt(a: VersionView, b: VersionView) -> bool {
    if a.major != b.major {
        a.major < b.major
    } else if a.minor != b.minor {
        a.minor < b.minor
    } else if a.patch != b.patch {
        a.patch < b.patch
    } else if b.pre.len() == 0 {
        a.pre.len() > 0
    } else if a.pre.len() == 0 {
        false
    } else {
        pre_lt(a.pre, b.pre)
    }
}

proof fn lemma_lex_lt_total(a: Seq<char>, b: Seq<char>)
    ensures
        lex_lt(a, b) || lex_lt(b, a) || a == b,
    decreases a.len() + b.len(),
{
    if a.len() > 0 && b.len() > 0 && a[0] == b[0] {
        lemma_lex_lt_total(a.drop_first(), b.drop_first());
        if a.drop_first() == b.drop_first() {
            assert forall|j: int| 0 <= j < a.len() implies a[j] == b[j] by {
                if j > 0 {
                    assert(a[j] == a.drop_first()[j - 1]);
                    assert(b[j] == b.drop_first()[j - 1]);
                }
            }
            assert(a =~= b);
        }
    }
}

proof fn lemma_lex_lt_asym(a: Seq<char>, b: Seq<char>)
    requires
        lex_lt(a, b),
    ensures
        !lex_lt(b, a),
    decreases a.len() + b.len(),
{
    if a.len() > 0 && b.len() > 0 && a[0] == b[0] {
        lemma_lex_lt_asym(a.drop_first(), b.drop_first());
    }
}

proof fn lemma_lex_lt_trans(a: Seq<char>, b: Seq<char>, c: Seq<char>)
    requires
        lex_lt(a, b),
        lex_lt(b, c),
    ensures
        lex_lt(a, c),
    decreases a.len() + b.len() + c.len(),
{
    if a.len() > 0 && b.len() > 0 && c.len() > 0 && a[0] == b[0] && b[0] == c[0] {
        lemma_lex_lt_trans(a.drop_first(), b.drop_first(), c.drop_first());
    }
}

proof fn lemma_ident_lt_total(a: Seq<char>, b: Seq<char>)
    ensures
        ident_lt(a, b) || ident_lt(b, a) || a == b,
{
    lemma_lex_lt_total(a, b);
}

proof fn lemma_ident_lt_asym(a: Seq<char>, b: Seq<char>)
    requires
        ident_lt(a, b),
    ensures
        !ident_lt(b, a),
{
    if all_digits(a) && all_digits(b) {
        if a.len() == b.len() && lex_lt(a, b) {
            lemma_lex_lt_asym(a, b);
        }
    } else if !all_digits(a) && !all_digits(b) {
        lemma_lex_lt_asym(a, b);
    }
}

proof fn lemma_ident_lt_trans(a: Seq<char>, b: Seq<char>, c: Seq<char>)
    requires
        ident_lt(a, b),
        ident_lt(b, c),
    ensures
        ident_lt(a, c),
{
    if all_digits(a) && all_digits(b) && all_digits(c) {
        if a.len() == b.len() && b.len() == c.len() {
            lemma_lex_lt_trans(a, b, c);
        }
    } else if !all_digits(a) && !all_digits(b) && !all_digits(c) {
        lemma_lex_lt_trans(a, b, c);
    }
}

proof fn lemma_pre_lt_total(a: Seq<Seq<char>>, b: Seq<Seq<char>>)
    ensures
        pre_lt(a, b) || pre_lt(b, a) || a == b,
    decreases a.len() + b.len(),
{
    if a.len() > 0 && b.len() > 0 {
        if a[0] == b[0] {
            lemma_pre_lt_total(a.drop_first(), b.drop_first());
            if a.drop_first() == b.drop_first() {
                assert forall|j: int| 0 <= j < a.len() implies a[j] == b[j] by {
                    if j > 0 {
                        assert(a[j] == a.drop_first()[j - 1]);
                        assert(b[j] == b.drop_first()[j - 1]);
                    }
                }
                assert(a =~= b);
            }
        } else {
            lemma_ident_lt_total(a[0], b[0]);
        }
    }
}

proof fn lemma_pre_lt_asym(a: Seq<Seq<char>>, b: Seq<Seq<char>>)
    requires
        pre_lt(a, b),
    ensures
        !pre_lt(b, a),
    decreases a.len() + b.len(),
{
    if a.len() > 0 && b.len() > 0 {
        if a[0] == b[0] {
            lemma_pre_lt_asym(a.drop_first(), b.drop_first());
        } else {
            lemma_ident_lt_asym(a[0], b[0]);
        }
    }
}

proof fn lemma_pre_lt_trans(a: Seq<Seq<char>>, b: Seq<Seq<char>>, c: Seq<Seq<char>>)
    requires
        pre_lt(a, b),
        pre_lt(b, c),
    ensures
        pre_lt(a, c),
    decreases a.len() + b.len() + c.len(),
{
    if a.len() > 0 && b.len() > 0 && c.len() > 0 {
        if a[0] == b[0] && b[0] == c[0] {
            lemma_pre_lt_trans(a.drop_first(), b.drop_first(), c.drop_first());
        } else if a[0] == b[0] {
            assert(ident_lt(b[0], c[0]));
        } else if b[0] == c[0] {
            assert(ident_lt(a[0], b[0]));
        } else {
            lemma_ident_lt_trans(a[0], b[0], c[0]);
            if a[0] == c[0] {
                lemma_ident_lt_asym(a[0], b[0]);
            }
        }
    }
}

/// The semantic-version order is total: two versions are ordered one way,
/// the other way, or equal.
pub proof fn lemma_version_lt_total(a: VersionView, b: VersionView)
    ensures
        version_lt(a, b) || version_lt(b, a) || a == b,
{
    if a.major == b.major && a.minor == b.minor && a.patch == b.patch {
        if a.pre.len() > 0 && b.pre.len() > 0 {
            lemma_pre_lt_total(a.pre, b.pre);
            if a.pre == b.pre {
                assert(a =~~= b);
            }
        } else if a.pre.len() == 0 && b.pre.len() == 0 {
            assert(a.pre =~= b.pre);
            assert(a =~~= b);
        }
    }
}

/// The semantic-version order is transitive.
pub proof fn lemma_version_lt_trans(a: VersionView, b: VersionView, c: VersionView)
    requires
        version_lt(a, b),
        version_lt(b, c),
    ensures
        version_lt(a, c),
{
    if a.major == b.major && b.major == c.major && a.minor == b.minor && b.minor == c.minor
        && a.patch == b.patch && b.patch == c.patch {
        if a.pre.len() > 0 && b.pre.len() > 0 && c.pre.len() > 0 {
            lemma_pre_lt_trans(a.pre, b.pre, c.pre);
        }
    }
}

proof fn lemma_pre_lt_irrefl(a: Seq<Seq<char>>)
    ensures
        !pre_lt(a, a),
    decreases a.len(),
{
    if a.len() > 0 {
        lemma_pre_lt_irrefl(a.drop_first());
    }
}

/// A version is never below itself.
pub proof fn lemma_version_lt_irrefl(a: VersionView)
    ensures
        !version_lt(a, a),
{
    if a.pre.len() > 0 {
        lemma_pre_lt_irrefl(a.pre);
    }
}

proof fn lemma_lex_lt_skip(a: Seq<char>, b: Seq<char>, i: int)
    requires
        0 <= i <= a.len(),
        i <= b.len(),
        forall|j: int| 0 <= j < i ==> a[j] == b[j],
    ensures
        lex_lt(a, b) == lex_lt(a.subrange(i, a.len() as int), b.subrange(i, b.len() as int)),
    decreases i,
{
    if i > 0 {
        lemma_lex_lt_skip(a.drop_first(), b.drop_first(), i - 1);
        assert(a.drop_first().subrange(i - 1, a.drop_first().len() as int) =~= a.subrange(
            i,
            a.len() as int,
        ));
        assert(b.drop_first().subrange(i - 1, b.drop_first().len() as int) =~= b.subrange(
            i,
            b.len() as int,
        ));
    } else {
        assert(a.subrange(0, a.len() as int) =~= a);
        assert(b.subrange(0, b.len() as int) =~= b);
    }
}

/// Lexicographic comparison of character sequences.
fn lex_lt_chars(a: &[char], b: &[char]) -> (r: bool)
    ensures
        r == lex_lt(a@, b@),
{
    let mut i: usize = 0;
    while i < a.len() && i < b.len()
        invariant
            i <= a@.len(),
            i <= b@.len(),
            forall|j: int| 0 <= j < i ==> a@[j] == b@[j],
        decreases a@.len() - i,
    {
        if a[i] != b[i] {
            proof {
                lemma_lex_lt_skip(a@, b@, i as int);
            }
            return a[i] < b[i];
        }
        i = i + 1;
    }
    proof {
        lemma_lex_lt_skip(a@, b@, i as int);
    }
    if i < b.len() {
        true
    } else {
        false
    }
}

/// Comparison of single pre-release identifiers.
fn ident_lt_chars(a: &[char], b: &[char]) -> (r: bool)
    ensures
        r == ident_lt(a@, b@),
{
    let da = crate::version::chars_all_digits(a);
    let db = crate::version::chars_all_digits(b);
    if da && db {
        if a.len() != b.len() {
            a.len() < b.len()
        } else {
            lex_lt_chars(a, b)
        }
    } else if da {
        true
    } else if db {
        false
    } else {
        lex_lt_chars(a, b)
    }
}

proof fn lemma_pre_lt_skip(a: Seq<Seq<char>>, b: Seq<Seq<char>>, i: int)
    requires
        0 <= i <= a.len(),
        i <= b.len(),
        forall|j: int| 0 <= j < i ==> a[j] == b[j],
    ensures
        pre_lt(a, b) == pre_lt(a.subrange(i, a.len() as int), b.subrange(i, b.len() as int)),
    decreases i,
{
    if i > 0 {
        lemma_pre_lt_skip(a.drop_first(), b.drop_first(), i - 1);
        assert(a.drop_first().subrange(i - 1, a.drop_first().len() as int) =~= a.subrange(
            i,
            a.len() as int,
        ));
        assert(b.drop_first().subrange(i - 1, b.drop_first().len() as int) =~= b.subrange(
            i,
            b.len() as int,
        ));
    } else {
        assert(a.subrange(0, a.len() as int) =~= a);
        assert(b.subrange(0, b.len() as int) =~= b);
    }
}

/// Comparison of pre-release tags, identifier lists in order.
fn pre_lt_exec(a: &Vec<String>, b: &Vec<String>) -> (r: bool)
    ensures
        r == pre_lt(a.deep_view(), b.deep_view()),
{
    let ghost av = a.deep_view();
    let ghost bv = b.deep_view();
    proof {
        assert(av.len() == a@.len());
        assert(bv.len() == b@.len());
    }
    let mut i: usize = 0;
    while i < a.len() && i < b.len()
        invariant
            i <= av.len(),
            i <= bv.len(),
            av == a.deep_view(),
            bv == b.deep_view(),
            av.len() == a@.len(),
            bv.len() == b@.len(),
            forall|j: int| 0 <= j < i ==> av[j] == bv[j],
        decreases av.len() - i,
    {
        let ac = chars_of(a[i].as_str());
        let bc = chars_of(b[i].as_str());
        proof {
            assert(av[i as int] == a@[i as int]@);
            assert(bv[i as int] == b@[i as int]@);
        }
        if !chars_eq(ac.as_slice(), bc.as_slice()) {
            proof {
                lemma_pre_lt_skip(av, bv, i as int);
            }
            return ident_lt_chars(ac.as_slice(), bc.as_slice());
        }
        i = i + 1;
    }
    proof {
        lemma_pre_lt_skip(av, bv, i as int);
    }
    if i < b.len() {
        true
    } else {
        false
    }
}

/// Whether two parsed versions denote the same version value.
pub fn version_eq(a: &Version, b: &Version) -> (r: bool)
    ensures
        r == (a@ == b@),
{
    if a.major != b.major || a.minor != b.minor || a.patch != b.patch {
        return false;
    }
    if a.pre.len() != b.pre.len() {
        proof {
            assert(a.pre.deep_view().len() == a.pre@.len());
            assert(b.pre.deep_view().len() == b.pre@.len());
        }
        return false;
    }
    let ghost av = a.pre.deep_view();
    let ghost bv = b.pre.deep_view();
    proof {
        assert(av.len() == a.pre@.len());
        assert(bv.len() == b.pre@.len());
    }
    let mut i: usize = 0;
    while i < a.pre.len()
        invariant
            i <= av.len(),
            av == a.pre.deep_view(),
            bv == b.pre.deep_view(),
            av.len() == a.pre@.len(),
            bv.len() == b.pre@.len(),
            av.len() == bv.len(),
            forall|j: int| 0 <= j < i ==> av[j] == bv[j],
        decreases av.len() - i,
    {
        let ac = chars_of(a.pre[i].as_str());
        let bc = chars_of(b.pre[i].as_str());
        proof {
            assert(av[i as int] == a.pre@[i as int]@);
            assert(bv[i as int] == b.pre@[i as int]@);
        }
        if !chars_eq(ac.as_slice(), bc.as_slice()) {
            return false;
        }
        i = i + 1;
    }
    proof {
        assert(av =~~= bv);
        assert(a@ =~~= b@);
    }
    true
}

/// Whether `a` denotes a strictly smaller version than `b`.
pub fn version_lt_exec(a: &Version, b: &Version) -> (r: bool)
    ensures
        r == version_lt(a@, b@),
{
    if a.major != b.major {
        return a.major < b.major;
    }
    if a.minor != b.minor {
        return a.minor < b.minor;
    }
    if a.patch != b.patch {
        return a.patch < b.patch;
    }
    proof {
        assert(a.pre.deep_view().len() == a.pre@.len());
        assert(b.pre.deep_view().len() == b.pre@.len());
    }
    if b.pre.len() == 0 {
        return a.pre.len() > 0;
    }
    if a.pre.len() == 0 {
        return false;
    }
    pre_lt_exec(&a.pre, &b.pre)
}

} // verus!

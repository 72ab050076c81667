//! Semantic versions: the grammar `major.minor.patch[-pre]`, a mathematical
//! model, and a verified parser. Numeric components are decimal with no
//! superfluous leading zero and must fit in a machine word; pre-release tags
//! are dot-separated identifiers of letters, digits and hyphens, numeric
//! identifiers again free of leading zeros.
//!
//! Build metadata (`+` and what follows) is deliberately outside the
//! grammar. Precedence ignores it, so two release targets differing only in
//! build metadata would carry one version — a duplication the resolver must
//! reject anyway — and the release pipeline names its bundles
//! without it; a version string carrying it is rejected, not silently
//! truncated.

use vstd::prelude::*;

use crate::text::{chars_of, find_from, spec_split_all, split_all, string_of, subvec};

verus! {

pub open spec fn is_digit(c: char) -> bool {
    '0' <= c && c <= '9'
}

pub open spec fn digit_val(c: char) -> nat {
    (c as u32 - '0' as u32) as nat
}

pub open spec fn all_digits(s: Seq<char>) -> bool {
    forall|i: int| 0 <= i < s.len() ==> is_digit(#[trigger] s[i])
}

/// A well-formed numeric component: nonempty digits, no leading zero.
pub open spec fn spec_is_num_str(s: Seq<char>) -> bool {
    &&& s.len() > 0
    &&& all_digits(s)
    &&& (s.len() > 1 ==> s[0] != '0')
}

/// The value of a digit string, most significant digit first.
pub open spec fn num_val(s: Seq<char>) -> nat
    decreases s.len(),
{
    if s.len() == 0 {
        0
    } else {
        num_val(s.drop_last()) * 10 + digit_val(s.last())
    }
}

/// A numeric component parses when well formed and within machine range.
pub open spec fn spec_parse_num(s: Seq<char>) -> Option<nat> {
    if spec_is_num_str(s) && num_val(s) <= u64::MAX {
        Some(num_val(s))
    } else {
        None
    }
}

pub open spec fn is_ident_char(c: char) -> bool {
    is_digit(c) || ('a' <= c && c <= 'z') || ('A' <= c && c <= 'Z') || c == '-'
}

/// A well-formed pre-release identifier: nonempty, alphanumeric or hyphen,
/// and no leading zero when wholly numeric.
pub open spec fn wf_pre_ident(s: Seq<char>) -> bool {
    &&& s.len() > 0
    &&& forall|i: int| 0 <= i < s.len() ==> is_ident_char(#[trigger] s[i])
    &&& (all_digits(s) && s.len() > 1 ==> s[0] != '0')
}

/// The mathematical content of a semantic version. An empty `pre` means a
/// release; a nonempty one holds the pre-release identifiers in order.
#[verifier::ext_equal]
pub ghost struct VersionView {
    pub major: nat,
    pub minor: nat,
    pub patch: nat,
    pub pre: Seq<Seq<char>>,
}

/// The `major.minor.patch` part: exactly three numeric components.
pub open spec fn spec_parse_core(s: Seq<char>) -> Option<(nat, nat, nat)> {
    let parts = spec_split_all(s, '.');
    if parts.len() == 3 {
        match (spec_parse_num(parts[0]), spec_parse_num(parts[1]), spec_parse_num(parts[2])) {
            (Some(a), Some(b), Some(c)) => Some((a, b, c)),
            _ => None,
        }
    } else {
        None
    }
}

/// The pre-release tag: dot-separated well-formed identifiers.
pub open spec fn spec_parse_pre(s: Seq<char>) -> Option<Seq<Seq<char>>> {
    let ids = spec_split_all(s, '.');
    if forall|i: int| 0 <= i < ids.len() ==> wf_pre_ident(#[trigger] ids[i]) {
        Some(ids)
    } else {
        None
    }
}

/// First index of `c` in `s`, if any.
pub open spec fn spec_first(s: Seq<char>, c: char) -> Option<int>
    decreases s.len(),
{
    if s.len() == 0 {
        None
    } else if s[0] == c {
        Some(0)
    } else {
        match spec_first(s.drop_first(), c) {
            None => None,
            Some(i) => Some(i + 1),
        }
    }
}

pub proof fn lemma_first_at(s: Seq<char>, c: char, i: int)
    requires
        0 <= i < s.len(),
        s[i] == c,
        forall|j: int| 0 <= j < i ==> s[j] != c,
    ensures
        spec_first(s, c) == Some(i),
    decreases i,
{
    if i > 0 {
        lemma_first_at(s.drop_first(), c, i - 1);
    }
}

pub proof fn lemma_first_none(s: Seq<char>, c: char)
    requires
        forall|j: int| 0 <= j < s.len() ==> s[j] != c,
    ensures
        spec_first(s, c) is None,
    decreases s.len(),
{
    if s.len() > 0 {
        lemma_first_none(s.drop_first(), c);
    }
}

/// The version grammar: the core before the first hyphen, a pre-release tag
/// after it. Digits cannot hold a hyphen, so the first hyphen of a valid
/// string is exactly the separator.
pub open spec fn spec_parse_version(s: Seq<char>) -> Option<VersionView> {
    match spec_first(s, '-') {
        None => match spec_parse_core(s) {
            Some(t) => Some(VersionView { major: t.0, minor: t.1, patch: t.2, pre: Seq::empty() }),
            None => None,
        },
        Some(i) => {
            let core = s.take(i);
            let pre = s.subrange(i + 1, s.len() as int);
            match (spec_parse_core(core), spec_parse_pre(pre)) {
                (Some(t), Some(ids)) => Some(
                    VersionView { major: t.0, minor: t.1, patch: t.2, pre: ids },
                ),
                _ => None,
            }
        },
    }
}

/// A parsed semantic version. `raw` is the string it was parsed from; the
/// well-formedness invariant ties the fields to that string through the
/// grammar.
pub struct Version {
    pub major: u64,
    pub minor: u64,
    pub patch: u64,
    pub pre: Vec<String>,
    pub raw: String,
}

impl View for Version {
    type V = VersionView;

    open spec fn view(&self) -> VersionView {
        VersionView {
            major: self.major as nat,
            minor: self.minor as nat,
            patch: self.patch as nat,
            pre: self.pre.deep_view(),
        }
    }
}

impl Version {
    /// The fields are exactly what the grammar assigns to `raw`.
    pub open spec fn wf(&self) -> bool {
        spec_parse_version(self.raw@) == Some(self@)
    }
}

/// Growing a digit string never shrinks its value.
proof fn lemma_num_val_mono(s: Seq<char>, i: int, j: int)
    requires
        0 <= i <= j <= s.len(),
    ensures
        num_val(s.take(i)) <= num_val(s.take(j)),
    decreases j - i,
{
    if i < j {
        lemma_num_val_mono(s, i, j - 1);
        assert(s.take(j).drop_last() =~= s.take(j - 1));
        assert(num_val(s.take(j)) == num_val(s.take(j - 1)) * 10 + digit_val(s.take(j).last()));
    }
}

/// Parse one numeric component.
fn parse_num(v: &[char]) -> (r: Option<u64>)
    ensures
        r is Some <==> spec_parse_num(v@) is Some,
        r is Some ==> r.unwrap() as nat == num_val(v@),
{
    let n = v.len();
    if n == 0 {
        return None;
    }
    if n > 1 && v[0] == '0' {
        return None;
    }
    let mut acc: u64 = 0;
    let mut i: usize = 0;
    while i < n
        invariant
            i <= n,
            n == v@.len(),
            forall|j: int| 0 <= j < i ==> is_digit(#[trigger] v@[j]),
            acc as nat == num_val(v@.take(i as int)),
        decreases n - i,
    {
        let c = v[i];
        if !('0' <= c && c <= '9') {
            proof {
                assert(!all_digits(v@));
            }
            return None;
        }
        let d: u64 = (c as u32 - 48) as u64;
        let wide: u128 = acc as u128 * 10 + d as u128;
        proof {
            assert(v@.take(i + 1).drop_last() =~= v@.take(i as int));
            assert(num_val(v@.take(i + 1)) == num_val(v@.take(i as int)) * 10 + digit_val(c));
        }
        if wide > u64::MAX as u128 {
            proof {
                lemma_num_val_mono(v@, i + 1, n as int);
                assert(v@.take(n as int) =~= v@);
            }
            return None;
        }
        acc = wide as u64;
        i = i + 1;
    }
    proof {
        assert(v@.take(n as int) =~= v@);
    }
    Some(acc)
}

/// Whether every character is a decimal digit.
pub fn chars_all_digits(v: &[char]) -> (r: bool)
    ensures
        r == all_digits(v@),
{
    let mut i: usize = 0;
    while i < v.len()
        invariant
            i <= v@.len(),
            forall|j: int| 0 <= j < i ==> is_digit(#[trigger] v@[j]),
        decreases v@.len() - i,
    {
        let c = v[i];
        if !('0' <= c && c <= '9') {
            return false;
        }
        i = i + 1;
    }
    true
}

/// Whether the characters form a well-formed pre-release identifier.
fn check_pre_ident(v: &[char]) -> (r: bool)
    ensures
        r == wf_pre_ident(v@),
{
    let n = v.len();
    if n == 0 {
        return false;
    }
    let mut i: usize = 0;
    while i < n
        invariant
            i <= n,
            n == v@.len(),
            forall|j: int| 0 <= j < i ==> is_ident_char(#[trigger] v@[j]),
        decreases n - i,
    {
        let c = v[i];
        if !(('0' <= c && c <= '9') || ('a' <= c && c <= 'z') || ('A' <= c && c <= 'Z') || c
            == '-') {
            return false;
        }
        i = i + 1;
    }
    if n > 1 && v[0] == '0' {
        if chars_all_digits(v) {
            return false;
        }
    }
    true
}

/// Parse the `major.minor.patch` core.
fn parse_core(v: &[char]) -> (r: Option<(u64, u64, u64)>)
    ensures
        r is Some <==> spec_parse_core(v@) is Some,
        r is Some ==> {
            let t = spec_parse_core(v@).unwrap();
            r.unwrap().0 as nat == t.0 && r.unwrap().1 as nat == t.1 && r.unwrap().2 as nat == t.2
        },
{
    let parts = split_all(v, '.');
    proof {
        assert(parts.deep_view().len() == parts@.len());
    }
    if parts.len() != 3 {
        return None;
    }
    proof {
        assert(parts.deep_view()[0] == parts@[0]@);
        assert(parts.deep_view()[1] == parts@[1]@);
        assert(parts.deep_view()[2] == parts@[2]@);
    }
    let a = match parse_num(parts[0].as_slice()) {
        Some(x) => x,
        None => {
            return None;
        },
    };
    let b = match parse_num(parts[1].as_slice()) {
        Some(x) => x,
        None => {
            return None;
        },
    };
    let c = match parse_num(parts[2].as_slice()) {
        Some(x) => x,
        None => {
            return None;
        },
    };
    Some((a, b, c))
}

/// Parse the pre-release tag into its identifiers.
fn parse_pre(v: &[char]) -> (r: Option<Vec<String>>)
    ensures
        r is Some <==> spec_parse_pre(v@) is Some,
        r is Some ==> r.unwrap().deep_view() == spec_parse_pre(v@).unwrap(),
{
    let ids = split_all(v, '.');
    let mut out: Vec<String> = Vec::new();
    let mut i: usize = 0;
    proof {
        assert(ids.deep_view().len() == ids@.len());
    }
    while i < ids.len()
        invariant
            i <= ids@.len(),
            ids.deep_view() == spec_split_all(v@, '.'),
            ids.deep_view().len() == ids@.len(),
            forall|j: int| 0 <= j < ids@.len() ==> ids.deep_view()[j] == #[trigger] ids@[j]@,
            out.deep_view() == ids.deep_view().take(i as int),
            forall|j: int| 0 <= j < i ==> wf_pre_ident(#[trigger] ids.deep_view()[j]),
        decreases ids@.len() - i,
    {
        if !check_pre_ident(ids[i].as_slice()) {
            return None;
        }
        let s = string_of(ids[i].as_slice());
        let ghost prev = out.deep_view();
        out.push(s);
        proof {
            assert(ids.deep_view().take(i as int).len() == i as int);
            assert(prev.len() == i as int);
            assert(out@.len() == i + 1);
            assert(out.deep_view().len() == out@.len());
            assert forall|j: int| 0 <= j <= i as int implies out.deep_view()[j]
                == ids.deep_view()[j] by {
                if j < i as int {
                    assert(out@[j] == out@.take(i as int)[j]);
                    assert(out.deep_view()[j] == prev[j]);
                } else {
                    assert(out@[j] == s);
                    assert(out.deep_view()[j] == s@);
                }
            }
            assert(out.deep_view() =~~= ids.deep_view().take(i + 1));
        }
        i = i + 1;
    }
    proof {
        assert(ids.deep_view().take(ids@.len() as int) =~~= ids.deep_view());
    }
    Some(out)
}

/// Parse a semantic version from its characters. Returns the parsed version
/// exactly when the characters lie in the grammar; the result then carries
/// them as its `raw` field and satisfies the well-formedness invariant.
pub fn parse_version_chars(v: &[char]) -> (r: Option<Version>)
    ensures
        r is Some <==> spec_parse_version(v@) is Some,
        r is Some ==> r.unwrap()@ == spec_parse_version(v@).unwrap(),
        r is Some ==> r.unwrap().wf() && r.unwrap().raw@ == v@,
{
    match find_from(v, '-', 0) {
        None => {
            proof {
                lemma_first_none(v@, '-');
            }
            match parse_core(v) {
                Some(t) => {
                    let ver = Version {
                        major: t.0,
                        minor: t.1,
                        patch: t.2,
                        pre: Vec::new(),
                        raw: string_of(v),
                    };
                    proof {
                        assert(ver.pre.deep_view() =~~= Seq::<Seq<char>>::empty());
                        assert(ver@ =~~= spec_parse_version(v@).unwrap());
                    }
                    Some(ver)
                },
                None => None,
            }
        },
        Some(i) => {
            proof {
                lemma_first_at(v@, '-', i as int);
            }
            let n = v.len();
            let corev = subvec(v, 0, i);
            let prev = subvec(v, i + 1, n);
            proof {
                assert(corev@ =~= v@.take(i as int));
                assert(prev@ =~= v@.subrange(i + 1, v@.len() as int));
            }
            match parse_core(corev.as_slice()) {
                Some(t) => match parse_pre(prev.as_slice()) {
                    Some(ids) => {
                        let ver = Version {
                            major: t.0,
                            minor: t.1,
                            patch: t.2,
                            pre: ids,
                            raw: string_of(v),
                        };
                        proof {
                            assert(ver@ =~~= spec_parse_version(v@).unwrap());
                        }
                        Some(ver)
                    },
                    None => None,
                },
                None => None,
            }
        },
    }
}

/// Parse a semantic version string.
pub fn parse_version(s: &str) -> (r: Option<Version>)
    ensures
        r is Some <==> spec_parse_version(s@) is Some,
        r is Some ==> r.unwrap()@ == spec_parse_version(s@).unwrap(),
        r is Some ==> r.unwrap().wf() && r.unwrap().raw@ == s@,
{
    let cs = chars_of(s);
    parse_version_chars(cs.as_slice())
}

} // verus!

//! A semantic version as a plain value: the three numeric components and the
//! pre-release text. Ordering between versions is semantic-versioning
//! precedence, which is delegated to the `semver` crate; the grammar of the
//! pre-release text is checked here, so that every well-formed `Version` can
//! be handed to that crate.

use vstd::prelude::*;
use vstd::string::StrSliceExecFns;

verus! {

/// The mathematical value of a [`Version`]: its numeric components and the
/// characters of its pre-release text.
pub ghost struct VersionView {
    pub major: int,
    pub minor: int,
    pub patch: int,
    pub pre: Seq<char>,
}

/// The three-way outcome of comparing two versions by semantic-versioning
/// precedence.
#[derive(Clone, Copy, PartialEq, Eq, Structural, Debug)]
pub enum VersionOrder {
    Less,
    Equal,
    Greater,
}

/// How two version values compare under semantic-versioning precedence
/// (major, minor and patch numerically, then the pre-release rules). The
/// order itself is the `semver` crate's; this name stands for its result.
pub uninterp spec fn version_cmp_of(a: VersionView, b: VersionView) -> VersionOrder;

/// A semantic version: `major.minor.patch`, optionally followed by a
/// pre-release suffix such as `alpha.1`. Build metadata never affects
/// precedence and is not carried. The derived ordering traits give a
/// deterministic structural order, not the precedence order.
#[derive(Clone, PartialEq, Eq, PartialOrd, Ord, Hash, Debug)]
pub struct Version {
    pub major: u64,
    pub minor: u64,
    pub patch: u64,
    /// Empty when the version is a plain release.
    pub pre: String,
}

impl View for Version {
    type V = VersionView;

    open spec fn view(&self) -> VersionView {
        VersionView {
            major: self.major as int,
            minor: self.minor as int,
            patch: self.patch as int,
            pre: self.pre@,
        }
    }
}

pub open spec fn is_digit(c: char) -> bool {
    '0' <= c && c <= '9'
}

pub open spec fn is_ident_char(c: char) -> bool {
    ||| is_digit(c)
    ||| 'a' <= c && c <= 'z'
    ||| 'A' <= c && c <= 'Z'
    ||| c == '-'
}

/// `s[a..b]` is one valid pre-release identifier: nonempty, only ASCII
/// alphanumerics and hyphens, and no leading zero when it is all digits.
pub open spec fn valid_ident_range(s: Seq<char>, a: int, b: int) -> bool {
    &&& 0 <= a < b <= s.len()
    &&& forall|k: int| a <= k < b ==> is_ident_char(#[trigger] s[k])
    &&& (b - a > 1 && (forall|k: int| a <= k < b ==> is_digit(#[trigger] s[k])) ==> s[a] != '0')
}

/// The end of the identifier that starts at `i`: the first position at or
/// after `i` holding a dot, or the end of the text.
pub open spec fn ident_end(s: Seq<char>, i: int) -> int
    decreases s.len() - i when 0 <= i <= s.len()
{
    if i >= s.len() || s[i] == '.' {
        i
    } else {
        ident_end(s, i + 1)
    }
}

/// Position `i` starts a dot-separated segment.
pub open spec fn seg_start(s: Seq<char>, i: int) -> bool {
    i == 0 || s[i - 1] == '.'
}

/// The grammar of a pre-release suffix: empty, or dot-separated identifiers,
/// each nonempty, made of ASCII alphanumerics and hyphens, with no leading
/// zero in an all-digit identifier.
pub open spec fn valid_prerelease(s: Seq<char>) -> bool {
    s.len() == 0 || {
        &&& s[s.len() - 1] != '.'
        &&& forall|i: int|
            0 <= i < s.len() && #[trigger] seg_start(s, i) ==> valid_ident_range(
                s,
                i,
                ident_end(s, i),
            )
    }
}

impl Version {
    /// The version is well-formed: its pre-release text obeys the grammar.
    pub open spec fn wf(&self) -> bool {
        valid_prerelease(self.pre@)
    }

    /// Builds a version, accepting exactly the pre-release texts that obey
    /// the grammar.
    pub fn new(major: u64, minor: u64, patch: u64, pre: String) -> (r: Option<Version>)
        ensures
            r is Some <==> valid_prerelease(pre@),
            r matches Some(v) ==> v.wf() && v@ == (VersionView {
                major: major as int,
                minor: minor as int,
                patch: patch as int,
                pre: pre@,
            }),
    {
        if check_prerelease(pre.as_str()) {
            Some(Version { major, minor, patch, pre })
        } else {
            None
        }
    }
}

fn is_digit_exec(c: char) -> (r: bool)
    ensures
        r == is_digit(c),
{
    '0' <= c && c <= '9'
}

fn is_ident_char_exec(c: char) -> (r: bool)
    ensures
        r == is_ident_char(c),
{
    is_digit_exec(c) || ('a' <= c && c <= 'z') || ('A' <= c && c <= 'Z') || c == '-'
}

proof fn lemma_ident_end_agrees(s: Seq<char>, i: int, j: int)
    requires
        0 <= i <= j <= s.len(),
        forall|k: int| i <= k < j ==> #[trigger] s[k] != '.',
        j == s.len() || s[j] == '.',
    ensures
        ident_end(s, i) == j,
    decreases j - i,
{
    if i < j {
        lemma_ident_end_agrees(s, i + 1, j);
    }
}

/// Decides the pre-release grammar.
pub fn check_prerelease(s: &str) -> (r: bool)
    ensures
        r == valid_prerelease(s@),
{
    let n: usize = s.unicode_len();
    if n == 0 {
        return true;
    }
    let mut i: usize = 0;
    loop
        invariant
            n == s@.len(),
            0 < n,
            i <= n,
            i == 0 || s@[i - 1] == '.',
            forall|k: int|
                0 <= k < i && #[trigger] seg_start(s@, k) ==> valid_ident_range(
                    s@,
                    k,
                    ident_end(s@, k),
                ),
        decreases n - i,
    {
        if i == n {
            // The text ends in a dot: the final segment is empty.
            assert(s@[n - 1] == '.');
            return false;
        }
        let mut j: usize = i;
        let mut all_ident: bool = true;
        let mut all_digit: bool = true;
        loop
            invariant
                n == s@.len(),
                i <= j <= n,
                forall|k: int| i <= k < j ==> #[trigger] s@[k] != '.',
                all_ident == (forall|k: int| i <= k < j ==> is_ident_char(#[trigger] s@[k])),
                all_digit == (forall|k: int| i <= k < j ==> is_digit(#[trigger] s@[k])),
            ensures
                i <= j <= n,
                j == n || s@[j as int] == '.',
                forall|k: int| i <= k < j ==> #[trigger] s@[k] != '.',
                all_ident == (forall|k: int| i <= k < j ==> is_ident_char(#[trigger] s@[k])),
                all_digit == (forall|k: int| i <= k < j ==> is_digit(#[trigger] s@[k])),
            decreases n - j,
        {
            if j == n {
                break;
            }
            let c: char = s.get_char(j);
            if c == '.' {
                break;
            }
            all_ident = all_ident && is_ident_char_exec(c);
            all_digit = all_digit && is_digit_exec(c);
            j = j + 1;
        }
        proof {
            lemma_ident_end_agrees(s@, i as int, j as int);
        }
        let seg_ok: bool = j > i && all_ident && !(all_digit && j - i > 1 && s.get_char(i) == '0');
        assert(seg_ok == valid_ident_range(s@, i as int, j as int));
        if !seg_ok {
            assert(seg_start(s@, i as int));
            assert(!valid_prerelease(s@));
            return false;
        }
        if j == n {
            assert(s@[n - 1] != '.');
            assert forall|k: int|
                0 <= k < n && #[trigger] seg_start(s@, k) implies valid_ident_range(
                s@,
                k,
                ident_end(s@, k),
            ) by {
                if i < k {
                    assert(s@[k - 1] != '.');
                }
            }
            return true;
        }
        proof {
            assert forall|k: int|
                0 <= k < j + 1 && #[trigger] seg_start(s@, k) implies valid_ident_range(
                s@,
                k,
                ident_end(s@, k),
            ) by {
                if i < k {
                    assert(s@[k - 1] != '.');
                }
            }
        }
        i = j + 1;
    }
}

/// Relies on `semver::Prerelease::new`, which accepts exactly the texts that
/// `valid_prerelease` admits, and on `semver::Version::cmp_precedence`, which
/// orders versions by semantic-versioning precedence — major, minor and patch
/// numerically, then the pre-release rules — ignoring build metadata (none is
/// carried here).
#[verifier::external_body]
pub(crate) fn semver_cmp(a: &Version, b: &Version) -> (r: VersionOrder)
    requires
        a.wf(),
        b.wf(),
    ensures
        r == version_cmp_of(a@, b@),
{
    let pa = semver::Prerelease::new(&a.pre).unwrap();
    let pb = semver::Prerelease::new(&b.pre).unwrap();
    let av = semver::Version { major: a.major, minor: a.minor, patch: a.patch, pre: pa, build: semver::BuildMetadata::EMPTY };
    let bv = semver::Version { major: b.major, minor: b.minor, patch: b.patch, pre: pb, build: semver::BuildMetadata::EMPTY };
    match av.cmp_precedence(&bv) {
        std::cmp::Ordering::Less => VersionOrder::Less,
        std::cmp::Ordering::Equal => VersionOrder::Equal,
        std::cmp::Ordering::Greater => VersionOrder::Greater,
    }
}

} // verus!

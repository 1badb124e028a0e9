use vstd::prelude::*;

use crate::text::{decimal, push_decimal};

verus! {

#[verifier::external_type_specification]
#[verifier::external_body]
pub struct ExSemverVersion(semver::Version);

#[verifier::external_type_specification]
#[verifier::external_body]
pub struct ExSemverError(semver::Error);

/// semver's `Clone` for its `Version`; nothing is stated of the copy, which
/// the library only carries.
pub assume_specification[ <semver::Version as Clone>::clone ](v: &semver::Version) -> semver::Version;

/// The parts of a semantic version: `major.minor.patch-pre+build`, where an
/// empty `pre` or `build` is left out.
pub struct VersionParts {
    pub major: u64,
    pub minor: u64,
    pub patch: u64,
    pub pre: Seq<char>,
    pub build: Seq<char>,
}

/// How one version stands to another in semver's order.
#[derive(PartialEq, Eq, Structural, Debug, Clone, Copy)]
pub enum VersionOrder {
    Less,
    Equal,
    Greater,
}

/// The version that semver's `Version::parse` reads from `text`, if it
/// accepts the text.
pub uninterp spec fn semver_parse(text: Seq<char>) -> Option<VersionParts>;

/// semver's total order on versions (its `Ord` for `Version`).
pub uninterp spec fn semver_order(a: VersionParts, b: VersionParts) -> VersionOrder;

/// The text semver writes for a version (its `Display`).
pub open spec fn version_text(v: VersionParts) -> Seq<char> {
    decimal(v.major as nat) + seq!['.'] + decimal(v.minor as nat) + seq!['.'] + decimal(
        v.patch as nat,
    ) + (if v.pre.len() > 0 {
        seq!['-'] + v.pre
    } else {
        Seq::empty()
    }) + (if v.build.len() > 0 {
        seq!['+'] + v.build
    } else {
        Seq::empty()
    })
}

/// The order of the numeric triples `(major, minor, patch)`.
pub open spec fn triple_less(a: VersionParts, b: VersionParts) -> bool {
    ||| a.major < b.major
    ||| a.major == b.major && a.minor < b.minor
    ||| a.major == b.major && a.minor == b.minor && a.patch < b.patch
}

/// The same numeric triple.
pub open spec fn same_triple(a: VersionParts, b: VersionParts) -> bool {
    a.major == b.major && a.minor == b.minor && a.patch == b.patch
}

/// A semantic version, as the library reads it: its numbers and its
/// pre-release and build texts. Each one also keeps the semver value that
/// its parts were read from; no function changes one without the other.
#[derive(Debug)]
pub struct SemanticVersion {
    major: u64,
    minor: u64,
    patch: u64,
    pre: String,
    build: String,
    raw: semver::Version,
}

impl View for SemanticVersion {
    type V = VersionParts;

    closed spec fn view(&self) -> VersionParts {
        VersionParts {
            major: self.major,
            minor: self.minor,
            patch: self.patch,
            pre: self.pre@,
            build: self.build@,
        }
    }
}

impl SemanticVersion {
    /// semver's `Version::parse`: reads `major.minor.patch`, then an
    /// optional `-pre` and `+build`. The contract names what it returns:
    /// whether it accepts `text` and which version it reads depend on `text`
    /// alone. The parser takes numbers without leading zeros and keeps the
    /// pre-release and build texts as written, so what it accepts is exactly
    /// what semver writes back for the version it reads.
    #[verifier::external_body]
    pub(crate) fn parse(text: &str) -> (r: Result<SemanticVersion, semver::Error>)
        ensures
            r is Ok <==> semver_parse(text@) is Some,
            r matches Ok(v) ==> semver_parse(text@) == Some(v@),
            r matches Ok(v) ==> version_text(v@) == text@,
    {
        match semver::Version::parse(text) {
            Ok(v) => Ok(
                SemanticVersion {
                    major: v.major,
                    minor: v.minor,
                    patch: v.patch,
                    pre: v.pre.as_str().to_string(),
                    build: v.build.as_str().to_string(),
                    raw: v,
                },
            ),
            Err(e) => Err(e),
        }
    }

    /// The text semver writes for this version (its `Display`):
    /// `major.minor.patch`, then `-pre` and `+build` where those are not
    /// empty.
    pub fn to_text(&self) -> (r: String)
        ensures
            r@ == version_text(self@),
    {
        let mut r = String::new();
        push_decimal(&mut r, self.major);
        r.append(".");
        push_decimal(&mut r, self.minor);
        r.append(".");
        push_decimal(&mut r, self.patch);
        if !self.pre.as_str().is_empty() {
            r.append("-");
            r.append(self.pre.as_str());
        }
        if !self.build.as_str().is_empty() {
            r.append("+");
            r.append(self.build.as_str());
        }
        proof {
            reveal_strlit(".");
            reveal_strlit("-");
            reveal_strlit("+");
            assert(r@ =~= version_text(self@));
        }
        r
    }

    /// semver's `Ord` for `Version`. Its documentation states that the
    /// order is total, that the numeric triples are compared first, and that
    /// a pre-release comes before the release of the same triple; `Equal`
    /// comes only from two versions with the same parts (`Ord` agrees with
    /// the derived `Eq`). How two pre-release or build texts compare is left
    /// to the name `semver_order`.
    #[verifier::external_body]
    pub(crate) fn precedence(&self, other: &SemanticVersion) -> (r: VersionOrder)
        ensures
            r == semver_order(self@, other@),
            r == VersionOrder::Equal <==> self@ == other@,
            triple_less(self@, other@) ==> r == VersionOrder::Less,
            triple_less(other@, self@) ==> r == VersionOrder::Greater,
            same_triple(self@, other@) && self@.pre.len() > 0 && other@.pre.len() == 0 ==> r
                == VersionOrder::Less,
            same_triple(self@, other@) && self@.pre.len() == 0 && other@.pre.len() > 0 ==> r
                == VersionOrder::Greater,
    {
        match self.raw.cmp(&other.raw) {
            std::cmp::Ordering::Less => VersionOrder::Less,
            std::cmp::Ordering::Equal => VersionOrder::Equal,
            std::cmp::Ordering::Greater => VersionOrder::Greater,
        }
    }

    /// The major number.
    pub fn major(&self) -> (r: u64)
        ensures
            r == self@.major,
    {
        self.major
    }

    /// The minor number.
    pub fn minor(&self) -> (r: u64)
        ensures
            r == self@.minor,
    {
        self.minor
    }

    /// The patch number.
    pub fn patch(&self) -> (r: u64)
        ensures
            r == self@.patch,
    {
        self.patch
    }

    /// The pre-release text (empty for a release).
    pub fn pre(&self) -> (r: &str)
        ensures
            r@ == self@.pre,
    {
        self.pre.as_str()
    }

    /// The build metadata text (empty when there is none).
    pub fn build(&self) -> (r: &str)
        ensures
            r@ == self@.build,
    {
        self.build.as_str()
    }

    /// semver's `Eq` for `Version` (derived): all parts alike.
    pub fn same(&self, other: &SemanticVersion) -> (r: bool)
        ensures
            r == (self@ == other@),
    {
        let r = self.major == other.major && self.minor == other.minor && self.patch
            == other.patch && self.pre == other.pre && self.build == other.build;
        proof {
            if r {
                assert(self@ == other@);
            }
        }
        r
    }

    /// A copy of this version.
    pub fn duplicate(&self) -> (r: SemanticVersion)
        ensures
            r@ == self@,
    {
        SemanticVersion {
            major: self.major,
            minor: self.minor,
            patch: self.patch,
            pre: self.pre.clone(),
            build: self.build.clone(),
            raw: self.raw.clone(),
        }
    }
}

} // verus!

verus! {

impl SemanticVersion {
    /// This version's place in semver's order against `other`, as std's
    /// `Ordering`.
    pub fn order_against(&self, other: &SemanticVersion) -> (r: std::cmp::Ordering)
        ensures
            (r == std::cmp::Ordering::Less) == (semver_order(self@, other@) == VersionOrder::Less),
            (r == std::cmp::Ordering::Equal) == (semver_order(self@, other@)
                == VersionOrder::Equal),
            (r == std::cmp::Ordering::Greater) == (semver_order(self@, other@)
                == VersionOrder::Greater),
    {
        match self.precedence(other) {
            VersionOrder::Less => std::cmp::Ordering::Less,
            VersionOrder::Equal => std::cmp::Ordering::Equal,
            VersionOrder::Greater => std::cmp::Ordering::Greater,
        }
    }
}

/// The parts of each version in a list.
pub open spec fn parts_of(versions: Seq<&SemanticVersion>) -> Seq<VersionParts> {
    versions.map_values(|v: &SemanticVersion| v@)
}

/// Each version is at most every one after it in semver's order.
pub open spec fn is_sorted(versions: Seq<VersionParts>) -> bool {
    forall|i: int, j: int|
        0 <= i < j < versions.len() ==> semver_order(versions[i], versions[j])
            != VersionOrder::Greater
}

/// Each version is less than the next in semver's order.
pub open spec fn is_ascending(versions: Seq<VersionParts>) -> bool {
    forall|i: int, j: int|
        0 <= i && j == i + 1 && j < versions.len() ==> #[trigger] semver_order(
            versions[i],
            versions[j],
        ) == VersionOrder::Less
}

/// Sorts versions in semver's order; each version then comes before the
/// next one unless the two are alike.
pub(crate) fn sort_versions(versions: &mut Vec<&SemanticVersion>)
    ensures
        parts_of(final(versions)@).to_multiset() == parts_of(old(versions)@).to_multiset(),
        final(versions)@.len() == old(versions)@.len(),
        is_sorted(parts_of(final(versions)@)),
        forall|i: int, j: int|
            0 <= i && j == i + 1 && j < final(versions)@.len() && final(versions)@[i]@
                != final(versions)@[j]@ ==> #[trigger] semver_order(
                parts_of(final(versions)@)[i],
                parts_of(final(versions)@)[j],
            ) == VersionOrder::Less,
{
    sort_by_precedence(versions);
    let n = versions.len();
    let mut i: usize = 0;
    while i < n && i + 1 < n
        invariant
            n == versions@.len(),
            i <= n,
            is_sorted(parts_of(versions@)),
            forall|k: int, l: int|
                0 <= k && l == k + 1 && l <= i && l < n && versions@[k]@ != versions@[l]@
                    ==> #[trigger] semver_order(parts_of(versions@)[k], parts_of(versions@)[l])
                    == VersionOrder::Less,
        decreases n - i,
    {
        let order = versions[i].precedence(versions[i + 1]);
        proof {
            let parts = parts_of(versions@);
            assert(parts[i as int] == versions@[i as int]@);
            assert(parts[i + 1] == versions@[i + 1]@);
            assert(semver_order(parts[i as int], parts[i + 1]) != VersionOrder::Greater);
            assert(order == semver_order(parts[i as int], parts[i + 1]));
        }
        i = i + 1;
    }
}

/// std's `slice::sort_by`, ordering by semver's `Ord` (through
/// `order_against`). std documents that it sorts the slice in place, in
/// ascending order of the comparison, which here is a total order: the
/// same versions come out, each at most every later one.
#[verifier::external_body]
pub(crate) fn sort_by_precedence(versions: &mut Vec<&SemanticVersion>)
    ensures
        parts_of(final(versions)@).to_multiset() == parts_of(old(versions)@).to_multiset(),
        final(versions)@.len() == old(versions)@.len(),
        is_sorted(parts_of(final(versions)@)),
{
    versions.sort_by(|a, b| a.order_against(b));
}

} // verus!

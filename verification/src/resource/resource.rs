use vstd::prelude::*;

use crate::assoc::lookup;
use crate::npm::npm::{at_or_after, version_keys, Metadata};
use crate::text::{trim_end_newlines, trim_trailing_newlines};
use crate::version::{
    is_ascending, is_sorted, parts_of, semver_order, semver_parse, version_text, SemanticVersion,
    VersionOrder, VersionParts,
};

verus! {

/// What concourse hands the resource: the current version, the source
/// configuration and the step parameters.
pub struct Payload {
    pub version: Option<CheckVersion>,
    pub source: Source,
    pub params: Option<Params>,
}

/// The resource's source configuration.
pub struct Source {
    pub registry: String,
    pub package_name: String,
    pub username: Option<String>,
    pub password: Option<String>,
    pub email: Option<String>,
    pub token: Option<String>,
    pub auth_type: String,
    pub tag: String,
}

/// The parameters of a `put` step.
pub struct Params {
    pub version: Option<String>,
    pub package_name: Option<String>,
    pub package: Option<String>,
}

/// A version as concourse sees it.
pub struct CheckVersion {
    pub version: SemanticVersion,
}

/// Where the version of a `put` comes from: the parameter itself when it
/// reads as a semantic version (written back in semver's form), else a file
/// at that relative path.
pub enum VersionSource {
    Exact(String),
    File(String),
}

/// What a `put` does: publish the package found at `package` (a path in
/// the put folder) with these package.json overrides, or tag an already
/// published version.
pub enum OutAction {
    Publish { package: String, overrides: Vec<(String, String)> },
    Tag { version: String },
}

/// Why a `put` cannot go ahead.
#[derive(Debug, PartialEq, Eq, Structural)]
pub enum OutError {
    /// Tagging without a version to tag.
    MissingVersion,
}

/// The texts of a list of text pairs.
pub open spec fn text_pairs(pairs: Seq<(String, String)>) -> Seq<(Seq<char>, Seq<char>)> {
    pairs.map_values(|p: (String, String)| (p.0@, p.1@))
}

/// The package.json fields a publish overrides: `version`, when a version
/// is given, then `name`, when a package name is given.
pub open spec fn expected_overrides(version: Option<String>, name: Option<String>) -> Seq<
    (Seq<char>, Seq<char>),
> {
    (match version {
        Some(v) => seq![("version"@, v@)],
        None => Seq::empty(),
    }) + (match name {
        Some(n) => seq![("name"@, n@)],
        None => Seq::empty(),
    })
}

/// The publish overrides hold `("version", v)` first whenever a version `v`
/// is given, whatever the package name, and end with `("name", n)` exactly
/// when a package name `n` is given; nothing else.
pub proof fn lemma_overrides_law(version: Option<String>, name: Option<String>)
    ensures
        expected_overrides(version, name).len() == (if version is Some {
            1int
        } else {
            0int
        }) + (if name is Some {
            1int
        } else {
            0int
        }),
        version matches Some(v) ==> expected_overrides(version, name)[0] == ("version"@, v@),
        name matches Some(n) ==> expected_overrides(version, name).last() == ("name"@, n@),
{
}

/// A text that does not read as a semantic version.
#[derive(Debug)]
pub enum CheckVersionError {
    InvalidVersion,
}

/// The registry used when the source names none.
pub fn default_registry() -> (r: String)
    ensures
        r@ == "https://registry.npmjs.org/"@,
{
    String::from_str("https://registry.npmjs.org/")
}

/// The authentication used when the source names none.
pub fn default_auth_type() -> (r: String)
    ensures
        r@ == "anonymous"@,
{
    String::from_str("anonymous")
}

/// The dist-tag followed when the source names none.
pub fn default_tag() -> (r: String)
    ensures
        r@ == "latest"@,
{
    String::from_str("latest")
}

/// The parts of each version in a list of check versions.
pub open spec fn check_parts(versions: Seq<CheckVersion>) -> Seq<VersionParts> {
    versions.map_values(|c: CheckVersion| c.version@)
}

/// `top` is among `keys` and every other key comes at or before it.
pub open spec fn is_greatest(keys: Seq<VersionParts>, top: VersionParts) -> bool {
    &&& keys.contains(top)
    &&& forall|k: VersionParts|
        #[trigger] keys.contains(k) ==> k == top || semver_order(k, top) != VersionOrder::Greater
}

impl CheckVersion {
    /// Reads a check version from text.
    pub fn new(version: &str) -> (r: Result<CheckVersion, CheckVersionError>)
        ensures
            match r {
                Ok(c) => semver_parse(version@) == Some(c.version@),
                Err(_) => semver_parse(version@) is None,
            },
    {
        match SemanticVersion::parse(version) {
            Ok(v) => Ok(CheckVersion { version: v }),
            Err(_) => Err(CheckVersionError::InvalidVersion),
        }
    }

    /// A check version for `ver`.
    pub fn from_semver(ver: &SemanticVersion) -> (r: CheckVersion)
        ensures
            r.version@ == ver@,
    {
        CheckVersion { version: ver.duplicate() }
    }
}

/// Check versions for each of `versions`, in the same order.
fn check_versions_of(versions: &Vec<&SemanticVersion>) -> (r: Vec<CheckVersion>)
    ensures
        check_parts(r@) == parts_of(versions@),
{
    let mut r: Vec<CheckVersion> = Vec::new();
    let n = versions.len();
    let mut i: usize = 0;
    while i < n
        invariant
            n == versions@.len(),
            i <= n,
            check_parts(r@) == parts_of(versions@).take(i as int),
        decreases n - i,
    {
        let c = CheckVersion::from_semver(versions[i]);
        let ghost before = r@;
        r.push(c);
        proof {
            assert(check_parts(r@) =~= check_parts(before).push(c.version@));
            assert(parts_of(versions@).take(i + 1) =~= parts_of(versions@).take(i as int).push(
                versions@[i as int]@,
            ));
        }
        i = i + 1;
    }
    proof {
        assert(parts_of(versions@).take(n as int) =~= parts_of(versions@));
    }
    r
}

impl Source {
    /// The versions a `check` reports, given the package manifest the
    /// registry served and the version concourse last saw. With the tag
    /// `semver`: the greatest published version when none was seen, else
    /// every published version at or after the one seen, each once and
    /// before the next. With any
    /// other tag: the version that tag points to, if any.
    pub fn check(&self, package: &Metadata, version: &Option<CheckVersion>) -> (r: Vec<
        CheckVersion,
    >)
        requires
            self.tag@ == "semver"@ && version is None ==> package.versions_of().len() > 0,
        ensures
            self.tag@ == "semver"@ ==> match version {
                None => r@.len() == 1 && is_greatest(
                    version_keys(package.versions_of()),
                    r@[0].version@,
                ),
                Some(seen) => check_parts(r@).to_multiset() == version_keys(
                    package.versions_of(),
                ).filter(at_or_after(seen.version@)).to_multiset() && is_sorted(
                    check_parts(r@),
                ) && check_parts(r@).no_duplicates() && is_ascending(check_parts(r@)) && (forall|
                    w: VersionParts,
                |
                    check_parts(r@).contains(w) <==> (version_keys(package.versions_of()).contains(
                        w,
                    ) && semver_order(w, seen.version@) != VersionOrder::Less)),
            },
            self.tag@ != "semver"@ ==> match lookup(package.dist_tags_of(), self.tag@) {
                Some(tagged) => r@.len() == 1 && r@[0].version@ == tagged@,
                None => r@.len() == 0,
            },
    {
        let semver_tag = String::from_str("semver");
        if self.tag == semver_tag {
            match version {
                None => {
                    let sorted = package.get_sorted_versions();
                    let last = sorted[sorted.len() - 1];
                    let c = CheckVersion::from_semver(last);
                    proof {
                        broadcast use vstd::seq_lib::group_to_multiset_ensures;

                        let keys = version_keys(package.versions_of());
                        let parts = parts_of(sorted@);
                        let top = parts[parts.len() - 1];
                        assert(parts.contains(top));
                        assert(keys.to_multiset().count(top) > 0);
                        assert forall|k: VersionParts| #[trigger]
                            keys.contains(k) implies k == top || semver_order(k, top)
                            != VersionOrder::Greater by {
                            assert(parts.to_multiset().count(k) > 0);
                            let i = choose|i: int| 0 <= i < parts.len() && parts[i] == k;
                            if i < parts.len() - 1 {
                                assert(semver_order(parts[i], parts[parts.len() - 1])
                                    != VersionOrder::Greater);
                            }
                        }
                    }
                    let mut r: Vec<CheckVersion> = Vec::new();
                    r.push(c);
                    r
                },
                Some(seen) => {
                    let after = package.get_version_after(&seen.version);
                    check_versions_of(&after)
                },
            }
        } else {
            match package.get_tag_version(self.tag.as_str()) {
                Some(v) => {
                    let mut r: Vec<CheckVersion> = Vec::new();
                    r.push(CheckVersion::from_semver(v));
                    r
                },
                None => Vec::new(),
            }
        }
    }
}

impl Params {
    /// The package.json fields a publish overrides: the version, when one
    /// is given, then the package name, when the parameters name one.
    pub fn overrides(&self, version: &Option<String>) -> (r: Vec<(String, String)>)
        ensures
            text_pairs(r@) == expected_overrides(*version, self.package_name),
            r@.len() == (if version is Some {
                1int
            } else {
                0int
            }) + (if self.package_name is Some {
                1int
            } else {
                0int
            }),
            version matches Some(v) ==> r@[0].0@ == "version"@ && r@[0].1@ == v@,
            self.package_name matches Some(n) ==> r@.last().0@ == "name"@ && r@.last().1@ == n@,
    {
        let mut r: Vec<(String, String)> = Vec::new();
        match version {
            Some(v) => r.push((String::from_str("version"), v.clone())),
            None => {},
        }
        let ghost first = r@;
        match &self.package_name {
            Some(n) => r.push((String::from_str("name"), n.clone())),
            None => {},
        }
        proof {
            assert(text_pairs(first) =~= match *version {
                Some(v) => seq![("version"@, v@)],
                None => Seq::empty(),
            });
            assert(text_pairs(r@) =~= expected_overrides(*version, self.package_name));
            lemma_overrides_law(*version, self.package_name);
            assert(text_pairs(r@).len() == r@.len());
            if r@.len() > 0 {
                assert(text_pairs(r@)[0] == (r@[0].0@, r@[0].1@));
                assert(text_pairs(r@).last() == (r@.last().0@, r@.last().1@));
            }
        }
        r
    }

    /// What a `put` does: with a package, publish it with the overrides of
    /// these parameters; without one, tag the given version, which must
    /// then be there.
    pub fn out_action(&self, version: &Option<String>) -> (r: Result<OutAction, OutError>)
        ensures
            match self.package {
                Some(p) => r matches Ok(OutAction::Publish { package, overrides }) && package@
                    == p@ && text_pairs(overrides@) == expected_overrides(
                    *version,
                    self.package_name,
                ),
                None => match *version {
                    Some(v) => r matches Ok(OutAction::Tag { version: t }) && t@ == v@,
                    None => r == Err::<OutAction, OutError>(OutError::MissingVersion),
                },
            },
    {
        match &self.package {
            Some(p) => Ok(OutAction::Publish { package: p.clone(), overrides: self.overrides(version) }),
            None => match version {
                Some(v) => Ok(OutAction::Tag { version: v.clone() }),
                None => Err(OutError::MissingVersion),
            },
        }
    }

    /// What the `version` parameter stands for: a semantic version, given
    /// back in semver's form, or else the relative path of a file that holds
    /// the version.
    pub fn extract_version(&self) -> (r: Option<VersionSource>)
        ensures
            match self.version {
                None => r is None,
                Some(key) => match semver_parse(key@) {
                    Some(parts) => r matches Some(VersionSource::Exact(text)) && text@
                        == version_text(parts) && text@ == key@,
                    None => r matches Some(VersionSource::File(path)) && path@ == key@,
                },
            },
    {
        match &self.version {
            None => None,
            Some(key) => match SemanticVersion::parse(key.as_str()) {
                Ok(v) => Some(VersionSource::Exact(v.to_text())),
                Err(_) => Some(VersionSource::File(key.clone())),
            },
        }
    }
}

/// The version that a version file holds: its text without the line breaks
/// at its end.
pub fn version_from_file(content: &str) -> (r: String)
    ensures
        r@ == trim_trailing_newlines(content@),
{
    trim_end_newlines(content)
}

} // verus!

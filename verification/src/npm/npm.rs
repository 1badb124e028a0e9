use vstd::prelude::*;

use crate::assoc::{
    find_string_key, insert_entry, insert_string_key, inserted, is_first_key_at, key_index,
    keys_distinct, lemma_inserted_distinct, lemma_key_index_at, lookup,
};
use crate::json::{json_get, json_str_field, JsonValue};
use crate::version::{
    is_ascending, is_sorted, parts_of, semver_order, sort_versions, SemanticVersion,
    VersionOrder, VersionParts,
};

verus! {

/// A package manifest as the registry serves it: the package name, its
/// dist-tags (tag to version) and its published versions (version to that
/// version's manifest), each version listed once.
pub struct Metadata {
    name: String,
    dist_tags: Vec<(String, SemanticVersion)>,
    versions: Vec<(SemanticVersion, JsonValue)>,
}

/// The parts of every published version, in the manifest's order.
pub open spec fn version_keys(versions: Seq<(SemanticVersion, JsonValue)>) -> Seq<VersionParts> {
    versions.map_values(|e: (SemanticVersion, JsonValue)| e.0@)
}

/// The tarball url that the manifest gives for `version`:
/// `versions[version]["dist"]["tarball"]`, when that is a JSON string.
pub open spec fn tarball_url_of(
    versions: Seq<(SemanticVersion, JsonValue)>,
    version: VersionParts,
) -> Option<Seq<char>> {
    match lookup(versions, version) {
        Some(manifest) => match json_get(manifest, "dist"@) {
            Some(dist) => json_str_field(dist, "tarball"@),
            None => None,
        },
        None => None,
    }
}

/// A version at or after `version` in semver's order.
pub open spec fn at_or_after(version: VersionParts) -> spec_fn(VersionParts) -> bool {
    |v: VersionParts| semver_order(v, version) != VersionOrder::Less
}

/// Filtering a sequence keeps, of each item, as many copies as the
/// multiset filter does.
proof fn lemma_filter_to_multiset(s: Seq<VersionParts>, keep: spec_fn(VersionParts) -> bool)
    ensures
        s.filter(keep).to_multiset() == s.to_multiset().filter(keep),
    decreases s.len(),
{
    broadcast use vstd::seq_lib::group_to_multiset_ensures;
    broadcast use vstd::multiset::group_multiset_axioms;

    if s.len() == 0 {
        assert(s.filter(keep) =~= Seq::empty());
        assert(s.to_multiset() =~= vstd::multiset::Multiset::empty());
        assert(s.filter(keep).to_multiset() =~= s.to_multiset().filter(keep));
    } else {
        let init = s.drop_last();
        let x = s.last();
        lemma_filter_to_multiset(init, keep);
        assert(init.push(x) =~= s);
        init.lemma_filter_push(x, keep);
        assert(s.filter(keep).to_multiset() =~= s.to_multiset().filter(keep));
    }
}

/// The tarball url of a version comes from the manifest entry of that very
/// version, alike in every part (numbers, pre-release and build): where the
/// versions are listed once and entry `i` is `version`, the url is entry
/// `i`'s `dist.tarball` string.
pub proof fn lemma_tarball_url_of_entry(
    versions: Seq<(SemanticVersion, JsonValue)>,
    version: VersionParts,
    i: int,
)
    requires
        keys_distinct(versions),
        0 <= i < versions.len(),
        versions[i].0@ == version,
    ensures
        tarball_url_of(versions, version) == match json_get(versions[i].1, "dist"@) {
            Some(dist) => json_str_field(dist, "tarball"@),
            None => None,
        },
{
    assert forall|j: int| 0 <= j < i implies versions[j].0@ != version by {
        assert(versions[j].0@ != versions[i].0@);
    }
    assert(is_first_key_at(versions, version, i));
    lemma_key_index_at(versions, version, i);
}

/// A version that no entry of the manifest is alike to, in every part, has
/// no tarball url, even where an entry shares its numbers.
pub proof fn lemma_tarball_url_of_absent(versions: Seq<(SemanticVersion, JsonValue)>, version: VersionParts)
    requires
        forall|i: int| 0 <= i < versions.len() ==> versions[i].0@ != version,
    ensures
        tarball_url_of(versions, version) is None,
{
    if key_index(versions, version) is Some {
        let k = key_index(versions, version)->0;
        assert(is_first_key_at(versions, version, k));
    }
}

/// The versions reported after a floor are exactly the published versions
/// that semver's order does not put before the floor: whenever `after`
/// holds, as a multiset, the published versions at or after `floor` (as
/// `get_version_after` gives them), a version is in `after` iff it is
/// published and not less than `floor` in semver's precedence (so a
/// pre-release of the floor's release, which comes before it, is left out).
pub proof fn lemma_versions_after_law(
    versions: Seq<(SemanticVersion, JsonValue)>,
    floor: VersionParts,
    after: Seq<VersionParts>,
)
    requires
        after.to_multiset() == version_keys(versions).filter(at_or_after(floor)).to_multiset(),
    ensures
        forall|w: VersionParts|
            after.contains(w) <==> (version_keys(versions).contains(w) && semver_order(w, floor)
                != VersionOrder::Less),
{
    broadcast use vstd::seq_lib::group_to_multiset_ensures;
    broadcast use vstd::multiset::group_multiset_axioms;

    let keys = version_keys(versions);
    lemma_filter_to_multiset(keys, at_or_after(floor));
    assert forall|w: VersionParts|
        after.contains(w) <==> (keys.contains(w) && semver_order(w, floor)
            != VersionOrder::Less) by {
        assert(after.to_multiset().count(w) == keys.to_multiset().filter(at_or_after(floor)).count(
            w,
        ));
    }
}

/// The versions at or after a floor are the sorted versions at or after it:
/// whenever `sorted` holds the published versions and `after` holds those
/// at or after `floor` (as `get_sorted_versions` and `get_version_after`
/// give them), `after` holds just the items of `sorted` at or after
/// `floor`.
pub proof fn lemma_versions_after_within_sorted(
    versions: Seq<(SemanticVersion, JsonValue)>,
    floor: VersionParts,
    sorted: Seq<VersionParts>,
    after: Seq<VersionParts>,
)
    requires
        sorted.to_multiset() == version_keys(versions).to_multiset(),
        after.to_multiset() == version_keys(versions).filter(at_or_after(floor)).to_multiset(),
    ensures
        after.to_multiset() == sorted.filter(at_or_after(floor)).to_multiset(),
{
    lemma_filter_to_multiset(sorted, at_or_after(floor));
    lemma_filter_to_multiset(version_keys(versions), at_or_after(floor));
}

/// A sequence holds no item twice when its multiset counts each item at
/// most once.
proof fn lemma_no_duplicates_of_counts(s: Seq<VersionParts>)
    requires
        forall|x: VersionParts| #[trigger] s.to_multiset().count(x) <= 1,
    ensures
        s.no_duplicates(),
{
    assert forall|x: VersionParts| s.to_multiset().contains(x) implies s.to_multiset().count(x)
        == 1 by {
        assert(s.to_multiset().count(x) <= 1);
    }
    s.lemma_multiset_has_no_duplicates_conv();
}

/// A sequence without duplicates counts each item at most once.
proof fn lemma_counts_of_no_duplicates(s: Seq<VersionParts>)
    requires
        s.no_duplicates(),
    ensures
        forall|x: VersionParts| #[trigger] s.to_multiset().count(x) <= 1,
{
    s.lemma_multiset_has_no_duplicates();
    assert forall|x: VersionParts| #[trigger] s.to_multiset().count(x) <= 1 by {
        if s.to_multiset().count(x) > 0 {
            assert(s.to_multiset().contains(x));
        }
    }
}

/// Sorted versions of which no two are alike, each less than the next
/// wherever two neighbours differ, are ascending.
proof fn lemma_ascending(r: Seq<&SemanticVersion>)
    requires
        parts_of(r).no_duplicates(),
        forall|i: int, j: int|
            0 <= i && j == i + 1 && j < r.len() && r[i]@ != r[j]@ ==> #[trigger] semver_order(
                parts_of(r)[i],
                parts_of(r)[j],
            ) == VersionOrder::Less,
    ensures
        is_ascending(parts_of(r)),
{
    let parts = parts_of(r);
    assert forall|i: int, j: int| 0 <= i && j == i + 1 && j < parts.len() implies #[trigger] semver_order(
        parts[i],
        parts[j],
    ) == VersionOrder::Less by {
        assert(parts[i] == r[i]@);
        assert(parts[j] == r[j]@);
        assert(parts[i] != parts[j]);
    }
}

/// Distinct version keys give distinct version parts.
proof fn lemma_distinct_keys(versions: Seq<(SemanticVersion, JsonValue)>)
    requires
        keys_distinct(versions),
    ensures
        version_keys(versions).no_duplicates(),
{
    let keys = version_keys(versions);
    assert forall|i: int, j: int| 0 <= i < keys.len() && 0 <= j < keys.len() && i != j implies keys[i]
        != keys[j] by {
        if i < j {
            assert(versions[i].0@ != versions[j].0@);
        } else {
            assert(versions[j].0@ != versions[i].0@);
        }
    }
}

/// Stores `value` under the version `key`, as a map's `insert` does.
fn insert_version(entries: &mut Vec<(SemanticVersion, JsonValue)>, key: SemanticVersion, value: JsonValue)
    ensures
        final(entries)@ == insert_entry(old(entries)@, key, value),
{
    match find_version(entries, &key) {
        Some(i) => {
            entries.set(i, (key, value));
        },
        None => {
            entries.push((key, value));
        },
    }
}

/// Finds the first published version alike to `version`.
fn find_version(versions: &Vec<(SemanticVersion, JsonValue)>, version: &SemanticVersion) -> (r:
    Option<usize>)
    ensures
        match r {
            Some(i) => key_index(versions@, version@) == Some(i as int),
            None => key_index(versions@, version@) is None,
        },
{
    let n = versions.len();
    let mut i: usize = 0;
    while i < n
        invariant
            n == versions@.len(),
            i <= n,
            forall|j: int| 0 <= j < i ==> versions@[j].0@ != version@,
        decreases n - i,
    {
        if versions[i].0.same(version) {
            proof {
                lemma_key_index_at(versions@, version@, i as int);
            }
            return Some(i);
        }
        i = i + 1;
    }
    proof {
        if key_index(versions@, version@) is Some {
            let k = key_index(versions@, version@)->0;
            assert(is_first_key_at(versions@, version@, k));
        }
    }
    None
}

impl Metadata {
    /// No version is listed twice.
    #[verifier::type_invariant]
    spec fn lists_each_version_once(self) -> bool {
        keys_distinct(self.versions@)
    }

    /// The package name.
    pub closed spec fn name_of(&self) -> Seq<char> {
        self.name@
    }

    /// The dist-tags: tag to version.
    pub closed spec fn dist_tags_of(&self) -> Seq<(String, SemanticVersion)> {
        self.dist_tags@
    }

    /// The published versions: version to its manifest.
    pub closed spec fn versions_of(&self) -> Seq<(SemanticVersion, JsonValue)> {
        self.versions@
    }

    /// A manifest from its name, dist-tags and versions, each list read as
    /// a map (as the registry's JSON objects are): a tag or version listed
    /// twice keeps its last value, at its first place.
    pub fn new(
        name: String,
        dist_tags: Vec<(String, SemanticVersion)>,
        versions: Vec<(SemanticVersion, JsonValue)>,
    ) -> (r: Metadata)
        ensures
            r.name_of() == name@,
            r.dist_tags_of() == inserted(dist_tags@),
            r.versions_of() == inserted(versions@),
    {
        let ghost tags_in = dist_tags@;
        let tag_count = dist_tags.len();
        let mut rest = dist_tags;
        let mut tags: Vec<(String, SemanticVersion)> = Vec::new();
        let mut i: usize = 0;
        while rest.len() > 0
            invariant
                tag_count == tags_in.len(),
                i <= tags_in.len(),
                rest@ == tags_in.skip(i as int),
                tags@ == inserted(tags_in.take(i as int)),
            decreases rest.len(),
        {
            let (k, v) = rest.remove(0);
            proof {
                assert(tags_in.take(i + 1).drop_last() =~= tags_in.take(i as int));
                assert(tags_in.skip(i as int)[0] == tags_in.take(i + 1).last());
                assert(tags_in.skip(i + 1) =~= tags_in.skip(i as int).remove(0));
            }
            insert_string_key(&mut tags, k, v);
            i = i + 1;
        }
        proof {
            assert(tags_in.take(i as int) =~= tags_in);
        }
        let ghost versions_in = versions@;
        let version_count = versions.len();
        let mut rest = versions;
        let mut listed: Vec<(SemanticVersion, JsonValue)> = Vec::new();
        let mut i: usize = 0;
        while rest.len() > 0
            invariant
                version_count == versions_in.len(),
                i <= versions_in.len(),
                rest@ == versions_in.skip(i as int),
                listed@ == inserted(versions_in.take(i as int)),
            decreases rest.len(),
        {
            let (k, v) = rest.remove(0);
            proof {
                assert(versions_in.take(i + 1).drop_last() =~= versions_in.take(i as int));
                assert(versions_in.skip(i as int)[0] == versions_in.take(i + 1).last());
                assert(versions_in.skip(i + 1) =~= versions_in.skip(i as int).remove(0));
            }
            insert_version(&mut listed, k, v);
            i = i + 1;
        }
        proof {
            assert(versions_in.take(i as int) =~= versions_in);
            lemma_inserted_distinct(versions_in);
        }
        Metadata { name, dist_tags: tags, versions: listed }
    }

    /// The package name.
    pub fn name(&self) -> (r: &str)
        ensures
            r@ == self.name_of(),
    {
        self.name.as_str()
    }

    /// The dist-tags: tag to version.
    pub fn dist_tags(&self) -> (r: &Vec<(String, SemanticVersion)>)
        ensures
            r@ == self.dist_tags_of(),
    {
        &self.dist_tags
    }

    /// The published versions: version to its manifest.
    pub fn versions(&self) -> (r: &Vec<(SemanticVersion, JsonValue)>)
        ensures
            r@ == self.versions_of(),
    {
        &self.versions
    }

    /// The tarball url of `version`: `versions[version].dist.tarball`.
    pub fn get_tarball_url(&self, version: &SemanticVersion) -> (r: Option<String>)
        ensures
            match r {
                Some(url) => tarball_url_of(self.versions_of(), version@) == Some(url@),
                None => tarball_url_of(self.versions_of(), version@) is None,
            },
            forall|i: int|
                0 <= i < self.versions_of().len() && self.versions_of()[i].0@ == version@ ==> (
                match r {
                    Some(url) => Some(url@),
                    None => None,
                }) == match json_get(self.versions_of()[i].1, "dist"@) {
                    Some(dist) => json_str_field(dist, "tarball"@),
                    None => None,
                },
            (forall|i: int|
                0 <= i < self.versions_of().len() ==> self.versions_of()[i].0@ != version@)
                ==> r is None,
    {
        proof {
            use_type_invariant(self);
            assert forall|i: int|
                0 <= i < self.versions@.len() && self.versions@[i].0@ == version@ implies tarball_url_of(
                self.versions@,
                version@,
            ) == match json_get(self.versions@[i].1, "dist"@) {
                Some(dist) => json_str_field(dist, "tarball"@),
                None => None,
            } by {
                lemma_tarball_url_of_entry(self.versions@, version@, i);
            }
            if forall|i: int| 0 <= i < self.versions@.len() ==> self.versions@[i].0@ != version@ {
                lemma_tarball_url_of_absent(self.versions@, version@);
            }
        }
        match find_version(&self.versions, version) {
            Some(i) => match self.versions[i].1.get("dist") {
                Some(dist) => match dist.get("tarball") {
                    Some(tarball) => match tarball.as_str() {
                        Some(url) => Some(url.to_owned()),
                        None => None,
                    },
                    None => None,
                },
                None => None,
            },
            None => None,
        }
    }

    /// The published versions that satisfy `keep`, in the manifest's
    /// order; `keep` is "at or after `floor`" when a floor is given.
    fn versions_from(&self, floor: Option<&SemanticVersion>) -> (r: Vec<&SemanticVersion>)
        ensures
            parts_of(r@) == (match floor {
                Some(f) => version_keys(self.versions@).filter(at_or_after(f@)),
                None => version_keys(self.versions@),
            }),
    {
        let ghost keys = version_keys(self.versions@);
        let mut r: Vec<&SemanticVersion> = Vec::new();
        let n = self.versions.len();
        let mut i: usize = 0;
        while i < n
            invariant
                n == self.versions@.len(),
                keys == version_keys(self.versions@),
                i <= n,
                parts_of(r@) == (match floor {
                    Some(f) => keys.take(i as int).filter(at_or_after(f@)),
                    None => keys.take(i as int),
                }),
            decreases n - i,
        {
            let v = &self.versions[i].0;
            proof {
                assert(keys.take(i + 1) =~= keys.take(i as int).push(v@));
                assert(keys.take(i as int).push(v@).drop_last() =~= keys.take(i as int));
            }
            let keep = match floor {
                Some(f) => match v.precedence(f) {
                    VersionOrder::Less => false,
                    _ => true,
                },
                None => true,
            };
            let ghost before = r@;
            if keep {
                r.push(v);
                proof {
                    assert(parts_of(r@) =~= parts_of(before).push(v@));
                }
            }
            proof {
                match floor {
                    Some(f) => {
                        keys.take(i as int).lemma_filter_push(v@, at_or_after(f@));
                    },
                    None => {},
                }
            }
            i = i + 1;
        }
        proof {
            assert(keys.take(n as int) =~= keys);
        }
        r
    }

    /// All published versions, sorted in semver's order: each comes once
    /// and before the next.
    pub fn get_sorted_versions(&self) -> (r: Vec<&SemanticVersion>)
        ensures
            parts_of(r@).to_multiset() == version_keys(self.versions_of()).to_multiset(),
            r@.len() == self.versions_of().len(),
            is_sorted(parts_of(r@)),
            parts_of(r@).no_duplicates(),
            is_ascending(parts_of(r@)),
    {
        let mut versions = self.versions_from(None);
        proof {
            assert(parts_of(versions@).len() == versions@.len());
            assert(version_keys(self.versions@).len() == self.versions@.len());
        }
        sort_versions(&mut versions);
        proof {
            use_type_invariant(self);
            let keys = version_keys(self.versions@);
            lemma_distinct_keys(self.versions@);
            lemma_counts_of_no_duplicates(keys);
            lemma_no_duplicates_of_counts(parts_of(versions@));
            lemma_ascending(versions@);
        }
        versions
    }

    /// The version that the dist-tag `tag` points to.
    pub fn get_tag_version(&self, tag: &str) -> (r: Option<&SemanticVersion>)
        ensures
            match r {
                Some(v) => lookup(self.dist_tags_of(), tag@) == Some(*v),
                None => lookup(self.dist_tags_of(), tag@) is None,
            },
    {
        match find_string_key(&self.dist_tags, tag) {
            Some(i) => Some(&self.dist_tags[i].1),
            None => None,
        }
    }

    /// The published versions at or after `version` in semver's order,
    /// sorted: each comes once and before the next.
    pub fn get_version_after(&self, version: &SemanticVersion) -> (r: Vec<&SemanticVersion>)
        ensures
            parts_of(r@).to_multiset() == version_keys(self.versions_of()).filter(
                at_or_after(version@),
            ).to_multiset(),
            is_sorted(parts_of(r@)),
            parts_of(r@).no_duplicates(),
            is_ascending(parts_of(r@)),
            forall|w: VersionParts|
                parts_of(r@).contains(w) <==> (version_keys(self.versions_of()).contains(w)
                    && semver_order(w, version@) != VersionOrder::Less),
    {
        let mut versions = self.versions_from(Some(version));
        sort_versions(&mut versions);
        proof {
            lemma_versions_after_law(self.versions@, version@, parts_of(versions@));
            broadcast use vstd::multiset::group_multiset_axioms;

            use_type_invariant(self);
            let keys = version_keys(self.versions@);
            lemma_distinct_keys(self.versions@);
            lemma_counts_of_no_duplicates(keys);
            lemma_filter_to_multiset(keys, at_or_after(version@));
            assert forall|x: VersionParts| #[trigger] parts_of(versions@).to_multiset().count(x)
                <= 1 by {
                assert(keys.to_multiset().count(x) <= 1);
            }
            lemma_no_duplicates_of_counts(parts_of(versions@));
            lemma_ascending(versions@);
        }
        versions
    }
}

} // verus!

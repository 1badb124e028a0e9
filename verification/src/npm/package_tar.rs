use vstd::prelude::*;

use crate::assoc::{
    insert_entry, is_first_key_at, lemma_key_index_at, lemma_lookup_insert_other,
    lemma_lookup_insert_same, lookup,
};
use crate::json::{
    json_document, json_get, json_str_field, lemma_json_get_alike, object_entries, parse_json,
    JsonValue, JsonView,
};
use crate::npm::package_json::{has_dist, PackageJson};
use crate::npm::package_name::{normalize_for_tarball, tarball_name};
use crate::npm::publish::{has_released_dist, is_attachment_of, PublishPayload};
use crate::npm::registry_client::RegistryClient;
use crate::text::{file_name, is_file_name, last_segment};

verus! {

/// A package tarball and the package.json it holds.
pub struct PackageTar {
    archive_path: String,
    package: PackageJson,
}

/// The fields of a package.json after each `(key, value)` of `values`, in
/// order, is stored as a JSON string.
pub open spec fn overridden(entries: Seq<(String, JsonValue)>, values: Seq<(String, String)>) -> Seq<
    (String, JsonValue),
>
    decreases values.len(),
{
    if values.len() == 0 {
        entries
    } else {
        insert_entry(
            overridden(entries, values.drop_last()),
            values.last().0,
            JsonValue::Str(values.last().1),
        )
    }
}

/// No key occurs twice among `values`.
pub open spec fn distinct_keys(values: Seq<(String, String)>) -> bool {
    forall|i: int, j: int| 0 <= i < j < values.len() ==> values[i].0@ != values[j].0@
}

/// With distinct keys, each overridden key reads its new value and every
/// other key reads what it read before.
pub proof fn lemma_overridden_lookup(entries: Seq<(String, JsonValue)>, values: Seq<(String, String)>)
    requires
        distinct_keys(values),
    ensures
        forall|i: int|
            0 <= i < values.len() ==> lookup(overridden(entries, values), values[i].0@) == Some(
                JsonValue::Str(values[i].1),
            ),
        forall|k: Seq<char>|
            (forall|i: int| 0 <= i < values.len() ==> values[i].0@ != k) ==> lookup(
                overridden(entries, values),
                k,
            ) == lookup(entries, k),
    decreases values.len(),
{
    if values.len() > 0 {
        let rest = values.drop_last();
        let last = values.last();
        let before = overridden(entries, rest);
        lemma_overridden_lookup(entries, rest);
        lemma_lookup_insert_same(before, last.0, JsonValue::Str(last.1));
        assert forall|i: int| 0 <= i < values.len() implies lookup(
            overridden(entries, values),
            values[i].0@,
        ) == Some(JsonValue::Str(values[i].1)) by {
            if i < values.len() - 1 {
                assert(rest[i] == values[i]);
                lemma_lookup_insert_other(before, last.0, JsonValue::Str(last.1), values[i].0@);
            }
        }
        assert forall|k: Seq<char>|
            (forall|i: int| 0 <= i < values.len() ==> values[i].0@ != k) implies lookup(
            overridden(entries, values),
            k,
        ) == lookup(entries, k) by {
            assert(values[values.len() - 1].0@ != k);
            lemma_lookup_insert_other(before, last.0, JsonValue::Str(last.1), k);
            assert forall|i: int| 0 <= i < rest.len() implies rest[i].0@ != k by {
                assert(rest[i] == values[i]);
            }
        }
    }
}

/// The text of the JSON string `package[key]`.
fn field_text<'a>(package: &'a JsonValue, key: &str) -> (r: &'a str)
    requires
        json_str_field(*package, key@) is Some,
    ensures
        json_str_field(*package, key@) == Some(r@),
{
    match package.get(key) {
        Some(field) => match field.as_str() {
            Some(s) => s,
            None => {
                proof {
                    assert(false);
                }
                ""
            },
        },
        None => {
            proof {
                assert(false);
            }
            ""
        },
    }
}

impl PackageTar {
    /// The archive path ends in a file name; the package.json is an object
    /// with a `dist`, and its name and version are those the document holds.
    #[verifier::type_invariant]
    spec fn is_described(self) -> bool {
        &&& is_file_name(last_segment(self.archive_path@))
        &&& self.package.value is Object
        &&& json_get(self.package.value, "dist"@) is Some
        &&& json_str_field(self.package.value, "name"@) == Some(self.package.name@)
        &&& json_str_field(self.package.value, "version"@) == Some(self.package.version@)
    }

    /// The path of the tarball.
    pub closed spec fn archive_path_of(&self) -> Seq<char> {
        self.archive_path@
    }

    /// The package.json the tarball holds.
    pub closed spec fn package_of(&self) -> PackageJson {
        self.package
    }

    /// The path of the tarball.
    pub fn archive_path(&self) -> (r: &str)
        ensures
            r@ == self.archive_path_of(),
    {
        self.archive_path.as_str()
    }

    /// The package.json the tarball holds.
    pub fn package(&self) -> (r: &PackageJson)
        ensures
            *r == self.package_of(),
    {
        &self.package
    }

    /// The tarball at `archive_path` (bytes `archive`) that holds the
    /// package.json document `package_json`; its `dist` is set to describe
    /// the tarball as the registry will serve it, under the tarball's file
    /// name.
    pub fn from_file(
        registry: &RegistryClient,
        archive_path: String,
        package_json: JsonValue,
        archive: &[u8],
    ) -> (r: PackageTar)
        requires
            is_file_name(last_segment(archive_path@)),
            json_str_field(package_json, "name"@) is Some,
            json_str_field(package_json, "version"@) is Some,
        ensures
            r.archive_path_of() == archive_path@,
            json_str_field(package_json, "name"@) == Some(r.package_of().name@),
            json_str_field(package_json, "version"@) == Some(r.package_of().version@),
            has_dist(
                r.package_of().value,
                package_json,
                archive@,
                registry@.url + "/"@ + r.package_of().name@ + "/-/"@ + last_segment(archive_path@),
            ),
    {
        let archive_name = file_name(archive_path.as_str());
        let mut pkg = PackageJson::from_value(package_json);
        let url = registry.build_tar_url(pkg.name.as_str(), archive_name.as_str());
        pkg.attach_dist(url, archive);
        proof {
            reveal_strlit("dist");
            reveal_strlit("name");
            reveal_strlit("version");
            assert("name"@[0] != "dist"@[0]);
            assert("version"@.len() != "dist"@.len());
        }
        PackageTar { archive_path, package: pkg }
    }

    /// The publish document of this package under the dist-tag `tag`, with
    /// the tarball's bytes `archive` attached under its file name.
    pub fn into_publish_payload(&self, tag: &str, archive: &[u8]) -> (r: PublishPayload)
        ensures
            r._last_version@ == self.package_of().version@,
            r.id@ == self.package_of().name@,
            r.name@ == self.package_of().name@,
            r.description is None,
            r.readme is None,
            r.dist_tags@.len() == 1,
            r.dist_tags@[0].0@ == tag@,
            r.dist_tags@[0].1@ == self.package_of().version@,
            r.versions@.len() == 1,
            r.versions@[0].0@ == self.package_of().version@,
            r.versions@[0].1@ == self.package_of().value@,
            lookup(r.versions@, r._last_version@) == Some(r.versions@[0].1),
            has_released_dist(r),
            json_str_field(r.versions@[0].1, "name"@) == Some(self.package_of().name@),
            json_str_field(r.versions@[0].1, "version"@) == Some(self.package_of().version@),
            lookup(r.attachments@, last_segment(self.archive_path_of())) matches Some(a)
                && is_attachment_of(a, archive@),
            forall|k: Seq<char>|
                k != last_segment(self.archive_path_of()) ==> lookup(r.attachments@, k) is None,
    {
        proof {
            use_type_invariant(self);
        }
        let version = self.package.version.clone();
        let name = self.package.name.clone();
        let mut dist_tags: Vec<(String, String)> = Vec::new();
        dist_tags.push((String::from_str(tag), version.clone()));
        let mut versions: Vec<(String, JsonValue)> = Vec::new();
        versions.push((version.clone(), self.package.value.deep_clone()));
        let mut payload = PublishPayload {
            _last_version: version,
            id: name.clone(),
            name,
            description: None,
            dist_tags,
            versions,
            readme: None,
            attachments: Vec::new(),
        };
        proof {
            assert(is_first_key_at(payload.versions@, payload._last_version@, 0));
            lemma_key_index_at(payload.versions@, payload._last_version@, 0);
            let copy = payload.versions@[0].1;
            lemma_json_get_alike(self.package.value, copy, "dist"@);
            lemma_json_get_alike(self.package.value, copy, "name"@);
            lemma_json_get_alike(self.package.value, copy, "version"@);
        }
        let archive_name = file_name(self.archive_path.as_str());
        payload.attach_dist(archive_name, archive);
        payload
    }

    /// Reads the package.json text of a tarball that is to be rewritten: the
    /// JSON object serde_json reads from it; nothing when the text is not a
    /// JSON object.
    pub fn read_package_json(text: &str) -> (r: Option<JsonValue>)
        ensures
            match json_document(text@) {
                Some(JsonView::Object(fields)) => r matches Some(v) && v@ == JsonView::Object(
                    fields,
                ),
                _ => r is None,
            },
            r matches Some(v) ==> v is Object,
    {
        match parse_json(text) {
            Some(v) => {
                let is_object = match &v {
                    JsonValue::Object(_) => true,
                    _ => false,
                };
                if is_object {
                    Some(v)
                } else {
                    None
                }
            },
            None => None,
        }
    }

    /// Stores each `(key, value)` of `values` in the package.json object
    /// `package` as a JSON string.
    pub fn apply_overrides(package: &mut JsonValue, values: &Vec<(String, String)>)
        requires
            *old(package) is Object,
        ensures
            *final(package) is Object,
            object_entries(*final(package)) == overridden(object_entries(*old(package)), values@),
    {
        let n = values.len();
        let mut i: usize = 0;
        while i < n
            invariant
                n == values@.len(),
                i <= n,
                *package is Object,
                object_entries(*package) == overridden(
                    object_entries(*old(package)),
                    values@.take(i as int),
                ),
            decreases n - i,
        {
            let key = values[i].0.clone();
            let value = JsonValue::Str(values[i].1.clone());
            package.insert(key, value);
            proof {
                assert(values@.take(i + 1).drop_last() =~= values@.take(i as int));
            }
            i = i + 1;
        }
        proof {
            assert(values@.take(n as int) =~= values@);
        }
    }

    /// The file name of the tarball of a package.json:
    /// `{tarball name}-{version}.tgz`.
    pub fn overridden_tar_name(package: &JsonValue) -> (r: String)
        requires
            json_str_field(*package, "name"@) is Some,
            json_str_field(*package, "version"@) is Some,
        ensures
            r@ == tarball_name(json_str_field(*package, "name"@)->0) + "-"@ + json_str_field(
                *package,
                "version"@,
            )->0 + ".tgz"@,
    {
        let name = field_text(package, "name");
        let version = field_text(package, "version");
        let mut r = normalize_for_tarball(name);
        r.append("-");
        r.append(version);
        r.append(".tgz");
        r
    }
}

} // verus!

use vstd::prelude::*;

use crate::assoc::{
    keys_distinct, lemma_insert_entry_shape, lemma_lookup_insert_other, lemma_lookup_insert_same,
};
use crate::codec::base64_text;
use crate::json::{
    json_document, json_get, json_str_field, lemma_json_get_view, object_entries, parse_json,
    view_get, JsonValue, JsonView,
};
use crate::text::hex_lower;
use crate::utils::integrity::{sha1_digest, sha512_digest, shasum, ssri_512};

verus! {

/// A package.json: the whole document, and the package name and version
/// read from it.
pub struct PackageJson {
    pub value: JsonValue,
    pub name: String,
    pub version: String,
}

/// Why a package.json cannot be read.
#[derive(Debug, PartialEq, Eq, Structural, Clone, Copy)]
pub enum PackageJsonError {
    /// The text is not JSON.
    Malformed,
    /// The document has no `name`.
    MissingName,
    /// The `name` is not a JSON string.
    InvalidName,
    /// The document has no `version`.
    MissingVersion,
    /// The `version` is not a JSON string.
    InvalidVersion,
}

/// What is wrong with a package.json document, checked in the order the
/// fields are read: its `name`, then its `version`, each a JSON string.
pub open spec fn package_json_error(d: JsonView) -> Option<PackageJsonError> {
    match view_get(d, "name"@) {
        None => Some(PackageJsonError::MissingName),
        Some(JsonView::Str(_)) => match view_get(d, "version"@) {
            None => Some(PackageJsonError::MissingVersion),
            Some(JsonView::Str(_)) => None,
            Some(_) => Some(PackageJsonError::InvalidVersion),
        },
        Some(_) => Some(PackageJsonError::InvalidName),
    }
}

/// A package.json document reads without error exactly when its `name`
/// and its `version` are JSON strings, whatever text they hold.
pub proof fn lemma_package_json_reads_string_fields(d: JsonView)
    ensures
        package_json_error(d) is None <==> (view_get(d, "name"@) matches Some(JsonView::Str(_))
            && view_get(d, "version"@) matches Some(JsonView::Str(_))),
{
}

/// The `dist` object that describes a tarball: its integrity, its shasum
/// and its url.
pub open spec fn dist_view(archive: Seq<u8>, tarball: Seq<char>) -> JsonView {
    JsonView::Object(
        seq![
            ("integrity"@, JsonView::Str("sha512-"@ + base64_text(sha512_digest(archive)))),
            ("shasum"@, JsonView::Str(hex_lower(sha1_digest(archive)))),
            ("tarball"@, JsonView::Str(tarball)),
        ],
    )
}

/// `after` is the object `before` with `dist` describing `archive` at
/// `tarball`, and every other field as it was.
pub open spec fn has_dist(after: JsonValue, before: JsonValue, archive: Seq<u8>, tarball: Seq<
    char,
>) -> bool {
    &&& after is Object
    &&& json_get(after, "dist"@) matches Some(d) && d@ == dist_view(archive, tarball)
    &&& forall|k: Seq<char>| k != "dist"@ ==> json_get(after, k) == json_get(before, k)
}

impl PackageJson {
    /// Reads the package name and version of a package.json document (both
    /// JSON strings).
    pub fn from_value(value: JsonValue) -> (r: PackageJson)
        requires
            json_str_field(value, "name"@) is Some,
            json_str_field(value, "version"@) is Some,
        ensures
            r.value == value,
            json_str_field(value, "name"@) == Some(r.name@),
            json_str_field(value, "version"@) == Some(r.version@),
    {
        let name = match value.get("name") {
            Some(field) => match field.as_str() {
                Some(s) => s.to_owned(),
                None => {
                    proof {
                        assert(false);
                    }
                    String::new()
                },
            },
            None => {
                proof {
                    assert(false);
                }
                String::new()
            },
        };
        let version = match value.get("version") {
            Some(field) => match field.as_str() {
                Some(s) => s.to_owned(),
                None => {
                    proof {
                        assert(false);
                    }
                    String::new()
                },
            },
            None => {
                proof {
                    assert(false);
                }
                String::new()
            },
        };
        PackageJson { value, name, version }
    }

    /// Reads a package.json document: its name and version, each a JSON
    /// string, or what is wrong with it.
    pub fn from_json(value: JsonValue) -> (r: Result<PackageJson, PackageJsonError>)
        ensures
            match package_json_error(value@) {
                Some(e) => r == Err::<PackageJson, PackageJsonError>(e),
                None => r matches Ok(p) && p.value == value && json_str_field(value, "name"@)
                    == Some(p.name@) && json_str_field(value, "version"@) == Some(p.version@),
            },
            r is Ok <==> (json_str_field(value, "name"@) is Some && json_str_field(
                value,
                "version"@,
            ) is Some),
    {
        proof {
            lemma_package_json_reads_string_fields(value@);
            lemma_json_get_view(value, "name"@);
            lemma_json_get_view(value, "version"@);
        }
        let problem = match value.get("name") {
            None => Some(PackageJsonError::MissingName),
            Some(name) => match name.as_str() {
                None => Some(PackageJsonError::InvalidName),
                Some(_) => match value.get("version") {
                    None => Some(PackageJsonError::MissingVersion),
                    Some(version) => match version.as_str() {
                        None => Some(PackageJsonError::InvalidVersion),
                        Some(_) => None,
                    },
                },
            },
        };
        match problem {
            Some(e) => Err(e),
            None => Ok(PackageJson::from_value(value)),
        }
    }

    /// Reads a package.json from its text: the JSON document serde_json
    /// reads from it, with its name and version, or what is wrong with it.
    pub fn from_text(text: &str) -> (r: Result<PackageJson, PackageJsonError>)
        ensures
            match json_document(text@) {
                None => r == Err::<PackageJson, PackageJsonError>(PackageJsonError::Malformed),
                Some(d) => match package_json_error(d) {
                    Some(e) => r == Err::<PackageJson, PackageJsonError>(e),
                    None => r matches Ok(p) && p.value@ == d && json_str_field(p.value, "name"@)
                        == Some(p.name@) && json_str_field(p.value, "version"@) == Some(
                        p.version@,
                    ),
                },
            },
            r is Ok <==> (json_document(text@) matches Some(d) && view_get(d, "name"@) matches Some(
                JsonView::Str(_),
            ) && view_get(d, "version"@) matches Some(JsonView::Str(_))),
    {
        proof {
            if json_document(text@) is Some {
                lemma_package_json_reads_string_fields(json_document(text@)->0);
            }
        }
        match parse_json(text) {
            None => Err(PackageJsonError::Malformed),
            Some(value) => PackageJson::from_json(value),
        }
    }

    /// Adds the `dist` object of the tarball `archive`, served at `url`:
    /// its SHA-512 integrity, its SHA-1 shasum and its url.
    pub fn attach_dist(&mut self, url: String, archive: &[u8])
        requires
            old(self).value is Object,
        ensures
            has_dist(final(self).value, old(self).value, archive@, url@),
            final(self).name == old(self).name,
            final(self).version == old(self).version,
            object_entries(final(self).value).len() == object_entries(old(self).value).len() + (
            if json_get(old(self).value, "dist"@) is Some {
                0int
            } else {
                1int
            }),
            forall|i: int|
                0 <= i < object_entries(old(self).value).len() && object_entries(
                    old(self).value,
                )[i].0@ != "dist"@ ==> object_entries(final(self).value)[i] == object_entries(
                    old(self).value,
                )[i],
            keys_distinct(object_entries(old(self).value)) ==> keys_distinct(
                object_entries(final(self).value),
            ),
    {
        let integrity = ssri_512(archive);
        let sha = shasum(archive);
        let mut entries: Vec<(String, JsonValue)> = Vec::new();
        entries.push((String::from_str("integrity"), JsonValue::Str(integrity)));
        entries.push((String::from_str("shasum"), JsonValue::Str(sha)));
        entries.push((String::from_str("tarball"), JsonValue::Str(url)));
        proof {
            let e = entries@;
            reveal_with_fuel(JsonValue::deep_entries, 4);
            assert(JsonValue::deep_entries(e, 3) =~= seq![
                ("integrity"@, JsonView::Str("sha512-"@ + base64_text(sha512_digest(archive@)))),
                ("shasum"@, JsonView::Str(hex_lower(sha1_digest(archive@)))),
                ("tarball"@, JsonView::Str(url@)),
            ]);
        }
        let dist = JsonValue::Object(entries);
        let key = String::from_str("dist");
        let ghost before = self.value;
        let ghost k = key;
        let ghost d = dist;
        self.value.insert(key, dist);
        proof {
            lemma_lookup_insert_same(object_entries(before), k, d);
            lemma_insert_entry_shape(object_entries(before), k, d);
            assert forall|other: Seq<char>| other != "dist"@ implies json_get(self.value, other)
                == json_get(before, other) by {
                lemma_lookup_insert_other(object_entries(before), k, d, other);
            }
        }
    }
}

} // verus!

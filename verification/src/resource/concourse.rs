use vstd::prelude::*;

use crate::assoc::lookup;
use crate::json::{json_get, JsonValue, JsonView};
use crate::npm::publish::{has_released_dist, PublishPayload};

verus! {

/// One line of the metadata concourse shows for a version.
pub struct Metadata {
    pub name: String,
    pub value: JsonValue,
}

/// The value shown for `field`: the field's value, or the empty string
/// when there is none.
pub open spec fn shown(field: Option<JsonValue>) -> JsonView {
    match field {
        Some(v) => v@,
        None => JsonView::Str(Seq::empty()),
    }
}

/// `m` shows `field` under `key`.
pub open spec fn shows(m: Metadata, key: Seq<char>, field: Option<JsonValue>) -> bool {
    m.name@ == key && m.value@ == shown(field)
}

impl Metadata {
    /// A metadata line `key`, showing `val` or else the empty string.
    pub fn new(key: &str, val: Option<&JsonValue>) -> (r: Metadata)
        ensures
            r.name@ == key@,
            r.value@ == shown(
                match val {
                    Some(v) => Some(*v),
                    None => None,
                },
            ),
    {
        let value = match val {
            Some(v) => v.deep_clone(),
            None => JsonValue::Str(String::new()),
        };
        Metadata { name: String::from_str(key), value }
    }

    /// The metadata of a publish: the version, name, integrity, shasum and
    /// tarball of the last published package.json.
    pub fn from_publish_payload(publish_payload: &PublishPayload) -> (r: Vec<Metadata>)
        requires
            has_released_dist(*publish_payload),
        ensures
            ({
                let v = lookup(publish_payload.versions@, publish_payload._last_version@)->0;
                let dist = json_get(v, "dist"@)->0;
                &&& r@.len() == 5
                &&& shows(r@[0], "version"@, json_get(v, "version"@))
                &&& shows(r@[1], "name"@, json_get(v, "name"@))
                &&& shows(r@[2], "integrity"@, json_get(dist, "integrity"@))
                &&& shows(r@[3], "shasum"@, json_get(dist, "shasum"@))
                &&& shows(r@[4], "tarball"@, json_get(dist, "tarball"@))
            }),
    {
        let released_version = publish_payload.get_last_published();
        let dist = match released_version.get("dist") {
            Some(d) => d,
            None => {
                proof {
                    assert(false);
                }
                released_version
            },
        };
        let mut metadata_list: Vec<Metadata> = Vec::new();
        metadata_list.push(Metadata::new("version", released_version.get("version")));
        metadata_list.push(Metadata::new("name", released_version.get("name")));
        metadata_list.push(Metadata::new("integrity", dist.get("integrity")));
        metadata_list.push(Metadata::new("shasum", dist.get("shasum")));
        metadata_list.push(Metadata::new("tarball", dist.get("tarball")));
        metadata_list
    }
}

} // verus!

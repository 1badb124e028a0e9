use vstd::prelude::*;

use crate::assoc::{
    find_string_key, insert_string_key, lemma_lookup_insert_other, lemma_lookup_insert_same,
    lookup,
};
use crate::codec::{base64_decoded, base64_encode, base64_text};
use crate::json::{json_get, JsonValue};

verus! {

/// The document a publish sends to the registry: the package id and name,
/// its dist-tags (tag to version), its version manifests (version to
/// package.json) and its attached tarballs (file name to attachment).
pub struct PublishPayload {
    pub _last_version: String,
    pub id: String,
    pub name: String,
    pub description: Option<String>,
    pub dist_tags: Vec<(String, String)>,
    pub versions: Vec<(String, JsonValue)>,
    pub readme: Option<String>,
    pub attachments: Vec<(String, Attachment)>,
}

/// A file attached to a publish: its content type, its bytes in base64 and
/// their number.
pub struct Attachment {
    pub content_type: String,
    pub data: String,
    pub length: usize,
}

/// The `dist` part of a version manifest.
pub struct Dist {
    pub integrity: String,
    pub shasum: String,
    pub tarball: String,
}

/// `a` attaches the bytes `archive` as an octet stream; its data reads back
/// as those bytes.
pub open spec fn is_attachment_of(a: Attachment, archive: Seq<u8>) -> bool {
    &&& a.content_type@ == "application/octet-stream"@
    &&& a.data@ == base64_text(archive)
    &&& base64_decoded(a.data@) == Some(archive)
    &&& a.length == archive.len()
}

/// The last published package.json is in the payload and has a `dist`.
pub open spec fn has_released_dist(p: PublishPayload) -> bool {
    lookup(p.versions@, p._last_version@) matches Some(v) && json_get(v, "dist"@) is Some
}

impl PublishPayload {
    /// The package.json published as `version`.
    pub fn get_package_version(&self, version: &str) -> (r: &JsonValue)
        requires
            lookup(self.versions@, version@) is Some,
        ensures
            lookup(self.versions@, version@) == Some(*r),
    {
        match self.get_version(version) {
            Some(v) => v,
            None => {
                proof {
                    assert(false);
                }
                &self.versions[0].1
            },
        }
    }

    /// The package.json published as `version`, if there is one.
    fn get_version(&self, version: &str) -> (r: Option<&JsonValue>)
        ensures
            match r {
                Some(v) => lookup(self.versions@, version@) == Some(*v),
                None => lookup(self.versions@, version@) is None,
            },
    {
        match find_string_key(&self.versions, version) {
            Some(i) => Some(&self.versions[i].1),
            None => None,
        }
    }

    /// The package.json of the last published version.
    pub fn get_last_published(&self) -> (r: &JsonValue)
        requires
            lookup(self.versions@, self._last_version@) is Some,
        ensures
            lookup(self.versions@, self._last_version@) == Some(*r),
    {
        self.get_package_version(self._last_version.as_str())
    }

    /// Attaches the tarball `archive` under the file name `archive_name`.
    pub fn attach_dist(&mut self, archive_name: String, archive: &[u8])
        ensures
            lookup(final(self).attachments@, archive_name@) matches Some(a) && is_attachment_of(
                a,
                archive@,
            ),
            forall|k: Seq<char>|
                k != archive_name@ ==> lookup(final(self).attachments@, k) == lookup(
                    old(self).attachments@,
                    k,
                ),
            final(self)._last_version == old(self)._last_version,
            final(self).id == old(self).id,
            final(self).name == old(self).name,
            final(self).description == old(self).description,
            final(self).dist_tags == old(self).dist_tags,
            final(self).versions == old(self).versions,
            final(self).readme == old(self).readme,
    {
        let attachment = Attachment {
            content_type: String::from_str("application/octet-stream"),
            data: base64_encode(archive),
            length: archive.len(),
        };
        let ghost before = self.attachments@;
        let ghost key = archive_name;
        let ghost value = attachment;
        insert_string_key(&mut self.attachments, archive_name, attachment);
        proof {
            lemma_lookup_insert_same(before, key, value);
            assert forall|k: Seq<char>| k != key@ implies lookup(self.attachments@, k) == lookup(
                before,
                k,
            ) by {
                lemma_lookup_insert_other(before, key, value, k);
            }
        }
    }
}

} // verus!

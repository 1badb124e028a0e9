use npm_resource::json::JsonValue;
use npm_resource::npm::package_json::{PackageJson, PackageJsonError};
use npm_resource::npm::package_tar::PackageTar;
use npm_resource::npm::registry_client::RegistryClient;
use npm_resource::resource::concourse::Metadata;
use npm_resource::text::file_name;
use npm_resource::utils::integrity::{shasum, ssri_512};

fn s(text: &str) -> JsonValue {
    JsonValue::Str(String::from(text))
}

fn package_json(name: &str, version: &str) -> JsonValue {
    JsonValue::Object(vec![
        (String::from("name"), s(name)),
        (String::from("version"), s(version)),
        (String::from("main"), s("index.js")),
        (String::from("private"), JsonValue::Bool(false)),
    ])
}

fn text_at<'a>(v: &'a JsonValue, path: &[&str]) -> Option<&'a str> {
    let mut cur = v;
    for key in path {
        cur = cur.get(key)?;
    }
    cur.as_str()
}

#[test]
fn from_value_reads_name_and_version() {
    let pkg = PackageJson::from_value(package_json("@acme/core", "0.0.7"));
    assert_eq!(pkg.name, "@acme/core");
    assert_eq!(pkg.version, "0.0.7");
}

#[test]
fn attach_dist_describes_the_tarball() {
    let mut pkg = PackageJson::from_value(package_json("@acme/core", "0.0.7"));
    let archive = b"tarball bytes";
    pkg.attach_dist(String::from("http://registry/x.tgz"), archive);
    assert_eq!(text_at(&pkg.value, &["dist", "tarball"]), Some("http://registry/x.tgz"));
    assert_eq!(text_at(&pkg.value, &["dist", "shasum"]), Some(shasum(archive).as_str()));
    assert_eq!(text_at(&pkg.value, &["dist", "integrity"]), Some(ssri_512(archive).as_str()));
    assert_eq!(text_at(&pkg.value, &["main"]), Some("index.js"));
    assert_eq!(pkg.name, "@acme/core");
}

#[test]
fn publish_payload_and_metadata() {
    let registry = RegistryClient::new(String::from("http://registry"), None);
    let archive = b"tgz";
    let tar = PackageTar::from_file(
        &registry,
        String::from("/tmp/out/my_override_name-9.4.20.tgz"),
        package_json("my-override-name", "9.4.20"),
        archive,
    );
    assert_eq!(tar.archive_path(), "/tmp/out/my_override_name-9.4.20.tgz");
    assert_eq!(
        text_at(&tar.package().value, &["dist", "tarball"]),
        Some("http://registry/my-override-name/-/my_override_name-9.4.20.tgz")
    );

    let payload = tar.into_publish_payload("latest", archive);
    assert_eq!(payload._last_version, "9.4.20");
    assert_eq!(payload.id, "my-override-name");
    assert_eq!(payload.name, "my-override-name");
    assert!(payload.description.is_none() && payload.readme.is_none());
    assert_eq!(payload.dist_tags, vec![(String::from("latest"), String::from("9.4.20"))]);
    assert_eq!(payload.versions.len(), 1);
    assert_eq!(payload.attachments.len(), 1);
    let (file, attachment) = &payload.attachments[0];
    assert_eq!(file, "my_override_name-9.4.20.tgz");
    assert_eq!(attachment.content_type, "application/octet-stream");
    assert_eq!(attachment.data, "dGd6");
    assert_eq!(attachment.length, 3);

    let published = payload.get_last_published();
    assert_eq!(text_at(published, &["version"]), Some("9.4.20"));

    let metadata = Metadata::from_publish_payload(&payload);
    let names: Vec<&str> = metadata.iter().map(|m| m.name.as_str()).collect();
    assert_eq!(names, vec!["version", "name", "integrity", "shasum", "tarball"]);
    assert_eq!(metadata[0].value.as_str(), Some("9.4.20"));
    assert_eq!(metadata[1].value.as_str(), Some("my-override-name"));
    assert_eq!(metadata[2].value.as_str(), Some(ssri_512(archive).as_str()));
    assert_eq!(metadata[3].value.as_str(), Some(shasum(archive).as_str()));
    assert_eq!(
        metadata[4].value.as_str(),
        Some("http://registry/my-override-name/-/my_override_name-9.4.20.tgz")
    );
}

#[test]
fn attachment_data_is_padded_base64() {
    let registry = RegistryClient::new(String::from("http://registry"), None);
    let tar = PackageTar::from_file(
        &registry,
        String::from("p.tgz"),
        package_json("p", "1.0.0"),
        b"",
    );
    for (bytes, text) in [(&b""[..], ""), (&b"a"[..], "YQ=="), (&b"ab"[..], "YWI="), (&[0xfb, 0xff][..], "+/8=")] {
        let payload = tar.into_publish_payload("latest", bytes);
        assert_eq!(payload.attachments[0].1.data, text);
        assert_eq!(payload.attachments[0].1.length, bytes.len());
        assert_eq!(base64::decode(&payload.attachments[0].1.data).unwrap(), bytes);
    }
}

#[test]
fn metadata_new_defaults_to_empty_string() {
    let m = Metadata::new("shasum", None);
    assert_eq!(m.name, "shasum");
    assert_eq!(m.value.as_str(), Some(""));
    let v = s("abc");
    assert_eq!(Metadata::new("k", Some(&v)).value.as_str(), Some("abc"));
}

#[test]
fn overrides_and_tar_name() {
    let mut package = package_json("my-package", "1.0.0");
    let values = vec![
        (String::from("version"), String::from("9.4.20")),
        (String::from("name"), String::from("my-override-name")),
        (String::from("license"), String::from("MIT")),
    ];
    PackageTar::apply_overrides(&mut package, &values);
    assert_eq!(text_at(&package, &["version"]), Some("9.4.20"));
    assert_eq!(text_at(&package, &["name"]), Some("my-override-name"));
    assert_eq!(text_at(&package, &["license"]), Some("MIT"));
    assert_eq!(text_at(&package, &["main"]), Some("index.js"));
    assert_eq!(PackageTar::overridden_tar_name(&package), "my_override_name-9.4.20.tgz");
}

#[test]
fn package_json_from_text_reads_or_reports() {
    let pkg = PackageJson::from_text(r#"{"name": "@acme/core", "version": "0.0.7", "main": 1}"#)
        .unwrap();
    assert_eq!(pkg.name, "@acme/core");
    assert_eq!(pkg.version, "0.0.7");
    assert_eq!(text_at(&pkg.value, &["name"]), Some("@acme/core"));
    assert!(matches!(pkg.value.get("main"), Some(JsonValue::Number(n)) if n == "1"));
    assert_eq!(PackageJson::from_text("{").err(), Some(PackageJsonError::Malformed));
    assert_eq!(PackageJson::from_text("[]").err(), Some(PackageJsonError::MissingName));
    assert_eq!(
        PackageJson::from_text(r#"{"version": "1.0.0"}"#).err(),
        Some(PackageJsonError::MissingName)
    );
    assert_eq!(
        PackageJson::from_text(r#"{"name": 3, "version": "1.0.0"}"#).err(),
        Some(PackageJsonError::InvalidName)
    );
    assert_eq!(
        PackageJson::from_text(r#"{"name": "p"}"#).err(),
        Some(PackageJsonError::MissingVersion)
    );
    assert_eq!(
        PackageJson::from_text(r#"{"name": "p", "version": [1]}"#).err(),
        Some(PackageJsonError::InvalidVersion)
    );
}

#[test]
fn read_package_json_takes_objects_only() {
    let package = PackageTar::read_package_json(r#"{"name": "a", "version": "1.0.0"}"#).unwrap();
    assert_eq!(text_at(&package, &["version"]), Some("1.0.0"));
    assert!(PackageTar::read_package_json(r#"["name"]"#).is_none());
    assert!(PackageTar::read_package_json("not json").is_none());
}

#[test]
fn tarball_keeps_its_file_name() {
    let registry = RegistryClient::new(String::from("http://r"), None);
    let tar = PackageTar::from_file(
        &registry,
        String::from("dir/sub/pkg-1.0.0.tgz"),
        package_json("pkg", "1.0.0"),
        b"x",
    );
    assert_eq!(text_at(&tar.package().value, &["dist", "tarball"]), Some("http://r/pkg/-/pkg-1.0.0.tgz"));
    let payload = tar.into_publish_payload("next", b"x");
    assert_eq!(payload.attachments[0].0, "pkg-1.0.0.tgz");
    assert_eq!(file_name("a/b/c.tgz"), "c.tgz");
    assert_eq!(file_name("c.tgz"), "c.tgz");
    assert_eq!(file_name("a/"), "");
}

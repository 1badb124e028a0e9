use npm_resource::json::JsonValue;
use npm_resource::npm::npm::Metadata;
use npm_resource::resource::resource::{CheckVersion, Source};
use npm_resource::version::SemanticVersion;

fn version(text: &str) -> SemanticVersion {
    CheckVersion::new(text).unwrap().version
}

fn manifest_of(tarball: &str) -> JsonValue {
    JsonValue::Object(vec![(
        String::from("dist"),
        JsonValue::Object(vec![(
            String::from("tarball"),
            JsonValue::Str(String::from(tarball)),
        )]),
    )])
}

const ACME_ORDER: [&str; 8] = ["0.0.3", "0.0.0", "0.0.7", "0.0.1", "0.0.5", "0.0.2", "0.0.6", "0.0.4"];

/// A manifest with the given versions, `latest` and `next` pointing to 0.0.7.
fn manifest_with(order: &[&str]) -> Metadata {
    let versions = order
        .iter()
        .map(|v| (version(v), manifest_of(&format!("http://registry/acme-core-{}.tgz", v))))
        .collect();
    Metadata::new(
        String::from("@acme/core"),
        vec![
            (String::from("latest"), version("0.0.7")),
            (String::from("next"), version("0.0.7")),
        ],
        versions,
    )
}

/// A manifest with versions 0.0.0 to 0.0.7 (listed out of order), `latest`
/// pointing to 0.0.7 and `next` to 0.0.7.
fn acme_core() -> Metadata {
    manifest_with(&ACME_ORDER)
}

/// The acme manifest with more versions.
fn acme_core_and(more: &[&str]) -> Metadata {
    let mut order: Vec<&str> = ACME_ORDER.to_vec();
    order.extend_from_slice(more);
    manifest_with(&order)
}

fn source(tag: &str) -> Source {
    Source {
        registry: String::from("http://registry"),
        package_name: String::from("@acme/core"),
        username: None,
        password: None,
        email: None,
        token: None,
        auth_type: String::from("anonymous"),
        tag: String::from(tag),
    }
}

fn texts(versions: &[CheckVersion]) -> Vec<String> {
    versions.iter().map(|c| c.version.to_text()).collect()
}

#[test]
fn test_check_with_version_and_no_match() {
    let package = acme_core();
    let seen = Some(CheckVersion::new("0.0.1").unwrap());
    let found = source("unknown-tag").check(&package, &seen);
    assert_eq!(found.len(), 0);
}

#[test]
fn test_check_version_and_match() {
    let package = acme_core();
    let found = source("latest").check(&package, &None);
    assert_eq!(found.len(), 1);
    assert_eq!(found[0].version.to_text(), "0.0.7");
}

#[test]
fn test_semver_multiple_versions() {
    let package = acme_core();
    let seen = Some(CheckVersion::new("0.0.0").unwrap());
    let found = source("semver").check(&package, &seen);
    assert!(found.len() == 8);
    assert_eq!(found[0].version.to_text(), "0.0.0");
    assert_eq!(found.last().unwrap().version.to_text(), "0.0.7");
}

#[test]
fn check_semver_without_version_gives_greatest() {
    let package = acme_core();
    let found = source("semver").check(&package, &None);
    assert_eq!(texts(&found), vec!["0.0.7"]);
}

#[test]
fn check_semver_gives_versions_from_the_seen_one_in_order() {
    let package = acme_core();
    let seen = Some(CheckVersion::new("0.0.5").unwrap());
    let found = source("semver").check(&package, &seen);
    assert_eq!(texts(&found), vec!["0.0.5", "0.0.6", "0.0.7"]);
    let seen = Some(CheckVersion::new("0.0.8").unwrap());
    assert_eq!(source("semver").check(&package, &seen).len(), 0);
    let seen = Some(CheckVersion::new("0.0.5-rc.1").unwrap());
    let found = source("semver").check(&package, &seen);
    assert_eq!(texts(&found), vec!["0.0.5", "0.0.6", "0.0.7"]);
}

#[test]
fn check_tag_ignores_seen_version() {
    let package = acme_core();
    let seen = Some(CheckVersion::new("0.0.1").unwrap());
    let found = source("next").check(&package, &seen);
    assert_eq!(texts(&found), vec!["0.0.7"]);
}

#[test]
fn sorted_versions_follow_semver_order() {
    let package = acme_core_and(&["0.0.10", "0.0.7-beta.2", "0.0.7-beta.11"]);
    let sorted: Vec<String> = package.get_sorted_versions().iter().map(|v| v.to_text()).collect();
    assert_eq!(
        sorted,
        vec![
            "0.0.0", "0.0.1", "0.0.2", "0.0.3", "0.0.4", "0.0.5", "0.0.6", "0.0.7-beta.2",
            "0.0.7-beta.11", "0.0.7", "0.0.10"
        ]
    );
}

#[test]
fn version_after_keeps_equal_and_greater() {
    let package = acme_core();
    let after: Vec<String> = package
        .get_version_after(&version("0.0.6"))
        .iter()
        .map(|v| v.to_text())
        .collect();
    assert_eq!(after, vec!["0.0.6", "0.0.7"]);
}

#[test]
fn tag_version_lookup() {
    let package = acme_core();
    assert_eq!(package.get_tag_version("latest").unwrap().to_text(), "0.0.7");
    assert!(package.get_tag_version("beta").is_none());
}

#[test]
fn tarball_url_lookup() {
    let package = acme_core();
    assert_eq!(
        package.get_tarball_url(&version("0.0.4")),
        Some(String::from("http://registry/acme-core-0.0.4.tgz"))
    );
    assert_eq!(package.get_tarball_url(&version("9.9.9")), None);
    let broken = Metadata::new(
        String::from("broken"),
        vec![],
        vec![(version("1.0.0"), JsonValue::Object(vec![]))],
    );
    assert_eq!(broken.get_tarball_url(&version("1.0.0")), None);
}

#[test]
fn versions_after_are_the_sorted_ones_from_the_floor() {
    let package = acme_core_and(&["0.0.5-rc.1"]);
    let floor = version("0.0.5-alpha");
    let sorted: Vec<String> = package
        .get_sorted_versions()
        .iter()
        .filter(|v| v.order_against(&floor) != std::cmp::Ordering::Less)
        .map(|v| v.to_text())
        .collect();
    let after: Vec<String> =
        package.get_version_after(&floor).iter().map(|v| v.to_text()).collect();
    assert_eq!(after, sorted);
    assert_eq!(after, vec!["0.0.5-rc.1", "0.0.5", "0.0.6", "0.0.7"]);
}

#[test]
fn sorted_versions_each_come_once_before_the_next() {
    let package = acme_core();
    let sorted = package.get_sorted_versions();
    assert_eq!(sorted.len(), 8);
    for pair in sorted.windows(2) {
        assert_eq!(pair[0].order_against(pair[1]), std::cmp::Ordering::Less);
    }
    let seen = Some(CheckVersion::new("0.0.0").unwrap());
    let found = source("semver").check(&package, &seen);
    for pair in found.windows(2) {
        assert_eq!(pair[0].version.order_against(&pair[1].version), std::cmp::Ordering::Less);
    }
    assert_eq!(found.len(), 8);
}

#[test]
fn manifest_lists_each_version_once_keeping_the_last() {
    let package = Metadata::new(
        String::from("p"),
        vec![
            (String::from("latest"), version("1.0.0")),
            (String::from("latest"), version("2.0.0")),
        ],
        vec![
            (version("2.0.0"), manifest_of("first")),
            (version("1.0.0"), manifest_of("one")),
            (version("2.0.0"), manifest_of("last")),
        ],
    );
    assert_eq!(package.name(), "p");
    assert_eq!(package.dist_tags().len(), 1);
    assert_eq!(package.get_tag_version("latest").unwrap().to_text(), "2.0.0");
    assert_eq!(package.versions().len(), 2);
    assert_eq!(package.versions()[0].0.to_text(), "2.0.0");
    assert_eq!(package.get_tarball_url(&version("2.0.0")), Some(String::from("last")));
    let sorted: Vec<String> = package.get_sorted_versions().iter().map(|v| v.to_text()).collect();
    assert_eq!(sorted, vec!["1.0.0", "2.0.0"]);
}

use npm_resource::resource::resource::{
    default_auth_type, default_registry, default_tag, CheckVersion, OutAction, OutError, Params,
    VersionSource,
};
use std::cmp::Ordering;

use npm_resource::version::SemanticVersion;

fn version(text: &str) -> SemanticVersion {
    CheckVersion::new(text).unwrap().version
}

#[test]
fn parse_reads_parts() {
    let v = version("1.2.3-alpha.1+build.5");
    assert_eq!((v.major(), v.minor(), v.patch()), (1, 2, 3));
    assert_eq!(v.pre(), "alpha.1");
    assert_eq!(v.build(), "build.5");
    assert_eq!(v.to_text(), "1.2.3-alpha.1+build.5");
    assert_eq!(version("10.0.1234567890").to_text(), "10.0.1234567890");
    assert_eq!(version("0.0.0+001").to_text(), "0.0.0+001");
    assert!(CheckVersion::new("1.0").is_err());
    assert!(CheckVersion::new("01.0.0").is_err());
    assert!(CheckVersion::new("").is_err());
    assert!(CheckVersion::new(" 1.0.0").is_err());
}

#[test]
fn precedence_follows_semver_doc_example() {
    let chain = [
        "1.0.0-alpha",
        "1.0.0-alpha.1",
        "1.0.0-alpha.beta",
        "1.0.0-beta",
        "1.0.0-beta.2",
        "1.0.0-beta.11",
        "1.0.0-rc.1",
        "1.0.0",
    ];
    for pair in chain.windows(2) {
        assert_eq!(version(pair[0]).order_against(&version(pair[1])), Ordering::Less);
        assert_eq!(version(pair[1]).order_against(&version(pair[0])), Ordering::Greater);
    }
    assert_eq!(version("1.5.0").order_against(&version("1.19.0")), Ordering::Less);
    assert_eq!(version("2.0.0").order_against(&version("2.0.0")), Ordering::Equal);
    assert!(version("2.0.0").same(&version("2.0.0")));
    assert!(!version("2.0.0").same(&version("2.0.0+b")));
}

#[test]
fn check_version_new() {
    assert_eq!(CheckVersion::new("0.0.7").unwrap().version.to_text(), "0.0.7");
    assert!(CheckVersion::new("seven").is_err());
    let v = version("3.1.4");
    assert_eq!(CheckVersion::from_semver(&v).version.to_text(), "3.1.4");
}

#[test]
fn extract_version_doc_examples() {
    let mut p = Params { version: Some("1.0.0".to_string()), package_name: None, package: None };
    match p.extract_version() {
        Some(VersionSource::Exact(v)) => assert_eq!(v, "1.0.0"),
        _ => panic!("expected an exact version"),
    }
    p.version = Some("1.0.0-aaa".to_string());
    match p.extract_version() {
        Some(VersionSource::Exact(v)) => assert_eq!(v, "1.0.0-aaa"),
        _ => panic!("expected an exact version"),
    }
    p.version = Some("version".to_string());
    match p.extract_version() {
        Some(VersionSource::File(path)) => assert_eq!(path, "version"),
        _ => panic!("expected a version file"),
    }
    p.version = None;
    assert!(p.extract_version().is_none());
}

#[test]
fn overrides_list_version_then_name() {
    let p = Params {
        version: None,
        package_name: Some(String::from("my-override-name")),
        package: Some(String::from("my-package")),
    };
    assert_eq!(
        p.overrides(&Some(String::from("9.4.20"))),
        vec![
            (String::from("version"), String::from("9.4.20")),
            (String::from("name"), String::from("my-override-name")),
        ]
    );
    assert_eq!(p.overrides(&None), vec![(String::from("name"), String::from("my-override-name"))]);
    let bare = Params { version: None, package_name: None, package: None };
    assert!(bare.overrides(&None).is_empty());
}

#[test]
fn out_action_publishes_or_tags() {
    let publish = Params {
        version: None,
        package_name: Some(String::from("my-override-name")),
        package: Some(String::from("my-package")),
    };
    match publish.out_action(&Some(String::from("9.4.20"))) {
        Ok(OutAction::Publish { package, overrides }) => {
            assert_eq!(package, "my-package");
            assert_eq!(
                overrides,
                vec![
                    (String::from("version"), String::from("9.4.20")),
                    (String::from("name"), String::from("my-override-name")),
                ]
            );
        }
        _ => panic!("expected a publish"),
    }
    let tag = Params { version: None, package_name: None, package: None };
    match tag.out_action(&Some(String::from("1.2.3"))) {
        Ok(OutAction::Tag { version }) => assert_eq!(version, "1.2.3"),
        _ => panic!("expected a tag"),
    }
    assert!(matches!(tag.out_action(&None), Err(OutError::MissingVersion)));
}

#[test]
fn source_defaults() {
    assert_eq!(default_registry(), "https://registry.npmjs.org/");
    assert_eq!(default_auth_type(), "anonymous");
    assert_eq!(default_tag(), "latest");
}

use npm_resource::npm::package_name::{normalize_for_api, normalize_for_tarball};

#[test]
fn normalize_for_tarball_doc_examples() {
    assert_eq!(normalize_for_tarball("@acme/core"), "acme_core");
    assert_eq!(normalize_for_tarball("@acme/rest-client"), "acme_rest_client");
}

#[test]
fn normalize_for_api_doc_examples() {
    assert_eq!(normalize_for_api("@acme/core"), "@acme%2fcore");
    assert_eq!(normalize_for_api("@acme/rest-client"), "@acme%2frest-client");
}

#[test]
fn normalize_for_tarball_lowers_ascii_letters() {
    assert_eq!(normalize_for_tarball("@Acme/My-Lib"), "acme_my_lib");
    assert_eq!(normalize_for_tarball(""), "");
    assert_eq!(normalize_for_tarball("émile"), "émile");
}

#[test]
fn normalize_for_tarball_is_idempotent() {
    for name in ["@acme/core", "@Acme/Rest-Client", "plain", "a--b//c@@d"] {
        let once = normalize_for_tarball(name);
        let twice = normalize_for_tarball(&once);
        assert_eq!(once, twice);
        assert!(!once.contains('@') && !once.contains('-') && !once.contains('/'));
        assert!(!once.chars().any(|c| c.is_ascii_uppercase()));
    }
}

#[test]
fn normalize_for_api_removes_every_slash() {
    assert_eq!(normalize_for_api("a/b/c"), "a%2fb%2fc");
    assert!(!normalize_for_api("/x/").contains('/'));
    assert_eq!(normalize_for_api("no-slash"), "no-slash");
}

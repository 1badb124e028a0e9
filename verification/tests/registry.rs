use npm_resource::npm::registry_client::{AuthError, Credentials, RegistryClient};
use npm_resource::resource::resource::Source;
use npm_resource::utils::basic_token::BasicTokenError;

fn source(auth_type: &str) -> Source {
    Source {
        registry: String::from("http://registry"),
        package_name: String::from("@acme/core"),
        username: None,
        password: None,
        email: None,
        token: None,
        auth_type: String::from(auth_type),
        tag: String::from("latest"),
    }
}

#[test]
fn urls_of_a_client() {
    let client = RegistryClient::new(String::from("http://registry"), None);
    assert_eq!(client.url(), "http://registry");
    assert_eq!(client.build_package_url("@acme/core"), "http://registry/@acme/core");
    assert_eq!(
        client.build_tar_url("@acme/core", "acme_core-0.0.7.tgz"),
        "http://registry/@acme/core/-/acme_core-0.0.7.tgz"
    );
    assert_eq!(
        client.build_tag_url("@acme/core"),
        "http://registry/-/package/@acme%2fcore/dist-tags"
    );
    assert_eq!(
        RegistryClient::login_url("http://registry", "bob"),
        "http://registry/-/user/org.couchdb.user:bob/-rev/undefined"
    );
}

#[test]
fn authorization_header() {
    let anonymous = RegistryClient::new(String::from("http://registry"), None);
    assert_eq!(anonymous.authorization(), None);
    let bearer = RegistryClient::new(String::from("http://registry"), Some(String::from("t0k")));
    assert_eq!(bearer.authorization(), Some(String::from("Bearer t0k")));
}

#[test]
fn credentials_for_each_auth_type() {
    assert!(matches!(RegistryClient::credentials(&source("anonymous")), Ok(Credentials::Anonymous)));

    let mut bearer = source("bearer");
    assert_eq!(RegistryClient::credentials(&bearer).err(), Some(AuthError::MissingToken));
    bearer.token = Some(String::from("secret"));
    match RegistryClient::credentials(&bearer) {
        Ok(Credentials::Bearer(t)) => assert_eq!(t, "secret"),
        _ => panic!("expected a bearer token"),
    }

    let mut basic = source("basic");
    assert_eq!(RegistryClient::credentials(&basic).err(), Some(AuthError::MissingToken));
    basic.token = Some(String::from("YWFhOmJiYg=="));
    match RegistryClient::credentials(&basic) {
        Ok(Credentials::Login { registry, username, password }) => {
            assert_eq!(registry, "http://registry");
            assert_eq!(username, "aaa");
            assert_eq!(password, "bbb");
        }
        _ => panic!("expected a login"),
    }
    basic.token = Some(String::from("YWFh"));
    assert_eq!(
        RegistryClient::credentials(&basic).err(),
        Some(AuthError::InvalidToken(BasicTokenError::MissingSeparator))
    );

    let mut password = source("password");
    assert_eq!(RegistryClient::credentials(&password).err(), Some(AuthError::MissingUsername));
    password.username = Some(String::from("bob"));
    assert_eq!(RegistryClient::credentials(&password).err(), Some(AuthError::MissingPassword));
    password.password = Some(String::from("pw"));
    match RegistryClient::credentials(&password) {
        Ok(Credentials::Login { registry, username, password }) => {
            assert_eq!(registry, "http://registry");
            assert_eq!(username, "bob");
            assert_eq!(password, "pw");
        }
        _ => panic!("expected a login"),
    }

    assert_eq!(RegistryClient::credentials(&source("oauth")).err(), Some(AuthError::InvalidAuthType));
}

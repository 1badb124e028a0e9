use vstd::prelude::*;

use crate::codec::base64_decoded;
use crate::npm::package_name::{api_name, normalize_for_api};
use crate::resource::resource::Source;
use crate::utils::basic_token::{token_credentials, token_text, try_decode, BasicTokenError};

verus! {

/// A client of one npm registry: its url and the token it sends, if any.
pub struct RegistryClient {
    url: String,
    token: Option<String>,
}

/// What a registry client is: its url and its token.
pub struct RegistryClientView {
    pub url: Seq<char>,
    pub token: Option<Seq<char>>,
}

/// The registry's answer to a login.
pub struct RegistryLoginResponse {
    pub token: String,
}

/// How a client authenticates, as the source configuration asks.
pub enum Credentials {
    /// Log in to `registry` with a user name and password; the registry
    /// answers with the token to use.
    Login { registry: String, username: String, password: String },
    /// Send this token.
    Bearer(String),
    /// Send no token.
    Anonymous,
}

/// Why the source configuration does not say how to authenticate.
#[derive(Debug, PartialEq, Eq, Structural)]
pub enum AuthError {
    /// `basic` or `bearer` authentication without a token.
    MissingToken,
    /// A basic token that cannot be read.
    InvalidToken(BasicTokenError),
    /// `password` authentication without a user name.
    MissingUsername,
    /// `password` authentication without a password.
    MissingPassword,
    /// An authentication type other than basic, password, bearer or
    /// anonymous.
    InvalidAuthType,
}

/// Which step of reading the basic token `token` fails.
pub open spec fn basic_token_error(token: Seq<char>) -> BasicTokenError {
    if base64_decoded(token) is None {
        BasicTokenError::InvalidBase64
    } else if token_text(token) is None {
        BasicTokenError::InvalidUtf8
    } else {
        BasicTokenError::MissingSeparator
    }
}

/// `c` logs in to `registry` as `username` with `password`.
pub open spec fn is_login(c: Credentials, registry: Seq<char>, username: Seq<char>, password: Seq<
    char,
>) -> bool {
    c matches Credentials::Login { registry: reg, username: user, password: pass } && reg@
        == registry && user@ == username && pass@ == password
}

impl View for RegistryClient {
    type V = RegistryClientView;

    closed spec fn view(&self) -> RegistryClientView {
        RegistryClientView {
            url: self.url@,
            token: match self.token {
                Some(t) => Some(t@),
                None => None,
            },
        }
    }
}

impl RegistryClient {
    /// A client of the registry at `url` that sends `token`, if any.
    pub fn new(url: String, token: Option<String>) -> (r: RegistryClient)
        ensures
            r@.url == url@,
            r@.token == (match token {
                Some(t) => Some(t@),
                None => None,
            }),
    {
        RegistryClient { url, token }
    }

    /// The registry url.
    pub fn url(&self) -> (r: &str)
        ensures
            r@ == self@.url,
    {
        self.url.as_str()
    }

    /// How to authenticate against the registry that `source` names: log in
    /// with the user name and password of a basic token or of the source,
    /// send a bearer token, or send none.
    pub fn credentials(source: &Source) -> (r: Result<Credentials, AuthError>)
        ensures
            source.auth_type@ == "basic"@ ==> match source.token {
                None => r == Err::<Credentials, AuthError>(AuthError::MissingToken),
                Some(t) => match token_credentials(t@) {
                    Some((user, password)) => r matches Ok(c) && is_login(
                        c,
                        source.registry@,
                        user,
                        password,
                    ),
                    None => r == Err::<Credentials, AuthError>(
                        AuthError::InvalidToken(basic_token_error(t@)),
                    ),
                },
            },
            source.auth_type@ == "password"@ ==> match (source.username, source.password) {
                (None, _) => r == Err::<Credentials, AuthError>(AuthError::MissingUsername),
                (Some(_), None) => r == Err::<Credentials, AuthError>(AuthError::MissingPassword),
                (Some(user), Some(password)) => r matches Ok(c) && is_login(
                    c,
                    source.registry@,
                    user@,
                    password@,
                ),
            },
            source.auth_type@ == "bearer"@ ==> match source.token {
                None => r == Err::<Credentials, AuthError>(AuthError::MissingToken),
                Some(t) => r matches Ok(Credentials::Bearer(token)) && token@ == t@,
            },
            source.auth_type@ == "anonymous"@ ==> r matches Ok(Credentials::Anonymous),
            source.auth_type@ != "basic"@ && source.auth_type@ != "password"@
                && source.auth_type@ != "bearer"@ && source.auth_type@ != "anonymous"@ ==> r
                == Err::<Credentials, AuthError>(AuthError::InvalidAuthType),
    {
        proof {
            reveal_strlit("basic");
            reveal_strlit("password");
            reveal_strlit("bearer");
            reveal_strlit("anonymous");
            assert("basic"@.len() != "bearer"@.len());
            assert("basic"@.len() != "password"@.len());
            assert("basic"@.len() != "anonymous"@.len());
            assert("password"@.len() != "bearer"@.len());
            assert("password"@.len() != "anonymous"@.len());
            assert("bearer"@.len() != "anonymous"@.len());
        }
        let auth_type = source.auth_type.clone();
        if auth_type == String::from_str("basic") {
            match &source.token {
                None => Err(AuthError::MissingToken),
                Some(t) => match try_decode(t.as_str()) {
                    Ok((username, password)) => Ok(
                        Credentials::Login { registry: source.registry.clone(), username, password },
                    ),
                    Err(e) => Err(AuthError::InvalidToken(e)),
                },
            }
        } else if auth_type == String::from_str("password") {
            match &source.username {
                None => Err(AuthError::MissingUsername),
                Some(username) => match &source.password {
                    None => Err(AuthError::MissingPassword),
                    Some(password) => Ok(
                        Credentials::Login {
                            registry: source.registry.clone(),
                            username: username.clone(),
                            password: password.clone(),
                        },
                    ),
                },
            }
        } else if auth_type == String::from_str("bearer") {
            match &source.token {
                None => Err(AuthError::MissingToken),
                Some(t) => Ok(Credentials::Bearer(t.clone())),
            }
        } else if auth_type == String::from_str("anonymous") {
            Ok(Credentials::Anonymous)
        } else {
            Err(AuthError::InvalidAuthType)
        }
    }

    /// The url of a login: `{registry}/-/user/org.couchdb.user:{username}/-rev/undefined`.
    pub fn login_url(registry: &str, username: &str) -> (r: String)
        ensures
            r@ == registry@ + "/-/user/org.couchdb.user:"@ + username@ + "/-rev/undefined"@,
    {
        let mut r = String::from_str(registry);
        r.append("/-/user/org.couchdb.user:");
        r.append(username);
        r.append("/-rev/undefined");
        r
    }

    /// The url of a package: `{url}/{package_name}`.
    pub fn build_package_url(&self, package_name: &str) -> (r: String)
        ensures
            r@ == self@.url + "/"@ + package_name@,
    {
        let mut r = self.url.clone();
        r.append("/");
        r.append(package_name);
        r
    }

    /// The url of a package tarball: `{url}/{package_name}/-/{archive_name}`.
    pub fn build_tar_url(&self, package_name: &str, archive_name: &str) -> (r: String)
        ensures
            r@ == self@.url + "/"@ + package_name@ + "/-/"@ + archive_name@,
    {
        let mut r = self.url.clone();
        r.append("/");
        r.append(package_name);
        r.append("/-/");
        r.append(archive_name);
        r
    }

    /// The url of a package's dist-tags, with `/` in the name url-encoded:
    /// `{url}/-/package/{name}/dist-tags`.
    pub fn build_tag_url(&self, package_name: &str) -> (r: String)
        ensures
            r@ == self@.url + "/-/package/"@ + api_name(package_name@) + "/dist-tags"@,
    {
        let name = normalize_for_api(package_name);
        let mut r = self.url.clone();
        r.append("/-/package/");
        r.append(name.as_str());
        r.append("/dist-tags");
        r
    }

    /// The `Authorization` header the client sends: `Bearer {token}` when
    /// it has a token.
    pub fn authorization(&self) -> (r: Option<String>)
        ensures
            match self@.token {
                Some(t) => r matches Some(h) && h@ == "Bearer "@ + t,
                None => r is None,
            },
    {
        match &self.token {
            Some(t) => {
                let mut h = String::from_str("Bearer ");
                h.append(t.as_str());
                Some(h)
            },
            None => None,
        }
    }
}

} // verus!

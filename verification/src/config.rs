//! Credential records and the canonical registry-auth payload encoder.
//!
//! The payload is `{"auths":{<host>:{"username":..,"password":..,"auth":
//! base64("user:pass")}}}`, serialized as JSON and base64-encoded as a
//! whole. It is a pure function of (username, password, host).

use vstd::prelude::*;
use vstd::string::StringExecFns;

verus! {

/// One centrally maintained credential: a registry host (the unique key),
/// the account to use for it, and the namespaces it applies to.
///
/// An empty `namespaces` list, or one containing the wildcard token `"*"`,
/// means the credential applies to every namespace; otherwise it applies
/// only to the namespaces literally listed.
#[derive(Debug, Clone)]
pub struct Config {
    pub server: String,
    pub username: String,
    pub password: String,
    pub namespaces: Vec<String>,
}

/// What base64 encoding (standard alphabet, padded) of a string's UTF-8
/// bytes returns; a function of the characters alone.
pub uninterp spec fn base64_of(s: Seq<char>) -> Seq<char>;

/// What JSON serialization of a single string returns: the string quoted
/// and escaped; a function of the characters alone.
pub uninterp spec fn json_string_of(s: Seq<char>) -> Seq<char>;

/// Relies on base64's standard engine: a padded, standard-alphabet encoding
/// of the string's UTF-8 bytes, depending on the input characters alone.
#[verifier::external_body]
fn base64_str(s: &str) -> (r: String)
    ensures
        r@ == base64_of(s@),
{
    base64::Engine::encode(&base64::engine::general_purpose::STANDARD, s)
}

/// Relies on serde_json::to_string for `&str`: the quoted, escaped JSON
/// form of the string, depending on the input characters alone. Serializing
/// a plain string cannot fail.
#[verifier::external_body]
fn json_quote(s: &str) -> (r: String)
    ensures
        r@ == json_string_of(s@),
{
    serde_json::to_string(s).unwrap()
}

/// The token placed in the payload's `auth` field: base64 of `user:pass`.
pub open spec fn auth_of(username: Seq<char>, password: Seq<char>) -> Seq<char> {
    base64_of(username + ":"@ + password)
}

/// The JSON text of the registry-auth payload, before the outer base64
/// encoding, with the `auth` field taken as given.
pub open spec fn payload_json(
    server: Seq<char>,
    username: Seq<char>,
    password: Seq<char>,
    auth: Seq<char>,
) -> Seq<char> {
    "{\"auths\":{"@ + json_string_of(server) + ":{\"username\":"@ + json_string_of(username)
        + ",\"password\":"@ + json_string_of(password) + ",\"auth\":"@ + json_string_of(auth)
        + "}}}"@
}

/// The canonical encoded payload for a credential: base64 of the payload
/// JSON whose `auth` field is `auth_of(username, password)`.
pub open spec fn encoded_payload(
    server: Seq<char>,
    username: Seq<char>,
    password: Seq<char>,
) -> Seq<char> {
    base64_of(payload_json(server, username, password, auth_of(username, password)))
}

/// The account part of the payload: the user name, the password, and the
/// derived `auth` token.
#[derive(Debug, Clone)]
pub struct UserInfo {
    username: String,
    password: String,
    auth: String,
}

impl UserInfo {
    pub closed spec fn spec_username(self) -> Seq<char> {
        self.username@
    }

    pub closed spec fn spec_password(self) -> Seq<char> {
        self.password@
    }

    pub closed spec fn spec_auth(self) -> Seq<char> {
        self.auth@
    }

    fn new(username: String, password: String) -> (r: Self)
        ensures
            r.spec_username() == username@,
            r.spec_password() == password@,
            r.spec_auth() == auth_of(username@, password@),
    {
        let mut joined = username.clone();
        joined.append(":");
        joined.append(password.as_str());
        let auth = base64_str(joined.as_str());
        UserInfo { username, password, auth }
    }
}

/// The registry-auth payload for one credential: the registry host mapped
/// to its account entry.
#[derive(Debug, Clone)]
pub struct RegistryAuth {
    server: String,
    user: UserInfo,
}

impl RegistryAuth {
    pub closed spec fn spec_server(self) -> Seq<char> {
        self.server@
    }

    pub closed spec fn spec_username(self) -> Seq<char> {
        self.user.spec_username()
    }

    pub closed spec fn spec_password(self) -> Seq<char> {
        self.user.spec_password()
    }

    pub closed spec fn spec_auth(self) -> Seq<char> {
        self.user.spec_auth()
    }

    /// The `auth` field carries the token derived from this record's own
    /// user name and password.
    pub open spec fn wf(self) -> bool {
        self.spec_auth() == auth_of(self.spec_username(), self.spec_password())
    }

    /// What `base64_encode` returns for this record.
    pub open spec fn encoded_view(self) -> Seq<char> {
        base64_of(
            payload_json(
                self.spec_server(),
                self.spec_username(),
                self.spec_password(),
                self.spec_auth(),
            ),
        )
    }

    pub fn new(username: String, password: String, server: String) -> (r: Self)
        ensures
            r.spec_server() == server@,
            r.spec_username() == username@,
            r.spec_password() == password@,
            r.wf(),
            r.encoded_view() == encoded_payload(server@, username@, password@),
    {
        let user = UserInfo::new(username, password);
        RegistryAuth { server, user }
    }

    /// The canonical encoded payload: base64 of the payload JSON.
    pub fn base64_encode(&self) -> (r: String)
        ensures
            r@ == self.encoded_view(),
    {
        let mut j = String::from_str("{\"auths\":{");
        let qs = json_quote(self.server.as_str());
        j.append(qs.as_str());
        j.append(":{\"username\":");
        let qu = json_quote(self.user.username.as_str());
        j.append(qu.as_str());
        j.append(",\"password\":");
        let qp = json_quote(self.user.password.as_str());
        j.append(qp.as_str());
        j.append(",\"auth\":");
        let qa = json_quote(self.user.auth.as_str());
        j.append(qa.as_str());
        j.append("}}}");
        base64_str(j.as_str())
    }
}

/// Determinism of the encoder: two records that hold the same host, user
/// name and password encode to byte-identical payloads.
pub proof fn lemma_encoder_deterministic(a: RegistryAuth, b: RegistryAuth)
    requires
        a.wf(),
        b.wf(),
        a.spec_server() == b.spec_server(),
        a.spec_username() == b.spec_username(),
        a.spec_password() == b.spec_password(),
    ensures
        a.encoded_view() == b.encoded_view(),
{
}

} // verus!

//! The typed requests and responses that travel through the secure channel.

use crate::encoding::{base64_bytes, base64_text};
use crate::keys::{PublicKey, KEY_LENGTH};
use crate::nonce::{Nonce, NONCE_LENGTH};
use crate::text::text_of;
use vstd::prelude::*;
use vstd::string::*;

verus! {

/// The name of the identifier and public key of one stored identity, as a
/// login request carries them.
pub struct IdKeyPair {
    pub id: String,
    pub key: String,
}

/// What an [`IdKeyPair`] holds.
pub ghost struct IdKeyPairView {
    pub id: Seq<char>,
    pub key: Seq<char>,
}

impl View for IdKeyPair {
    type V = IdKeyPairView;

    open spec fn view(&self) -> IdKeyPairView {
        IdKeyPairView { id: self.id@, key: self.key@ }
    }
}

/// One login that the remote application holds for a URL.
#[derive(Debug)]
pub struct LoginEntry {
    pub login: String,
    pub name: String,
    pub password: String,
    pub uuid: String,
    pub expired: Option<bool>,
}

/// What a [`LoginEntry`] holds.
pub ghost struct LoginEntryView {
    pub login: Seq<char>,
    pub name: Seq<char>,
    pub password: Seq<char>,
    pub uuid: Seq<char>,
    pub expired: Option<bool>,
}

impl View for LoginEntry {
    type V = LoginEntryView;

    open spec fn view(&self) -> LoginEntryView {
        LoginEntryView {
            login: self.login@,
            name: self.name@,
            password: self.password@,
            uuid: self.uuid@,
            expired: self.expired,
        }
    }
}

impl Clone for LoginEntry {
    fn clone(&self) -> (copy: Self)
        ensures
            copy == *self,
    {
        LoginEntry {
            login: self.login.clone(),
            name: self.name.clone(),
            password: self.password.clone(),
            uuid: self.uuid.clone(),
            expired: self.expired,
        }
    }
}

/// Asks for the logins that the given identities may see for a URL.
pub struct GetLoginsRequest {
    pub url: String,
    pub submit_url: Option<String>,
    pub http_auth: Option<String>,
    pub keys: Vec<IdKeyPair>,
}

/// What a [`GetLoginsRequest`] holds.
pub ghost struct GetLoginsRequestView {
    pub url: Seq<char>,
    pub submit_url: Option<Seq<char>>,
    pub http_auth: Option<Seq<char>>,
    pub keys: Seq<IdKeyPairView>,
}

impl View for GetLoginsRequest {
    type V = GetLoginsRequestView;

    open spec fn view(&self) -> GetLoginsRequestView {
        GetLoginsRequestView {
            url: self.url@,
            submit_url: text_of(self.submit_url),
            http_auth: text_of(self.http_auth),
            keys: self.keys@.map_values(|pair: IdKeyPair| pair@),
        }
    }
}

impl GetLoginsRequest {
    /// The request for the logins of `url` on behalf of the identities in
    /// `keys`.
    pub fn new(
        url: &str,
        submit_url: Option<&str>,
        http_auth: Option<&str>,
        keys: Vec<IdKeyPair>,
    ) -> (request: GetLoginsRequest)
        ensures
            request@.url == url@,
            request@.submit_url == chars_of(submit_url),
            request@.http_auth == chars_of(http_auth),
            request.keys == keys,
    {
        GetLoginsRequest {
            url: String::from_str(url),
            submit_url: owned_text(submit_url),
            http_auth: owned_text(http_auth),
            keys,
        }
    }

    /// The name of the action.
    pub fn action(&self) -> (name: String)
        ensures
            name@ == "get-logins"@,
    {
        String::from_str("get-logins")
    }
}

/// Asks the remote application to keep a login: to update the entry named by
/// `uuid`, or to create one where there is none.
pub struct SetLoginRequest {
    pub url: String,
    pub submit_url: String,
    pub id: String,
    pub login: String,
    pub password: String,
    pub group: Option<String>,
    pub group_uuid: Option<String>,
    pub uuid: Option<String>,
}

/// What a [`SetLoginRequest`] holds.
pub ghost struct SetLoginRequestView {
    pub url: Seq<char>,
    pub submit_url: Seq<char>,
    pub id: Seq<char>,
    pub login: Seq<char>,
    pub password: Seq<char>,
    pub group: Option<Seq<char>>,
    pub group_uuid: Option<Seq<char>>,
    pub uuid: Option<Seq<char>>,
}

impl View for SetLoginRequest {
    type V = SetLoginRequestView;

    open spec fn view(&self) -> SetLoginRequestView {
        SetLoginRequestView {
            url: self.url@,
            submit_url: self.submit_url@,
            id: self.id@,
            login: self.login@,
            password: self.password@,
            group: text_of(self.group),
            group_uuid: text_of(self.group_uuid),
            uuid: text_of(self.uuid),
        }
    }
}

/// The characters of an optional borrowed text.
pub open spec fn chars_of(text: Option<&str>) -> Option<Seq<char>> {
    match text {
        Some(t) => Some(t@),
        None => None,
    }
}

/// An owned copy of an optional borrowed text.
pub fn owned_text(text: Option<&str>) -> (copy: Option<String>)
    ensures
        text_of(copy) == chars_of(text),
{
    match text {
        Some(t) => Some(String::from_str(t)),
        None => None,
    }
}

impl SetLoginRequest {
    /// The request to keep `login` and `password` for `url` in the database
    /// registered under `id`.
    pub fn new(
        url: &str,
        submit_url: &str,
        id: &str,
        login: &str,
        password: &str,
        group: Option<&str>,
        group_uuid: Option<&str>,
        uuid: Option<&str>,
    ) -> (request: SetLoginRequest)
        ensures
            request@ == (SetLoginRequestView {
                url: url@,
                submit_url: submit_url@,
                id: id@,
                login: login@,
                password: password@,
                group: chars_of(group),
                group_uuid: chars_of(group_uuid),
                uuid: chars_of(uuid),
            }),
    {
        SetLoginRequest {
            url: String::from_str(url),
            submit_url: String::from_str(submit_url),
            id: String::from_str(id),
            login: String::from_str(login),
            password: String::from_str(password),
            group: owned_text(group),
            group_uuid: owned_text(group_uuid),
            uuid: owned_text(uuid),
        }
    }

    /// The name of the action.
    pub fn action(&self) -> (name: String)
        ensures
            name@ == "set-login"@,
    {
        String::from_str("set-login")
    }
}

/// What the remote application answers to a [`SetLoginRequest`].
pub struct SetLoginResponse {
    pub success: Option<bool>,
    pub error: Option<String>,
    pub error_code: Option<String>,
}

/// The first request of a session, sent in the clear: it hands the local
/// public key to the remote application and asks for its own.
pub struct ChangePublicKeysRequest {
    pub client_id: String,
    pub public_key: String,
    pub nonce: String,
}

impl ChangePublicKeysRequest {
    /// The request that offers `session_pubkey` on behalf of `client_id`,
    /// under a fresh random nonce.
    pub fn new(client_id: &str, session_pubkey: &PublicKey) -> (request: ChangePublicKeysRequest)
        ensures
            request.client_id@ == client_id@,
            request.public_key@ == base64_text(session_pubkey@),
            base64_bytes(request.nonce@) is Some,
            base64_bytes(request.nonce@)->0.len() == NONCE_LENGTH,
    {
        ChangePublicKeysRequest {
            client_id: String::from_str(client_id),
            public_key: session_pubkey.to_base64(),
            nonce: Nonce::generate().to_base64(),
        }
    }

    /// The name of the action.
    pub fn action(&self) -> (name: String)
        ensures
            name@ == "change-public-keys"@,
    {
        String::from_str("change-public-keys")
    }
}

/// What the remote application answers to a [`ChangePublicKeysRequest`].
pub struct ChangePublicKeysResponse {
    pub public_key: Option<String>,
    pub success: Option<bool>,
}

/// The public key that a handshake response hands over: the response has
/// to report success and to carry the base64 text of a key.
pub open spec fn host_key(public_key: Option<Seq<char>>, success: Option<bool>) -> Option<Seq<u8>> {
    if success == Some(true) && public_key is Some && base64_bytes(public_key->0) is Some
        && base64_bytes(public_key->0)->0.len() == KEY_LENGTH {
        base64_bytes(public_key->0)
    } else {
        None
    }
}

impl ChangePublicKeysResponse {
    /// The public key of the remote application, if the response hands one
    /// over together with a successful status.
    pub fn get_public_key(&self) -> (key: Option<PublicKey>)
        ensures
            key is Some == host_key(text_of(self.public_key), self.success) is Some,
            key is Some ==> key->0@ == host_key(text_of(self.public_key), self.success)->0,
    {
        let succeeded = match self.success {
            Some(flag) => flag,
            None => false,
        };
        if !succeeded {
            return None;
        }
        match &self.public_key {
            Some(text) => PublicKey::from_base64(text.as_str()),
            None => None,
        }
    }
}

/// Asks the remote application to register a new identity.
pub struct AssociateRequest {
    pub key: String,
    pub id_key: String,
}

impl AssociateRequest {
    /// The request that registers the permanent public key `id_pubkey` in
    /// the session that runs under `session_pubkey`.
    pub fn new(session_pubkey: &PublicKey, id_pubkey: &PublicKey) -> (request: AssociateRequest)
        ensures
            request.key@ == base64_text(session_pubkey@),
            request.id_key@ == base64_text(id_pubkey@),
    {
        AssociateRequest { key: session_pubkey.to_base64(), id_key: id_pubkey.to_base64() }
    }

    /// The name of the action.
    pub fn action(&self) -> (name: String)
        ensures
            name@ == "associate"@,
    {
        String::from_str("associate")
    }
}

/// What the remote application answers to an [`AssociateRequest`]. The
/// identifier is there only if the registration was approved.
pub struct AssociateResponse {
    pub id: Option<String>,
    pub success: Option<bool>,
}

/// Asks the remote application whether a stored identity is still valid.
pub struct TestAssociateRequest {
    pub id: String,
    pub key: String,
}

impl TestAssociateRequest {
    /// The request that tests the identity registered under `id` with the
    /// permanent public key `key`, given as base64 text.
    pub fn new(id: &str, key: &str) -> (request: TestAssociateRequest)
        ensures
            request.id@ == id@,
            request.key@ == key@,
    {
        TestAssociateRequest { id: String::from_str(id), key: String::from_str(key) }
    }

    /// The name of the action.
    pub fn action(&self) -> (name: String)
        ensures
            name@ == "test-associate"@,
    {
        String::from_str("test-associate")
    }
}

/// What the remote application answers to a [`TestAssociateRequest`].
pub struct TestAssociateResponse {
    pub success: Option<bool>,
}

/// Asks the remote application for a group of a given name. It makes the
/// group where there is none and hands out the one that exists otherwise,
/// so that asking twice is harmless.
pub struct CreateNewGroupRequest {
    pub group_name: String,
}

impl CreateNewGroupRequest {
    /// The request for the group named `group_name`.
    pub fn new(group_name: &str) -> (request: CreateNewGroupRequest)
        ensures
            request.group_name@ == group_name@,
    {
        CreateNewGroupRequest { group_name: String::from_str(group_name) }
    }

    /// The name of the action.
    pub fn action(&self) -> (name: String)
        ensures
            name@ == "create-new-group"@,
    {
        String::from_str("create-new-group")
    }
}

/// What the remote application answers to a [`CreateNewGroupRequest`].
pub struct CreateNewGroupResponse {
    pub name: String,
    pub uuid: String,
}

/// What the remote application answers to a [`GetLoginsRequest`].
pub struct GetLoginsResponse {
    pub entries: Vec<LoginEntry>,
}

} // verus!

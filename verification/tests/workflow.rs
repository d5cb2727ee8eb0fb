use git_credential_keepassxc::config::{Config, Database};
use git_credential_keepassxc::error::Error;
use git_credential_keepassxc::git::GitCredentialMessage;
use git_credential_keepassxc::keys::SecretKey;
use git_credential_keepassxc::messages::{
    AssociateRequest, AssociateResponse, CreateNewGroupRequest, CreateNewGroupResponse,
    GetLoginsRequest, GetLoginsResponse, IdKeyPair, LoginEntry, SetLoginRequest, SetLoginResponse,
    TestAssociateRequest, TestAssociateResponse,
};
use git_credential_keepassxc::workflow::{
    associated_databases, association_id, check_store_request, check_store_response, configure,
    current_logins, get_logins, get_logins_for, store_login, test_associate_requests,
};

fn database(id: &str) -> Database {
    Database {
        id: id.to_string(),
        key: format!("{}-secret", id),
        pkey: format!("{}-public", id),
        group: format!("{}-group", id),
        group_uuid: format!("{}-uuid", id),
    }
}

fn confirmed() -> Result<TestAssociateResponse, Error> {
    Ok(TestAssociateResponse { success: Some(true) })
}

fn login(name: &str, expired: Option<bool>) -> LoginEntry {
    LoginEntry {
        login: name.to_string(),
        name: format!("{} entry", name),
        password: format!("{}-password", name),
        uuid: format!("{}-uuid", name),
        expired,
    }
}

fn request(username: Option<&str>, password: Option<&str>) -> GitCredentialMessage {
    let mut message = GitCredentialMessage::new();
    message.protocol = Some("https".to_string());
    message.host = Some("example.com".to_string());
    message.username = username.map(|t| t.to_string());
    message.password = password.map(|t| t.to_string());
    message
}

#[test]
fn one_failed_test_leaves_the_other_identities() {
    let databases = vec![database("a"), database("b"), database("c")];
    let outcomes = vec![confirmed(), Err(Error::RemoteRequestFailed), confirmed()];
    let valid = associated_databases(&databases, &outcomes).unwrap();
    assert_eq!(valid.len(), 2);
    assert_eq!(valid[0].id, "a");
    assert_eq!(valid[0].pkey, "a-public");
    assert_eq!(valid[1].id, "c");
    let request = get_logins_for(&valid, "https://example.com/repo.git");
    assert_eq!(request.url, "https://example.com/repo.git");
    assert_eq!(request.keys.len(), 2);
    assert_eq!(request.keys[0].id, "a");
    assert_eq!(request.keys[0].key, "a-public");
    assert_eq!(request.keys[1].id, "c");
    assert_eq!(request.keys[1].key, "c-public");
}

#[test]
fn no_confirmed_identity_is_an_error() {
    let databases = vec![database("a"), database("b")];
    let outcomes = vec![
        Err(Error::DecryptionFailed),
        Ok(TestAssociateResponse { success: Some(false) }),
    ];
    assert_eq!(associated_databases(&databases, &outcomes).err(), Some(Error::NoValidIdentities));
    assert_eq!(associated_databases(&databases, &Vec::new()).err(), Some(Error::NoValidIdentities));
    assert_eq!(
        associated_databases(&Vec::new(), &vec![confirmed()]).err(),
        Some(Error::NoValidIdentities)
    );
}

#[test]
fn answer_without_success_flag_confirms_nothing() {
    let databases = vec![database("a"), database("b")];
    let outcomes = vec![Ok(TestAssociateResponse { success: None }), confirmed()];
    let valid = associated_databases(&databases, &outcomes).unwrap();
    assert_eq!(valid.len(), 1);
    assert_eq!(valid[0].id, "b");
}

#[test]
fn identity_without_outcome_is_not_confirmed() {
    let databases = vec![database("a"), database("b")];
    let valid = associated_databases(&databases, &vec![confirmed()]).unwrap();
    assert_eq!(valid.len(), 1);
    assert_eq!(valid[0].id, "a");
}

#[test]
fn each_identity_is_tested_with_its_public_key() {
    let requests = test_associate_requests(&vec![database("a"), database("b")]);
    assert_eq!(requests.len(), 2);
    assert_eq!(requests[0].id, "a");
    assert_eq!(requests[0].key, "a-public");
    assert_eq!(requests[1].id, "b");
    assert_eq!(requests[1].key, "b-public");
    assert_eq!(requests[0].action(), "test-associate");
    assert!(test_associate_requests(&Vec::new()).is_empty());
}

#[test]
fn login_request_names_no_submit_url() {
    let request = get_logins_for(&vec![database("a")], "https://example.com");
    assert_eq!(request.submit_url, None);
    assert_eq!(request.http_auth, None);
    assert_eq!(request.action(), "get-logins");
    let empty = get_logins_for(&Vec::new(), "u");
    assert!(empty.keys.is_empty());
}

#[test]
fn expired_logins_are_dropped() {
    let response = GetLoginsResponse {
        entries: vec![
            login("old", Some(true)),
            login("first", None),
            login("second", Some(false)),
            login("older", Some(true)),
        ],
    };
    let entries = current_logins(&response);
    assert_eq!(entries.len(), 2);
    assert_eq!(entries[0].login, "first");
    assert_eq!(entries[1].login, "second");
    assert_eq!(entries[1].expired, Some(false));
    assert!(current_logins(&GetLoginsResponse { entries: vec![login("x", Some(true))] }).is_empty());
}

#[test]
fn the_first_of_two_logins_is_returned() {
    let entries = vec![login("first", None), login("second", None)];
    let (reply, several) = get_logins(&request(None, None), &entries).unwrap();
    assert!(several);
    assert_eq!(reply.username.as_deref(), Some("first"));
    assert_eq!(reply.password.as_deref(), Some("first-password"));
    assert_eq!(reply.protocol.as_deref(), Some("https"));
    assert_eq!(reply.host.as_deref(), Some("example.com"));
    assert_eq!(
        reply.to_string(),
        "protocol=https\nhost=example.com\nusername=first\npassword=first-password\n"
    );
}

#[test]
fn a_single_login_is_returned_without_warning() {
    let (reply, several) =
        get_logins(&request(Some("ignored"), None), &vec![login("only", None)]).unwrap();
    assert!(!several);
    assert_eq!(reply.username.as_deref(), Some("only"));
    assert_eq!(reply.password.as_deref(), Some("only-password"));
}

#[test]
fn no_login_is_an_error() {
    assert_eq!(get_logins(&request(None, None), &Vec::new()).err(), Some(Error::NoMatchingLogin));
}

#[test]
fn storing_without_prior_login_creates_an_entry() {
    let databases = vec![database("a")];
    let made = store_login(
        &databases,
        &request(Some("alice"), Some("pw")),
        "https://example.com/",
        &Err(Error::NoMatchingLogin),
    )
    .ok()
    .unwrap();
    assert_eq!(made.uuid, None);
    assert_eq!(made.url, "https://example.com/");
    assert_eq!(made.submit_url, "https://example.com/");
    assert_eq!(made.id, "a");
    assert_eq!(made.login, "alice");
    assert_eq!(made.password, "pw");
    assert_eq!(made.group.as_deref(), Some("a-group"));
    assert_eq!(made.group_uuid.as_deref(), Some("a-uuid"));
    assert_eq!(made.action(), "set-login");
    let also = store_login(&databases, &request(Some("alice"), Some("pw")), "u", &Ok(Vec::new()))
        .ok()
        .unwrap();
    assert_eq!(also.uuid, None);
    let answered = store_login(
        &databases,
        &request(Some("alice"), Some("pw")),
        "u",
        &Err(Error::RemoteRequestFailed),
    )
    .ok()
    .unwrap();
    assert_eq!(answered.uuid, None);
    assert_eq!(answered.id, "a");
}

#[test]
fn storing_after_a_failed_lookup_fails_with_its_cause() {
    let databases = vec![database("a")];
    for cause in [
        Error::NoValidIdentities,
        Error::DecryptionFailed,
        Error::HandshakeFailed,
        Error::EncryptionFailed,
        Error::EncryptionKeyUnavailable,
        Error::ConfigurationMissing,
        Error::UnsupportedOperation,
        Error::AssociationDeclined,
        Error::MalformedCredentialRequest,
    ] {
        assert_eq!(
            store_login(&databases, &request(Some("alice"), Some("pw")), "u", &Err(cause)).err(),
            Some(cause)
        );
    }
    // Also where no identity is configured: the lookup's cause comes first.
    assert_eq!(
        store_login(
            &Vec::new(),
            &request(Some("alice"), Some("pw")),
            "u",
            &Err(Error::NoValidIdentities)
        )
        .err(),
        Some(Error::NoValidIdentities)
    );
    // A request without password is refused whatever the lookup gave.
    assert_eq!(
        store_login(&databases, &request(Some("alice"), None), "u", &Err(Error::DecryptionFailed))
            .err(),
        Some(Error::MalformedCredentialRequest)
    );
}

#[test]
fn store_request_needs_username_and_password() {
    assert_eq!(check_store_request(&request(Some("alice"), Some("pw"))), Ok(()));
    assert_eq!(check_store_request(&request(Some(""), Some(""))), Ok(()));
    assert_eq!(
        check_store_request(&request(None, Some("pw"))),
        Err(Error::MalformedCredentialRequest)
    );
    assert_eq!(
        check_store_request(&request(Some("alice"), None)),
        Err(Error::MalformedCredentialRequest)
    );
    assert_eq!(check_store_request(&request(None, None)), Err(Error::MalformedCredentialRequest));
}

#[test]
fn storing_with_one_prior_login_updates_it() {
    let databases = vec![database("a")];
    let made = store_login(
        &databases,
        &request(Some("alice"), Some("new")),
        "https://example.com/",
        &Ok(vec![login("alice", None)]),
    )
    .ok()
    .unwrap();
    assert_eq!(made.uuid.as_deref(), Some("alice-uuid"));
    assert_eq!(made.id, "a");
    assert_eq!(made.password, "new");
}

#[test]
fn storing_with_several_prior_logins_updates_the_first() {
    let made = store_login(
        &vec![database("a")],
        &request(Some("alice"), Some("new")),
        "u",
        &Ok(vec![login("one", None), login("two", None)]),
    )
    .ok()
    .unwrap();
    assert_eq!(made.uuid.as_deref(), Some("one-uuid"));
}

#[test]
fn storing_a_new_login_with_several_identities_uses_the_first() {
    let made = store_login(
        &vec![database("a"), database("b")],
        &request(Some("alice"), Some("pw")),
        "u",
        &Err(Error::RemoteRequestFailed),
    )
    .ok()
    .unwrap();
    assert_eq!(made.id, "a");
    assert_eq!(made.uuid, None);
}

#[test]
fn updating_with_several_identities_is_unsupported() {
    assert_eq!(
        store_login(
            &vec![database("a"), database("b")],
            &request(Some("alice"), Some("pw")),
            "u",
            &Ok(vec![login("alice", None)]),
        )
        .err(),
        Some(Error::UnsupportedOperation)
    );
}

#[test]
fn storing_needs_username_and_password() {
    let databases = vec![database("a")];
    let prior = Ok(Vec::new());
    assert_eq!(
        store_login(&databases, &request(None, Some("pw")), "u", &prior).err(),
        Some(Error::MalformedCredentialRequest)
    );
    assert_eq!(
        store_login(&databases, &request(Some("alice"), None), "u", &prior).err(),
        Some(Error::MalformedCredentialRequest)
    );
    assert_eq!(
        store_login(&Vec::new(), &request(None, None), "u", &prior).err(),
        Some(Error::MalformedCredentialRequest)
    );
}

#[test]
fn storing_needs_an_identity() {
    assert_eq!(
        store_login(&Vec::new(), &request(Some("alice"), Some("pw")), "u", &Ok(Vec::new())).err(),
        Some(Error::ConfigurationMissing)
    );
}

#[test]
fn store_response_is_checked_twice() {
    let response = |success: Option<bool>, error: Option<&str>| SetLoginResponse {
        success,
        error: error.map(|t| t.to_string()),
        error_code: None,
    };
    assert_eq!(check_store_response(&response(Some(true), None)), Ok(()));
    assert_eq!(check_store_response(&response(Some(true), Some(""))), Ok(()));
    assert_eq!(check_store_response(&response(Some(true), Some("success"))), Ok(()));
    assert_eq!(
        check_store_response(&response(Some(true), Some("Success"))),
        Err(Error::RemoteRequestFailed)
    );
    assert_eq!(
        check_store_response(&response(Some(true), Some("entry locked"))),
        Err(Error::RemoteRequestFailed)
    );
    assert_eq!(check_store_response(&response(Some(false), None)), Err(Error::RemoteRequestFailed));
    assert_eq!(
        check_store_response(&response(Some(false), Some("success"))),
        Err(Error::RemoteRequestFailed)
    );
    assert_eq!(check_store_response(&response(None, None)), Err(Error::RemoteRequestFailed));
}

#[test]
fn association_without_identifier_was_declined() {
    let response = |id: Option<&str>, success: Option<bool>| AssociateResponse {
        id: id.map(|t| t.to_string()),
        success,
    };
    assert_eq!(association_id(&response(Some("laptop"), Some(true))), Ok("laptop".to_string()));
    assert_eq!(association_id(&response(Some("laptop"), None)), Ok("laptop".to_string()));
    assert_eq!(association_id(&response(None, Some(true))), Err(Error::AssociationDeclined));
    assert_eq!(association_id(&response(None, None)), Err(Error::AssociationDeclined));
    assert_eq!(
        association_id(&response(Some("laptop"), Some(false))),
        Err(Error::AssociationDeclined)
    );
}

#[test]
fn configure_records_the_new_identity() {
    let mut config = Config::new();
    config.databases.push(database("old"));
    let secret = SecretKey::from_bytes(vec![1u8; 32]).unwrap();
    let key = secret.to_base64();
    let pkey = secret.public_key().to_base64();
    configure(
        &mut config,
        "laptop".to_string(),
        secret,
        CreateNewGroupResponse { name: "Git".to_string(), uuid: "g-1".to_string() },
    );
    assert_eq!(config.count_databases(), 2);
    assert_eq!(config.count_encrypted_databases(), 0);
    assert_eq!(config.databases[0].id, "old");
    let added = &config.databases[1];
    assert_eq!(added.id, "laptop");
    assert_eq!(added.key, key);
    assert_eq!(added.pkey, pkey);
    assert_eq!(added.group, "Git");
    assert_eq!(added.group_uuid, "g-1");
}

#[test]
fn requests_carry_what_they_were_made_with() {
    let session = SecretKey::from_bytes(vec![1u8; 32]).unwrap().public_key();
    let identity = SecretKey::from_bytes(vec![2u8; 32]).unwrap().public_key();
    let associate = AssociateRequest::new(&session, &identity);
    assert_eq!(associate.key, session.to_base64());
    assert_eq!(associate.id_key, identity.to_base64());
    assert_ne!(associate.key, associate.id_key);
    assert_eq!(associate.action(), "associate");
    let test = TestAssociateRequest::new("id", "key");
    assert_eq!((test.id.as_str(), test.key.as_str()), ("id", "key"));
    let group = CreateNewGroupRequest::new("Git");
    assert_eq!(group.group_name, "Git");
    assert_eq!(group.action(), "create-new-group");
    let logins = GetLoginsRequest::new(
        "url",
        Some("submit"),
        Some("true"),
        vec![IdKeyPair { id: "i".to_string(), key: "k".to_string() }],
    );
    assert_eq!(logins.url, "url");
    assert_eq!(logins.submit_url.as_deref(), Some("submit"));
    assert_eq!(logins.http_auth.as_deref(), Some("true"));
    assert_eq!(logins.keys.len(), 1);
    let set = SetLoginRequest::new("u", "s", "i", "l", "p", None, Some("g"), Some("e"));
    assert_eq!(set.url, "u");
    assert_eq!(set.submit_url, "s");
    assert_eq!(set.id, "i");
    assert_eq!(set.login, "l");
    assert_eq!(set.password, "p");
    assert_eq!(set.group, None);
    assert_eq!(set.group_uuid.as_deref(), Some("g"));
    assert_eq!(set.uuid.as_deref(), Some("e"));
}

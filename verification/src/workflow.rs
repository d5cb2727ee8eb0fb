//! The decisions of the workflows: which identities to use, which login to
//! hand out, what to ask of the remote application and how to read its
//! answer. The exchanges themselves happen outside.

use crate::config::{Config, Database, DatabaseView, Group};
use crate::encoding::base64_text;
use crate::error::Error;
use crate::git::{GitCredentialMessage, GitCredentialMessageView};
use crate::keys::{x25519_public_key, SecretKey};
use crate::messages::{
    AssociateResponse, CreateNewGroupResponse, GetLoginsRequest, GetLoginsResponse, IdKeyPair,
    IdKeyPairView, LoginEntry, LoginEntryView, SetLoginRequest, SetLoginRequestView,
    SetLoginResponse, TestAssociateRequest, TestAssociateResponse,
};
use crate::text::{copy_text, text_is, text_of, views};
use vstd::prelude::*;
use vstd::string::*;

verus! {

/// The outcome of looking up the logins already held for a URL: the logins
/// found, or why the lookup failed.
pub open spec fn lookup_outcome(prior: Result<Vec<LoginEntry>, Error>) -> Result<
    Seq<LoginEntryView>,
    Error,
> {
    match prior {
        Ok(entries) => Ok(views(entries@)),
        Err(e) => Err(e),
    }
}

/// Whether a failed lookup says no more than that no login was found. The
/// remote application answers a lookup that finds nothing with an error in
/// place of a payload, which is read as a failed request.
pub open spec fn means_none_found(error: Error) -> bool {
    error == Error::NoMatchingLogin || error == Error::RemoteRequestFailed
}

/// The request that stores a login for `url`, given the configured
/// identities and the logins `found` for that URL before.
///
/// The login goes to the first identity. Where a login was found, the request
/// names the first one, so that it is updated in place; that is refused when
/// more than one identity is configured, since nothing tells which of them
/// holds the entry. Where none was found, the request names no entry, so
/// that one is created.
pub open spec fn store_request(
    databases: Seq<DatabaseView>,
    url: Seq<char>,
    username: Seq<char>,
    password: Seq<char>,
    found: Seq<LoginEntryView>,
) -> Result<SetLoginRequestView, Error> {
    if databases.len() == 0 {
        Err(Error::ConfigurationMissing)
    } else if found.len() > 0 && databases.len() > 1 {
        Err(Error::UnsupportedOperation)
    } else {
        Ok(
            SetLoginRequestView {
                url: url,
                submit_url: url,
                id: databases[0].id,
                login: username,
                password: password,
                group: Some(databases[0].group),
                group_uuid: Some(databases[0].group_uuid),
                uuid: if found.len() > 0 {
                    Some(found[0].uuid)
                } else {
                    None
                },
            },
        )
    }
}

/// What [`store_login`] returns for a credential request.
///
/// A request without username or password is refused. A lookup that failed
/// ends the workflow with its own error: no identity was confirmed, a reply
/// did not open, and so on. Only a lookup that found nothing, or failed
/// because nothing was found, leads to a new entry.
pub open spec fn store_login_result(
    databases: Seq<DatabaseView>,
    username: Option<Seq<char>>,
    password: Option<Seq<char>>,
    url: Seq<char>,
    prior: Result<Seq<LoginEntryView>, Error>,
) -> Result<SetLoginRequestView, Error> {
    if username is None || password is None {
        Err(Error::MalformedCredentialRequest)
    } else {
        match prior {
            Ok(found) => store_request(databases, url, username->0, password->0, found),
            Err(e) => if means_none_found(e) {
                store_request(databases, url, username->0, password->0, Seq::empty())
            } else {
                Err(e)
            },
        }
    }
}

/// A lookup that failed for any reason but that nothing was found fails the
/// store with the same reason, whatever else is given: no request is made.
pub proof fn lemma_failed_lookup_fails_store(
    databases: Seq<DatabaseView>,
    username: Seq<char>,
    password: Seq<char>,
    url: Seq<char>,
    error: Error,
)
    requires
        !means_none_found(error),
    ensures
        store_login_result(databases, Some(username), Some(password), url, Err(error)) == Err::<
            SetLoginRequestView,
            Error,
        >(error),
{
}

/// Whether a credential request can be stored at all: it has to name both
/// a username and a password.
pub fn check_store_request(git_req: &GitCredentialMessage) -> (outcome: Result<(), Error>)
    ensures
        outcome == if git_req@.username is None || git_req@.password is None {
            Err::<(), Error>(Error::MalformedCredentialRequest)
        } else {
            Ok::<(), Error>(())
        },
{
    if git_req.username.is_none() || git_req.password.is_none() {
        Err(Error::MalformedCredentialRequest)
    } else {
        Ok(())
    }
}

/// Storing a login for which nothing was found asks for a new entry: the
/// request names no entry. Storing one for which exactly one login was found
/// asks for that entry to be updated: the request names it. The first holds
/// wherever an identity is configured, the second where exactly one is.
pub proof fn lemma_store_creates_or_updates(
    databases: Seq<DatabaseView>,
    url: Seq<char>,
    username: Seq<char>,
    password: Seq<char>,
    found: Seq<LoginEntryView>,
)
    requires
        databases.len() >= 1,
        found.len() == 1 ==> databases.len() == 1,
    ensures
        found.len() == 0 ==> store_request(databases, url, username, password, found) is Ok
            && store_request(databases, url, username, password, found)->Ok_0.uuid is None,
        found.len() == 1 ==> store_request(databases, url, username, password, found) is Ok
            && store_request(databases, url, username, password, found)->Ok_0.uuid == Some(
            found[0].uuid,
        ),
{
}

/// Decides what to ask of the remote application in order to store the
/// login of a credential request.
///
/// `databases` are the configured identities, `url` the resolved URL of the
/// request and `prior` the outcome of looking up the logins already held
/// for that URL. A request without username or password is refused before
/// anything else is looked at; a lookup that failed for any reason but that
/// nothing was found ends the workflow with that reason.
pub fn store_login(
    databases: &Vec<Database>,
    git_req: &GitCredentialMessage,
    url: &str,
    prior: &Result<Vec<LoginEntry>, Error>,
) -> (request: Result<SetLoginRequest, Error>)
    ensures
        match store_login_result(
            views(databases@),
            git_req@.username,
            git_req@.password,
            url@,
            lookup_outcome(*prior),
        ) {
            Ok(expected) => request is Ok && request->Ok_0@ == expected,
            Err(e) => request == Err::<SetLoginRequest, Error>(e),
        },
{
    let username = match &git_req.username {
        Some(username) => username,
        None => {
            return Err(Error::MalformedCredentialRequest);
        },
    };
    let password = match &git_req.password {
        Some(password) => password,
        None => {
            return Err(Error::MalformedCredentialRequest);
        },
    };
    let existing: Option<&LoginEntry> = match prior {
        Ok(entries) => if entries.len() > 0 {
            assert(views(entries@)[0] == entries[0]@);
            Some(&entries[0])
        } else {
            None
        },
        Err(Error::NoMatchingLogin) => None,
        Err(Error::RemoteRequestFailed) => None,
        Err(e) => {
            return Err(*e);
        },
    };
    if databases.len() == 0 {
        return Err(Error::ConfigurationMissing);
    }
    let database = &databases[0];
    assert(views(databases@)[0] == database@);
    match existing {
        Some(entry) => {
            if databases.len() > 1 {
                return Err(Error::UnsupportedOperation);
            }
            Ok(
                SetLoginRequest::new(
                    url,
                    url,
                    database.id.as_str(),
                    username.as_str(),
                    password.as_str(),
                    Some(database.group.as_str()),
                    Some(database.group_uuid.as_str()),
                    Some(entry.uuid.as_str()),
                ),
            )
        },
        None => Ok(
            SetLoginRequest::new(
                url,
                url,
                database.id.as_str(),
                username.as_str(),
                password.as_str(),
                Some(database.group.as_str()),
                Some(database.group_uuid.as_str()),
                None,
            ),
        ),
    }
}

/// Whether the answer to a store request reports that the login was kept:
/// the success flag is set, and the error text beside it is absent, empty or
/// the word `success`.
pub open spec fn store_succeeded(success: Option<bool>, error: Option<Seq<char>>) -> bool {
    success == Some(true) && (error is None || error->0.len() == 0 || error->0 == "success"@)
}

/// Reads the answer to a store request. The success flag alone is not
/// believed: an error text that says anything but `success` makes the
/// answer a failure.
pub fn check_store_response(response: &SetLoginResponse) -> (outcome: Result<(), Error>)
    ensures
        outcome == if store_succeeded(response.success, text_of(response.error)) {
            Ok::<(), Error>(())
        } else {
            Err::<(), Error>(Error::RemoteRequestFailed)
        },
{
    let flagged = match response.success {
        Some(success) => success,
        None => false,
    };
    let clean = match &response.error {
        None => true,
        Some(error) => error.as_str().unicode_len() == 0 || text_is(error, "success"),
    };
    if flagged && clean {
        Ok(())
    } else {
        Err(Error::RemoteRequestFailed)
    }
}

/// Whether the outcome of testing an identity confirms it: the exchange
/// went through and the answer reports success.
pub open spec fn confirms(outcome: Result<TestAssociateResponse, Error>) -> bool {
    outcome matches Ok(response) && response.success == Some(true)
}

/// The identities that were confirmed, in stored order: each identity whose
/// test, at the same place in `outcomes`, confirms it. An identity without
/// an outcome is not confirmed.
pub open spec fn confirmed(
    databases: Seq<Database>,
    outcomes: Seq<Result<TestAssociateResponse, Error>>,
) -> Seq<Database>
    decreases databases.len(),
{
    if databases.len() == 0 {
        Seq::empty()
    } else {
        let earlier = confirmed(databases.drop_last(), outcomes);
        let last: int = databases.len() - 1;
        if last < outcomes.len() && confirms(outcomes[last]) {
            earlier.push(databases.last())
        } else {
            earlier
        }
    }
}

/// An identity is among the confirmed ones exactly if it is stored at a
/// place whose test confirms it. A test that fails takes nothing away from
/// the others.
pub proof fn lemma_confirmed_members(
    databases: Seq<Database>,
    outcomes: Seq<Result<TestAssociateResponse, Error>>,
    database: Database,
)
    ensures
        confirmed(databases, outcomes).contains(database) <==> exists|i: int|
            0 <= i < databases.len() && i < outcomes.len() && databases[i] == database
                && confirms(#[trigger] outcomes[i]),
        confirmed(databases, outcomes).len() <= databases.len(),
    decreases databases.len(),
{
    if databases.len() > 0 {
        let earlier = confirmed(databases.drop_last(), outcomes);
        let last: int = databases.len() - 1;
        lemma_confirmed_members(databases.drop_last(), outcomes, database);
        if confirmed(databases, outcomes).contains(database) {
            if earlier.contains(database) {
                let i = choose|i: int|
                    0 <= i < databases.drop_last().len() && i < outcomes.len()
                        && databases.drop_last()[i] == database && confirms(#[trigger] outcomes[i]);
                assert(databases[i] == database && confirms(outcomes[i]));
            } else {
                let at = choose|j: int|
                    0 <= j < confirmed(databases, outcomes).len() && confirmed(
                        databases,
                        outcomes,
                    )[j] == database;
                assert(at == earlier.len());
                assert(databases[last] == database && confirms(outcomes[last]));
            }
        }
        if exists|i: int|
            0 <= i < databases.len() && i < outcomes.len() && databases[i] == database
                && confirms(#[trigger] outcomes[i]) {
            let i = choose|i: int|
                0 <= i < databases.len() && i < outcomes.len() && databases[i] == database
                    && confirms(#[trigger] outcomes[i]);
            if i == last {
                assert(earlier.push(databases.last())[earlier.len() as int] == database);
            } else {
                assert(databases.drop_last()[i] == database);
                assert(earlier.contains(database));
                let at = choose|j: int| 0 <= j < earlier.len() && earlier[j] == database;
                assert(confirmed(databases, outcomes)[at] == database);
            }
        }
    }
}

/// Where no test confirms an identity, no identity is left.
pub proof fn lemma_nothing_confirmed(
    databases: Seq<Database>,
    outcomes: Seq<Result<TestAssociateResponse, Error>>,
)
    requires
        forall|i: int| 0 <= i < outcomes.len() ==> !confirms(#[trigger] outcomes[i]),
    ensures
        confirmed(databases, outcomes).len() == 0,
    decreases databases.len(),
{
    if databases.len() > 0 {
        lemma_nothing_confirmed(databases.drop_last(), outcomes);
    }
}

/// Where the test of one identity confirms it, identities are left, however
/// many other tests failed.
pub proof fn lemma_one_confirmation_suffices(
    databases: Seq<Database>,
    outcomes: Seq<Result<TestAssociateResponse, Error>>,
    at: int,
)
    requires
        0 <= at < databases.len(),
        at < outcomes.len(),
        confirms(outcomes[at]),
    ensures
        confirmed(databases, outcomes).len() > 0,
        confirmed(databases, outcomes).contains(databases[at]),
{
    lemma_confirmed_members(databases, outcomes, databases[at]);
}

/// The requests that test the stored identities, one for each, in stored
/// order.
pub fn test_associate_requests(databases: &Vec<Database>) -> (requests: Vec<TestAssociateRequest>)
    ensures
        requests@.len() == databases@.len(),
        forall|i: int|
            0 <= i < databases@.len() ==> (#[trigger] requests@[i]).id@ == databases@[i].id@
                && requests@[i].key@ == databases@[i].pkey@,
{
    let mut requests: Vec<TestAssociateRequest> = Vec::new();
    let mut i: usize = 0;
    while i < databases.len()
        invariant
            i <= databases.len(),
            requests@.len() == i,
            forall|j: int|
                0 <= j < i ==> (#[trigger] requests@[j]).id@ == databases@[j].id@
                    && requests@[j].key@ == databases@[j].pkey@,
        decreases databases.len() - i,
    {
        let database = &databases[i];
        requests.push(TestAssociateRequest::new(database.id.as_str(), database.pkey.as_str()));
        i = i + 1;
    }
    requests
}

/// Picks the stored identities that the remote application confirmed.
///
/// `outcomes` holds, for each identity in stored order, what came of
/// testing it. An identity whose test failed is left out and nothing more;
/// only if no identity is left does the workflow fail.
pub fn associated_databases(
    databases: &Vec<Database>,
    outcomes: &Vec<Result<TestAssociateResponse, Error>>,
) -> (valid: Result<Vec<Database>, Error>)
    ensures
        confirmed(databases@, outcomes@).len() == 0 ==> valid == Err::<Vec<Database>, Error>(
            Error::NoValidIdentities,
        ),
        confirmed(databases@, outcomes@).len() > 0 ==> valid is Ok && valid->Ok_0@ == confirmed(
            databases@,
            outcomes@,
        ),
{
    let mut valid: Vec<Database> = Vec::new();
    let mut i: usize = 0;
    proof {
        assert(databases@.take(0) =~= Seq::<Database>::empty());
    }
    while i < databases.len()
        invariant
            i <= databases.len(),
            valid@ == confirmed(databases@.take(i as int), outcomes@),
        decreases databases.len() - i,
    {
        proof {
            assert(databases@.take(i + 1).drop_last() =~= databases@.take(i as int));
            assert(databases@.take(i + 1).last() == databases@[i as int]);
        }
        let confirmed_here: bool = if i < outcomes.len() {
            match &outcomes[i] {
                Ok(response) => match response.success {
                    Some(flag) => flag,
                    None => false,
                },
                Err(_) => false,
            }
        } else {
            false
        };
        if confirmed_here {
            valid.push(databases[i].clone());
        }
        i = i + 1;
    }
    proof {
        assert(databases@.take(databases@.len() as int) =~= databases@);
    }
    if valid.len() == 0 {
        Err(Error::NoValidIdentities)
    } else {
        Ok(valid)
    }
}

/// The identifier and public key of each identity, in order.
pub open spec fn id_key_pairs(databases: Seq<DatabaseView>) -> Seq<IdKeyPairView> {
    databases.map_values(|database: DatabaseView| IdKeyPairView { id: database.id, key: database.pkey })
}

/// The request for the logins that the confirmed identities may see for a
/// URL: it names the URL and every one of the identities.
pub fn get_logins_for(databases: &Vec<Database>, url: &str) -> (request: GetLoginsRequest)
    ensures
        request@.url == url@,
        request@.submit_url is None,
        request@.http_auth is None,
        request@.keys == id_key_pairs(views(databases@)),
{
    let mut keys: Vec<IdKeyPair> = Vec::new();
    let mut i: usize = 0;
    while i < databases.len()
        invariant
            i <= databases.len(),
            keys@.len() == i,
            forall|j: int|
                0 <= j < i ==> (#[trigger] keys@[j])@ == (IdKeyPairView {
                    id: databases@[j].id@,
                    key: databases@[j].pkey@,
                }),
        decreases databases.len() - i,
    {
        let database = &databases[i];
        keys.push(IdKeyPair { id: database.id.clone(), key: database.pkey.clone() });
        i = i + 1;
    }
    let request = GetLoginsRequest::new(url, None, None, keys);
    proof {
        assert(request@.keys =~= id_key_pairs(views(databases@)));
    }
    request
}

/// The entries that are not marked as expired, in order.
pub open spec fn unexpired(entries: Seq<LoginEntry>) -> Seq<LoginEntry>
    decreases entries.len(),
{
    if entries.len() == 0 {
        Seq::empty()
    } else if entries.last().expired == Some(true) {
        unexpired(entries.drop_last())
    } else {
        unexpired(entries.drop_last()).push(entries.last())
    }
}

/// What is left once the expired entries are dropped holds no expired
/// entry, and holds every entry that is not expired.
pub proof fn lemma_unexpired_members(entries: Seq<LoginEntry>, entry: LoginEntry)
    ensures
        unexpired(entries).contains(entry) <==> entries.contains(entry) && entry.expired != Some(
            true,
        ),
    decreases entries.len(),
{
    if entries.len() > 0 {
        let earlier = unexpired(entries.drop_last());
        lemma_unexpired_members(entries.drop_last(), entry);
        if unexpired(entries).contains(entry) {
            if earlier.contains(entry) {
                let i = choose|i: int|
                    0 <= i < entries.drop_last().len() && entries.drop_last()[i] == entry;
                assert(entries[i] == entry);
            } else {
                let at = choose|j: int|
                    0 <= j < unexpired(entries).len() && unexpired(entries)[j] == entry;
                assert(at == earlier.len());
                assert(entries[entries.len() - 1] == entry);
            }
        }
        if entries.contains(entry) && entry.expired != Some(true) {
            let i = choose|i: int| 0 <= i < entries.len() && entries[i] == entry;
            if i == entries.len() - 1 {
                assert(earlier.push(entries.last())[earlier.len() as int] == entry);
            } else {
                assert(entries.drop_last()[i] == entry);
                let at = choose|j: int| 0 <= j < earlier.len() && earlier[j] == entry;
                assert(unexpired(entries)[at] == entry);
            }
        }
    }
}

/// What is left of the logins that the remote application returned once
/// the expired ones are dropped.
pub fn current_logins(response: &GetLoginsResponse) -> (entries: Vec<LoginEntry>)
    ensures
        entries@ == unexpired(response.entries@),
{
    let mut entries: Vec<LoginEntry> = Vec::new();
    let mut i: usize = 0;
    proof {
        assert(response.entries@.take(0) =~= Seq::<LoginEntry>::empty());
    }
    while i < response.entries.len()
        invariant
            i <= response.entries.len(),
            entries@ == unexpired(response.entries@.take(i as int)),
        decreases response.entries.len() - i,
    {
        proof {
            assert(response.entries@.take(i + 1).drop_last() =~= response.entries@.take(i as int));
            assert(response.entries@.take(i + 1).last() == response.entries@[i as int]);
        }
        let entry = &response.entries[i];
        let expired = match entry.expired {
            Some(flag) => flag,
            None => false,
        };
        if !expired {
            entries.push(entry.clone());
        }
        i = i + 1;
    }
    proof {
        assert(response.entries@.take(response.entries@.len() as int) =~= response.entries@);
    }
    entries
}

/// The reply to a credential request: the request with the username and
/// password of a login put in.
pub open spec fn credential_reply(
    request: GitCredentialMessageView,
    login: LoginEntryView,
) -> GitCredentialMessageView {
    GitCredentialMessageView {
        username: Some(login.login),
        password: Some(login.password),
        ..request
    }
}

/// Answers a credential request from the logins found for its URL. The
/// first login is handed out, always; the flag beside the reply says
/// whether there were more, which is worth a warning and no more. Without
/// any login there is nothing to answer.
pub fn get_logins(git_req: &GitCredentialMessage, login_entries: &Vec<LoginEntry>) -> (reply: Result<
    (GitCredentialMessage, bool),
    Error,
>)
    ensures
        login_entries@.len() == 0 ==> reply == Err::<(GitCredentialMessage, bool), Error>(
            Error::NoMatchingLogin,
        ),
        login_entries@.len() > 0 ==> reply is Ok && reply->Ok_0.0@ == credential_reply(
            git_req@,
            login_entries@[0]@,
        ) && reply->Ok_0.1 == (login_entries@.len() > 1),
{
    if login_entries.len() == 0 {
        return Err(Error::NoMatchingLogin);
    }
    let login = &login_entries[0];
    let reply = GitCredentialMessage {
        protocol: copy_text(&git_req.protocol),
        host: copy_text(&git_req.host),
        path: copy_text(&git_req.path),
        username: Some(login.login.clone()),
        password: Some(login.password.clone()),
        url: copy_text(&git_req.url),
    };
    Ok((reply, login_entries.len() > 1))
}

/// The identifier that an answer to a registration hands out: it is there
/// only if the registration was approved, and an answer that reports a
/// failure hands out none.
pub open spec fn granted_id(id: Option<Seq<char>>, success: Option<bool>) -> Option<Seq<char>> {
    if success == Some(false) {
        None
    } else {
        id
    }
}

/// Reads the answer to a registration. An answer without an identifier
/// means that the registration was declined or ran out of time.
pub fn association_id(response: &AssociateResponse) -> (id: Result<String, Error>)
    ensures
        match granted_id(text_of(response.id), response.success) {
            Some(granted) => id is Ok && id->Ok_0@ == granted,
            None => id == Err::<String, Error>(Error::AssociationDeclined),
        },
{
    let failed = match response.success {
        Some(flag) => !flag,
        None => false,
    };
    if failed {
        return Err(Error::AssociationDeclined);
    }
    match &response.id {
        Some(id) => Ok(id.clone()),
        None => Err(Error::AssociationDeclined),
    }
}

/// Records a new registration in the store: the identity that the remote
/// application registered under `database_id` for the permanent secret key
/// `id_seckey`, in the group it answered with. The identity is kept in the
/// clear, after those already stored.
pub fn configure(
    config: &mut Config,
    database_id: String,
    id_seckey: SecretKey,
    group: CreateNewGroupResponse,
)
    ensures
        final(config).databases@.len() == old(config).databases@.len() + 1,
        final(config).databases@.drop_last() == old(config).databases@,
        final(config).databases@.last()@ == (DatabaseView {
            id: database_id@,
            key: base64_text(id_seckey@),
            pkey: base64_text(x25519_public_key(id_seckey@)),
            group: group.name@,
            group_uuid: group.uuid@,
        }),
        final(config).encrypted_databases == old(config).encrypted_databases,
        final(config).callers == old(config).callers,
        final(config).encrypted_callers == old(config).encrypted_callers,
        final(config).encryption == old(config).encryption,
{
    let group = Group::new(group.name, group.uuid);
    config.databases.push(Database::new(database_id, id_seckey, group));
    assert(config.databases@.drop_last() =~= old(config).databases@);
}

} // verus!

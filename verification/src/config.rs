//! The identity store: the registered identities and the allowed callers,
//! each kept in the clear or sealed at rest.

use crate::encoding::base64_text;
use crate::encryption::{
    asks_for, opened_text, sealable, AesKey, AesNonce, Encryption, KeySource,
    YUBIKEY_RESPONSE_LENGTH,
};
use crate::error::Error;
use crate::keys::{x25519_public_key, SecretKey};
use crate::text::views;
use vstd::prelude::*;

verus! {

/// An organizational group on the remote side.
pub struct Group {
    pub name: String,
    pub uuid: String,
}

/// What a [`Group`] holds.
pub ghost struct GroupView {
    pub name: Seq<char>,
    pub uuid: Seq<char>,
}

impl View for Group {
    type V = GroupView;

    open spec fn view(&self) -> GroupView {
        GroupView { name: self.name@, uuid: self.uuid@ }
    }
}

impl Group {
    /// The group with the given name and identifier.
    pub fn new(name: String, uuid: String) -> (group: Group)
        ensures
            group@ == (GroupView { name: name@, uuid: uuid@ }),
    {
        Group { name, uuid }
    }
}

/// A registered identity: the identifier that the remote application gave
/// out, the permanent key pair as base64 text, and the group it belongs to.
#[derive(Debug)]
pub struct Database {
    pub id: String,
    pub key: String,
    pub pkey: String,
    pub group: String,
    pub group_uuid: String,
}

/// What a [`Database`] holds.
pub ghost struct DatabaseView {
    pub id: Seq<char>,
    pub key: Seq<char>,
    pub pkey: Seq<char>,
    pub group: Seq<char>,
    pub group_uuid: Seq<char>,
}

impl View for Database {
    type V = DatabaseView;

    open spec fn view(&self) -> DatabaseView {
        DatabaseView {
            id: self.id@,
            key: self.key@,
            pkey: self.pkey@,
            group: self.group@,
            group_uuid: self.group_uuid@,
        }
    }
}

impl Clone for Database {
    fn clone(&self) -> (copy: Self)
        ensures
            copy == *self,
    {
        Database {
            id: self.id.clone(),
            key: self.key.clone(),
            pkey: self.pkey.clone(),
            group: self.group.clone(),
            group_uuid: self.group_uuid.clone(),
        }
    }
}

impl Database {
    /// The identity that the remote application registered under `id` for
    /// the permanent secret key `id_seckey`, in `group`. Both halves of the
    /// key pair are kept as base64 text.
    pub fn new(id: String, id_seckey: SecretKey, group: Group) -> (database: Database)
        ensures
            database@ == (DatabaseView {
                id: id@,
                key: base64_text(id_seckey@),
                pkey: base64_text(x25519_public_key(id_seckey@)),
                group: group@.name,
                group_uuid: group@.uuid,
            }),
    {
        let key = id_seckey.to_base64();
        let pkey = id_seckey.public_key().to_base64();
        Database { id, key, pkey, group: group.name, group_uuid: group.uuid }
    }
}

/// An entry of the allow-list: a program that may use the stored
/// identities, with the user and group that have to own it, if any.
#[derive(Debug)]
pub struct Caller {
    pub path: String,
    pub uid: Option<u32>,
    pub gid: Option<u32>,
}

/// What a [`Caller`] holds.
pub ghost struct CallerView {
    pub path: Seq<char>,
    pub uid: Option<u32>,
    pub gid: Option<u32>,
}

impl View for Caller {
    type V = CallerView;

    open spec fn view(&self) -> CallerView {
        CallerView { path: self.path@, uid: self.uid, gid: self.gid }
    }
}

impl Clone for Caller {
    fn clone(&self) -> (copy: Self)
        ensures
            copy == *self,
    {
        Caller { path: self.path.clone(), uid: self.uid, gid: self.gid }
    }
}

/// A record sealed at rest: the ciphertext as base64 text, and the nonce it
/// was sealed under.
pub struct EncryptedProfile {
    pub data: String,
    pub nonce: AesNonce,
}

/// What an [`EncryptedProfile`] holds.
pub ghost struct EncryptedProfileView {
    pub data: Seq<char>,
    pub nonce: Seq<u8>,
}

impl View for EncryptedProfile {
    type V = EncryptedProfileView;

    open spec fn view(&self) -> EncryptedProfileView {
        EncryptedProfileView { data: self.data@, nonce: self.nonce@ }
    }
}

/// The texts that sealed records hold under a key, in order. One record
/// that does not open fails them all.
pub open spec fn opened_records(key: Seq<u8>, sealed: Seq<EncryptedProfileView>) -> Result<
    Seq<Seq<char>>,
    Error,
> {
    if forall|i: int|
        0 <= i < sealed.len() ==> (#[trigger] opened_text(key, sealed[i].data, sealed[i].nonce))
            is Ok {
        Ok(Seq::new(sealed.len(), |i: int| opened_text(key, sealed[i].data, sealed[i].nonce)->Ok_0))
    } else {
        Err(Error::DecryptionFailed)
    }
}

/// The texts of the sealed records of a store whose profile has the given
/// key at hand, or none. A store without sealed records needs no key.
pub open spec fn records_of(key: Option<Seq<u8>>, sealed: Seq<EncryptedProfileView>) -> Result<
    Seq<Seq<char>>,
    Error,
> {
    if sealed.len() == 0 {
        Ok(Seq::empty())
    } else {
        match key {
            None => Err(Error::EncryptionKeyUnavailable),
            Some(k) => opened_records(k, sealed),
        }
    }
}

/// A record that was sealed into a store comes back unchanged when the
/// store is read again under the same key, after the records that were
/// there before.
pub proof fn lemma_sealed_record_is_recovered(
    key: Seq<u8>,
    sealed: Seq<EncryptedProfileView>,
    added: EncryptedProfileView,
    record: Seq<char>,
)
    requires
        records_of(Some(key), sealed) is Ok,
        opened_text(key, added.data, added.nonce) == Ok::<Seq<char>, Error>(record),
    ensures
        records_of(Some(key), sealed.push(added)) == Ok::<Seq<Seq<char>>, Error>(
            records_of(Some(key), sealed)->Ok_0.push(record),
        ),
{
    let all = sealed.push(added);
    if sealed.len() > 0 {
        assert(opened_records(key, sealed) is Ok);
    }
    assert forall|i: int| 0 <= i < all.len() implies (#[trigger] opened_text(
        key,
        all[i].data,
        all[i].nonce,
    )) is Ok by {
        if i < sealed.len() {
            assert(all[i] == sealed[i]);
            assert(opened_text(key, sealed[i].data, sealed[i].nonce) is Ok);
        }
    }
    assert(records_of(Some(key), all)->Ok_0 =~= records_of(Some(key), sealed)->Ok_0.push(record));
}

/// The identity store.
pub struct Config {
    pub databases: Vec<Database>,
    pub encrypted_databases: Vec<EncryptedProfile>,
    pub callers: Vec<Caller>,
    pub encrypted_callers: Vec<EncryptedProfile>,
    pub encryption: Vec<Encryption>,
}

/// Opens every sealed record under a key, in order.
fn open_all(key: &AesKey, sealed: &Vec<EncryptedProfile>) -> (opened: Result<Vec<String>, Error>)
    ensures
        match opened_records(key@, views(sealed@)) {
            Ok(records) => opened is Ok && views(opened->Ok_0@) == records,
            Err(e) => opened == Err::<Vec<String>, Error>(e),
        },
{
    let mut records: Vec<String> = Vec::new();
    let mut i: usize = 0;
    while i < sealed.len()
        invariant
            i <= sealed.len(),
            records@.len() == i,
            forall|j: int|
                0 <= j < i ==> opened_text(key@, sealed@[j]@.data, sealed@[j]@.nonce)
                    == Ok::<Seq<char>, Error>(#[trigger] records@[j]@),
        decreases sealed.len() - i,
    {
        let entry = &sealed[i];
        match key.base64_decrypt(entry.data.as_str(), &entry.nonce) {
            Ok(record) => {
                records.push(record);
            },
            Err(_) => {
                proof {
                    assert(views(sealed@)[i as int] == sealed@[i as int]@);
                    assert(!(opened_text(
                        key@,
                        views(sealed@)[i as int].data,
                        views(sealed@)[i as int].nonce,
                    ) is Ok));
                }
                return Err(Error::DecryptionFailed);
            },
        }
        i = i + 1;
    }
    proof {
        assert forall|j: int| 0 <= j < sealed@.len() implies (#[trigger] opened_text(
            key@,
            views(sealed@)[j].data,
            views(sealed@)[j].nonce,
        )) is Ok by {
            assert(views(sealed@)[j] == sealed@[j]@);
            assert(opened_text(key@, sealed@[j]@.data, sealed@[j]@.nonce) == Ok::<
                Seq<char>,
                Error,
            >(records@[j]@));
        }
        assert forall|j: int| 0 <= j < sealed@.len() implies views(records@)[j] == opened_text(
            key@,
            views(sealed@)[j].data,
            views(sealed@)[j].nonce,
        )->Ok_0 by {
            assert(views(sealed@)[j] == sealed@[j]@);
            assert(opened_text(key@, sealed@[j]@.data, sealed@[j]@.nonce) == Ok::<
                Seq<char>,
                Error,
            >(records@[j]@));
        }
        assert(views(records@) =~= opened_records(key@, views(sealed@))->Ok_0);
    }
    Ok(records)
}

impl Config {
    /// The key that the store's profile has at hand, if there is a profile
    /// and it has its key. Only the first profile counts.
    pub open spec fn key(self) -> Option<Seq<u8>> {
        if self.encryption@.len() == 0 {
            None
        } else {
            self.encryption@[0]@.key()
        }
    }

    /// The empty store.
    pub fn new() -> (config: Config)
        ensures
            config.databases@.len() == 0,
            config.encrypted_databases@.len() == 0,
            config.callers@.len() == 0,
            config.encrypted_callers@.len() == 0,
            config.encryption@.len() == 0,
    {
        Config {
            databases: Vec::new(),
            encrypted_databases: Vec::new(),
            callers: Vec::new(),
            encrypted_callers: Vec::new(),
            encryption: Vec::new(),
        }
    }

    /// Says where the key that opens the sealed records is to be had. A
    /// store without a profile has no such key.
    pub fn get_encryption_key(&self) -> (source: Result<KeySource, Error>)
        ensures
            source is Err <==> self.encryption@.len() == 0,
            source is Err ==> source->Err_0 == Error::EncryptionKeyUnavailable,
            source is Ok ==> match self.key() {
                Some(key) => source->Ok_0 matches KeySource::Ready(k) && k@ == key,
                None => source->Ok_0 matches KeySource::Token(query) && asks_for(
                    query,
                    self.encryption@[0]@,
                ),
            },
    {
        if self.encryption.len() == 0 {
            return Err(Error::EncryptionKeyUnavailable);
        }
        Ok(self.encryption[0].key_source())
    }

    /// The key that the store's profile has at hand.
    fn ready_key(&self) -> (key: Option<AesKey>)
        ensures
            key is Some == self.key() is Some,
            key is Some ==> key->0@ == self.key()->0,
    {
        match self.get_encryption_key() {
            Ok(KeySource::Ready(key)) => Some(key),
            _ => None,
        }
    }

    /// Takes in the digest with which the token answered the challenge of
    /// the store's profile, so that the key is at hand from now on.
    pub fn cache_token_response(&mut self, digest: &Vec<u8>) -> (outcome: Result<(), Error>)
        ensures
            final(self).databases == old(self).databases,
            final(self).encrypted_databases == old(self).encrypted_databases,
            final(self).callers == old(self).callers,
            final(self).encrypted_callers == old(self).encrypted_callers,
            final(self).encryption@.len() == old(self).encryption@.len(),
            forall|i: int|
                0 < i < old(self).encryption@.len() ==> final(self).encryption@[i] == old(
                    self,
                ).encryption@[i],
            old(self).encryption@.len() > 0 ==> final(self).encryption@[0]@ == old(
                self,
            ).encryption@[0]@.with_response(digest@),
            outcome is Err <==> old(self).key() is None && !(old(self).encryption@.len() > 0
                && digest@.len() == YUBIKEY_RESPONSE_LENGTH),
            outcome is Err ==> outcome->Err_0 == Error::EncryptionKeyUnavailable,
    {
        if self.encryption.len() == 0 {
            return Err(Error::EncryptionKeyUnavailable);
        }
        self.encryption[0].cache_response(digest)
    }

    /// The identities kept in the clear, and the records of the sealed
    /// ones, opened: both in stored order.
    pub fn get_databases(&self) -> (found: Result<(Vec<Database>, Vec<String>), Error>)
        ensures
            match records_of(self.key(), views(self.encrypted_databases@)) {
                Ok(records) => found is Ok && found->Ok_0.0@ == self.databases@ && views(
                    found->Ok_0.1@,
                ) == records,
                Err(e) => found == Err::<(Vec<Database>, Vec<String>), Error>(e),
            },
    {
        let plain = self.databases.clone();
        assert(plain@ =~= self.databases@);
        if self.encrypted_databases.len() == 0 {
            let none: Vec<String> = Vec::new();
            assert(views(none@) =~= Seq::<Seq<char>>::empty());
            return Ok((plain, none));
        }
        let key = match self.ready_key() {
            Some(key) => key,
            None => {
                return Err(Error::EncryptionKeyUnavailable);
            },
        };
        match open_all(&key, &self.encrypted_databases) {
            Ok(records) => Ok((plain, records)),
            Err(e) => Err(e),
        }
    }

    /// How many identities the store holds, sealed ones included.
    pub fn count_databases(&self) -> (count: usize)
        requires
            self.databases@.len() + self.encrypted_databases@.len() <= usize::MAX,
        ensures
            count == self.databases@.len() + self.encrypted_databases@.len(),
    {
        self.databases.len() + self.encrypted_databases.len()
    }

    /// How many of the identities are sealed.
    pub fn count_encrypted_databases(&self) -> (count: usize)
        ensures
            count == self.encrypted_databases@.len(),
    {
        self.encrypted_databases.len()
    }

    /// Drops every identity, sealed ones included.
    pub fn clear_databases(&mut self)
        ensures
            final(self).databases@.len() == 0,
            final(self).encrypted_databases@.len() == 0,
            final(self).callers == old(self).callers,
            final(self).encrypted_callers == old(self).encrypted_callers,
            final(self).encryption == old(self).encryption,
    {
        self.databases.clear();
        self.encrypted_databases.clear();
    }

    /// Seals a record under the key that the store's profile has at hand.
    fn seal(&self, record: &str) -> (sealed: Result<EncryptedProfile, Error>)
        ensures
            match self.key() {
                None => sealed == Err::<EncryptedProfile, Error>(Error::EncryptionKeyUnavailable),
                Some(key) => if sealable(record@) {
                    sealed is Ok && opened_text(key, sealed->Ok_0@.data, sealed->Ok_0@.nonce)
                        == Ok::<Seq<char>, Error>(record@)
                } else {
                    sealed == Err::<EncryptedProfile, Error>(Error::EncryptionFailed)
                },
            },
    {
        let key = match self.ready_key() {
            Some(key) => key,
            None => {
                return Err(Error::EncryptionKeyUnavailable);
            },
        };
        match key.base64_encrypt(record) {
            Ok((data, nonce)) => Ok(EncryptedProfile { data, nonce }),
            Err(_) => Err(Error::EncryptionFailed),
        }
    }

    /// Adds an identity to the store: in the clear, or sealed. For the
    /// sealed form `record` is the serialized identity; it is what reading
    /// the store gives back. Sealing needs the key at hand and a record that
    /// the cipher takes; where it fails the store is left as it was.
    pub fn add_database(&mut self, database: Database, encrypted: bool, record: &str) -> (outcome:
        Result<(), Error>)
        ensures
            final(self).callers == old(self).callers,
            final(self).encrypted_callers == old(self).encrypted_callers,
            final(self).encryption == old(self).encryption,
            !encrypted ==> outcome is Ok && final(self).databases@ == old(self).databases@.push(
                database,
            ) && final(self).encrypted_databases == old(self).encrypted_databases,
            encrypted ==> final(self).databases == old(self).databases && match old(self).key() {
                None => outcome == Err::<(), Error>(Error::EncryptionKeyUnavailable),
                Some(key) => if sealable(record@) {
                    outcome is Ok
                } else {
                    outcome == Err::<(), Error>(Error::EncryptionFailed)
                },
            },
            encrypted && outcome is Err ==> final(self).encrypted_databases == old(
                self,
            ).encrypted_databases,
            encrypted && outcome is Ok ==> {
                let after = final(self).encrypted_databases@;
                &&& after.len() == old(self).encrypted_databases@.len() + 1
                &&& after.drop_last() == old(self).encrypted_databases@
                &&& opened_text(old(self).key()->0, after.last()@.data, after.last()@.nonce)
                    == Ok::<Seq<char>, Error>(record@)
            },
    {
        if encrypted {
            match self.seal(record) {
                Ok(sealed) => {
                    self.encrypted_databases.push(sealed);
                    assert(self.encrypted_databases@.drop_last() =~= old(
                        self,
                    ).encrypted_databases@);
                    Ok(())
                },
                Err(e) => Err(e),
            }
        } else {
            self.databases.push(database);
            Ok(())
        }
    }

    /// The callers kept in the clear, and the records of the sealed ones,
    /// opened: both in stored order.
    pub fn get_callers(&self) -> (found: Result<(Vec<Caller>, Vec<String>), Error>)
        ensures
            match records_of(self.key(), views(self.encrypted_callers@)) {
                Ok(records) => found is Ok && found->Ok_0.0@ == self.callers@ && views(
                    found->Ok_0.1@,
                ) == records,
                Err(e) => found == Err::<(Vec<Caller>, Vec<String>), Error>(e),
            },
    {
        let plain = self.callers.clone();
        assert(plain@ =~= self.callers@);
        if self.encrypted_callers.len() == 0 {
            let none: Vec<String> = Vec::new();
            assert(views(none@) =~= Seq::<Seq<char>>::empty());
            return Ok((plain, none));
        }
        let key = match self.ready_key() {
            Some(key) => key,
            None => {
                return Err(Error::EncryptionKeyUnavailable);
            },
        };
        match open_all(&key, &self.encrypted_callers) {
            Ok(records) => Ok((plain, records)),
            Err(e) => Err(e),
        }
    }

    /// How many callers the store holds, sealed ones included.
    pub fn count_callers(&self) -> (count: usize)
        requires
            self.callers@.len() + self.encrypted_callers@.len() <= usize::MAX,
        ensures
            count == self.callers@.len() + self.encrypted_callers@.len(),
    {
        self.callers.len() + self.encrypted_callers.len()
    }

    /// How many of the callers are sealed.
    pub fn count_encrypted_callers(&self) -> (count: usize)
        ensures
            count == self.encrypted_callers@.len(),
    {
        self.encrypted_callers.len()
    }

    /// Drops every caller, sealed ones included.
    pub fn clear_callers(&mut self)
        ensures
            final(self).callers@.len() == 0,
            final(self).encrypted_callers@.len() == 0,
            final(self).databases == old(self).databases,
            final(self).encrypted_databases == old(self).encrypted_databases,
            final(self).encryption == old(self).encryption,
    {
        self.callers.clear();
        self.encrypted_callers.clear();
    }

    /// Adds a caller to the store: in the clear, or sealed. For the sealed
    /// form `record` is the serialized caller; it is what reading the store
    /// gives back. Sealing needs the key at hand and a record that the
    /// cipher takes; where it fails the store is left as it was.
    pub fn add_caller(&mut self, caller: Caller, encrypted: bool, record: &str) -> (outcome:
        Result<(), Error>)
        ensures
            final(self).databases == old(self).databases,
            final(self).encrypted_databases == old(self).encrypted_databases,
            final(self).encryption == old(self).encryption,
            !encrypted ==> outcome is Ok && final(self).callers@ == old(self).callers@.push(caller)
                && final(self).encrypted_callers == old(self).encrypted_callers,
            encrypted ==> final(self).callers == old(self).callers && match old(self).key() {
                None => outcome == Err::<(), Error>(Error::EncryptionKeyUnavailable),
                Some(key) => if sealable(record@) {
                    outcome is Ok
                } else {
                    outcome == Err::<(), Error>(Error::EncryptionFailed)
                },
            },
            encrypted && outcome is Err ==> final(self).encrypted_callers == old(
                self,
            ).encrypted_callers,
            encrypted && outcome is Ok ==> {
                let after = final(self).encrypted_callers@;
                &&& after.len() == old(self).encrypted_callers@.len() + 1
                &&& after.drop_last() == old(self).encrypted_callers@
                &&& opened_text(old(self).key()->0, after.last()@.data, after.last()@.nonce)
                    == Ok::<Seq<char>, Error>(record@)
            },
    {
        if encrypted {
            match self.seal(record) {
                Ok(sealed) => {
                    self.encrypted_callers.push(sealed);
                    assert(self.encrypted_callers@.drop_last() =~= old(self).encrypted_callers@);
                    Ok(())
                },
                Err(e) => Err(e),
            }
        } else {
            self.callers.push(caller);
            Ok(())
        }
    }
}

} // verus!

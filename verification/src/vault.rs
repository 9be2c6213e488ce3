//! The vault: a salt, a nonce, and the entries, one per id, kept in the
//! order of their ids.

use crate::cipher::sealable;
use crate::cipher::TAG_SIZE;
use crate::codec::copy_array;
use crate::codec::decrypt;
use crate::codec::encrypt;
use crate::codec::nonce_of;
use crate::codec::opened;
use crate::codec::read_header;
use crate::codec::salt_of;
use crate::codec::same_bytes;
use crate::codec::seals;
use crate::codec::HEADER_SIZE;
use crate::codec::NONCE_SIZE;
use crate::codec::SALT_SIZE;
use crate::collection::entry_map;
use crate::collection::has_id;
use crate::collection::index_of;
use crate::collection::lemma_entry_map_at;
use crate::collection::lemma_insert_at;
use crate::collection::lemma_remove_at;
use crate::collection::lemma_replace_at;
use crate::collection::listing;
use crate::collection::sorted_by_id;
use crate::collection::stored_all;
use crate::collection::upserted;
use crate::entry::text_view;
use crate::entry::EntrySummary;
use crate::entry::EntryView;
use crate::entry::PasswordEntry;
use crate::entry::SummaryView;
use crate::error::VaultError;
use crate::ident::compare_ids;
use crate::ident::id_less;
use crate::ident::lemma_id_less_strict_total;
use crate::ident::IdOrder;
use crate::password::can_derive;
use crate::password::derive_secret_key;
use crate::password::derived_key;
use crate::random::random_bytes;
use crate::secret::Secret;
use crate::secret::SecretKey;
use crate::timestamp::Timestamp;
use vstd::prelude::*;

verus! {

/// What each of the entries holds.
pub open spec fn views_of(entries: Seq<PasswordEntry>) -> Seq<EntryView> {
    entries.map_values(|e: PasswordEntry| e@)
}

/// What each line of a listing holds.
pub open spec fn lines_of(summaries: Seq<EntrySummary>) -> Seq<SummaryView> {
    summaries.map_values(|s: EntrySummary| s@)
}

/// Whether adding an entry created it or replaced an older one.
#[derive(Debug, Clone, Copy, PartialEq, Eq, Structural)]
pub enum AddOutcome {
    Created,
    Updated,
}

/// What a `Vault` holds.
pub struct VaultView {
    pub salt: Seq<u8>,
    pub nonce: Seq<u8>,
    /// The entries in listing order.
    pub entries: Seq<EntryView>,
}

impl VaultView {
    /// The salt and the nonce have their fixed sizes, and the entries are
    /// in strictly ascending order of their ids.
    pub open spec fn wf(self) -> bool {
        &&& self.salt.len() == SALT_SIZE
        &&& self.nonce.len() == NONCE_SIZE
        &&& sorted_by_id(self.entries)
    }

    /// The entries as a mapping from id to entry.
    pub open spec fn map(self) -> Map<Seq<char>, EntryView> {
        entry_map(self.entries)
    }
}

/// What a vault file turned out to be, before any password was asked for.
#[derive(Debug)]
pub enum Loaded {
    /// The file was empty, so no vault exists yet: here is a new one, with
    /// fresh salt and nonce and no entries.
    Fresh(Vault),
    /// The file holds an encrypted vault: opening it takes the master
    /// password.
    Sealed,
}

/// A vault file that was authenticated and decrypted, its payload not yet
/// read.
#[derive(Debug)]
pub struct Unsealed {
    /// The vault with the file's salt and nonce, still without entries.
    pub vault: Vault,
    /// The key that opened the file; the next save needs it.
    pub key: SecretKey,
    /// The decrypted payload: the serialized entries.
    pub payload: Vec<u8>,
}

/// The encrypted credential store, unlocked: its salt, the nonce of its
/// last encryption, and its entries.
#[derive(Debug)]
pub struct Vault {
    salt: [u8; 32],
    nonce: [u8; 12],
    entries: Vec<PasswordEntry>,
}

impl View for Vault {
    type V = VaultView;

    closed spec fn view(&self) -> VaultView {
        VaultView {
            salt: self.salt@,
            nonce: self.nonce@,
            entries: views_of(self.entries@),
        }
    }
}

impl Vault {
    #[verifier::type_invariant]
    spec fn ordered(self) -> bool {
        sorted_by_id(views_of(self.entries@))
    }

    /// A vault with this header and no entries.
    pub fn with_header(salt: [u8; 32], nonce: [u8; 12]) -> (vault: Vault)
        ensures
            vault@ == (VaultView { salt: salt@, nonce: nonce@, entries: Seq::empty() }),
            vault@.wf(),
    {
        let vault = Vault { salt, nonce, entries: Vec::new() };
        assert(vault@.entries =~= Seq::empty());
        vault
    }

    /// A new vault: fresh random salt and nonce, no entries.
    pub fn new() -> (vault: Vault)
        ensures
            vault@.wf(),
            vault@.entries.len() == 0,
    {
        Vault::with_header(random_bytes::<32>(), random_bytes::<12>())
    }

    /// A vault with the given nonce and salt and no entries. Fails with
    /// `Format` exactly when the nonce is not 12 or the salt not 32 bytes
    /// long.
    pub fn from_nonce_and_salt(nonce: &[u8], salt: &[u8]) -> (vault: Result<Vault, VaultError>)
        ensures
            match vault {
                Ok(v) => v@ == (VaultView { salt: salt@, nonce: nonce@, entries: Seq::empty() })
                    && v@.wf(),
                Err(e) => e == VaultError::Format && !(salt@.len() == SALT_SIZE && nonce@.len()
                    == NONCE_SIZE),
            },
    {
        if salt.len() != SALT_SIZE || nonce.len() != NONCE_SIZE {
            return Err(VaultError::Format);
        }
        let salt_bytes = copy_array::<32>(salt, 0);
        let nonce_bytes = copy_array::<12>(nonce, 0);
        assert(salt_bytes@ =~= salt@);
        assert(nonce_bytes@ =~= nonce@);
        Ok(Vault::with_header(salt_bytes, nonce_bytes))
    }

    /// The vault's salt: generated once, the same for every save.
    pub fn salt(&self) -> (salt: &[u8; 32])
        ensures
            salt@ == self@.salt,
    {
        &self.salt
    }

    /// The nonce of the vault's last encryption.
    pub fn nonce(&self) -> (nonce: &[u8; 12])
        ensures
            nonce@ == self@.nonce,
    {
        &self.nonce
    }

    /// The entries, in ascending order of their ids.
    pub fn entries(&self) -> (entries: &Vec<PasswordEntry>)
        ensures
            views_of(entries@) == self@.entries,
            self@.wf(),
    {
        proof {
            use_type_invariant(self);
        }
        &self.entries
    }

    /// The number of entries.
    pub fn len(&self) -> (len: usize)
        ensures
            len == self@.entries.len(),
    {
        self.entries.len()
    }

    /// Where the entry with this id is, or where it would have to go:
    /// every entry before the position has a smaller id, and every entry
    /// after it (from it, if the id is absent) a greater one.
    fn position(&self, id: &str) -> (at: (usize, bool))
        ensures
            self@.wf(),
            at.0 <= self@.entries.len(),
            at.1 == has_id(self@.entries, id@),
            at.1 ==> at.0 < self@.entries.len() && self@.entries[at.0 as int].id == id@,
            forall|k: int| 0 <= k < at.0 ==> id_less(#[trigger] self@.entries[k].id, id@),
            forall|k: int|
                at.0 <= k < self@.entries.len() && !(at.1 && k == at.0) ==> id_less(
                    id@,
                    #[trigger] self@.entries[k].id,
                ),
    {
        proof {
            use_type_invariant(self);
        }
        let ghost views = self@.entries;
        let mut lo: usize = 0;
        let mut hi: usize = self.entries.len();
        while lo < hi
            invariant
                lo <= hi <= views.len(),
                views == self@.entries,
                views.len() == self.entries@.len(),
                sorted_by_id(views),
                forall|k: int| 0 <= k < lo ==> id_less(#[trigger] views[k].id, id@),
                forall|k: int| hi <= k < views.len() ==> id_less(id@, #[trigger] views[k].id),
            decreases hi - lo,
        {
            let mid: usize = lo + (hi - lo) / 2;
            let probe = &self.entries[mid];
            match compare_ids(probe.id(), id) {
                IdOrder::Equal => {
                    return (mid, true);
                },
                IdOrder::Less => {
                    proof {
                        assert forall|k: int| 0 <= k < mid + 1 implies id_less(
                            #[trigger] views[k].id,
                            id@,
                        ) by {
                            if k < mid {
                                lemma_id_less_strict_total(views[k].id, views[mid as int].id, id@);
                            }
                        }
                    }
                    lo = mid + 1;
                },
                IdOrder::Greater => {
                    proof {
                        lemma_id_less_strict_total(id@, views[mid as int].id, id@);
                        assert forall|k: int| mid <= k < views.len() implies id_less(
                            id@,
                            #[trigger] views[k].id,
                        ) by {
                            if mid < k {
                                lemma_id_less_strict_total(id@, views[mid as int].id, views[k].id);
                            }
                        }
                    }
                    hi = mid;
                },
            }
        }
        proof {
            if has_id(views, id@) {
                lemma_id_less_strict_total(id@, id@, id@);
            }
        }
        (lo, false)
    }

    /// Whether an entry has this id.
    pub fn contains(&self, id: &str) -> (present: bool)
        ensures
            present == self@.map().contains_key(id@),
    {
        self.position(id).1
    }

    /// The entry with this id. Fails with `NotFound` exactly when there is
    /// none. The vault is not changed.
    pub fn get(&self, id: &str) -> (entry: Result<&PasswordEntry, VaultError>)
        ensures
            match entry {
                Ok(e) => self@.map().contains_key(id@) && e@ == self@.map()[id@],
                Err(e) => e == VaultError::NotFound && !self@.map().contains_key(id@),
            },
    {
        let (at, found) = self.position(id);
        if found {
            proof {
                lemma_entry_map_at(self@.entries, at as int);
            }
            Ok(&self.entries[at])
        } else {
            Err(VaultError::NotFound)
        }
    }

    /// Puts `entry` where `position` found its id or the gap for it.
    fn place(&mut self, at: usize, found: bool, entry: PasswordEntry)
        requires
            old(self)@.wf(),
            at <= old(self)@.entries.len(),
            found == has_id(old(self)@.entries, entry@.id),
            found ==> at < old(self)@.entries.len() && old(self)@.entries[at as int].id
                == entry@.id,
            forall|k: int| 0 <= k < at ==> id_less(#[trigger] old(self)@.entries[k].id, entry@.id),
            forall|k: int|
                at <= k < old(self)@.entries.len() && !(found && k == at) ==> id_less(
                    entry@.id,
                    #[trigger] old(self)@.entries[k].id,
                ),
        ensures
            final(self)@.wf(),
            final(self)@.salt == old(self)@.salt,
            final(self)@.nonce == old(self)@.nonce,
            final(self)@.map() == old(self)@.map().insert(entry@.id, entry@),
    {
        let ghost before = self@.entries;
        let mut entries: Vec<PasswordEntry> = Vec::new();
        core::mem::swap(&mut self.entries, &mut entries);
        if found {
            proof {
                lemma_replace_at(before, at as int, entry@);
                assert(views_of(entries@.update(at as int, entry)) =~= before.update(
                    at as int,
                    entry@,
                ));
            }
            entries[at] = entry;
        } else {
            proof {
                lemma_insert_at(before, at as int, entry@);
                assert(views_of(entries@.insert(at as int, entry)) =~= before.insert(
                    at as int,
                    entry@,
                ));
            }
            entries.insert(at, entry);
        }
        self.entries = entries;
    }

    /// Stores `entry` as it is, in place of the entry that has its id if
    /// there is one.
    fn store(&mut self, entry: PasswordEntry)
        ensures
            final(self)@.wf(),
            final(self)@.salt == old(self)@.salt,
            final(self)@.nonce == old(self)@.nonce,
            final(self)@.map() == old(self)@.map().insert(entry@.id, entry@),
    {
        let (at, found) = self.position(entry.id());
        self.place(at, found, entry);
    }

    /// Stores `entry`, replacing the entry that has its id if there is
    /// one. A replacement keeps the old entry's creation time and records
    /// `now` as its update time; a new entry is stored as it is. All other
    /// entries, the salt and the nonce stay as they are.
    pub fn insert(&mut self, entry: PasswordEntry, now: Timestamp) -> (outcome: AddOutcome)
        ensures
            final(self)@.wf(),
            final(self)@.salt == old(self)@.salt,
            final(self)@.nonce == old(self)@.nonce,
            final(self)@.map() == upserted(old(self)@.map(), entry@, now),
            outcome == if old(self)@.map().contains_key(entry@.id) {
                AddOutcome::Updated
            } else {
                AddOutcome::Created
            },
    {
        let (at, found) = self.position(entry.id());
        if found {
            proof {
                lemma_entry_map_at(self@.entries, at as int);
            }
            let stored = entry.superseding(&self.entries[at], now);
            self.place(at, found, stored);
            AddOutcome::Updated
        } else {
            self.place(at, found, entry);
            AddOutcome::Created
        }
    }

    /// Stores every one of `entries` as it is, in their order: of two with
    /// the same id the later one stays.
    pub fn restore(&mut self, entries: Vec<PasswordEntry>)
        ensures
            final(self)@.wf(),
            final(self)@.salt == old(self)@.salt,
            final(self)@.nonce == old(self)@.nonce,
            final(self)@.map() == stored_all(old(self)@.map(), views_of(entries@)),
    {
        proof {
            use_type_invariant(&*self);
        }
        let ghost all = views_of(entries@);
        let ghost start = self@;
        for entry in it: entries
            invariant
                it.seq() == entries@,
                all == views_of(entries@),
                self@.wf(),
                self@.salt == start.salt,
                self@.nonce == start.nonce,
                self@.map() == stored_all(start.map(), all.subrange(0, it.index() as int)),
        {
            proof {
                let k = it.index() as int;
                assert(all.subrange(0, k + 1).drop_last() =~= all.subrange(0, k));
            }
            self.store(entry);
        }
        proof {
            assert(all.subrange(0, all.len() as int) =~= all);
        }
    }

    /// Adds a credential under `id`, created now; if an entry has that id
    /// already it is replaced, keeping its creation time and taking the
    /// current time as its update time. Reports which of the two happened.
    ///
    /// The outcome is that of `insert`, for the times that the clock gave.
    pub fn add(
        &mut self,
        id: String,
        username: Option<String>,
        password: Secret,
        url: Option<String>,
        description: Option<String>,
    ) -> (outcome: AddOutcome)
        ensures
            final(self)@.wf(),
            final(self)@.salt == old(self)@.salt,
            final(self)@.nonce == old(self)@.nonce,
            exists|created: Timestamp, now: Timestamp|
                final(self)@.map() == #[trigger] upserted(
                    old(self)@.map(),
                    EntryView::created(
                        id@,
                        text_view(username),
                        password@,
                        text_view(url),
                        text_view(description),
                        created,
                    ),
                    now,
                ),
            outcome == if old(self)@.map().contains_key(id@) {
                AddOutcome::Updated
            } else {
                AddOutcome::Created
            },
    {
        let entry = PasswordEntry::new(id, username, password, url, description);
        let ghost fresh = entry@;
        let ghost before = self@.map();
        let (at, found) = self.position(entry.id());
        if found {
            proof {
                lemma_entry_map_at(self@.entries, at as int);
            }
            let now = Timestamp::now();
            let stored = entry.superseding(&self.entries[at], now);
            self.place(at, found, stored);
            assert(self@.map() == upserted(before, fresh, now));
            AddOutcome::Updated
        } else {
            self.place(at, found, entry);
            assert(self@.map() == upserted(before, fresh, fresh.created_at));
            AddOutcome::Created
        }
    }

    /// Deletes the entry with this id and leaves all others untouched.
    /// Fails with `NotFound` exactly when there is none, and then changes
    /// nothing.
    pub fn remove(&mut self, id: &str) -> (removed: Result<(), VaultError>)
        ensures
            final(self)@.wf(),
            final(self)@.salt == old(self)@.salt,
            final(self)@.nonce == old(self)@.nonce,
            match removed {
                Ok(()) => {
                    &&& old(self)@.map().contains_key(id@)
                    &&& final(self)@.map() == old(self)@.map().remove(id@)
                    &&& final(self)@.entries == old(self)@.entries.remove(
                        index_of(old(self)@.entries, id@),
                    )
                },
                Err(e) => e == VaultError::NotFound && !old(self)@.map().contains_key(id@)
                    && final(self)@ == old(self)@,
            },
    {
        let (at, found) = self.position(id);
        if !found {
            return Err(VaultError::NotFound);
        }
        let ghost before = self@.entries;
        proof {
            lemma_entry_map_at(before, at as int);
            lemma_remove_at(before, at as int);
            assert(views_of(self.entries@.remove(at as int)) =~= before.remove(at as int));
        }
        let mut entries: Vec<PasswordEntry> = Vec::new();
        core::mem::swap(&mut self.entries, &mut entries);
        entries.remove(at);
        self.entries = entries;
        Ok(())
    }

    /// The lines of a listing, in ascending order of the ids: id and
    /// username of every entry, and for a verbose listing the other
    /// non-secret fields. No secret is read. The vault is not changed.
    pub fn list(&self, verbose: bool) -> (summaries: Vec<EntrySummary>)
        ensures
            lines_of(summaries@) == listing(self@.entries, verbose),
            self@.wf(),
    {
        proof {
            use_type_invariant(self);
        }
        let mut summaries: Vec<EntrySummary> = Vec::new();
        let mut i: usize = 0;
        while i < self.entries.len()
            invariant
                i <= self.entries@.len(),
                summaries@.len() == i,
                forall|k: int|
                    0 <= k < i ==> (#[trigger] summaries@[k])@ == self@.entries[k].summarized(
                        verbose,
                    ),
            decreases self.entries@.len() - i,
        {
            summaries.push(self.entries[i].summary(verbose));
            i += 1;
        }
        summaries
    }

    /// Derives the vault's key from the master password and the vault's
    /// salt.
    pub fn get_secret_key(&self, master_password: &Secret) -> (key: Result<SecretKey, VaultError>)
        ensures
            match key {
                Ok(k) => can_derive(master_password@, self@.salt) && k@ == derived_key(
                    master_password@,
                    self@.salt,
                ),
                Err(e) => e == VaultError::KeyDerivation && !can_derive(
                    master_password@,
                    self@.salt,
                ),
            },
    {
        derive_secret_key(master_password, self.salt.as_slice())
    }

    /// Encrypts the serialized entries under `key` and the vault's current
    /// nonce, and frames them with the vault's salt and nonce.
    ///
    /// A nonce must not serve twice under one key: to write the vault out,
    /// call `save`, which draws a new nonce first.
    pub fn encrypt(&self, payload: &[u8], key: &SecretKey) -> (file: Result<Vec<u8>, VaultError>)
        ensures
            match file {
                Ok(bytes) => {
                    &&& sealable(payload@)
                    &&& seals(bytes@, payload@, key@, self@.nonce, self@.salt)
                    &&& bytes@.len() == payload@.len() + HEADER_SIZE + TAG_SIZE
                },
                Err(e) => e == VaultError::Encryption && !sealable(payload@),
            },
    {
        encrypt(payload, key, &self.nonce, &self.salt)
    }

    /// The bytes of the vault file for the serialized entries: encrypted
    /// under `key` and a nonce drawn at random for this save, which becomes
    /// the vault's nonce and is never the nonce the vault had before. The
    /// salt and the entries never change. If encryption fails the vault is
    /// unchanged.
    pub fn save(&mut self, payload: &[u8], key: &SecretKey) -> (file: Result<Vec<u8>, VaultError>)
        ensures
            final(self)@.salt == old(self)@.salt,
            final(self)@.entries == old(self)@.entries,
            match file {
                Ok(bytes) => {
                    &&& sealable(payload@)
                    &&& seals(bytes@, payload@, key@, final(self)@.nonce, final(self)@.salt)
                    &&& bytes@.len() == payload@.len() + HEADER_SIZE + TAG_SIZE
                    &&& final(self)@.nonce != old(self)@.nonce
                },
                Err(e) => e == VaultError::Encryption && !sealable(payload@) && final(self)@
                    == old(self)@,
            },
    {
        proof {
            use_type_invariant(&*self);
        }
        let previous = self.nonce;
        let mut fresh = random_bytes::<12>();
        if same_bytes(&fresh, &previous) {
            fresh[0] = if fresh[0] == 255 {
                0
            } else {
                fresh[0] + 1
            };
        }
        self.nonce = fresh;
        let file = self.encrypt(payload, key);
        if file.is_err() {
            self.nonce = previous;
        }
        file
    }

    /// Reads a vault file as far as that goes without a password. An empty
    /// file stands for "no vault yet" and yields a new, empty vault; a file
    /// shorter than the header is rejected with `Format`; any other file is
    /// a sealed vault.
    pub fn load(data: &[u8]) -> (loaded: Result<Loaded, VaultError>)
        ensures
            match loaded {
                Ok(Loaded::Fresh(vault)) => data@.len() == 0 && vault@.wf() && vault@.entries.len()
                    == 0,
                Ok(Loaded::Sealed) => data@.len() >= HEADER_SIZE,
                Err(e) => e == VaultError::Format && 0 < data@.len() < HEADER_SIZE,
            },
    {
        if data.len() == 0 {
            Ok(Loaded::Fresh(Vault::new()))
        } else if data.len() < HEADER_SIZE {
            Err(VaultError::Format)
        } else {
            Ok(Loaded::Sealed)
        }
    }

    /// Opens a vault file with the master password: reads salt and nonce
    /// from the header, derives the key, and authenticates and decrypts the
    /// rest.
    ///
    /// The outcome is exactly `opened`: `Format` for a file shorter than
    /// the header, `KeyDerivation` where no key can be derived,
    /// `Authentication` where the ciphertext does not authenticate under
    /// the derived key (a wrong password and tampered data alike), and
    /// otherwise the payload, with the key and a vault that has the file's
    /// header and no entries yet.
    pub fn from_encrypted(data: &[u8], master_password: &Secret) -> (unsealed: Result<
        Unsealed,
        VaultError,
    >)
        ensures
            match unsealed {
                Ok(u) => {
                    &&& opened(data@, master_password@) == Ok::<Seq<u8>, VaultError>(u.payload@)
                    &&& u.key@ == derived_key(master_password@, salt_of(data@))
                    &&& u.vault@ == (VaultView {
                        salt: salt_of(data@),
                        nonce: nonce_of(data@),
                        entries: Seq::empty(),
                    })
                    &&& u.vault@.wf()
                },
                Err(e) => opened(data@, master_password@) == Err::<Seq<u8>, VaultError>(e),
            },
    {
        let header = match read_header(data) {
            Ok(header) => header,
            Err(e) => {
                return Err(e);
            },
        };
        let vault = Vault::with_header(header.salt, header.nonce);
        let key = match vault.get_secret_key(master_password) {
            Ok(key) => key,
            Err(e) => {
                return Err(e);
            },
        };
        match decrypt(data, &key) {
            Ok(payload) => Ok(Unsealed { vault, key, payload }),
            Err(e) => Err(e),
        }
    }
}

impl Unsealed {
    /// Completes the opening of a vault with what reading the payload
    /// gave: the entries, or nothing where the payload was not a serialized
    /// entry collection, which is a `Format` failure.
    pub fn restore(self, parsed: Option<Vec<PasswordEntry>>) -> (restored: Result<
        (Vault, SecretKey),
        VaultError,
    >)
        ensures
            match parsed {
                Some(entries) => restored matches Ok((vault, key)) && {
                    &&& vault@.wf()
                    &&& vault@.salt == self.vault@.salt
                    &&& vault@.nonce == self.vault@.nonce
                    &&& vault@.map() == stored_all(self.vault@.map(), views_of(entries@))
                    &&& key@ == self.key@
                },
                None => restored matches Err(e) && e == VaultError::Format,
            },
    {
        match parsed {
            Some(entries) => {
                let mut vault = self.vault;
                vault.restore(entries);
                Ok((vault, self.key))
            },
            None => Err(VaultError::Format),
        }
    }
}

} // verus!

//! The store of secrets: encrypted lines in the Engram service, read, replaced
//! and found as secrets.
use crate::api::{memory_models, EngramMemory, MemoryModel};
use crate::backend::result_view;
use crate::backend_engram::{
    listing_view, memory_parts, EngramBackend, EngramModel, EngramRequest, Fetch, WholeList,
};
use crate::error::{CredError, ErrorModel};
use crate::line::{
    is_cred_line, is_cred_text, law_read_line_is_its_parts, law_version_is_unique, line_parts,
    line_text, plain_path, version_of, LineVersion,
};
use crate::order::{
    at_path, is_at, law_newest_has_greatest_stamp, law_sorting_keeps_newest, lemma_all_remain,
    lemma_at_path_empty, lemma_at_path_push, lemma_at_path_remaining, lemma_at_path_source,
    lemma_none_remain, newest_at, path_fn, sort_by_path, sorted_by_path, stamp_fn, take_newest,
    views, Path,
};
use crate::outside::hex_text;
use crate::removal::{
    deleted_ids, law_nothing_is_stored_before_all_are_deleted, law_successful_removal_deletes_all,
    outcome_view, outcome_views, removed, replace_step, replace_step_is, replacement, stored_view,
    ReplaceModel, ReplaceStep,
};
use crate::secret::{
    decoded, law_stored_secret_is_read_back, opt_view, Decoding, DecodingModel, OpenedModel,
    OpenedSecret, Opening, OpeningModel, SealedKind, SealedModel, SealedSecret, Secret,
    SecretModel,
};
use crate::text::opt_text;
use crate::value::{SecretValue, ValueModel};
use vstd::prelude::*;

verus! {

// ---------------------------------------------------------------------------
// The store
// ---------------------------------------------------------------------------

/// The Engram service, and the key that the lines in it are encrypted with.
pub struct CredStore {
    engram: EngramBackend,
    master_key: Option<[u8; 32]>,
}

/// The service and the key as text and bytes.
pub struct StoreModel {
    pub engram: EngramModel,
    pub master_key: Option<Seq<u8>>,
}

impl View for CredStore {
    type V = StoreModel;

    closed spec fn view(&self) -> StoreModel {
        StoreModel {
            engram: self.engram@,
            master_key: match self.master_key {
                Some(key) => Some(key@),
                None => None,
            },
        }
    }
}

impl CredStore {
    /// A store with a key, in the service that the environment variables
    /// `ENGRAM_URL` and `ENGRAM_API_KEY` name.
    pub fn with_key(
        master_key: [u8; 32],
        engram_url: Option<String>,
        engram_key: Option<String>,
    ) -> (r: Result<CredStore, CredError>)
        ensures
            result_view(r) == (match EngramModel::from_env(
                opt_text(engram_url),
                opt_text(engram_key),
            ) {
                Ok(engram) => Ok::<StoreModel, ErrorModel>(
                    StoreModel { engram, master_key: Some(master_key@) },
                ),
                Err(e) => Err(e),
            }),
    {
        match EngramBackend::from_env(engram_url, engram_key) {
            Ok(engram) => Ok(CredStore { engram, master_key: Some(master_key) }),
            Err(e) => Err(e),
        }
    }

    /// The key to encrypt and decrypt with.
    pub fn require_key(&self) -> (r: Result<&[u8; 32], CredError>)
        ensures
            match r {
                Ok(key) => self@.master_key == Some(key@),
                Err(e) => self@.master_key is None && e@ == ErrorModel::NoEncryptionKey,
            },
    {
        match &self.master_key {
            Some(key) => Ok(key),
            None => Err(CredError::NoEncryptionKey),
        }
    }

    /// Asks for memories that hold credentials. Whether the answer has all of them
    /// is for `Fetch::received` to say.
    pub fn fetch_all_raw(&self, fetch: &Fetch) -> (r: EngramRequest)
        ensures
            r@ == self@.engram.list_request(fetch@),
    {
        self.engram.fetch_all_memories(fetch)
    }

    /// Asks to store a secret, given the encryption of its serialized value.
    /// Without a key nothing is stored.
    pub fn store_raw(&self, secret: &Secret, ciphertext: &[u8]) -> (r: Result<
        EngramRequest,
        CredError,
    >)
        ensures
            match r {
                Ok(q) => self@.master_key is Some && q@ == self@.engram.store_request(
                    line_text(LineVersion::V3, secret.service@, secret.key@, hex_text(ciphertext@)),
                ),
                Err(e) => self@.master_key is None && e@ == ErrorModel::NoEncryptionKey,
            },
            r matches Ok(q) ==> (q.body matches Some(b) && b.content@ == "[CRED:v3] "@
                + secret.service@ + "/"@ + secret.key@ + " = "@ + hex_text(ciphertext@)),
    {
        match self.require_key() {
            Ok(_) => {
                let content = secret.to_engram_content(ciphertext);
                Ok(self.engram.store_memory(content.as_str()))
            },
            Err(e) => Err(e),
        }
    }

    /// Asks to delete a memory.
    pub fn delete_by_id(&self, id: u64) -> (r: EngramRequest)
        ensures
            r@ == self@.engram.delete_request(id),
    {
        self.engram.delete_memory(id)
    }
}

// ---------------------------------------------------------------------------
// Listing
// ---------------------------------------------------------------------------

/// The listing of the secrets among a number of memories, on its way through
/// them. Decrypting, parsing, storing and deleting is done outside, and the
/// listing is told the outcome. Secrets of older lines are stored again on the
/// way.
pub struct CredListing {
    memories: Vec<EngramMemory>,
    at: usize,
    secrets: Vec<Secret>,
}

/// A listing that waits for a body to be decrypted.
pub struct PendingDecrypt {
    listing: CredListing,
    sealed: SealedSecret,
}

/// A listing that waits for a value to be parsed.
pub struct PendingParse {
    listing: CredListing,
    opened: OpenedSecret,
}

/// A listing that waits for a secret of an older line to be stored again.
pub struct PendingMigration {
    listing: CredListing,
    secret: Secret,
}

/// What comes next in a listing.
pub enum CredStep {
    /// Nothing: these are the secrets.
    Done(Vec<Secret>),
    /// A body is to be decrypted.
    Decrypt(PendingDecrypt),
    /// A value is to be parsed.
    Parse(PendingParse),
    /// A secret is to be stored again.
    Migrate(PendingMigration),
}

/// A listing as text: the memories, how many are done, and what was found.
pub struct ListingModel {
    pub memories: Seq<MemoryModel>,
    pub at: int,
    pub secrets: Seq<SecretModel>,
}

/// What comes next in a listing, as text; the secrets at the end in the order in
/// which they were found.
pub enum StepModel {
    Done(Seq<SecretModel>),
    Decrypt(ListingModel, SealedModel),
    Parse(ListingModel, OpenedModel),
    Migrate(ListingModel, SecretModel),
}

impl View for CredListing {
    type V = ListingModel;

    closed spec fn view(&self) -> ListingModel {
        ListingModel {
            memories: memory_models(self.memories@),
            at: self.at as int,
            secrets: views(self.secrets@),
        }
    }
}

impl View for PendingDecrypt {
    type V = (ListingModel, SealedModel);

    closed spec fn view(&self) -> (ListingModel, SealedModel) {
        (self.listing@, self.sealed@)
    }
}

impl View for PendingParse {
    type V = (ListingModel, OpenedModel);

    closed spec fn view(&self) -> (ListingModel, OpenedModel) {
        (self.listing@, self.opened@)
    }
}

impl View for PendingMigration {
    type V = (ListingModel, SecretModel);

    closed spec fn view(&self) -> (ListingModel, SecretModel) {
        (self.listing@, self.secret@)
    }
}

/// The step is the one modelled, its secrets in the order of their paths.
pub open spec fn step_is(step: CredStep, model: StepModel) -> bool {
    match (step, model) {
        (CredStep::Done(secrets), StepModel::Done(found)) => sorted_by_path(
            found,
            views(secrets@),
            path_fn::<Secret>(),
        ),
        (CredStep::Decrypt(p), StepModel::Decrypt(listing, sealed)) => p@ == (listing, sealed),
        (CredStep::Parse(p), StepModel::Parse(listing, opened)) => p@ == (listing, opened),
        (CredStep::Migrate(p), StepModel::Migrate(listing, secret)) => p@ == (listing, secret),
        _ => false,
    }
}

/// How far the line that a memory holds can be read, if it is a credential.
pub open spec fn memory_decoded(memory: MemoryModel) -> Option<DecodingModel> {
    if is_cred_text(memory.content) {
        decoded(memory.content, memory.id, true)
    } else {
        None
    }
}

/// The secret after it was stored again under a new id, or could not be.
pub open spec fn stored_again(secret: SecretModel, new_id: Option<u64>) -> SecretModel {
    SecretModel {
        engram_id: match new_id {
            Some(id) => Some(id),
            None => secret.engram_id,
        },
        ..secret
    }
}

impl ListingModel {
    /// A listing at its start.
    pub open spec fn start(memories: Seq<MemoryModel>) -> ListingModel {
        ListingModel { memories, at: 0, secrets: Seq::empty() }
    }

    /// The listing is at one of its memories.
    pub open spec fn at_memory(self) -> bool {
        0 <= self.at < self.memories.len()
    }

    /// The memory that the listing is at.
    pub open spec fn memory(self) -> MemoryModel {
        self.memories[self.at]
    }

    /// The listing past its current memory, in which `found` was found.
    pub open spec fn passed(self, found: Option<SecretModel>) -> ListingModel {
        ListingModel {
            at: self.at + 1,
            secrets: match found {
                Some(secret) => self.secrets.push(secret),
                None => self.secrets,
            },
            ..self
        }
    }

    /// The next thing that is needed from outside; memories that hold nothing
    /// that can be read are passed over.
    pub open spec fn next(self) -> StepModel
        decreases self.memories.len() - self.at,
    {
        if self.at_memory() {
            match memory_decoded(self.memory()) {
                Some(DecodingModel::Complete(secret)) => StepModel::Migrate(self, secret),
                Some(DecodingModel::Sealed(sealed)) => StepModel::Decrypt(self, sealed),
                None => self.passed(None).next(),
            }
        } else {
            StepModel::Done(self.secrets)
        }
    }

    /// What comes next once the body of the current memory holds `plaintext`, if
    /// it could be decrypted.
    pub open spec fn decrypted(
        self,
        sealed: SealedModel,
        plaintext: Option<Seq<u8>>,
    ) -> StepModel {
        match sealed.opened(plaintext) {
            Some(OpeningModel::Complete(secret)) => StepModel::Migrate(self, secret),
            Some(OpeningModel::Serialized(opened)) => StepModel::Parse(self, opened),
            None => self.passed(None).next(),
        }
    }

    /// What comes next once the value of the current memory is `value`, if it
    /// could be parsed.
    pub open spec fn parsed(self, opened: OpenedModel, value: Option<ValueModel>) -> StepModel {
        self.passed(opened.with_value(value)).next()
    }

    /// The listing once the secret of the current memory was stored under a new
    /// id, or could not be.
    pub open spec fn stored(self, secret: SecretModel, new_id: Option<u64>) -> ListingModel {
        self.passed(Some(stored_again(secret, new_id)))
    }
}

/// The secret of an older line, as it is read from the memory that holds it.
pub open spec fn migration_valid(listing: ListingModel, secret: SecretModel) -> bool {
    &&& listing.at_memory()
    &&& plain_path(secret.service, secret.key)
    &&& secret.value is ApiKey
    &&& secret.engram_id == Some(listing.memory().id)
    &&& secret.created_at is None
    &&& version_of(listing.memory().content) != Some(LineVersion::V3)
}

impl CredListing {
    #[verifier::type_invariant]
    spec fn in_range(self) -> bool {
        self.at <= self.memories@.len()
    }

    /// Goes on to the next memory that needs something from outside, or to the
    /// end.
    pub fn advance(self) -> (r: CredStep)
        ensures
            step_is(r, self@.next()),
    {
        proof {
            use_type_invariant(&self);
        }
        let CredListing { memories, at, secrets } = self;
        let mut at: usize = at;
        let ghost start = self@;
        while at < memories.len()
            invariant
                start == self@,
                at <= memories@.len(),
                start.memories == memory_models(memories@),
                start.next() == (ListingModel {
                    memories: start.memories,
                    at: at as int,
                    secrets: views(secrets@),
                }).next(),
            decreases memories@.len() - at,
        {
            let ghost here = ListingModel {
                memories: start.memories,
                at: at as int,
                secrets: views(secrets@),
            };
            assert(here.memory() == memories@[at as int]@);
            if is_cred_line(memories[at].content.as_str()) {
                match Secret::from_engram_content(
                    memories[at].content.as_str(),
                    memories[at].id,
                    true,
                ) {
                    Some(Decoding::Complete(secret)) => {
                        proof {
                            lemma_decoded_is_plain(here.memory());
                        }
                        let listing = CredListing { memories, at, secrets };
                        return CredStep::Migrate(PendingMigration { listing, secret });
                    },
                    Some(Decoding::Sealed(sealed)) => {
                        let listing = CredListing { memories, at, secrets };
                        return CredStep::Decrypt(PendingDecrypt { listing, sealed });
                    },
                    None => {},
                }
            }
            at = at + 1;
        }
        CredStep::Done(sort_by_path(secrets))
    }

    /// Goes past the current memory, in which `found` was found.
    fn pass(self, found: Option<Secret>) -> (r: CredListing)
        requires
            self@.at_memory(),
        ensures
            r@ == self@.passed(opt_view(found)),
    {
        proof {
            use_type_invariant(&self);
        }
        let CredListing { memories, at, secrets } = self;
        let count: usize = memories.len();
        assert(at < count);
        let mut secrets = secrets;
        let ghost before = secrets@;
        if let Some(secret) = found {
            secrets.push(secret);
            assert(views(secrets@) =~= views(before).push(secret@));
        }
        CredListing { memories, at: at + 1, secrets }
    }
}

impl PendingDecrypt {
    #[verifier::type_invariant]
    spec fn well_formed(self) -> bool {
        &&& self.listing@.at_memory()
        &&& memory_decoded(self.listing@.memory()) == Some(DecodingModel::Sealed(self.sealed@))
    }

    /// The body to decrypt.
    pub fn ciphertext(&self) -> (r: &Vec<u8>)
        ensures
            r@ == self@.1.ciphertext,
    {
        &self.sealed.ciphertext
    }

    /// Goes on with the decrypted body, if it could be decrypted.
    pub fn decrypted(self, plaintext: Option<Vec<u8>>) -> (r: CredStep)
        ensures
            step_is(r, self@.0.decrypted(self@.1, opt_view(plaintext))),
    {
        proof {
            use_type_invariant(&self);
            lemma_decoded_is_plain(self.listing@.memory());
        }
        let PendingDecrypt { listing, sealed } = self;
        match sealed.open(plaintext) {
            Some(Opening::Complete(secret)) => CredStep::Migrate(
                PendingMigration { listing, secret },
            ),
            Some(Opening::Serialized(opened)) => CredStep::Parse(PendingParse { listing, opened }),
            None => listing.pass(None).advance(),
        }
    }
}

impl PendingParse {
    #[verifier::type_invariant]
    spec fn well_formed(self) -> bool {
        self.listing@.at_memory()
    }

    /// The serialized value to parse.
    pub fn json(&self) -> (r: &Vec<u8>)
        ensures
            r@ == self@.1.json,
    {
        &self.opened.json
    }

    /// Goes on with the parsed value, if it could be parsed.
    pub fn parsed(self, value: Option<SecretValue>) -> (r: CredStep)
        ensures
            step_is(r, self@.0.parsed(self@.1, opt_view(value))),
    {
        proof {
            use_type_invariant(&self);
        }
        let PendingParse { listing, opened } = self;
        listing.pass(opened.with_value(value)).advance()
    }
}

impl PendingMigration {
    #[verifier::type_invariant]
    spec fn well_formed(self) -> bool {
        migration_valid(self.listing@, self.secret@)
    }

    /// The secret to store again.
    pub fn secret(&self) -> (r: &Secret)
        ensures
            r@ == self@.1,
            migration_valid(self@.0, self@.1),
    {
        proof {
            use_type_invariant(self);
        }
        &self.secret
    }

    /// Goes on after the secret was stored under a new id, or could not be. Only
    /// where it was stored, the memory that held it is to be deleted.
    pub fn stored(self, new_id: Option<u64>) -> (r: (CredListing, Option<u64>))
        ensures
            r.0@ == self@.0.stored(self@.1, new_id),
            r.1 == (if new_id is Some {
                self@.1.engram_id
            } else {
                None
            }),
            self@.1.engram_id == Some(self@.0.memory().id),
    {
        proof {
            use_type_invariant(&self);
        }
        let PendingMigration { listing, secret } = self;
        let mut secret = secret;
        let old_id: Option<u64> = secret.engram_id;
        match new_id {
            Some(id) => {
                secret.engram_id = Some(id);
                (listing.pass(Some(secret)), old_id)
            },
            None => (listing.pass(Some(secret)), None),
        }
    }
}

/// Whatever is read from a line has a plain path and the id of the memory that
/// holds it.
proof fn lemma_decoded_is_plain(memory: MemoryModel)
    ensures
        match memory_decoded(memory) {
            Some(DecodingModel::Complete(secret)) => {
                &&& plain_path(secret.service, secret.key)
                &&& secret.value is ApiKey
                &&& secret.engram_id == Some(memory.id)
                &&& secret.created_at is None
                &&& version_of(memory.content) == Some(LineVersion::V1)
            },
            Some(DecodingModel::Sealed(sealed)) => {
                &&& plain_path(sealed.service, sealed.key)
                &&& sealed.engram_id == memory.id
                &&& sealed.kind is RawValue ==> version_of(memory.content) == Some(LineVersion::V2)
            },
            None => true,
        },
{
    if let Some(version) = version_of(memory.content) {
        if let Some((service, key, body)) = line_parts(version, memory.content) {
            law_read_line_is_its_parts(version, memory.content, service, key, body);
        }
    }
}

// ---------------------------------------------------------------------------
// Replacing, finding and deleting
// ---------------------------------------------------------------------------

/// The ids of those secrets that have one.
pub open spec fn known_ids(list: Seq<SecretModel>) -> Seq<u64>
    decreases list.len(),
{
    if list.len() == 0 {
        Seq::empty()
    } else {
        let before = known_ids(list.drop_last());
        match list.last().engram_id {
            Some(id) => before.push(id),
            None => before,
        }
    }
}

/// The secrets at the path `p`.
pub open spec fn secrets_at(list: Seq<SecretModel>, p: Path) -> Seq<SecretModel> {
    at_path(list, path_fn::<Secret>(), p)
}

/// The secrets of a listing; none where it failed.
pub open spec fn listed(listing: Result<Vec<Secret>, CredError>) -> Seq<SecretModel> {
    match listing {
        Ok(all) => views(all@),
        Err(_) => Seq::empty(),
    }
}

/// What looking for a secret gives.
pub open spec fn secret_found(listing: Result<Seq<SecretModel>, ErrorModel>, p: Path) -> Result<
    SecretModel,
    ErrorModel,
> {
    match listing {
        Ok(all) => match newest_at::<Secret>(all, p) {
            Some(secret) => Ok(secret),
            None => Err(ErrorModel::SecretNotFound { service: p.0, key: p.1 }),
        },
        Err(e) => Err(e),
    }
}

/// What deleting a secret gives: the memory to delete, that of the newest secret
/// at the path. A listing that failed has no secret.
pub open spec fn deletion(listing: Result<Seq<SecretModel>, ErrorModel>, p: Path) -> Result<
    u64,
    ErrorModel,
> {
    match secret_found(listing, p) {
        Ok(secret) => match secret.engram_id {
            Some(id) => Ok(id),
            None => Err(ErrorModel::NoEngramId),
        },
        Err(_) => Err(ErrorModel::SecretNotFound { service: p.0, key: p.1 }),
    }
}

impl CredStore {
    /// Starts to list the secrets among all memories.
    pub fn list_all(&self, memories: WholeList) -> (r: Result<CredListing, CredError>)
        ensures
            match r {
                Ok(listing) => self@.master_key is Some && listing@ == ListingModel::start(
                    memories@,
                ),
                Err(e) => self@.master_key is None && e@ == ErrorModel::NoEncryptionKey,
            },
    {
        match self.require_key() {
            Ok(_) => {
                let secrets: Vec<Secret> = Vec::new();
                assert(views(secrets@) =~= Seq::<SecretModel>::empty());
                Ok(CredListing { memories: memories.into_memories(), at: 0, secrets })
            },
            Err(e) => Err(e),
        }
    }

    /// The ids of the secrets at a path that have one, in their order.
    fn ids_at(all: &Vec<Secret>, service: &str, key: &str) -> (r: Vec<u64>)
        ensures
            r@ == known_ids(secrets_at(views(all@), (service@, key@))),
    {
        let ghost p = (service@, key@);
        let ghost path = path_fn::<Secret>();
        let ghost found = views(all@);
        let mut ids: Vec<u64> = Vec::new();
        proof {
            lemma_at_path_empty::<SecretModel>(path, p);
            assert(found.take(0) =~= Seq::<SecretModel>::empty());
        }
        let mut i: usize = 0;
        while i < all.len()
            invariant
                i <= all@.len(),
                found == views(all@),
                p == (service@, key@),
                path == path_fn::<Secret>(),
                ids@ == known_ids(secrets_at(found.take(i as int), p)),
            decreases all@.len() - i,
        {
            proof {
                let x = all@[i as int]@;
                assert(found.take(i + 1) =~= found.take(i as int).push(x));
                lemma_at_path_push(found.take(i as int), path, p, x);
                let before = secrets_at(found.take(i as int), p);
                assert(before.push(x).drop_last() =~= before);
            }
            if is_at(&all[i], service, key) {
                if let Some(id) = all[i].engram_id {
                    ids.push(id);
                }
            }
            i = i + 1;
        }
        assert(found.take(all@.len() as int) =~= found);
        ids
    }

    /// Plans to store a secret: gives the memories to delete before it is stored.
    /// Replaces ALL existing entries for the same service/key; where the listing
    /// failed, nothing is known of them, and nothing is stored.
    pub fn store(listing: Result<Vec<Secret>, CredError>, secret: &Secret) -> (r: Result<
        Vec<u64>,
        CredError,
    >)
        ensures
            match r {
                Ok(ids) => listing is Ok && ids@ == known_ids(
                    secrets_at(listed(listing), (secret.service@, secret.key@)),
                ),
                Err(e) => listing matches Err(f) && e == f,
            },
    {
        match listing {
            Ok(all) => Ok(
                CredStore::ids_at(&all, secret.service.as_str(), secret.key.as_str()),
            ),
            Err(e) => Err(e),
        }
    }

    /// Finds the newest secret at a path.
    pub fn get(
        listing: Result<Vec<Secret>, CredError>,
        service: &str,
        key: &str,
    ) -> (r: Result<Secret, CredError>)
        ensures
            result_view(r) == secret_found(listing_view(listing), (service@, key@)),
    {
        match listing {
            Ok(all) => match take_newest(all, service, key) {
                Some(secret) => Ok(secret),
                None => Err(
                    CredError::SecretNotFound { service: service.to_owned(), key: key.to_owned() },
                ),
            },
            Err(e) => Err(e),
        }
    }

    /// Finds the memory to delete: that of the newest secret at the path.
    pub fn delete(
        listing: Result<Vec<Secret>, CredError>,
        service: &str,
        key: &str,
    ) -> (r: Result<u64, CredError>)
        ensures
            outcome_view(r) == deletion(listing_view(listing), (service@, key@)),
    {
        match CredStore::get(listing, service, key) {
            Ok(secret) => match secret.engram_id {
                Some(id) => Ok(id),
                None => Err(CredError::NoEngramId),
            },
            Err(_) => Err(
                CredError::SecretNotFound { service: service.to_owned(), key: key.to_owned() },
            ),
        }
    }

    /// What comes next in storing a secret: the memories that it replaces are
    /// deleted one after the other, and it is stored once all of them are. The
    /// first failure ends the operation.
    pub fn store_next(
        replaced: &Vec<u64>,
        deleted: &Vec<Result<(), CredError>>,
        stored: &Option<Result<u64, CredError>>,
    ) -> (r: ReplaceStep<()>)
        ensures
            replace_step_is(
                r,
                replacement(replaced@, outcome_views(deleted@), stored_view(*stored)),
            ),
    {
        replace_step(replaced, (), deleted, stored)
    }
}

// ---------------------------------------------------------------------------
// Laws
// ---------------------------------------------------------------------------

/// What comes of the work done outside, for the memory at each position: what
/// its body was decrypted to, what its value was parsed to, and under which id
/// its secret was stored again.
pub struct Outcomes {
    pub plaintext: spec_fn(int) -> Option<Seq<u8>>,
    pub value: spec_fn(int) -> Option<ValueModel>,
    pub stored: spec_fn(int) -> Option<u64>,
}

/// The secret that the memory at position `i` contributes to a listing, if any.
pub open spec fn contributed(memory: MemoryModel, i: int, outcomes: Outcomes) -> Option<
    SecretModel,
> {
    match memory_decoded(memory) {
        Some(DecodingModel::Complete(secret)) => Some(
            stored_again(secret, (outcomes.stored)(i)),
        ),
        Some(DecodingModel::Sealed(sealed)) => match sealed.opened((outcomes.plaintext)(i)) {
            Some(OpeningModel::Complete(secret)) => Some(
                stored_again(secret, (outcomes.stored)(i)),
            ),
            Some(OpeningModel::Serialized(opened)) => opened.with_value((outcomes.value)(i)),
            None => None,
        },
        None => None,
    }
}

/// The secrets that the first `n` memories contribute, in their order.
pub open spec fn collected(memories: Seq<MemoryModel>, outcomes: Outcomes, n: nat) -> Seq<
    SecretModel,
>
    decreases n,
{
    if n == 0 {
        Seq::empty()
    } else {
        let before = collected(memories, outcomes, (n - 1) as nat);
        match contributed(memories[n - 1], n - 1, outcomes) {
            Some(secret) => before.push(secret),
            None => before,
        }
    }
}

/// How many memories are not done.
pub open spec fn memories_left(step: StepModel) -> int {
    match step {
        StepModel::Done(_) => 0,
        StepModel::Decrypt(listing, _) => listing.memories.len() - listing.at,
        StepModel::Parse(listing, _) => listing.memories.len() - listing.at,
        StepModel::Migrate(listing, _) => listing.memories.len() - listing.at,
    }
}

/// How many steps the current memory can take yet.
pub open spec fn steps_left(step: StepModel) -> int {
    match step {
        StepModel::Done(_) => 0,
        StepModel::Decrypt(_, _) => 2,
        StepModel::Parse(_, _) => 1,
        StepModel::Migrate(_, _) => 0,
    }
}

/// Going on never goes back.
pub proof fn lemma_next_goes_forward(listing: ListingModel)
    ensures
        0 <= memories_left(listing.next()),
        memories_left(listing.next()) <= listing.memories.len() - listing.at || listing.next()
            is Done,
    decreases listing.memories.len() - listing.at,
{
    if listing.at_memory() && memory_decoded(listing.memory()) is None {
        lemma_next_goes_forward(listing.passed(None));
    }
}

/// What a listing has found at its end, the work outside coming out as given.
pub open spec fn found_at_end(step: StepModel, outcomes: Outcomes) -> Seq<SecretModel>
    decreases memories_left(step), steps_left(step),
{
    match step {
        StepModel::Done(secrets) => secrets,
        StepModel::Decrypt(listing, sealed) => if listing.at_memory() {
            proof {
                lemma_next_goes_forward(listing.passed(None));
            }
            found_at_end(
                listing.decrypted(sealed, (outcomes.plaintext)(listing.at)),
                outcomes,
            )
        } else {
            listing.secrets
        },
        StepModel::Parse(listing, opened) => if listing.at_memory() {
            proof {
                lemma_next_goes_forward(
                    listing.passed(opened.with_value((outcomes.value)(listing.at))),
                );
            }
            found_at_end(listing.parsed(opened, (outcomes.value)(listing.at)), outcomes)
        } else {
            listing.secrets
        },
        StepModel::Migrate(listing, secret) => if listing.at_memory() {
            proof {
                lemma_next_goes_forward(listing.stored(secret, (outcomes.stored)(listing.at)));
            }
            found_at_end(
                listing.stored(secret, (outcomes.stored)(listing.at)).next(),
                outcomes,
            )
        } else {
            listing.secrets
        },
    }
}

/// A listing has found what the memories it is past contribute.
spec fn listing_on_course(listing: ListingModel, outcomes: Outcomes) -> bool {
    &&& 0 <= listing.at <= listing.memories.len()
    &&& listing.secrets == collected(listing.memories, outcomes, listing.at as nat)
}

/// A step is one on the way through the given memories, and what it waits for is
/// what the current memory needs.
spec fn on_course(step: StepModel, memories: Seq<MemoryModel>, outcomes: Outcomes) -> bool {
    match step {
        StepModel::Done(secrets) => secrets == collected(memories, outcomes, memories.len()),
        StepModel::Decrypt(listing, sealed) => {
            &&& listing.memories == memories
            &&& listing_on_course(listing, outcomes)
            &&& listing.at_memory()
            &&& memory_decoded(listing.memory()) == Some(DecodingModel::Sealed(sealed))
        },
        StepModel::Parse(listing, opened) => {
            &&& listing.memories == memories
            &&& listing_on_course(listing, outcomes)
            &&& listing.at_memory()
            &&& contributed(listing.memory(), listing.at, outcomes) == opened.with_value(
                (outcomes.value)(listing.at),
            )
        },
        StepModel::Migrate(listing, secret) => {
            &&& listing.memories == memories
            &&& listing_on_course(listing, outcomes)
            &&& listing.at_memory()
            &&& contributed(listing.memory(), listing.at, outcomes) == Some(
                stored_again(secret, (outcomes.stored)(listing.at)),
            )
        },
    }
}

proof fn lemma_next_stays_on_course(listing: ListingModel, outcomes: Outcomes)
    requires
        listing_on_course(listing, outcomes),
    ensures
        on_course(listing.next(), listing.memories, outcomes),
    decreases listing.memories.len() - listing.at,
{
    if listing.at_memory() && memory_decoded(listing.memory()) is None {
        lemma_next_stays_on_course(listing.passed(None), outcomes);
    }
}

proof fn lemma_found_at_end(step: StepModel, memories: Seq<MemoryModel>, outcomes: Outcomes)
    requires
        on_course(step, memories, outcomes),
    ensures
        found_at_end(step, outcomes) == collected(memories, outcomes, memories.len()),
    decreases memories_left(step), steps_left(step),
{
    match step {
        StepModel::Done(_) => {},
        StepModel::Decrypt(listing, sealed) => {
            let plaintext = (outcomes.plaintext)(listing.at);
            if sealed.opened(plaintext) is None {
                lemma_next_goes_forward(listing.passed(None));
                lemma_next_stays_on_course(listing.passed(None), outcomes);
            }
            lemma_found_at_end(listing.decrypted(sealed, plaintext), memories, outcomes);
        },
        StepModel::Parse(listing, opened) => {
            let value = (outcomes.value)(listing.at);
            lemma_next_goes_forward(listing.passed(opened.with_value(value)));
            lemma_next_stays_on_course(listing.passed(opened.with_value(value)), outcomes);
            lemma_found_at_end(listing.parsed(opened, value), memories, outcomes);
        },
        StepModel::Migrate(listing, secret) => {
            let new_id = (outcomes.stored)(listing.at);
            lemma_next_goes_forward(listing.stored(secret, new_id));
            lemma_next_stays_on_course(listing.stored(secret, new_id), outcomes);
            lemma_found_at_end(listing.stored(secret, new_id).next(), memories, outcomes);
        },
    }
}

/// Whatever comes of the work done outside, a listing finds what each memory
/// contributes, and nothing else.
pub proof fn law_listing_finds_each_contribution(
    memories: Seq<MemoryModel>,
    outcomes: Outcomes,
)
    ensures
        found_at_end(ListingModel::start(memories).next(), outcomes) == collected(
            memories,
            outcomes,
            memories.len(),
        ),
{
    lemma_next_stays_on_course(ListingModel::start(memories), outcomes);
    lemma_found_at_end(ListingModel::start(memories).next(), memories, outcomes);
}

/// What comes of storing a secret again decides under which id it is listed, and
/// nothing else: a failure loses no secret.
pub proof fn law_failed_migration_loses_nothing(memory: MemoryModel, i: int, outcomes: Outcomes)
    ensures
        ({
            let failed = Outcomes { stored: |k: int| None::<u64>, ..outcomes };
            match (contributed(memory, i, outcomes), contributed(memory, i, failed)) {
                (Some(a), Some(b)) => a == SecretModel { engram_id: a.engram_id, ..b }
                    && b.engram_id == Some(memory.id),
                (None, None) => true,
                _ => false,
            }
        }),
{
    lemma_decoded_is_plain(memory);
}

/// A secret that was stored again, its value encrypted to `ciphertext`, is read
/// back from the new line as a secret of the current version, with the path and
/// value that it had, under the new id. A later listing has nothing to store
/// again for it.
pub proof fn law_migrated_secret_is_current(
    listing: ListingModel,
    secret: SecretModel,
    ciphertext: Seq<u8>,
    json: Seq<u8>,
    new_id: u64,
)
    requires
        migration_valid(listing, secret),
    ensures
        ({
            let content = line_text(
                LineVersion::V3,
                secret.service,
                secret.key,
                hex_text(ciphertext),
            );
            let sealed = SealedModel {
                kind: SealedKind::Serialized,
                service: secret.service,
                key: secret.key,
                ciphertext,
                engram_id: new_id,
            };
            let opened = OpenedModel {
                service: secret.service,
                key: secret.key,
                json,
                engram_id: new_id,
            };
            &&& is_cred_text(content)
            &&& decoded(content, new_id, true) == Some(DecodingModel::Sealed(sealed))
            &&& sealed.opened(Some(json)) == Some(OpeningModel::Serialized(opened))
            &&& opened.with_value(Some(secret.value)) == Some(
                stored_again(secret, Some(new_id)),
            )
        }),
{
    law_stored_secret_is_read_back(secret, ciphertext, json, new_id);
    let content = line_text(LineVersion::V3, secret.service, secret.key, hex_text(ciphertext));
    let version = version_of(content)->0;
    law_version_is_unique(version, content);
}

/// What was found, if anything, lies at another path or under a smaller id.
pub open spec fn elsewhere_or_older(found: Option<SecretModel>, p: Path, id: u64) -> bool {
    match found {
        Some(other) => (other.service, other.key) == p ==> (match other.engram_id {
            Some(other_id) => other_id < id,
            None => 0 < id,
        }),
        None => true,
    }
}

/// A stored secret is the one found: where a memory holds the line that storing
/// a secret writes, its body decrypted and its value parsed as they were, and
/// all else at its path is kept under smaller ids, looking for the path gives
/// that secret.
pub proof fn law_stored_secret_is_found(
    memories: Seq<MemoryModel>,
    outcomes: Outcomes,
    sorted: Seq<SecretModel>,
    at: int,
    secret: SecretModel,
    ciphertext: Seq<u8>,
    json: Seq<u8>,
)
    requires
        plain_path(secret.service, secret.key),
        0 <= at < memories.len(),
        memories[at].content == line_text(
            LineVersion::V3,
            secret.service,
            secret.key,
            hex_text(ciphertext),
        ),
        (outcomes.plaintext)(at) == Some(json),
        (outcomes.value)(at) == Some(secret.value),
        forall|i: int|
            0 <= i < memories.len() && i != at ==> elsewhere_or_older(
                #[trigger] contributed(memories[i], i, outcomes),
                (secret.service, secret.key),
                memories[at].id,
            ),
        sorted_by_path(
            found_at_end(ListingModel::start(memories).next(), outcomes),
            sorted,
            path_fn::<Secret>(),
        ),
    ensures
        secret_found(Ok(sorted), (secret.service, secret.key)) == Ok::<SecretModel, ErrorModel>(
            SecretModel { engram_id: Some(memories[at].id), created_at: None, ..secret },
        ),
{
    let p = (secret.service, secret.key);
    let target = SecretModel { engram_id: Some(memories[at].id), created_at: None, ..secret };
    law_listing_finds_each_contribution(memories, outcomes);
    law_stored_secret_is_read_back(secret, ciphertext, json, memories[at].id);
    let content = memories[at].content;
    law_version_is_unique(version_of(content)->0, content);
    assert(contributed(memories[at], at, outcomes) == Some(target));
    lemma_newest_collected(memories, outcomes, at, target, memories.len());
    law_sorting_keeps_newest::<Secret>(collected(memories, outcomes, memories.len()), sorted, p);
}

proof fn lemma_newest_collected(
    memories: Seq<MemoryModel>,
    outcomes: Outcomes,
    at: int,
    target: SecretModel,
    n: nat,
)
    requires
        0 <= at < memories.len(),
        n <= memories.len(),
        contributed(memories[at], at, outcomes) == Some(target),
        target.engram_id is Some,
        forall|i: int|
            0 <= i < memories.len() && i != at ==> elsewhere_or_older(
                #[trigger] contributed(memories[i], i, outcomes),
                (target.service, target.key),
                target.engram_id->0,
            ),
    ensures
        ({
            let best = newest_at::<Secret>(
                collected(memories, outcomes, n),
                (target.service, target.key),
            );
            if at < n {
                best == Some(target)
            } else {
                elsewhere_or_older(best, (target.service, target.key), target.engram_id->0) && (
                best matches Some(other) ==> (other.service, other.key) == (
                    target.service,
                    target.key,
                ))
            }
        }),
    decreases n,
{
    let p = (target.service, target.key);
    let path = path_fn::<Secret>();
    lemma_at_path_empty::<SecretModel>(path, p);
    if n > 0 {
        lemma_newest_collected(memories, outcomes, at, target, (n - 1) as nat);
        let before = collected(memories, outcomes, (n - 1) as nat);
        if let Some(x) = contributed(memories[n - 1], n - 1, outcomes) {
            lemma_at_path_push(before, path, p, x);
            let found = at_path(before, path, p);
            assert(found.push(x).drop_last() =~= found);
        }
    }
}

/// Storing at a path replaces each secret that is listed at the path under an
/// id, and no other.
pub proof fn law_store_replaces_all_of_the_path(all: Seq<SecretModel>, p: Path, id: u64)
    ensures
        known_ids(secrets_at(all, p)).contains(id) <==> exists|i: int|
            0 <= i < all.len() && (#[trigger] all[i]).engram_id == Some(id) && (
                all[i].service,
                all[i].key,
            ) == p,
    decreases all.len(),
{
    let path = path_fn::<Secret>();
    lemma_at_path_empty::<SecretModel>(path, p);
    if all.len() == 0 {
        assert(all =~= Seq::<SecretModel>::empty());
    } else {
        let before = all.drop_last();
        let x = all.last();
        law_store_replaces_all_of_the_path(before, p, id);
        assert(all =~= before.push(x));
        lemma_at_path_push(before, path, p, x);
        let found = secrets_at(before, p);
        let ids = known_ids(found);
        assert(found.push(x).drop_last() =~= found);
        if (x.service, x.key) == p {
            if let Some(new) = x.engram_id {
                assert(known_ids(secrets_at(all, p)) == ids.push(new));
                assert(ids.push(new)[ids.len() as int] == new);
                assert(ids.contains(id) ==> ids.push(new).contains(id)) by {
                    if ids.contains(id) {
                        let k = choose|k: int| 0 <= k < ids.len() && ids[k] == id;
                        assert(ids.push(new)[k] == id);
                    }
                }
                assert(ids.push(new).contains(id) ==> ids.contains(id) || new == id) by {
                    if ids.push(new).contains(id) {
                        let k = choose|k: int|
                            0 <= k < ids.push(new).len() && ids.push(new)[k] == id;
                        if k < ids.len() {
                            assert(ids[k] == id);
                        }
                    }
                }
            }
        }
        assert(all[all.len() - 1] == x);
        if exists|i: int|
            0 <= i < before.len() && (#[trigger] before[i]).engram_id == Some(id) && (
                before[i].service,
                before[i].key,
            ) == p {
            let i = choose|i: int|
                0 <= i < before.len() && (#[trigger] before[i]).engram_id == Some(id) && (
                    before[i].service,
                    before[i].key,
                ) == p;
            assert(all[i] == before[i]);
        }
        if exists|i: int|
            0 <= i < all.len() && (#[trigger] all[i]).engram_id == Some(id) && (
                all[i].service,
                all[i].key,
            ) == p {
            let i = choose|i: int|
                0 <= i < all.len() && (#[trigger] all[i]).engram_id == Some(id) && (
                    all[i].service,
                    all[i].key,
                ) == p;
            if i < before.len() {
                assert(before[i] == all[i]);
            }
        }
    }
}

/// Every secret that a listing finds is kept under an id.
pub proof fn law_listed_secrets_have_ids(memory: MemoryModel, i: int, outcomes: Outcomes)
    ensures
        contributed(memory, i, outcomes) matches Some(secret) ==> secret.engram_id is Some,
{
    lemma_decoded_is_plain(memory);
}

/// What is left of the listed secrets once the memories of the given ids are
/// gone.
pub open spec fn without(all: Seq<SecretModel>, ids: Seq<u64>) -> Seq<SecretModel> {
    all.filter(
        |v: SecretModel|
            match v.engram_id {
                Some(id) => !ids.contains(id),
                None => true,
            },
    )
}

/// Every secret is kept under an id, and no two under one.
pub open spec fn ids_known_and_distinct(all: Seq<SecretModel>) -> bool {
    &&& forall|i: int| 0 <= i < all.len() ==> (#[trigger] all[i]).engram_id is Some
    &&& forall|i: int, j: int|
        0 <= i < j < all.len() ==> (#[trigger] all[i]).engram_id != (#[trigger] all[j]).engram_id
}

/// What lies at another path is kept under none of the ids of the path.
proof fn lemma_other_paths_stay(all: Seq<SecretModel>, p: Path, q: Path, k: int, id: u64)
    requires
        ids_known_and_distinct(all),
        q != p,
        0 <= k < secrets_at(all, q).len(),
        secrets_at(all, q)[k].engram_id == Some(id),
    ensures
        !known_ids(secrets_at(all, p)).contains(id),
{
    let path = path_fn::<Secret>();
    let other = secrets_at(all, q)[k];
    lemma_at_path_source(all, path, q, k);
    let i = choose|i: int| 0 <= i < all.len() && #[trigger] all[i] == other && path(all[i]) == q;
    if known_ids(secrets_at(all, p)).contains(id) {
        law_store_replaces_all_of_the_path(all, p, id);
        let j = choose|j: int|
            0 <= j < all.len() && (#[trigger] all[j]).engram_id == Some(id) && (
                all[j].service,
                all[j].key,
            ) == p;
        assert(all[i].engram_id == all[j].engram_id && i != j);
    }
}

/// A store that succeeds leaves one secret at the path, the new one: of all that
/// is listed, the memories whose deletion succeeded are gone, and the new one is
/// there. Whatever comes of the deletions, what lies at other paths is as it was.
pub proof fn law_successful_store_leaves_only_the_new(
    all: Seq<SecretModel>,
    p: Path,
    new: SecretModel,
    q: Path,
    deleted: Seq<Result<(), ErrorModel>>,
    stored: Option<Result<u64, ErrorModel>>,
)
    requires
        ids_known_and_distinct(all),
        (new.service, new.key) == p,
        new.engram_id is Some,
    ensures
        ({
            let ids = known_ids(secrets_at(all, p));
            let rest = without(all, deleted_ids(ids, deleted));
            &&& replacement(ids, deleted, stored) == ReplaceModel::Done(Ok(new.engram_id->0))
                ==> stored == Some(Ok::<u64, ErrorModel>(new.engram_id->0)) && secrets_at(
                rest.push(new),
                p,
            ) == seq![new]
            &&& q != p ==> secrets_at(rest.push(new), q) == secrets_at(all, q)
        }),
{
    let path = path_fn::<Secret>();
    let ids = known_ids(secrets_at(all, p));
    let gone = deleted_ids(ids, deleted);
    let rest = without(all, gone);
    let stays = |v: SecretModel|
        match v.engram_id {
            Some(id) => !gone.contains(id),
            None => true,
        };
    law_successful_removal_deletes_all(ids, deleted);
    lemma_at_path_push(rest, path, p, new);
    lemma_at_path_push(rest, path, q, new);
    if replacement(ids, deleted, stored) == ReplaceModel::Done(Ok(new.engram_id->0)) {
        law_nothing_is_stored_before_all_are_deleted(ids, deleted, stored);
        let here = secrets_at(all, p);
        assert forall|k: int| 0 <= k < here.len() implies !stays(#[trigger] here[k]) by {
            lemma_at_path_source(all, path, p, k);
            let i = choose|i: int|
                0 <= i < all.len() && #[trigger] all[i] == here[k] && path(all[i]) == p;
            law_store_replaces_all_of_the_path(all, p, all[i].engram_id->0);
            assert(all[i].engram_id is Some);
        }
        lemma_none_remain(all, path, p, stays);
        assert(Seq::<SecretModel>::empty().push(new) =~= seq![new]);
    }
    if q != p {
        let there = secrets_at(all, q);
        assert forall|k: int| 0 <= k < there.len() implies stays(#[trigger] there[k]) by {
            if let Some(id) = there[k].engram_id {
                if gone.contains(id) {
                    let g = choose|g: int| 0 <= g < gone.len() && gone[g] == id;
                    assert(ids[g] == id);
                    lemma_other_paths_stay(all, p, q, k, id);
                }
            }
        }
        lemma_all_remain(all, path, q, stays);
    }
}

/// A delete that succeeds takes one secret, the newest at the path: of all that is
/// listed, the memory whose deletion succeeded is gone, and the others at the path
/// and all that lies at other paths are as they were. Where it was the only one at
/// its path, nothing is found there any more.
pub proof fn law_successful_delete_takes_the_newest(
    all: Seq<SecretModel>,
    p: Path,
    q: Path,
    id: u64,
    deleted: Seq<Result<(), ErrorModel>>,
)
    requires
        ids_known_and_distinct(all),
        deletion(Ok(all), p) == Ok::<u64, ErrorModel>(id),
        removed(seq![id], deleted),
    ensures
        ({
            let rest = without(all, deleted_ids(seq![id], deleted));
            &&& newest_at::<Secret>(all, p) matches Some(secret) && secret.engram_id == Some(id)
            &&& secrets_at(rest, p) == secrets_at(all, p).filter(
                |v: SecretModel| v.engram_id != Some(id),
            )
            &&& q != p ==> secrets_at(rest, q) == secrets_at(all, q)
            &&& secrets_at(all, p).len() == 1 ==> secret_found(Ok(rest), p) == Err::<
                SecretModel,
                ErrorModel,
            >(ErrorModel::SecretNotFound { service: p.0, key: p.1 })
        }),
{
    let path = path_fn::<Secret>();
    let gone = seq![id];
    law_successful_removal_deletes_all(gone, deleted);
    assert(gone.contains(id)) by {
        assert(gone[0] == id);
    }
    let stays = |v: SecretModel|
        match v.engram_id {
            Some(i) => !gone.contains(i),
            None => true,
        };
    let keeps = |v: SecretModel| v.engram_id != Some(id);
    assert forall|v: SecretModel| #[trigger] stays(v) == keeps(v) by {}
    assert(stays =~= keeps);
    lemma_at_path_remaining(all, path, p, stays);
    let here = secrets_at(all, p);
    law_newest_has_greatest_stamp(here, stamp_fn::<Secret>());
    let newest = newest_at::<Secret>(all, p)->0;
    let n = choose|n: int|
        {
            &&& 0 <= n < here.len()
            &&& #[trigger] here[n] == newest
            &&& forall|j: int|
                0 <= j < here.len() ==> stamp_fn::<Secret>()(#[trigger] here[j]) <= stamp_fn::<
                    Secret,
                >()(newest)
            &&& forall|j: int|
                n < j < here.len() ==> stamp_fn::<Secret>()(#[trigger] here[j]) < stamp_fn::<
                    Secret,
                >()(newest)
        };
    if here.len() == 1 {
        assert forall|k: int| 0 <= k < here.len() implies !stays(#[trigger] here[k]) by {}
        lemma_none_remain(all, path, p, stays);
    }
    if q != p {
        let there = secrets_at(all, q);
        lemma_at_path_source(all, path, p, n);
        let j = choose|j: int|
            0 <= j < all.len() && #[trigger] all[j] == here[n] && path(all[j]) == p;
        assert forall|k: int| 0 <= k < there.len() implies stays(#[trigger] there[k]) by {
            lemma_at_path_source(all, path, q, k);
            let i = choose|i: int|
                0 <= i < all.len() && #[trigger] all[i] == there[k] && path(all[i]) == q;
            assert(i != j);
            assert(all[i].engram_id != all[j].engram_id);
        }
        lemma_all_remain(all, path, q, stays);
    }
}

/// The store and the raw backend see the same secrets: whatever can be read from
/// a memory as a secret is listed by the backend too, at the same path, and is
/// of an older version for both or for neither.
pub proof fn law_backend_lists_the_same_path(memory: MemoryModel)
    ensures
        match memory_decoded(memory) {
            Some(DecodingModel::Complete(secret)) => memory_parts(memory) matches Some(
                (parts, legacy),
            ) && (parts.0, parts.1) == (secret.service, secret.key) && legacy,
            Some(DecodingModel::Sealed(sealed)) => memory_parts(memory) matches Some(
                (parts, legacy),
            ) && (parts.0, parts.1) == (sealed.service, sealed.key) && legacy == (sealed.kind
                is RawValue),
            None => true,
        },
{
}

} // verus!

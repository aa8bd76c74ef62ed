//! The Engram service as a backend: what it is asked, how its answers are
//! taken, and how the lines it keeps are listed, replaced and found.
use crate::api::{memory_models, EngramMemory, EngramStoreRequest, MemoryModel};
use crate::backend::{result_view, RawModel, RawSecret};
use crate::error::{CredError, EngramOp, ErrorModel};
use crate::line::{
    format_line, is_cred_line, is_cred_text, law_line_round_trip,
    law_rewritten_line_reads_the_same, law_version_is_unique, line_parts, line_text, line_version,
    opt_parts, parse_line, plain_path, version_of, LineParts, LineVersion,
};
use crate::order::{
    at_path, is_at, law_sorting_keeps_newest, lemma_all_remain, lemma_at_path_empty,
    lemma_at_path_push, lemma_at_path_source, lemma_at_path_target, lemma_none_remain, newest_at,
    path_fn, sort_by_path, sorted_by_path, take_newest, views, Path,
};
use crate::removal::{
    deleted_ids, law_nothing_is_stored_before_all_are_deleted, law_successful_removal_deletes_all,
    outcome_views, removed, replace_step, replace_step_is, replacement, stored_view, ReplaceModel,
    ReplaceStep,
};
use crate::text::{decimal, decimal_text, opt_text};
use crate::value::pair_texts;
use vstd::prelude::*;

verus! {

// ---------------------------------------------------------------------------
// The service
// ---------------------------------------------------------------------------

/// The address and the key of the Engram service.
pub struct EngramBackend {
    engram_url: String,
    engram_key: String,
}

/// The address and the key as text.
pub struct EngramModel {
    pub url: Seq<char>,
    pub key: Seq<char>,
}

impl View for EngramBackend {
    type V = EngramModel;

    closed spec fn view(&self) -> EngramModel {
        EngramModel { url: self.engram_url@, key: self.engram_key@ }
    }
}

/// How a request is made.
#[derive(Debug, Clone, Copy, PartialEq, Eq, Structural)]
pub enum HttpMethod {
    Get,
    Post,
    Delete,
}

/// A request to the Engram service.
pub struct EngramRequest {
    pub method: HttpMethod,
    pub url: String,
    pub authorization: String,
    pub query: Vec<(String, String)>,
    pub body: Option<EngramStoreRequest>,
}

/// A memory to store, as text.
pub struct StoreRequestModel {
    pub content: Seq<char>,
    pub category: Seq<char>,
    pub source: Seq<char>,
    pub importance: Option<u8>,
    pub is_static: Option<bool>,
}

/// A request as text.
pub struct RequestModel {
    pub method: HttpMethod,
    pub url: Seq<char>,
    pub authorization: Seq<char>,
    pub query: Seq<(Seq<char>, Seq<char>)>,
    pub body: Option<StoreRequestModel>,
}

impl View for EngramStoreRequest {
    type V = StoreRequestModel;

    open spec fn view(&self) -> StoreRequestModel {
        StoreRequestModel {
            content: self.content@,
            category: self.category@,
            source: self.source@,
            importance: self.importance,
            is_static: self.is_static,
        }
    }
}

impl View for EngramRequest {
    type V = RequestModel;

    open spec fn view(&self) -> RequestModel {
        RequestModel {
            method: self.method,
            url: self.url@,
            authorization: self.authorization@,
            query: pair_texts(self.query@),
            body: match self.body {
                Some(b) => Some(b@),
                None => None,
            },
        }
    }
}

impl EngramModel {
    /// The service that the environment names, if it names both parts.
    pub open spec fn from_env(url: Option<Seq<char>>, key: Option<Seq<char>>) -> Result<
        EngramModel,
        ErrorModel,
    > {
        match (url, key) {
            (Some(url), Some(key)) => Ok(EngramModel { url, key }),
            (None, _) => Err(ErrorModel::EngramUrlNotSet),
            (Some(_), None) => Err(ErrorModel::EngramKeyNotSet),
        }
    }

    /// What authorizes a request.
    pub open spec fn authorization(self) -> Seq<char> {
        "Bearer "@ + self.key
    }

    /// Asks for memories that hold credentials, for at most `limit` of them.
    pub open spec fn list_request(self, limit: u64) -> RequestModel {
        RequestModel {
            method: HttpMethod::Get,
            url: self.url + "/list"@,
            authorization: self.authorization(),
            query: seq![("category"@, "credential"@), ("limit"@, decimal(limit as nat))],
            body: None,
        }
    }

    /// Asks to store a line.
    pub open spec fn store_request(self, content: Seq<char>) -> RequestModel {
        RequestModel {
            method: HttpMethod::Post,
            url: self.url + "/store"@,
            authorization: self.authorization(),
            query: Seq::empty(),
            body: Some(
                StoreRequestModel {
                    content,
                    category: "credential"@,
                    source: "cred"@,
                    importance: Some(9),
                    is_static: Some(true),
                },
            ),
        }
    }

    /// Asks to delete a memory.
    pub open spec fn delete_request(self, id: u64) -> RequestModel {
        RequestModel {
            method: HttpMethod::Delete,
            url: self.url + "/memory/"@ + decimal(id as nat),
            authorization: self.authorization(),
            query: Seq::empty(),
            body: None,
        }
    }
}

/// The status codes that count as success. A memory that is not there is as
/// good as deleted.
pub open spec fn success_code(op: EngramOp, code: u16) -> bool {
    200 <= code < 300 || (op is Delete && code == 404)
}

/// Whether an answer with the status `code` counts as success.
fn reply_accepted(op: EngramOp, code: u16) -> (r: bool)
    ensures
        r == success_code(op, code),
{
    match op {
        EngramOp::Delete => (200 <= code && code < 300) || code == 404,
        _ => 200 <= code && code < 300,
    }
}

/// Takes the status of an answer; the status line and the body are what the
/// error says where it is not a success.
pub fn check_reply(op: EngramOp, code: u16, status: &str, body: &str) -> (r: Result<(), CredError>)
    ensures
        match r {
            Ok(_) => success_code(op, code),
            Err(e) => !success_code(op, code) && e@ == (ErrorModel::EngramRefused {
                op,
                status: status@,
                body: body@,
            }),
        },
{
    if reply_accepted(op, code) {
        Ok(())
    } else {
        Err(CredError::EngramRefused { op, status: status.to_owned(), body: body.to_owned() })
    }
}

impl EngramBackend {
    /// The service that the environment variables `ENGRAM_URL` and
    /// `ENGRAM_API_KEY` name.
    pub fn from_env(url: Option<String>, key: Option<String>) -> (r: Result<
        EngramBackend,
        CredError,
    >)
        ensures
            result_view(r) == EngramModel::from_env(opt_text(url), opt_text(key)),
    {
        match url {
            Some(engram_url) => match key {
                Some(engram_key) => Ok(EngramBackend { engram_url, engram_key }),
                None => Err(CredError::EngramKeyNotSet),
            },
            None => Err(CredError::EngramUrlNotSet),
        }
    }

    /// What authorizes a request.
    fn authorization(&self) -> (r: String)
        ensures
            r@ == self@.authorization(),
    {
        let mut r = "Bearer ".to_owned();
        r.append(self.engram_key.as_str());
        r
    }

    /// Asks for memories that hold credentials. Whether the answer has all of them
    /// is for `Fetch::received` to say.
    pub fn fetch_all_memories(&self, fetch: &Fetch) -> (r: EngramRequest)
        ensures
            r@ == self@.list_request(fetch@),
            r.method == HttpMethod::Get,
            r.url@ == self@.url + "/list"@,
    {
        let mut url = self.engram_url.clone();
        url.append("/list");
        let mut query: Vec<(String, String)> = Vec::new();
        query.push(("category".to_owned(), "credential".to_owned()));
        query.push(("limit".to_owned(), decimal_text(fetch.limit)));
        assert(pair_texts(query@) =~= self@.list_request(fetch@).query);
        EngramRequest {
            method: HttpMethod::Get,
            url,
            authorization: self.authorization(),
            query,
            body: None,
        }
    }

    /// Asks to store a line.
    pub fn store_memory(&self, content: &str) -> (r: EngramRequest)
        ensures
            r@ == self@.store_request(content@),
            r.method == HttpMethod::Post,
            r.url@ == self@.url + "/store"@,
            r.body matches Some(b) && b.content@ == content@,
    {
        let mut url = self.engram_url.clone();
        url.append("/store");
        let query: Vec<(String, String)> = Vec::new();
        assert(pair_texts(query@) =~= self@.store_request(content@).query);
        EngramRequest {
            method: HttpMethod::Post,
            url,
            authorization: self.authorization(),
            query,
            body: Some(
                EngramStoreRequest {
                    content: content.to_owned(),
                    category: "credential".to_owned(),
                    source: "cred".to_owned(),
                    importance: Some(9),
                    is_static: Some(true),
                },
            ),
        }
    }

    /// Asks to delete a memory.
    pub fn delete_memory(&self, id: u64) -> (r: EngramRequest)
        ensures
            r@ == self@.delete_request(id),
            r.method == HttpMethod::Delete,
            r.url@ == self@.url + "/memory/"@ + decimal(id as nat),
    {
        let mut url = self.engram_url.clone();
        url.append("/memory/");
        url.append(decimal_text(id).as_str());
        let query: Vec<(String, String)> = Vec::new();
        assert(pair_texts(query@) =~= self@.delete_request(id).query);
        EngramRequest {
            method: HttpMethod::Delete,
            url,
            authorization: self.authorization(),
            query,
            body: None,
        }
    }
}

// ---------------------------------------------------------------------------
// Fetching
// ---------------------------------------------------------------------------

/// How many memories the first request asks for.
pub const FIRST_LIMIT: u64 = 500;

/// The fetching of all memories that hold credentials. A request names a limit,
/// and an answer as long as the limit may have left some out: the next request
/// asks for more.
pub struct Fetch {
    limit: u64,
}

/// All memories that hold credentials.
pub struct WholeList {
    memories: Vec<EngramMemory>,
}

/// What comes next in fetching.
pub enum FetchStep {
    /// Nothing: these are all memories.
    Whole(WholeList),
    /// A request that asks for more.
    More(Fetch),
}

impl View for Fetch {
    type V = u64;

    closed spec fn view(&self) -> u64 {
        self.limit
    }
}

impl View for WholeList {
    type V = Seq<MemoryModel>;

    closed spec fn view(&self) -> Seq<MemoryModel> {
        memory_models(self.memories@)
    }
}

/// The limit to ask for after one that was reached: twice as many.
pub open spec fn next_limit(limit: u64) -> u64 {
    if limit <= u64::MAX / 2 {
        (limit * 2) as u64
    } else {
        u64::MAX
    }
}

impl Fetch {
    /// Starts to fetch all memories that hold credentials.
    pub fn start() -> (r: Fetch)
        ensures
            r@ == FIRST_LIMIT,
    {
        Fetch { limit: FIRST_LIMIT }
    }

    /// Takes the memories of an answer. They are all only where there are fewer
    /// than were asked for.
    pub fn received(self, memories: Vec<EngramMemory>) -> (r: FetchStep)
        ensures
            match r {
                FetchStep::Whole(list) => memories@.len() < self@ && list@ == memory_models(
                    memories@,
                ),
                FetchStep::More(next) => memories@.len() >= self@ && next@ == next_limit(self@),
            },
    {
        let count: u64 = memories.len() as u64;
        if count < self.limit {
            FetchStep::Whole(WholeList { memories })
        } else if self.limit <= u64::MAX / 2 {
            FetchStep::More(Fetch { limit: self.limit * 2 })
        } else {
            FetchStep::More(Fetch { limit: u64::MAX })
        }
    }
}

// ---------------------------------------------------------------------------
// Reading lines
// ---------------------------------------------------------------------------

/// The parts of a line of any version, and whether the version is an older one.
pub open spec fn any_parts(content: Seq<char>) -> Option<(LineParts, bool)> {
    match version_of(content) {
        Some(version) => match line_parts(version, content) {
            Some(parts) => Some((parts, version != LineVersion::V3)),
            None => None,
        },
        None => None,
    }
}

/// The parts of a line, with the mark of an older version last.
pub open spec fn opt_any_parts(p: Option<(String, String, String, bool)>) -> Option<
    (LineParts, bool),
> {
    match p {
        Some((service, key, body, legacy)) => Some(((service@, key@, body@), legacy)),
        None => None,
    }
}

impl EngramBackend {
    /// Parses a line of the current version into service, key and ciphertext.
    pub fn parse_v3_line<'a>(content: &'a str) -> (r: Option<(&'a str, &'a str, &'a str)>)
        ensures
            opt_parts(r) == line_parts(LineVersion::V3, content@),
            forall|s: Seq<char>, k: Seq<char>, b: Seq<char>|
                plain_path(s, k) && content@ == #[trigger] line_text(LineVersion::V3, s, k, b) ==> (
                r matches Some((service, key, body)) && service@ == s && key@ == k && body@ == b),
    {
        proof {
            assert forall|s: Seq<char>, k: Seq<char>, b: Seq<char>|
                plain_path(s, k) && content@ == #[trigger] line_text(
                    LineVersion::V3,
                    s,
                    k,
                    b,
                ) implies line_parts(LineVersion::V3, content@) == Some((s, k, b)) by {
                law_line_round_trip(LineVersion::V3, s, k, b);
            }
        }
        parse_line(LineVersion::V3, content)
    }

    /// Parses a line of any version.
    /// Returns service, key, ciphertext and whether the version is an older one.
    pub fn parse_any_cred_line(content: &str) -> (r: Option<(String, String, String, bool)>)
        ensures
            opt_any_parts(r) == any_parts(content@),
            forall|version: LineVersion, s: Seq<char>, k: Seq<char>, b: Seq<char>|
                plain_path(s, k) && content@ == #[trigger] line_text(version, s, k, b) ==> (
                r matches Some((service, key, body, legacy)) && service@ == s && key@ == k && body@
                    == b && legacy == (version != LineVersion::V3)),
    {
        proof {
            assert forall|v: LineVersion, s: Seq<char>, k: Seq<char>, b: Seq<char>|
                plain_path(s, k) && content@ == #[trigger] line_text(v, s, k, b) implies any_parts(
                content@,
            ) == Some(((s, k, b), v != LineVersion::V3)) by {
                law_line_round_trip(v, s, k, b);
                law_version_is_unique(v, content@);
            }
        }
        let version = match line_version(content) {
            Some(version) => version,
            None => {
                return None;
            },
        };
        let parts = match version {
            LineVersion::V3 => EngramBackend::parse_v3_line(content),
            _ => parse_line(version, content),
        };
        match parts {
            Some((service, key, body)) => Some(
                (
                    service.to_owned(),
                    key.to_owned(),
                    body.to_owned(),
                    !matches!(version, LineVersion::V3),
                ),
            ),
            None => None,
        }
    }
}

// ---------------------------------------------------------------------------
// Listing
// ---------------------------------------------------------------------------

/// The listing of the secrets among a number of memories, on its way through
/// them. Lines of older versions are stored again as current ones on the way;
/// storing and deleting is done outside, and the listing is told the outcome.
pub struct RawListing {
    memories: Vec<EngramMemory>,
    at: usize,
    secrets: Vec<RawSecret>,
}

/// A listing as text: the memories, how many are done, and what was found.
pub struct RawListingModel {
    pub memories: Seq<MemoryModel>,
    pub at: int,
    pub secrets: Seq<RawModel>,
}

/// A listing that waits for a line of an older version to be stored again.
pub struct RawMigration {
    listing: RawListing,
    service: String,
    key: String,
    ciphertext: String,
}

/// A waiting listing as text.
pub struct RawMigrationModel {
    pub listing: RawListingModel,
    pub service: Seq<char>,
    pub key: Seq<char>,
    pub ciphertext: Seq<char>,
}

/// What comes next in a listing.
pub enum RawStep {
    /// Nothing: these are the secrets.
    Done(Vec<RawSecret>),
    /// A line is to be stored again.
    Migrate(RawMigration),
}

impl View for RawListing {
    type V = RawListingModel;

    closed spec fn view(&self) -> RawListingModel {
        RawListingModel {
            memories: memory_models(self.memories@),
            at: self.at as int,
            secrets: views(self.secrets@),
        }
    }
}

impl View for RawMigration {
    type V = RawMigrationModel;

    closed spec fn view(&self) -> RawMigrationModel {
        RawMigrationModel {
            listing: self.listing@,
            service: self.service@,
            key: self.key@,
            ciphertext: self.ciphertext@,
        }
    }
}

/// The secret that a memory holds, kept under the given id.
pub open spec fn raw_secret(memory: MemoryModel, parts: LineParts, id: u64) -> RawModel {
    RawModel {
        id,
        service: parts.0,
        key: parts.1,
        ciphertext: parts.2,
        created_at: memory.created_at,
    }
}

/// The parts of the line that a memory holds, if it holds a credential.
pub open spec fn memory_parts(memory: MemoryModel) -> Option<(LineParts, bool)> {
    if is_cred_text(memory.content) {
        any_parts(memory.content)
    } else {
        None
    }
}

impl RawListingModel {
    /// A listing at its start.
    pub open spec fn start(memories: Seq<MemoryModel>) -> RawListingModel {
        RawListingModel { memories, at: 0, secrets: Seq::empty() }
    }

    /// The listing taken past every memory that needs nothing from outside: up
    /// to the next line of an older version, or to the end.
    pub open spec fn scanned(self) -> RawListingModel
        decreases self.memories.len() - self.at,
    {
        if 0 <= self.at < self.memories.len() {
            let memory = self.memories[self.at];
            match memory_parts(memory) {
                Some((parts, legacy)) => if legacy {
                    self
                } else {
                    self.passed(Some(raw_secret(memory, parts, memory.id))).scanned()
                },
                None => self.passed(None).scanned(),
            }
        } else {
            self
        }
    }

    /// The listing past its current memory, in which `found` was found.
    pub open spec fn passed(self, found: Option<RawModel>) -> RawListingModel {
        RawListingModel {
            at: self.at + 1,
            secrets: match found {
                Some(secret) => self.secrets.push(secret),
                None => self.secrets,
            },
            ..self
        }
    }
}

impl RawMigrationModel {
    /// The memory whose line is to be stored again.
    pub open spec fn memory(self) -> MemoryModel {
        self.listing.memories[self.listing.at]
    }

    /// The parts of its line.
    pub open spec fn parts(self) -> LineParts {
        (self.service, self.key, self.ciphertext)
    }

    /// The line to store.
    pub open spec fn content(self) -> Seq<char> {
        line_text(LineVersion::V3, self.service, self.key, self.ciphertext)
    }

    /// The listing goes on from a line of an older version, whose parts are those
    /// given.
    pub open spec fn valid(self) -> bool {
        &&& 0 <= self.listing.at < self.listing.memories.len()
        &&& memory_parts(self.memory()) == Some((self.parts(), true))
    }

    /// The listing once the line was stored under a new id, or could not be.
    pub open spec fn stored(self, new_id: Option<u64>) -> RawListingModel {
        self.listing.passed(
            Some(
                raw_secret(
                    self.memory(),
                    self.parts(),
                    match new_id {
                        Some(id) => id,
                        None => self.memory().id,
                    },
                ),
            ),
        )
    }
}

impl RawListing {
    #[verifier::type_invariant]
    spec fn in_range(self) -> bool {
        self.at <= self.memories@.len()
    }

    /// Goes on to the next line of an older version, or to the end.
    pub fn advance(self) -> (r: RawStep)
        ensures
            match r {
                RawStep::Done(secrets) => {
                    &&& self@.scanned().at == self@.memories.len()
                    &&& sorted_by_path(
                        self@.scanned().secrets,
                        views(secrets@),
                        path_fn::<RawSecret>(),
                    )
                },
                RawStep::Migrate(migration) => {
                    &&& migration@.listing == self@.scanned()
                    &&& migration@.valid()
                },
            },
    {
        proof {
            use_type_invariant(&self);
        }
        let RawListing { memories, at, secrets } = self;
        let mut at: usize = at;
        let mut secrets = secrets;
        let ghost start = self@;
        while at < memories.len()
            invariant
                start == self@,
                at <= memories@.len(),
                start.memories == memory_models(memories@),
                start.scanned() == (RawListingModel {
                    memories: start.memories,
                    at: at as int,
                    secrets: views(secrets@),
                }).scanned(),
            decreases memories@.len() - at,
        {
            let ghost here = RawListingModel {
                memories: start.memories,
                at: at as int,
                secrets: views(secrets@),
            };
            assert(here.memories[here.at] == memories@[at as int]@);
            if is_cred_line(memories[at].content.as_str()) {
                match EngramBackend::parse_any_cred_line(memories[at].content.as_str()) {
                    Some((service, key, ciphertext, legacy)) => {
                        if legacy {
                            assert(here.scanned() == here);
                            let listing = RawListing { memories, at, secrets };
                            return RawStep::Migrate(
                                RawMigration { listing, service, key, ciphertext },
                            );
                        }
                        let secret = RawSecret {
                            id: memories[at].id,
                            service,
                            key,
                            ciphertext,
                            created_at: memories[at].created_at.clone(),
                        };
                        let ghost before = secrets@;
                        secrets.push(secret);
                        assert(views(secrets@) =~= views(before).push(secret@));
                    },
                    None => {},
                }
            }
            at = at + 1;
        }
        RawStep::Done(sort_by_path(secrets))
    }
}

impl RawMigration {
    #[verifier::type_invariant]
    spec fn well_formed(self) -> bool {
        self@.valid()
    }

    /// The path of the secret that the line holds.
    pub fn path(&self) -> (r: (&str, &str))
        ensures
            (r.0@, r.1@) == (self@.service, self@.key),
    {
        (self.service.as_str(), self.key.as_str())
    }

    /// The id of the memory that holds the line.
    pub fn old_id(&self) -> (r: u64)
        ensures
            r == self@.memory().id,
    {
        proof {
            use_type_invariant(self);
        }
        assert(self@.memory() == self.listing.memories@[self.listing.at as int]@);
        self.listing.memories[self.listing.at].id
    }

    /// The line to store.
    pub fn content(&self) -> (r: String)
        ensures
            r@ == self@.content(),
    {
        format_line(self.service.as_str(), self.key.as_str(), self.ciphertext.as_str())
    }

    /// Goes on after the line was stored under a new id, or could not be. Only
    /// where it was stored, the memory that held it is to be deleted.
    pub fn stored(self, new_id: Option<u64>) -> (r: (RawListing, Option<u64>))
        ensures
            r.0@ == self@.stored(new_id),
            r.1 == (if new_id is Some {
                Some(self@.memory().id)
            } else {
                None
            }),
    {
        proof {
            use_type_invariant(&self);
        }
        let RawMigration { listing, service, key, ciphertext } = self;
        let RawListing { memories, at, secrets } = listing;
        let mut secrets = secrets;
        assert(self@.memory() == memories@[at as int]@);
        let count: usize = memories.len();
        assert(at < count);
        let old_id: u64 = memories[at].id;
        let (id, delete): (u64, Option<u64>) = match new_id {
            Some(new_id) => (new_id, Some(old_id)),
            None => (old_id, None),
        };
        let secret = RawSecret {
            id,
            service,
            key,
            ciphertext,
            created_at: memories[at].created_at.clone(),
        };
        let ghost before = secrets@;
        secrets.push(secret);
        assert(views(secrets@) =~= views(before).push(secret@));
        (RawListing { memories, at: at + 1, secrets }, delete)
    }
}

impl EngramBackend {
    /// Starts to list the secrets among all memories.
    pub fn list_all(memories: WholeList) -> (r: RawListing)
        ensures
            r@ == RawListingModel::start(memories@),
    {
        let secrets: Vec<RawSecret> = Vec::new();
        assert(views(secrets@) =~= Seq::<RawModel>::empty());
        RawListing { memories: memories.memories, at: 0, secrets }
    }
}

impl WholeList {
    /// The memories themselves.
    pub fn into_memories(self) -> (r: Vec<EngramMemory>)
        ensures
            memory_models(r@) == self@,
    {
        self.memories
    }
}

// ---------------------------------------------------------------------------
// Replacing, finding and deleting
// ---------------------------------------------------------------------------

/// What storing a secret takes: memories to delete, and a line to store after
/// that.
#[derive(Debug)]
pub struct RawStorePlan {
    pub replaced: Vec<u64>,
    pub content: String,
}

impl RawStorePlan {
    /// What comes next: the memories are deleted one after the other, and the line
    /// is stored once all of them are. The first failure ends the operation.
    pub fn next(
        &self,
        deleted: &Vec<Result<(), CredError>>,
        stored: &Option<Result<u64, CredError>>,
    ) -> (r: ReplaceStep<&str>)
        ensures
            replace_step_is(
                r,
                replacement(self.replaced@, outcome_views(deleted@), stored_view(*stored)),
            ),
            r matches ReplaceStep::Store(line) ==> line@ == self.content@,
    {
        replace_step(&self.replaced, self.content.as_str(), deleted, stored)
    }
}

/// The ids of raw secrets.
pub open spec fn raw_ids(list: Seq<RawModel>) -> Seq<u64> {
    list.map_values(|v: RawModel| v.id)
}

/// The secrets of a listing; none where it failed.
pub open spec fn listed_raw(listing: Result<Vec<RawSecret>, CredError>) -> Seq<RawModel> {
    match listing {
        Ok(all) => views(all@),
        Err(_) => Seq::empty(),
    }
}

/// The raw secrets at the path `p`.
pub open spec fn raw_at(list: Seq<RawModel>, p: Path) -> Seq<RawModel> {
    at_path(list, path_fn::<RawSecret>(), p)
}

/// What looking for a raw secret gives.
pub open spec fn raw_found(listing: Result<Seq<RawModel>, ErrorModel>, p: Path) -> Result<
    RawModel,
    ErrorModel,
> {
    match listing {
        Ok(all) => match newest_at::<RawSecret>(all, p) {
            Some(secret) => Ok(secret),
            None => Err(ErrorModel::SecretNotFound { service: p.0, key: p.1 }),
        },
        Err(e) => Err(e),
    }
}

/// The view of a listing.
pub open spec fn listing_view<T: View>(listing: Result<Vec<T>, CredError>) -> Result<
    Seq<T::V>,
    ErrorModel,
> {
    match listing {
        Ok(all) => Ok(views(all@)),
        Err(e) => Err(e@),
    }
}

impl EngramBackend {
    /// The ids of the secrets at a path, in their order.
    fn ids_at(all: &Vec<RawSecret>, service: &str, key: &str) -> (r: Vec<u64>)
        ensures
            r@ == raw_ids(raw_at(views(all@), (service@, key@))),
    {
        let ghost p = (service@, key@);
        let ghost path = path_fn::<RawSecret>();
        let ghost found = views(all@);
        let mut ids: Vec<u64> = Vec::new();
        proof {
            lemma_at_path_empty::<RawModel>(path, p);
            assert(ids@ =~= raw_ids(raw_at(Seq::empty(), p)));
            assert(found.take(0) =~= Seq::<RawModel>::empty());
        }
        let mut i: usize = 0;
        while i < all.len()
            invariant
                i <= all@.len(),
                found == views(all@),
                p == (service@, key@),
                path == path_fn::<RawSecret>(),
                ids@ == raw_ids(raw_at(found.take(i as int), p)),
            decreases all@.len() - i,
        {
            proof {
                let x = all@[i as int]@;
                assert(found.take(i + 1) =~= found.take(i as int).push(x));
                lemma_at_path_push(found.take(i as int), path, p, x);
                let before = raw_at(found.take(i as int), p);
                assert(raw_ids(before.push(x)) =~= raw_ids(before).push(x.id));
            }
            if is_at(&all[i], service, key) {
                ids.push(all[i].id);
            }
            i = i + 1;
        }
        assert(found.take(all@.len() as int) =~= found);
        ids
    }

    /// Plans to store a secret. All memories that are listed at its path are
    /// replaced; where the listing failed, nothing is known of them, and nothing
    /// is stored.
    pub fn store(
        listing: Result<Vec<RawSecret>, CredError>,
        service: &str,
        key: &str,
        ciphertext: &str,
    ) -> (r: Result<RawStorePlan, CredError>)
        ensures
            match r {
                Ok(plan) => {
                    &&& listing is Ok
                    &&& plan.replaced@ == raw_ids(raw_at(listed_raw(listing), (service@, key@)))
                    &&& plan.content@ == line_text(LineVersion::V3, service@, key@, ciphertext@)
                },
                Err(e) => listing matches Err(f) && e == f,
            },
    {
        match listing {
            Ok(all) => Ok(
                RawStorePlan {
                    replaced: EngramBackend::ids_at(&all, service, key),
                    content: format_line(service, key, ciphertext),
                },
            ),
            Err(e) => Err(e),
        }
    }

    /// Finds the newest secret at a path.
    pub fn get(
        listing: Result<Vec<RawSecret>, CredError>,
        service: &str,
        key: &str,
    ) -> (r: Result<RawSecret, CredError>)
        ensures
            result_view(r) == raw_found(listing_view(listing), (service@, key@)),
    {
        match listing {
            Ok(all) => match take_newest(all, service, key) {
                Some(secret) => Ok(secret),
                None => Err(
                    CredError::SecretNotFound { service: service.to_owned(), key: key.to_owned() },
                ),
            },
            Err(e) => Err(e),
        }
    }

    /// Finds the memories to delete: all that are listed at the path. A listing
    /// that failed has none.
    pub fn delete(
        listing: Result<Vec<RawSecret>, CredError>,
        service: &str,
        key: &str,
    ) -> (r: Result<Vec<u64>, CredError>)
        ensures
            match r {
                Ok(ids) => {
                    &&& ids@ == raw_ids(raw_at(listed_raw(listing), (service@, key@)))
                    &&& ids@.len() > 0
                },
                Err(e) => {
                    &&& raw_at(listed_raw(listing), (service@, key@)).len() == 0
                    &&& e@ == (ErrorModel::SecretNotFound { service: service@, key: key@ })
                },
            },
    {
        if let Ok(all) = &listing {
            let ids = EngramBackend::ids_at(all, service, key);
            if ids.len() > 0 {
                return Ok(ids);
            }
        }
        proof {
            lemma_at_path_empty::<RawModel>(path_fn::<RawSecret>(), (service@, key@));
        }
        Err(CredError::SecretNotFound { service: service.to_owned(), key: key.to_owned() })
    }
}

// ---------------------------------------------------------------------------
// Laws
// ---------------------------------------------------------------------------

/// The id under which a secret is kept once storing its line again had the given
/// outcome. Only lines of older versions are stored again.
pub open spec fn id_after(old_id: u64, legacy: bool, stored: Option<u64>) -> u64 {
    match stored {
        Some(id) => if legacy {
            id
        } else {
            old_id
        },
        None => old_id,
    }
}

/// The secret that one memory contributes to a listing, if any, given the
/// outcome of storing its line again.
pub open spec fn contributed(memory: MemoryModel, stored: Option<u64>) -> Option<RawModel> {
    match memory_parts(memory) {
        Some((parts, legacy)) => Some(
            raw_secret(memory, parts, id_after(memory.id, legacy, stored)),
        ),
        None => None,
    }
}

/// The secrets that the first `n` memories contribute, in their order; `stored`
/// says for each memory what came of storing its line again.
pub open spec fn collected(
    memories: Seq<MemoryModel>,
    stored: spec_fn(int) -> Option<u64>,
    n: nat,
) -> Seq<RawModel>
    decreases n,
{
    if n == 0 {
        Seq::empty()
    } else {
        let before = collected(memories, stored, (n - 1) as nat);
        match contributed(memories[n - 1], stored(n - 1)) {
            Some(secret) => before.push(secret),
            None => before,
        }
    }
}

/// The migration that the listing waits for once it has been scanned.
pub open spec fn migration_of(listing: RawListingModel) -> RawMigrationModel {
    let (parts, _legacy) = memory_parts(listing.memories[listing.at])->0;
    RawMigrationModel { listing, service: parts.0, key: parts.1, ciphertext: parts.2 }
}

/// What a listing has found at its end, where `stored` says for each memory what
/// comes of storing its line again.
pub open spec fn found_at_end(
    listing: RawListingModel,
    stored: spec_fn(int) -> Option<u64>,
) -> Seq<RawModel>
    decreases listing.memories.len() - listing.at,
{
    let here = listing.scanned();
    proof {
        lemma_scan_goes_forward(listing);
    }
    if 0 <= here.at < here.memories.len() {
        found_at_end(migration_of(here).stored(stored(here.at)), stored)
    } else {
        here.secrets
    }
}

/// Scanning never goes back.
pub proof fn lemma_scan_goes_forward(listing: RawListingModel)
    ensures
        listing.scanned().at >= listing.at,
        listing.scanned().memories == listing.memories,
    decreases listing.memories.len() - listing.at,
{
    if 0 <= listing.at < listing.memories.len() {
        let memory = listing.memories[listing.at];
        match memory_parts(memory) {
            Some((parts, legacy)) => {
                if !legacy {
                    lemma_scan_goes_forward(
                        listing.passed(Some(raw_secret(memory, parts, memory.id))),
                    );
                }
            },
            None => {
                lemma_scan_goes_forward(listing.passed(None));
            },
        }
    }
}

proof fn lemma_scan_collects(listing: RawListingModel, stored: spec_fn(int) -> Option<u64>)
    requires
        0 <= listing.at <= listing.memories.len(),
        listing.secrets == collected(listing.memories, stored, listing.at as nat),
    ensures
        ({
            let here = listing.scanned();
            &&& here.memories == listing.memories
            &&& listing.at <= here.at <= here.memories.len()
            &&& here.secrets == collected(here.memories, stored, here.at as nat)
            &&& here.at < here.memories.len() ==> migration_of(here).valid()
        }),
    decreases listing.memories.len() - listing.at,
{
    if listing.at < listing.memories.len() {
        let memory = listing.memories[listing.at];
        match memory_parts(memory) {
            Some((parts, legacy)) => {
                if !legacy {
                    lemma_scan_collects(
                        listing.passed(Some(raw_secret(memory, parts, memory.id))),
                        stored,
                    );
                }
            },
            None => {
                lemma_scan_collects(listing.passed(None), stored);
            },
        }
    }
}

proof fn lemma_found_at_end(listing: RawListingModel, stored: spec_fn(int) -> Option<u64>)
    requires
        0 <= listing.at <= listing.memories.len(),
        listing.secrets == collected(listing.memories, stored, listing.at as nat),
    ensures
        found_at_end(listing, stored) == collected(
            listing.memories,
            stored,
            listing.memories.len(),
        ),
    decreases listing.memories.len() - listing.at,
{
    lemma_scan_collects(listing, stored);
    let here = listing.scanned();
    if here.at < here.memories.len() {
        lemma_found_at_end(migration_of(here).stored(stored(here.at)), stored);
    }
}

/// Whatever comes of storing lines again, a listing finds what each memory
/// contributes, and nothing else.
pub proof fn law_listing_finds_each_contribution(
    memories: Seq<MemoryModel>,
    stored: spec_fn(int) -> Option<u64>,
)
    ensures
        found_at_end(RawListingModel::start(memories), stored) == collected(
            memories,
            stored,
            memories.len(),
        ),
{
    lemma_found_at_end(RawListingModel::start(memories), stored);
}

/// What comes of storing a line again decides under which id its secret is
/// listed, and nothing else: a failure loses no secret.
pub proof fn law_failed_migration_loses_nothing(memory: MemoryModel, stored: Option<u64>)
    ensures
        match (contributed(memory, stored), contributed(memory, None)) {
            (Some(a), Some(b)) => a == RawModel { id: a.id, ..b } && b.id == memory.id,
            (None, None) => true,
            _ => false,
        },
{
}

/// The line that a migration stores is read as a line of the current version,
/// with the path and body of the line that it takes the place of. A later
/// listing has nothing to store again for it.
pub proof fn law_migrated_line_is_current(migration: RawMigrationModel)
    requires
        migration.valid(),
    ensures
        any_parts(migration.content()) == Some((migration.parts(), false)),
        is_cred_text(migration.content()),
{
    let memory = migration.memory();
    let version = version_of(memory.content)->0;
    law_rewritten_line_reads_the_same(
        version,
        memory.content,
        migration.service,
        migration.key,
        migration.ciphertext,
    );
    law_version_is_unique(LineVersion::V3, migration.content());
}

/// Only texts that start as credential lines do can be parsed, so passing over
/// the others loses nothing.
pub proof fn law_no_line_is_passed_over(memory: MemoryModel)
    ensures
        memory_parts(memory) == any_parts(memory.content),
{
    if let Some(version) = version_of(memory.content) {
        law_version_is_unique(version, memory.content);
    }
}

/// Storing at a path replaces each memory that is listed at the path, and no
/// other.
pub proof fn law_store_replaces_all_of_the_path(all: Seq<RawModel>, p: Path, id: u64)
    ensures
        raw_ids(raw_at(all, p)).contains(id) <==> exists|i: int|
            0 <= i < all.len() && (#[trigger] all[i]).id == id && (all[i].service, all[i].key) == p,
{
    let path = path_fn::<RawSecret>();
    let found = raw_at(all, p);
    if raw_ids(found).contains(id) {
        let k = choose|k: int| 0 <= k < raw_ids(found).len() && raw_ids(found)[k] == id;
        lemma_at_path_source(all, path, p, k);
    }
    if exists|i: int|
        0 <= i < all.len() && (#[trigger] all[i]).id == id && (all[i].service, all[i].key) == p {
        let i = choose|i: int|
            0 <= i < all.len() && (#[trigger] all[i]).id == id && (all[i].service, all[i].key)
                == p;
        lemma_at_path_target(all, path, p, i);
        let k = choose|k: int| 0 <= k < found.len() && found[k] == all[i];
        assert(raw_ids(found)[k] == id);
    }
}

/// What is left of the listed secrets once the memories of the given ids are
/// gone.
pub open spec fn raw_without(all: Seq<RawModel>, ids: Seq<u64>) -> Seq<RawModel> {
    all.filter(|v: RawModel| !ids.contains(v.id))
}

/// No two memories have one id.
pub open spec fn raw_ids_distinct(all: Seq<RawModel>) -> bool {
    forall|i: int, j: int|
        0 <= i < j < all.len() ==> (#[trigger] all[i]).id != (#[trigger] all[j]).id
}

/// What lies at another path is kept under none of the ids of the path.
proof fn lemma_other_paths_stay(all: Seq<RawModel>, p: Path, q: Path, k: int)
    requires
        raw_ids_distinct(all),
        q != p,
        0 <= k < raw_at(all, q).len(),
    ensures
        !raw_ids(raw_at(all, p)).contains(raw_at(all, q)[k].id),
{
    let path = path_fn::<RawSecret>();
    let other = raw_at(all, q)[k];
    lemma_at_path_source(all, path, q, k);
    let i = choose|i: int| 0 <= i < all.len() && #[trigger] all[i] == other && path(all[i]) == q;
    if raw_ids(raw_at(all, p)).contains(other.id) {
        law_store_replaces_all_of_the_path(all, p, other.id);
        let j = choose|j: int|
            0 <= j < all.len() && (#[trigger] all[j]).id == other.id && (
                all[j].service,
                all[j].key,
            ) == p;
        assert(all[i].id == all[j].id && i != j);
    }
}

/// A deleted secret is gone: once the memories that deleting names are, nothing
/// is found at the path, and what lies at other paths is as it was.
pub proof fn law_deleted_raw_secret_is_gone(all: Seq<RawModel>, p: Path, q: Path)
    requires
        raw_ids_distinct(all),
    ensures
        ({
            let rest = raw_without(all, raw_ids(raw_at(all, p)));
            &&& raw_found(Ok(rest), p) == Err::<RawModel, ErrorModel>(
                ErrorModel::SecretNotFound { service: p.0, key: p.1 },
            )
            &&& raw_at(rest, p) == Seq::<RawModel>::empty()
            &&& q != p ==> raw_at(rest, q) == raw_at(all, q)
        }),
{
    let path = path_fn::<RawSecret>();
    let ids = raw_ids(raw_at(all, p));
    let stays = |v: RawModel| !ids.contains(v.id);
    let here = raw_at(all, p);
    assert forall|k: int| 0 <= k < here.len() implies !stays(#[trigger] here[k]) by {
        assert(ids[k] == here[k].id);
    }
    lemma_none_remain(all, path, p, stays);
    if q != p {
        let there = raw_at(all, q);
        assert forall|k: int| 0 <= k < there.len() implies stays(#[trigger] there[k]) by {
            lemma_other_paths_stay(all, p, q, k);
        }
        lemma_all_remain(all, path, q, stays);
    }
}

/// A delete that succeeds leaves nothing at the path: of all that is listed, the
/// memories whose deletion succeeded are gone. Whatever comes of the deletions,
/// what lies at other paths is as it was.
pub proof fn law_successful_delete_leaves_none(
    all: Seq<RawModel>,
    p: Path,
    q: Path,
    deleted: Seq<Result<(), ErrorModel>>,
)
    requires
        raw_ids_distinct(all),
    ensures
        ({
            let ids = raw_ids(raw_at(all, p));
            let rest = raw_without(all, deleted_ids(ids, deleted));
            &&& removed(ids, deleted) ==> raw_at(rest, p) == Seq::<
                RawModel,
            >::empty() && raw_found(Ok(rest), p) == Err::<RawModel, ErrorModel>(
                ErrorModel::SecretNotFound { service: p.0, key: p.1 },
            )
            &&& q != p ==> raw_at(rest, q) == raw_at(all, q)
        }),
{
    let path = path_fn::<RawSecret>();
    let ids = raw_ids(raw_at(all, p));
    let gone = deleted_ids(ids, deleted);
    law_successful_removal_deletes_all(ids, deleted);
    law_deleted_raw_secret_is_gone(all, p, q);
    if q != p {
        let stays = |v: RawModel| !gone.contains(v.id);
        let there = raw_at(all, q);
        assert forall|k: int| 0 <= k < there.len() implies stays(#[trigger] there[k]) by {
            if gone.contains(there[k].id) {
                let g = choose|g: int| 0 <= g < gone.len() && gone[g] == there[k].id;
                assert(ids[g] == there[k].id);
                lemma_other_paths_stay(all, p, q, k);
            }
        }
        lemma_all_remain(all, path, q, stays);
    }
}

/// A store that succeeds leaves one secret at the path, the new one: of all that
/// is listed, the memories whose deletion succeeded are gone, and the new one is
/// there. What lies at other paths is as it was.
pub proof fn law_successful_store_leaves_only_the_new(
    all: Seq<RawModel>,
    p: Path,
    new: RawModel,
    q: Path,
    deleted: Seq<Result<(), ErrorModel>>,
    stored: Option<Result<u64, ErrorModel>>,
)
    requires
        raw_ids_distinct(all),
        (new.service, new.key) == p,
        replacement(raw_ids(raw_at(all, p)), deleted, stored) == ReplaceModel::Done(Ok(new.id)),
    ensures
        ({
            let rest = raw_without(all, deleted_ids(raw_ids(raw_at(all, p)), deleted));
            &&& stored == Some(Ok::<u64, ErrorModel>(new.id))
            &&& raw_at(rest.push(new), p) == seq![new]
            &&& q != p ==> raw_at(rest.push(new), q) == raw_at(all, q)
        }),
{
    let path = path_fn::<RawSecret>();
    let ids = raw_ids(raw_at(all, p));
    let rest = raw_without(all, deleted_ids(ids, deleted));
    law_nothing_is_stored_before_all_are_deleted(ids, deleted, stored);
    law_successful_delete_leaves_none(all, p, q, deleted);
    lemma_at_path_push(rest, path, p, new);
    lemma_at_path_push(rest, path, q, new);
    assert(Seq::<RawModel>::empty().push(new) =~= seq![new]);
}

/// The answer of a service that holds `held` and keeps to the limit.
pub open spec fn reply(held: Seq<MemoryModel>, limit: u64) -> Seq<MemoryModel> {
    if held.len() <= limit {
        held
    } else {
        held.take(limit as int)
    }
}

/// What fetching ends with, where the service holds `held` and keeps to the
/// limit.
pub open spec fn fetched(held: Seq<MemoryModel>, limit: u64) -> Seq<MemoryModel>
    decreases u64::MAX - limit,
{
    if reply(held, limit).len() < limit || next_limit(limit) <= limit {
        reply(held, limit)
    } else {
        fetched(held, next_limit(limit))
    }
}

/// Fetching ends with all memories that the service holds, however many.
pub proof fn law_fetching_gets_all(held: Seq<MemoryModel>, limit: u64)
    requires
        held.len() < u64::MAX,
        0 < limit,
    ensures
        fetched(held, limit) == held,
    decreases u64::MAX - limit,
{
    if reply(held, limit).len() >= limit && next_limit(limit) > limit {
        law_fetching_gets_all(held, next_limit(limit));
    }
}

/// What was found, if anything, lies at another path or under a smaller id.
pub open spec fn elsewhere_or_older(found: Option<RawModel>, p: Path, id: u64) -> bool {
    match found {
        Some(other) => (other.service, other.key) == p ==> other.id < id,
        None => true,
    }
}

/// A stored secret is the one found: where a memory holds the line that storing
/// a secret writes, and all else at its path is kept under smaller ids, looking
/// for the path gives that secret.
pub proof fn law_stored_raw_secret_is_found(
    memories: Seq<MemoryModel>,
    stored: spec_fn(int) -> Option<u64>,
    sorted: Seq<RawModel>,
    at: int,
    service: Seq<char>,
    key: Seq<char>,
    ciphertext: Seq<char>,
)
    requires
        plain_path(service, key),
        0 <= at < memories.len(),
        memories[at].content == line_text(LineVersion::V3, service, key, ciphertext),
        forall|i: int|
            0 <= i < memories.len() && i != at ==> elsewhere_or_older(
                #[trigger] contributed(memories[i], stored(i)),
                (service, key),
                memories[at].id,
            ),
        sorted_by_path(
            found_at_end(RawListingModel::start(memories), stored),
            sorted,
            path_fn::<RawSecret>(),
        ),
    ensures
        raw_found(Ok(sorted), (service, key)) == Ok::<RawModel, ErrorModel>(
            RawModel {
                id: memories[at].id,
                service,
                key,
                ciphertext,
                created_at: memories[at].created_at,
            },
        ),
{
    let p = (service, key);
    let secret = RawModel {
        id: memories[at].id,
        service,
        key,
        ciphertext,
        created_at: memories[at].created_at,
    };
    law_listing_finds_each_contribution(memories, stored);
    law_line_round_trip(LineVersion::V3, service, key, ciphertext);
    law_version_is_unique(LineVersion::V3, memories[at].content);
    assert(contributed(memories[at], stored(at)) == Some(secret));
    lemma_newest_collected(memories, stored, at, secret, memories.len());
    law_sorting_keeps_newest::<RawSecret>(
        collected(memories, stored, memories.len()),
        sorted,
        p,
    );
}

proof fn lemma_newest_collected(
    memories: Seq<MemoryModel>,
    stored: spec_fn(int) -> Option<u64>,
    at: int,
    secret: RawModel,
    n: nat,
)
    requires
        0 <= at < memories.len(),
        n <= memories.len(),
        contributed(memories[at], stored(at)) == Some(secret),
        forall|i: int|
            0 <= i < memories.len() && i != at ==> elsewhere_or_older(
                #[trigger] contributed(memories[i], stored(i)),
                (secret.service, secret.key),
                secret.id,
            ),
    ensures
        ({
            let best = newest_at::<RawSecret>(
                collected(memories, stored, n),
                (secret.service, secret.key),
            );
            if at < n {
                best == Some(secret)
            } else {
                best matches Some(other) ==> other.id < secret.id
            }
        }),
    decreases n,
{
    let p = (secret.service, secret.key);
    let path = path_fn::<RawSecret>();
    lemma_at_path_empty::<RawModel>(path, p);
    if n > 0 {
        lemma_newest_collected(memories, stored, at, secret, (n - 1) as nat);
        let before = collected(memories, stored, (n - 1) as nat);
        if let Some(x) = contributed(memories[n - 1], stored(n - 1)) {
            lemma_at_path_push(before, path, p, x);
            let found = at_path(before, path, p);
            assert(found.push(x).drop_last() =~= found);
        }
    }
}

} // verus!

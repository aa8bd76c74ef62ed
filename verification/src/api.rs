//! What is exchanged with the Engram service and with clients, and who asks.
use crate::text::opt_text;
use crate::value::SecretValue;
use vstd::prelude::*;

verus! {

// ---------------------------------------------------------------------------
// Engram API types
// ---------------------------------------------------------------------------

/// A memory to store.
#[derive(Debug)]
pub struct EngramStoreRequest {
    pub content: String,
    pub category: String,
    pub source: String,
    pub importance: Option<u8>,
    pub is_static: Option<bool>,
}

/// The answer to a store request.
#[derive(Debug)]
pub struct EngramStoreResponse {
    pub stored: bool,
    pub id: u64,
    pub created_at: String,
}

/// A memory as the service lists it.
#[derive(Debug)]
pub struct EngramMemory {
    pub id: u64,
    pub content: String,
    pub category: String,
    pub source: Option<String>,
    pub created_at: Option<String>,
    pub importance: Option<u8>,
}

/// The answer to a list request.
#[derive(Debug)]
pub struct EngramListResponse {
    pub results: Vec<EngramMemory>,
}

/// A memory as text.
pub struct MemoryModel {
    pub id: u64,
    pub content: Seq<char>,
    pub category: Seq<char>,
    pub source: Option<Seq<char>>,
    pub created_at: Option<Seq<char>>,
    pub importance: Option<u8>,
}

impl View for EngramMemory {
    type V = MemoryModel;

    open spec fn view(&self) -> MemoryModel {
        MemoryModel {
            id: self.id,
            content: self.content@,
            category: self.category@,
            source: opt_text(self.source),
            created_at: opt_text(self.created_at),
            importance: self.importance,
        }
    }
}

/// Memories as text.
pub open spec fn memory_models(memories: Seq<EngramMemory>) -> Seq<MemoryModel> {
    memories.map_values(|m: EngramMemory| m@)
}

// ---------------------------------------------------------------------------
// HTTP API types
// ---------------------------------------------------------------------------

/// The body of a refusal.
#[derive(Debug)]
pub struct ApiError {
    pub error: String,
}

/// Request body for POST /secret
#[derive(Debug)]
pub struct StoreSecretRequest {
    pub service: String,
    pub key: String,
    pub value: SecretValue,
}

/// Response for GET /secret/{svc}/{key}
#[derive(Debug)]
pub struct SecretResponse {
    pub service: String,
    pub key: String,
    pub secret_type: String,
    pub value: SecretValue,
}

/// Item in GET /secrets list response
#[derive(Debug)]
pub struct SecretListItem {
    pub service: String,
    pub key: String,
    pub secret_type: String,
    pub field_names: Vec<String>,
    pub redacted_preview: String,
    pub engram_id: Option<u64>,
}

// ---------------------------------------------------------------------------
// Agent keys
// ---------------------------------------------------------------------------

/// Who makes a request: the owner, or the agent of a name.
#[derive(Debug, Clone)]
pub enum AuthLevel {
    Owner,
    Agent(String),
}

/// Who makes a request, as text.
pub enum AuthModel {
    Owner,
    Agent(Seq<char>),
}

impl View for AuthLevel {
    type V = AuthModel;

    open spec fn view(&self) -> AuthModel {
        match *self {
            AuthLevel::Owner => AuthModel::Owner,
            AuthLevel::Agent(id) => AuthModel::Agent(id@),
        }
    }
}

impl AuthModel {
    /// How the caller is named in messages.
    pub open spec fn display_name(self) -> Seq<char> {
        match self {
            AuthModel::Owner => "owner"@,
            AuthModel::Agent(id) => "agent:"@ + id,
        }
    }
}

impl AuthLevel {
    /// Whether the owner asks.
    pub fn is_owner(&self) -> (r: bool)
        ensures
            r == (self@ is Owner),
    {
        matches!(self, AuthLevel::Owner)
    }

    /// Whether an agent asks.
    pub fn is_agent(&self) -> (r: bool)
        ensures
            r == (self@ is Agent),
    {
        matches!(self, AuthLevel::Agent(_))
    }

    /// The name of the agent that asks.
    pub fn agent_id(&self) -> (r: Option<&str>)
        ensures
            match r {
                Some(id) => self@ == AuthModel::Agent(id@),
                None => self@ is Owner,
            },
    {
        match self {
            AuthLevel::Agent(id) => Some(id.as_str()),
            AuthLevel::Owner => None,
        }
    }

    /// How the caller is named in messages.
    pub fn display_name(&self) -> (r: String)
        ensures
            r@ == self@.display_name(),
    {
        match self {
            AuthLevel::Owner => "owner".to_owned(),
            AuthLevel::Agent(id) => {
                let mut r = "agent:".to_owned();
                r.append(id.as_str());
                r
            },
        }
    }
}

/// The display name tells callers apart.
pub proof fn law_display_name_identifies(a: AuthModel, b: AuthModel)
    requires
        a.display_name() == b.display_name(),
    ensures
        a == b,
{
    reveal_strlit("owner");
    reveal_strlit("agent:");
    let (x, y) = (a.display_name(), b.display_name());
    match (a, b) {
        (AuthModel::Owner, AuthModel::Owner) => {},
        (AuthModel::Agent(i), AuthModel::Agent(j)) => {
            assert(i =~= x.skip(6));
            assert(j =~= y.skip(6));
        },
        (AuthModel::Owner, AuthModel::Agent(_)) => {
            assert(x[0] == 'o' && y[0] == 'a');
        },
        (AuthModel::Agent(_), AuthModel::Owner) => {
            assert(x[0] == 'a' && y[0] == 'o');
        },
    }
}

/// Request body for the creation of an agent key.
#[derive(Debug)]
pub struct AgentKeyCreateRequest {
    pub agent_id: String,
    pub description: String,
}

/// The answer to the creation of an agent key.
#[derive(Debug)]
pub struct AgentKeyCreateResponse {
    pub agent_id: String,
    pub key: String,
    pub created_at: String,
}

/// Item in the list of agent keys.
#[derive(Debug)]
pub struct AgentKeyListItem {
    pub id: String,
    pub created_at: String,
    pub last_used: Option<String>,
    pub revoked: bool,
    pub description: String,
    pub key_prefix: String,
}

} // verus!

//! Sessions: what a conversation needs to be resumed, and who may resume it.
//!
//! A session outlives the process that made it. Its record points at the
//! conversation of the supervised tool, carries the model that belongs to it
//! (resuming does not inherit one), and says which task holds it. At any time
//! at most one task holds a session; whoever wants to act on it has to claim it
//! first.

use crate::clock;
use crate::clock::Timestamp;
use crate::ids;
use crate::models::ProviderRef;
use crate::paths;
use crate::paths::{DirEntry, DirListing, LoadReport, StoreError, SupervisorHome};
use crate::registry::TaskId;
use crate::text;
use vstd::prelude::*;

verus! {

/// The layout of session records that this version writes.
pub const SESSION_SCHEMA_VERSION: u32 = 1;

/// Identifies a session, across restarts too.
#[derive(Clone, Copy, Debug, PartialEq, Eq, Hash, Structural)]
pub struct SessionId {
    /// The bits of the UUID.
    pub bits: u128,
}

impl View for SessionId {
    type V = Seq<char>;

    /// The text of the identifier.
    open spec fn view(&self) -> Seq<char> {
        ids::uuid_text(self.bits)
    }
}

impl SessionId {
    /// A fresh random identifier.
    pub fn new() -> (out: Self)
        ensures
            ids::is_random_uuid(out.bits),
    {
        SessionId { bits: ids::random_uuid() }
    }

    /// Reads an identifier.
    pub fn from_str(raw: &str) -> (out: Result<Self, ids::InvalidId>)
        ensures
            match out {
                Ok(id) => ids::uuid_parsed(raw@) == Some(id.bits),
                Err(_) => ids::uuid_parsed(raw@) is None,
            },
    {
        match ids::parse_id(raw) {
            Ok(bits) => Ok(SessionId { bits }),
            Err(error) => Err(error),
        }
    }

    /// The text of the identifier, which reads back as the same one.
    pub fn to_string(&self) -> (out: String)
        ensures
            out@ == self@,
            ids::uuid_parsed(out@) == Some(self.bits),
    {
        ids::uuid_string(self.bits)
    }
}

/// How much a task may touch.
#[derive(Clone, Copy, Debug, PartialEq, Eq, Structural)]
pub enum SandboxMode {
    /// Nothing is written.
    ReadOnly,
    /// The working directory may be written.
    WorkspaceWrite,
    /// Everything goes.
    DangerFullAccess,
}

impl SandboxMode {
    /// The name of the mode on the command line.
    pub open spec fn name(self) -> Seq<char> {
        match self {
            SandboxMode::ReadOnly => "read-only"@,
            SandboxMode::WorkspaceWrite => "workspace-write"@,
            SandboxMode::DangerFullAccess => "danger-full-access"@,
        }
    }

    /// The name of the mode on the command line.
    pub fn cli_name(self) -> (out: &'static str)
        ensures
            out@ == self.name(),
    {
        match self {
            SandboxMode::ReadOnly => "read-only",
            SandboxMode::WorkspaceWrite => "workspace-write",
            SandboxMode::DangerFullAccess => "danger-full-access",
        }
    }
}

/// When the supervised tool asks before it acts.
#[derive(Clone, Copy, Debug, PartialEq, Eq, Structural)]
pub enum ApprovalPolicy {
    /// Before anything that is not known to be harmless.
    Untrusted,
    /// After something has failed.
    OnFailure,
    /// When the model asks for it.
    OnRequest,
    /// Never; the sandbox is the safety net.
    Never,
}

/// How hard a model thinks.
#[derive(Clone, Copy, Debug, PartialEq, Eq, Structural)]
pub enum ReasoningEffort {
    /// As little as it can.
    Minimal,
    /// A little.
    Low,
    /// Some.
    Medium,
    /// A lot.
    High,
}

/// The model that belongs to a session, and is handed over on every resume.
#[derive(Debug, PartialEq, Eq)]
pub struct ModelAffinity {
    /// The name under which it is served.
    pub model: String,
    /// Who serves it.
    pub provider: ProviderRef,
    /// How hard it thinks, where that is set.
    pub reasoning: Option<ReasoningEffort>,
}

impl Clone for ModelAffinity {
    fn clone(&self) -> (out: Self)
        ensures
            out == *self,
    {
        ModelAffinity {
            model: self.model.clone(),
            provider: self.provider.clone(),
            reasoning: self.reasoning,
        }
    }
}

/// The conversation behind a session. Both parts come late: they are only known
/// once the first turn has begun.
#[derive(Debug, PartialEq, Eq)]
pub struct RolloutRef {
    /// The id with which the conversation is resumed.
    pub conversation_id: Option<String>,
    /// Where its history is kept. Read only; the supervised tool writes it.
    pub rollout_path: Option<String>,
}

impl Clone for RolloutRef {
    fn clone(&self) -> (out: Self)
        ensures
            out == *self,
    {
        RolloutRef {
            conversation_id: text::clone_opt(&self.conversation_id),
            rollout_path: text::clone_opt(&self.rollout_path),
        }
    }
}

/// Who holds a session.
#[derive(Clone, Copy, Debug, PartialEq, Eq, Structural)]
pub enum SessionOwner {
    /// Nobody: it can be claimed.
    Free,
    /// A task, and it alone.
    Task {
        /// Which one.
        task: TaskId,
    },
}

/// A session.
#[derive(Debug, PartialEq, Eq)]
pub struct SessionRecord {
    /// The layout of the record.
    pub schema_version: u32,
    /// Which session it is.
    pub id: SessionId,
    /// The conversation behind it.
    pub rollout: RolloutRef,
    /// The model that belongs to it.
    pub model: ModelAffinity,
    /// How much its tasks may touch.
    pub sandbox: SandboxMode,
    /// When they ask.
    pub approval: ApprovalPolicy,
    /// Where they work.
    pub cwd: String,
    /// Who holds it.
    pub owner: SessionOwner,
    /// When it was made.
    pub created_at: Timestamp,
    /// When it was last changed.
    pub updated_at: Timestamp,
}

impl Clone for SessionRecord {
    fn clone(&self) -> (out: Self)
        ensures
            out == *self,
    {
        SessionRecord {
            schema_version: self.schema_version,
            id: self.id,
            rollout: self.rollout.clone(),
            model: self.model.clone(),
            sandbox: self.sandbox,
            approval: self.approval,
            cwd: self.cwd.clone(),
            owner: self.owner,
            created_at: self.created_at.clone(),
            updated_at: self.updated_at.clone(),
        }
    }
}

/// What becomes of an owner when `task` claims the session.
pub open spec fn claimed_by(owner: SessionOwner, task: TaskId) -> Option<SessionOwner> {
    match owner {
        SessionOwner::Free => Some(SessionOwner::Task { task }),
        SessionOwner::Task { task: holder } => if holder == task {
            Some(owner)
        } else {
            None
        },
    }
}

/// What becomes of an owner when `task` releases the session.
pub open spec fn released_by(owner: SessionOwner, task: TaskId) -> Option<SessionOwner> {
    match owner {
        SessionOwner::Free => None,
        SessionOwner::Task { task: holder } => if holder == task {
            Some(SessionOwner::Free)
        } else {
            None
        },
    }
}

impl SessionRecord {
    /// This record with another owner, changed at `now`.
    pub open spec fn owned(self, owner: SessionOwner, now: Timestamp) -> SessionRecord {
        SessionRecord { owner, updated_at: now, ..self }
    }

    /// Whether this is a session as it is made: held by nobody, with no
    /// conversation behind it yet.
    pub open spec fn is_new(
        self,
        id: SessionId,
        model: ModelAffinity,
        sandbox: SandboxMode,
        approval: ApprovalPolicy,
        cwd: String,
        now: Timestamp,
    ) -> bool {
        &&& self.schema_version == SESSION_SCHEMA_VERSION
        &&& self.id == id
        &&& self.rollout.conversation_id is None
        &&& self.rollout.rollout_path is None
        &&& self.model == model
        &&& self.sandbox == sandbox
        &&& self.approval == approval
        &&& self.cwd == cwd
        &&& self.owner == SessionOwner::Free
        &&& self.created_at == now
        &&& self.updated_at == now
    }

    /// A session with the given identifier, made at `now`.
    pub fn new_at(
        id: SessionId,
        model: ModelAffinity,
        sandbox: SandboxMode,
        approval: ApprovalPolicy,
        cwd: String,
        now: Timestamp,
    ) -> (out: Self)
        ensures
            out.is_new(id, model, sandbox, approval, cwd, now),
    {
        SessionRecord {
            schema_version: SESSION_SCHEMA_VERSION,
            id,
            rollout: RolloutRef { conversation_id: None, rollout_path: None },
            model,
            sandbox,
            approval,
            cwd,
            owner: SessionOwner::Free,
            created_at: now.clone(),
            updated_at: now,
        }
    }

    /// A new session.
    pub fn new(
        model: ModelAffinity,
        sandbox: SandboxMode,
        approval: ApprovalPolicy,
        cwd: String,
    ) -> (out: Self)
        ensures
            ids::is_random_uuid(out.id.bits),
            clock::is_utc_instant(out.created_at.text@),
            out.is_new(out.id, model, sandbox, approval, cwd, out.created_at),
    {
        Self::new_at(SessionId::new(), model, sandbox, approval, cwd, Timestamp::now())
    }

    /// Claims the session for `task` at `now`. Granted where the session is
    /// free; where the task holds it already nothing changes.
    pub fn claim_at(&mut self, task: TaskId, now: Timestamp) -> (out: Result<(), OwnershipError>)
        ensures
            match old(self).owner {
                SessionOwner::Free => {
                    &&& out is Ok
                    &&& *final(self) == old(self).owned(SessionOwner::Task { task }, now)
                },
                SessionOwner::Task { task: holder } => {
                    &&& *final(self) == *old(self)
                    &&& out == if holder == task {
                        Ok::<(), OwnershipError>(())
                    } else {
                        Err(OwnershipError::Held { session: old(self).id, holder, requester: task })
                    }
                },
            },
    {
        match self.owner {
            SessionOwner::Free => {
                self.owner = SessionOwner::Task { task };
                self.updated_at = now;
                Ok(())
            },
            SessionOwner::Task { task: holder } => {
                if holder == task {
                    Ok(())
                } else {
                    Err(OwnershipError::Held { session: self.id, holder, requester: task })
                }
            },
        }
    }

    /// Claims the session for `task`.
    pub fn claim(&mut self, task: TaskId) -> (out: Result<(), OwnershipError>)
        ensures
            match claimed_by(old(self).owner, task) {
                Some(owner) => {
                    &&& out is Ok
                    &&& old(self).owner is Free ==> *final(self) == old(self).owned(
                        owner,
                        final(self).updated_at,
                    ) && clock::is_utc_instant(final(self).updated_at.text@)
                    &&& !(old(self).owner is Free) ==> *final(self) == *old(self)
                },
                None => {
                    &&& *final(self) == *old(self)
                    &&& out == Err::<(), OwnershipError>(
                        OwnershipError::Held {
                            session: old(self).id,
                            holder: old(self).owner->task,
                            requester: task,
                        },
                    )
                },
            },
    {
        self.claim_at(task, Timestamp::now())
    }

    /// Releases the session at `now`. Only its holder can.
    pub fn release_at(&mut self, task: TaskId, now: Timestamp) -> (out: Result<(), OwnershipError>)
        ensures
            match old(self).owner {
                SessionOwner::Free => {
                    &&& *final(self) == *old(self)
                    &&& out == Err::<(), OwnershipError>(
                        OwnershipError::AlreadyFree { session: old(self).id, requester: task },
                    )
                },
                SessionOwner::Task { task: holder } => if holder == task {
                    &&& out is Ok
                    &&& *final(self) == old(self).owned(SessionOwner::Free, now)
                } else {
                    &&& *final(self) == *old(self)
                    &&& out == Err::<(), OwnershipError>(
                        OwnershipError::NotHolder { session: old(self).id, holder, requester: task },
                    )
                },
            },
    {
        match self.owner {
            SessionOwner::Free => Err(
                OwnershipError::AlreadyFree { session: self.id, requester: task },
            ),
            SessionOwner::Task { task: holder } => {
                if holder == task {
                    self.owner = SessionOwner::Free;
                    self.updated_at = now;
                    Ok(())
                } else {
                    Err(OwnershipError::NotHolder { session: self.id, holder, requester: task })
                }
            },
        }
    }

    /// Releases the session.
    pub fn release(&mut self, task: TaskId) -> (out: Result<(), OwnershipError>)
        ensures
            match released_by(old(self).owner, task) {
                Some(owner) => {
                    &&& out is Ok
                    &&& *final(self) == old(self).owned(owner, final(self).updated_at)
                    &&& clock::is_utc_instant(final(self).updated_at.text@)
                },
                None => {
                    &&& *final(self) == *old(self)
                    &&& out == Err::<(), OwnershipError>(
                        match old(self).owner {
                            SessionOwner::Free => OwnershipError::AlreadyFree {
                                session: old(self).id,
                                requester: task,
                            },
                            SessionOwner::Task { task: holder } => OwnershipError::NotHolder {
                                session: old(self).id,
                                holder,
                                requester: task,
                            },
                        },
                    )
                },
            },
    {
        self.release_at(task, Timestamp::now())
    }

    /// Marks the session as changed at `now`.
    pub fn touch_at(&mut self, now: Timestamp)
        ensures
            *final(self) == (SessionRecord { updated_at: now, ..*old(self) }),
    {
        self.updated_at = now;
    }

    /// Marks the session as changed at the current instant.
    pub fn touch(&mut self)
        ensures
            *final(self) == (SessionRecord { updated_at: final(self).updated_at, ..*old(self) }),
            clock::is_utc_instant(final(self).updated_at.text@),
    {
        self.touch_at(Timestamp::now());
    }

    /// The file that holds the record of the session `id`.
    pub open spec fn file_of(home: Seq<char>, id: SessionId) -> Seq<char> {
        paths::joined_path(paths::state_dir_of(home, "sessions"@), id@ + ".json"@)
    }

    /// The file into which the record is saved.
    pub fn save(&self, home: &SupervisorHome) -> (path: String)
        ensures
            path@ == Self::file_of(home@, self.id),
    {
        let name = text::cat2(self.id.to_string().as_str(), ".json");
        paths::join_path(home.sessions_dir().as_str(), name.as_str())
    }

    /// Sorts what was found in the directory of session records.
    pub fn load_all(home: &SupervisorHome, found: DirListing<SessionRecord>) -> (out: Result<
        LoadReport<SessionRecord>,
        StoreError,
    >)
        ensures
            paths::is_loaded(paths::state_dir_of(home@, "sessions"@), found, out),
    {
        paths::load_dir(home.sessions_dir().as_str(), found)
    }
}

/// Why a claim or a release was refused.
#[derive(Clone, Copy, Debug, PartialEq, Eq, Structural)]
pub enum OwnershipError {
    /// Another task holds the session.
    Held {
        /// The session.
        session: SessionId,
        /// Who holds it.
        holder: TaskId,
        /// Who wanted it.
        requester: TaskId,
    },
    /// Someone else than the holder wanted to release it.
    NotHolder {
        /// The session.
        session: SessionId,
        /// Who holds it.
        holder: TaskId,
        /// Who wanted to release it.
        requester: TaskId,
    },
    /// There was nothing to release.
    AlreadyFree {
        /// The session.
        session: SessionId,
        /// Who wanted to release it.
        requester: TaskId,
    },
}

impl OwnershipError {
    /// The error in words.
    pub open spec fn words(&self) -> Seq<char> {
        match self {
            OwnershipError::Held { session, holder, requester } => "session "@ + session@
                + " is held by task "@ + holder@ + "; task "@ + requester@ + " cannot claim it"@,
            OwnershipError::NotHolder { session, holder, requester } => "session "@ + session@
                + " is held by task "@ + holder@ + "; task "@ + requester@ + " cannot release it"@,
            OwnershipError::AlreadyFree { session, requester } => "session "@ + session@
                + " is already free; task "@ + requester@ + " released nothing"@,
        }
    }

    /// The error in words.
    pub fn message(&self) -> (out: String)
        ensures
            out@ == self.words(),
    {
        match self {
            OwnershipError::Held { session, holder, requester } => text::cat7(
                "session ",
                session.to_string().as_str(),
                " is held by task ",
                holder.to_string().as_str(),
                "; task ",
                requester.to_string().as_str(),
                " cannot claim it",
            ),
            OwnershipError::NotHolder { session, holder, requester } => text::cat7(
                "session ",
                session.to_string().as_str(),
                " is held by task ",
                holder.to_string().as_str(),
                "; task ",
                requester.to_string().as_str(),
                " cannot release it",
            ),
            OwnershipError::AlreadyFree { session, requester } => text::cat5(
                "session ",
                session.to_string().as_str(),
                " is already free; task ",
                requester.to_string().as_str(),
                " released nothing",
            ),
        }
    }
}

/// Law: a session has one holder at a time. While one task holds it, no other
/// can claim or release it, and the holder may claim it again to no effect.
pub proof fn law_lease_is_exclusive(holder: TaskId, other: TaskId)
    requires
        holder != other,
    ensures
        claimed_by(SessionOwner::Task { task: holder }, other) is None,
        released_by(SessionOwner::Task { task: holder }, other) is None,
        claimed_by(SessionOwner::Task { task: holder }, holder) == Some(
            SessionOwner::Task { task: holder },
        ),
{
}

/// Law: releasing undoes claiming. A free session that is claimed and released
/// is free again, and releasing it once more is refused.
pub proof fn law_release_undoes_claim(task: TaskId)
    ensures
        ({
            let held = claimed_by(SessionOwner::Free, task)->Some_0;
            &&& claimed_by(SessionOwner::Free, task) is Some
            &&& released_by(held, task) == Some(SessionOwner::Free)
            &&& released_by(SessionOwner::Free, task) is None
        }),
{
}

/// Law: the records of sessions are kept apart. No two sessions share a file, and
/// the file of each is one that is taken for a record when they are read back.
pub proof fn law_session_files_are_separate(home: Seq<char>, a: SessionId, b: SessionId)
    ensures
        SessionRecord::file_of(home, a) == SessionRecord::file_of(home, b) ==> a == b,
        paths::names_record(a@ + ".json"@),
{
    ids::lemma_uuid_text_is_plain(a.bits);
    ids::lemma_uuid_text_is_plain(b.bits);
    let of_a = a@ + ".json"@;
    let of_b = b@ + ".json"@;
    assert(of_a[0] == a@[0] && of_b[0] == b@[0]);
    paths::lemma_joined_path_is_injective(paths::state_dir_of(home, "sessions"@), of_a, of_b);
    paths::lemma_record_name(a@, b@);
    if a@ == b@ {
        ids::law_uuid_text_is_injective(a.bits, b.bits);
    }
}

/// Law: a saved session is given back. Where the directory of session records holds
/// nothing but the file into which a record is saved, and what is in it reads as
/// that record, the scan gives exactly that record, and nothing is passed over.
pub proof fn law_saved_session_is_given_back(
    home: Seq<char>,
    found: DirListing<SessionRecord>,
    name: String,
    record: SessionRecord,
    out: Result<LoadReport<SessionRecord>, StoreError>,
)
    requires
        paths::joined_path(paths::state_dir_of(home, "sessions"@), name@) == SessionRecord::file_of(
            home,
            record.id,
        ),
        name@.len() > 0,
        name@[0] != '/',
        found matches DirListing::Entries(entries) && entries@ == seq![
            DirEntry::File { name, content: Ok::<SessionRecord, StoreError>(record) },
        ],
        paths::is_loaded(paths::state_dir_of(home, "sessions"@), found, out),
    ensures
        out is Ok,
        out->Ok_0.records@ == seq![record],
        out->Ok_0.skipped@.len() == 0,
{
    let dir = paths::state_dir_of(home, "sessions"@);
    let saved = record.id@ + ".json"@;
    ids::lemma_uuid_text_is_plain(record.id.bits);
    assert(saved[0] == record.id@[0]);
    paths::lemma_joined_path_is_injective(dir, name@, saved);
    paths::lemma_record_name(record.id@, record.id@);
    paths::law_single_record_is_given_back(dir, found, name, record, out);
}

} // verus!

//! How a task begins: its session, its checkout, its launch.
//!
//! A request goes through stages. Each stage ends in something that only the
//! outside world can do, and the next one takes up what came of it. A task
//! whose checkout or launch fails lets go of its session and leaves no trace.

use super::driver::Drive;
use super::preflight;
use super::preflight::ProbeOutcome;
use super::{Board, RecordWrite, ServiceError, SpawnReply, SpawnRequest, Supervisor};
use crate::acceptance;
use crate::clock;
use crate::clock::Timestamp;
use crate::executor;
use crate::executor::{ExecError, LaunchCommand, LaunchPlan};
use crate::ids;
use crate::models::{ModelEntry, RegistryError};
use crate::paths;
use crate::paths::StoreError;
use crate::registry::{
    JudgeSpec, SessionTarget, TaskId, TaskRecord, TaskSpec, TaskState, TransitionError,
    WorktreePolicy,
};
use crate::service;
use crate::session::{
    ApprovalPolicy, ModelAffinity, OwnershipError, SessionId, SessionOwner, SessionRecord,
};
use crate::text;
use crate::worktree;
use crate::worktree::{ReclaimMode, WorktreeError, WorktreeHandle};
use vstd::prelude::*;

verus! {

/// How long a task may take that says nothing else.
pub const DEFAULT_TASK_TIMEOUT_SECS: u64 = 900;

/// What a request asks for, as it is kept with the task.
pub open spec fn spec_of(request: SpawnRequest) -> TaskSpec {
    TaskSpec {
        prompt: request.prompt,
        model_key: request.model_key,
        cwd: request.cwd,
        sandbox: request.sandbox,
        approval: ApprovalPolicy::Never,
        judge: match request.judge_command {
            Some(command) => Some(JudgeSpec { command }),
            None => None,
        },
        diff_first: request.diff_first,
        worktree: request.worktree,
        session: request.session,
        timeout_secs: Some(
            match request.timeout_secs {
                Some(secs) => secs,
                None => DEFAULT_TASK_TIMEOUT_SECS,
            },
        ),
        breaker_threshold: request.breaker_threshold,
    }
}

fn task_spec(request: &SpawnRequest) -> (out: TaskSpec)
    ensures
        out == spec_of(*request),
{
    TaskSpec {
        prompt: request.prompt.clone(),
        model_key: request.model_key.clone(),
        cwd: request.cwd.clone(),
        sandbox: request.sandbox,
        // Nobody answers questions: the sandbox is the safety net.
        approval: ApprovalPolicy::Never,
        judge: match &request.judge_command {
            Some(command) => Some(JudgeSpec { command: command.clone() }),
            None => None,
        },
        diff_first: request.diff_first,
        worktree: request.worktree,
        session: request.session,
        timeout_secs: Some(
            match request.timeout_secs {
                Some(secs) => secs,
                None => DEFAULT_TASK_TIMEOUT_SECS,
            },
        ),
        breaker_threshold: request.breaker_threshold,
    }
}

/// A task that is about to begin, and holds its session. The record of the
/// session has to be written first.
#[derive(Debug)]
pub struct Opening {
    /// The request.
    pub request: SpawnRequest,
    /// The model.
    pub entry: ModelEntry,
    /// The task.
    pub task: TaskRecord,
    /// Its session.
    pub session: SessionRecord,
    /// What has to be written.
    pub write: RecordWrite,
}

/// The model that belongs to a session that is made for `entry`.
pub open spec fn affinity_of(entry: ModelEntry) -> ModelAffinity {
    ModelAffinity { model: entry.served_name, provider: entry.provider, reasoning: None }
}

/// Whether `session` is the new session of `task`.
pub open spec fn is_opened(
    session: SessionRecord,
    id: SessionId,
    entry: ModelEntry,
    request: SpawnRequest,
    task: TaskId,
    now: Timestamp,
) -> bool {
    &&& session.owner == SessionOwner::Task { task }
    &&& (SessionRecord { owner: SessionOwner::Free, ..session }).is_new(
        id,
        affinity_of(entry),
        request.sandbox,
        ApprovalPolicy::Never,
        request.cwd,
        now,
    )
}

impl Board {
    /// Why a request cannot be opened for `task`, if it cannot: its session does
    /// not exist, has nothing to resume, or is held by another task.
    pub open spec fn refuses(self, target: SessionTarget, task: TaskId) -> Option<ServiceError> {
        match target {
            SessionTarget::New => None,
            SessionTarget::Resume { session } => if !self.sessions.contains_key(session.bits) {
                Some(ServiceError::SessionNotFound { session })
            } else if self.sessions[session.bits].rollout.conversation_id is None {
                Some(ServiceError::SessionNotResumable { session })
            } else {
                match self.sessions[session.bits].owner {
                    SessionOwner::Task { task: holder } if holder != task => Some(
                        ServiceError::Ownership(
                            OwnershipError::Held {
                                session: self.sessions[session.bits].id,
                                holder,
                                requester: task,
                            },
                        ),
                    ),
                    _ => None,
                }
            },
        }
    }

    /// The board once `task` has claimed a session that exists.
    pub open spec fn claimed(self, session: SessionId, task: TaskId, now: Timestamp) -> Board {
        let record = self.sessions[session.bits];
        Board {
            sessions: self.sessions.insert(
                session.bits,
                if record.owner is Free {
                    record.owned(SessionOwner::Task { task }, now)
                } else {
                    record
                },
            ),
            ..self
        }
    }
}

/// Whether `out` is the answer to a request, and `after` what becomes of the
/// supervisor: an unknown model and a session that cannot be had are refused, and
/// nothing changes; any other request gets a task with an identifier of its own,
/// which holds its session.
pub open spec fn is_spawned(
    before: Supervisor,
    after: Supervisor,
    request: SpawnRequest,
    out: Result<Opening, ServiceError>,
) -> bool {
    match before.models().entry_of(request.model_key@) {
        None => {
            &&& after@ == before@
            &&& out matches Err(ServiceError::Registry(RegistryError::UnknownModel { key })) && key@
                == request.model_key@
        },
        Some(entry) => match out {
            Err(error) => {
                &&& after@ == before@
                &&& exists|task: TaskId| #[trigger]
                    before@.refuses(request.session, task) == Some(error)
            },
            Ok(opening) => {
                &&& opening.request == request
                &&& opening.entry == entry
                &&& ids::is_random_uuid(opening.task.id.bits)
                &&& request.session is New ==> ids::is_random_uuid(opening.session.id.bits)
                &&& clock::is_utc_instant(opening.task.created_at.text@)
                &&& opening.task == TaskRecord::fresh(
                    opening.task.id,
                    spec_of(request),
                    opening.task.created_at,
                )
                &&& opening.write.writes_session(before.home_dir(), opening.session)
                &&& before@.refuses(request.session, opening.task.id) is None
                &&& match request.session {
                    SessionTarget::New => {
                        &&& after@ == before@
                        &&& is_opened(
                            opening.session,
                            opening.session.id,
                            entry,
                            request,
                            opening.task.id,
                            opening.task.created_at,
                        )
                    },
                    SessionTarget::Resume { session } => {
                        &&& after@ == before@.claimed(
                            session,
                            opening.task.id,
                            opening.task.created_at,
                        )
                        &&& opening.session == after@.sessions[session.bits]
                    },
                }
            },
        },
    }
}

/// Whether a probe keeps a task from beginning on a model: the model names an
/// address, and no answer with success has come from there.
pub open spec fn is_barred(entry: ModelEntry, probe: Option<ProbeOutcome>) -> bool {
    entry.endpoint_probe is Some && !(probe is Some && preflight::is_passed(probe->Some_0))
}

/// Whether `error` is why a probe keeps a task from beginning.
pub open spec fn is_bar(
    error: ServiceError,
    model_key: Seq<char>,
    url: Seq<char>,
    probe: Option<ProbeOutcome>,
) -> bool {
    match probe {
        Some(outcome) => preflight::is_probe_error(error, model_key, url, outcome),
        None => error matches ServiceError::Internal { message } && message@
            == "model was not probed: "@ + model_key,
    }
}

impl Supervisor {
    /// Opens a request for the task `task`: finds its model, and claims its
    /// session, or makes one called `fresh`.
    pub fn open_task(
        &mut self,
        request: SpawnRequest,
        task: TaskId,
        fresh: SessionId,
        now: Timestamp,
    ) -> (out: Result<Opening, ServiceError>)
        ensures
            final(self).same_setup(old(self)),
            match old(self).models().entry_of(request.model_key@) {
                None => {
                    &&& final(self)@ == old(self)@
                    &&& out matches Err(
                        ServiceError::Registry(RegistryError::UnknownModel { key }),
                    ) && key@ == request.model_key@
                },
                Some(entry) => match old(self)@.refuses(request.session, task) {
                    Some(error) => {
                        &&& final(self)@ == old(self)@
                        &&& out == Err::<Opening, ServiceError>(error)
                    },
                    None => {
                        &&& out matches Ok(opening) && {
                            &&& opening.request == request
                            &&& opening.entry == entry
                            &&& opening.task == TaskRecord::fresh(task, spec_of(request), now)
                            &&& opening.write.writes_session(
                                old(self).home_dir(),
                                opening.session,
                            )
                            &&& match request.session {
                                SessionTarget::New => {
                                    &&& final(self)@ == old(self)@
                                    &&& is_opened(
                                        opening.session,
                                        fresh,
                                        entry,
                                        request,
                                        task,
                                        now,
                                    )
                                },
                                SessionTarget::Resume { session } => {
                                    &&& final(self)@ == old(self)@.claimed(session, task, now)
                                    &&& opening.session == final(self)@.sessions[session.bits]
                                },
                            }
                        }
                    },
                },
            },
            old(self)@.wf() ==> final(self)@.wf(),
    {
        broadcast use vstd::std_specs::hash::group_hash_axioms;

        let entry = match self.registry.resolve(request.model_key.as_str()) {
            Ok(entry) => entry.clone(),
            Err(error) => {
                return Err(ServiceError::Registry(error));
            },
        };
        let record = TaskRecord::new_at(task, task_spec(&request), now.clone());
        match request.session {
            SessionTarget::New => {
                let mut session = SessionRecord::new_at(
                    fresh,
                    ModelAffinity {
                        model: entry.served_name.clone(),
                        provider: entry.provider.clone(),
                        reasoning: None,
                    },
                    request.sandbox,
                    ApprovalPolicy::Never,
                    request.cwd.clone(),
                    now.clone(),
                );
                match session.claim_at(task, now) {
                    Ok(()) => {},
                    Err(error) => {
                        return Err(ServiceError::Ownership(error));
                    },
                }
                let write = super::session_write(&self.home, &session);
                Ok(Opening { request, entry, task: record, session, write })
            },
            SessionTarget::Resume { session: id } => {
                let ghost before = self@;
                let found = match self.sessions.get(&id.bits) {
                    Some(session) => session.clone(),
                    None => {
                        return Err(ServiceError::SessionNotFound { session: id });
                    },
                };
                if found.rollout.conversation_id.is_none() {
                    return Err(ServiceError::SessionNotResumable { session: id });
                }
                let mut session = found;
                match session.claim_at(task, now) {
                    Ok(()) => {},
                    Err(error) => {
                        return Err(ServiceError::Ownership(error));
                    },
                }
                let write = super::session_write(&self.home, &session);
                self.sessions.insert(id.bits, session.clone());
                assert(self@.sessions =~= before.claimed(id, task, now).sessions);
                Ok(Opening { request, entry, task: record, session, write })
            },
        }
    }

    /// Opens a request: gives the task an identifier, finds its model, and
    /// claims its session or makes one.
    pub fn spawn_task(&mut self, request: SpawnRequest) -> (out: Result<Opening, ServiceError>)
        ensures
            final(self).same_setup(old(self)),
            is_spawned(*old(self), *final(self), request, out),
            old(self)@.wf() ==> final(self)@.wf(),
    {
        let task = TaskId::new();
        let out = self.open_task(request, task, SessionId::new(), Timestamp::now());
        assert(out is Err ==> old(self).models().entry_of(request.model_key@) is None || old(
            self,
        )@.refuses(request.session, task) == Some(out->Err_0));
        out
    }
}

impl Supervisor {
    /// Opens a request once its model was probed, where the model names an
    /// address for that. Only a probe that was passed lets a task begin: before
    /// it, nothing is claimed or made.
    pub fn spawn_probed(&mut self, request: SpawnRequest, probe: Option<ProbeOutcome>) -> (out:
        Result<Opening, ServiceError>)
        ensures
            final(self).same_setup(old(self)),
            match old(self).models().entry_of(request.model_key@) {
                Some(entry) if is_barred(entry, probe) => {
                    &&& final(self)@ == old(self)@
                    &&& out is Err
                    &&& is_bar(
                        out->Err_0,
                        request.model_key@,
                        entry.endpoint_probe->Some_0@,
                        probe,
                    )
                },
                _ => is_spawned(*old(self), *final(self), request, out),
            },
            old(self)@.wf() ==> final(self)@.wf(),
    {
        match self.probe_target(request.model_key.as_str()) {
            Ok(Some(url)) => match probe {
                Some(outcome) => match preflight::preflight(
                    request.model_key.as_str(),
                    url.as_str(),
                    outcome,
                ) {
                    Ok(()) => self.spawn_task(request),
                    Err(error) => Err(error),
                },
                None => Err(
                    ServiceError::Internal {
                        message: text::cat2("model was not probed: ", request.model_key.as_str()),
                    },
                ),
            },
            _ => self.spawn_task(request),
        }
    }
}

/// A task that holds its session, whose record was written.
#[derive(Debug)]
pub struct Leased {
    /// The request.
    pub request: SpawnRequest,
    /// The model.
    pub entry: ModelEntry,
    /// The task.
    pub task: TaskRecord,
    /// Its session.
    pub session_id: SessionId,
}

/// What came of making a checkout.
#[derive(Debug)]
pub enum Checkout {
    /// None was asked for.
    InPlace,
    /// It was made.
    Allocated(WorktreeHandle),
    /// It was not made.
    Failed(WorktreeError),
    /// Making it broke down.
    Panicked {
        /// How.
        error: String,
    },
}

/// A task that is ready to be launched.
#[derive(Debug)]
pub struct Prepared {
    /// The task.
    pub task: TaskRecord,
    /// Its session.
    pub session_id: SessionId,
    /// Its checkout, where it has one of its own.
    pub checkout: Option<WorktreeHandle>,
    /// What is launched.
    pub plan: LaunchPlan,
    /// Where its raw event stream is kept.
    pub events_path: String,
}

/// A task that could not begin.
#[derive(Debug)]
pub struct SpawnFailure {
    /// Why.
    pub error: ServiceError,
    /// The record of its session, if it was changed.
    pub write: Option<RecordWrite>,
    /// The checkout to remove.
    pub discard: Option<WorktreeHandle>,
    /// What becomes of its branch.
    pub reclaim: ReclaimMode,
}

impl SpawnFailure {
    /// Whether the task has let go of its session, with the record to write, and
    /// leaves no branch behind.
    pub open spec fn lets_go(
        self,
        before: Board,
        after: Board,
        home: Seq<char>,
        session: SessionId,
        task: TaskId,
    ) -> bool {
        &&& service::is_released(before, after, session, task)
        &&& self.write is Some == before.holds(task, session)
        &&& self.write is Some ==> self.write->Some_0.writes_session(
            home,
            after.sessions[session.bits],
        )
        &&& self.reclaim == ReclaimMode::DeleteBranch
    }
}

/// Whether a task gets a checkout of its own.
pub fn wants_checkout(leased: &Leased) -> (yes: bool)
    ensures
        yes == (leased.request.worktree == WorktreePolicy::Isolated),
{
    leased.request.worktree == WorktreePolicy::Isolated
}

/// A text in double quotes.
pub open spec fn quoted(s: Seq<char>) -> Seq<char> {
    "\""@ + s + "\""@
}

fn quote(s: &str) -> (out: String)
    ensures
        out@ == quoted(s@),
{
    text::cat3("\"", s, "\"")
}

/// The configuration that is overridden so that a task reaches its provider, by
/// key and value.
pub open spec fn provider_overrides(provider: crate::models::ProviderRef) -> Seq<
    (Seq<char>, Seq<char>),
> {
    seq![("model_provider"@, quoted(provider.id@))] + (match provider.base_url {
        Some(url) => seq![("model_providers."@ + provider.id@ + ".base_url"@, quoted(url@))],
        None => Seq::empty(),
    }) + (match provider.wire_api {
        Some(api) => seq![("model_providers."@ + provider.id@ + ".wire_api"@, quoted(api@))],
        None => Seq::empty(),
    })
}

/// Overridden configuration, in texts.
pub open spec fn override_texts(overrides: Seq<(String, String)>) -> Seq<(Seq<char>, Seq<char>)> {
    overrides.map_values(|pair: (String, String)| (pair.0@, pair.1@))
}

fn overrides_for(provider: &crate::models::ProviderRef) -> (out: Vec<(String, String)>)
    ensures
        override_texts(out@) == provider_overrides(*provider),
{
    let mut out: Vec<(String, String)> = Vec::new();
    out.push(("model_provider".to_owned(), quote(provider.id.as_str())));
    match &provider.base_url {
        Some(url) => {
            let key = text::cat3("model_providers.", provider.id.as_str(), ".base_url");
            out.push((key, quote(url.as_str())));
        },
        None => {},
    }
    match &provider.wire_api {
        Some(api) => {
            let key = text::cat3("model_providers.", provider.id.as_str(), ".wire_api");
            out.push((key, quote(api.as_str())));
        },
        None => {},
    }
    assert(override_texts(out@) =~= provider_overrides(*provider));
    out
}

impl Board {
    /// The conversation that a request resumes, if any.
    pub open spec fn resumed(self, target: SessionTarget) -> Option<String> {
        match target {
            SessionTarget::New => None,
            SessionTarget::Resume { session } => if self.sessions.contains_key(session.bits) {
                self.sessions[session.bits].rollout.conversation_id
            } else {
                None
            },
        }
    }
}

/// Where the raw event stream of a task is kept.
pub open spec fn events_file(home: Seq<char>, task: TaskId) -> Seq<char> {
    paths::joined_path(paths::state_dir_of(home, "events"@), task@ + ".jsonl"@)
}

/// A time limit in milliseconds, given in seconds.
pub open spec fn millis_of(secs: Option<u64>) -> Option<u128> {
    match secs {
        Some(n) => Some((n * 1000) as u128),
        None => None,
    }
}

/// Whether `plan` launches the task of `leased`: on its model and provider, named
/// explicitly, in its directory, resuming its conversation.
pub open spec fn is_planned(
    plan: LaunchPlan,
    leased: Leased,
    checkout: Option<WorktreeHandle>,
    resume: Option<String>,
) -> bool {
    &&& plan.prompt == leased.request.prompt
    &&& plan.model == Some(leased.entry.served_name)
    &&& plan.sandbox == leased.request.sandbox
    &&& plan.cwd == match checkout {
        Some(handle) => handle.task_cwd,
        None => leased.request.cwd,
    }
    &&& override_texts(plan.overrides@) == provider_overrides(leased.entry.provider)
    &&& plan.resume == resume
    &&& plan.skip_git_repo_check == (leased.request.worktree == WorktreePolicy::InPlace)
    &&& plan.timeout == millis_of(leased.task.spec.timeout_secs)
}

impl Supervisor {
    /// Goes on once the record of the session was written, or was not. A new
    /// session exists from here on.
    pub fn session_saved(&mut self, opening: Opening, saved: Result<(), StoreError>) -> (out: Result<
        Leased,
        ServiceError,
    >)
        ensures
            final(self).same_setup(old(self)),
            match saved {
                Err(error) => {
                    &&& final(self)@ == old(self)@
                    &&& out == Err::<Leased, ServiceError>(ServiceError::Store(error))
                },
                Ok(()) => {
                    &&& final(self)@ == match opening.request.session {
                        SessionTarget::New => Board {
                            sessions: old(self)@.sessions.insert(
                                opening.session.id.bits,
                                opening.session,
                            ),
                            ..old(self)@
                        },
                        SessionTarget::Resume { .. } => old(self)@,
                    }
                    &&& out == Ok::<Leased, ServiceError>(
                        Leased {
                            request: opening.request,
                            entry: opening.entry,
                            task: TaskRecord { session_id: Some(opening.session.id), ..opening.task },
                            session_id: opening.session.id,
                        },
                    )
                },
            },
            old(self)@.wf() && (opening.request.session is Resume || !old(
                self,
            )@.sessions.contains_key(opening.session.id.bits)) ==> final(self)@.wf(),
    {
        broadcast use vstd::std_specs::hash::group_hash_axioms;

        match saved {
            Err(error) => Err(ServiceError::Store(error)),
            Ok(()) => {
                let session_id = opening.session.id;
                let mut task = opening.task;
                task.session_id = Some(session_id);
                match opening.request.session {
                    SessionTarget::New => {
                        self.sessions.insert(session_id.bits, opening.session);
                    },
                    SessionTarget::Resume { .. } => {},
                }
                Ok(Leased { request: opening.request, entry: opening.entry, task, session_id })
            },
        }
    }

    /// The conversation that a request resumes, if any.
    fn conversation(&self, target: SessionTarget) -> (out: Option<String>)
        ensures
            out == self@.resumed(target),
    {
        broadcast use vstd::std_specs::hash::group_hash_axioms;

        match target {
            SessionTarget::New => None,
            SessionTarget::Resume { session } => match self.sessions.get(&session.bits) {
                Some(record) => text::clone_opt(&record.rollout.conversation_id),
                None => None,
            },
        }
    }

    /// Goes on once the checkout was made, or was not. A task whose checkout was
    /// not made lets go of its session.
    pub fn checkout_ready(&mut self, leased: Leased, checkout: Checkout) -> (out: Result<
        Prepared,
        SpawnFailure,
    >)
        ensures
            final(self).same_setup(old(self)),
            match checkout {
                Checkout::Panicked { error } => out matches Err(failure) && {
                    &&& failure.lets_go(
                        old(self)@,
                        final(self)@,
                        old(self).home_dir(),
                        leased.session_id,
                        leased.task.id,
                    )
                    &&& failure.discard is None
                    &&& failure.error matches ServiceError::Internal { message } && message@
                        == "worktree allocation task panicked: "@ + error@
                },
                Checkout::Failed(error) => out matches Err(failure) && {
                    &&& failure.lets_go(
                        old(self)@,
                        final(self)@,
                        old(self).home_dir(),
                        leased.session_id,
                        leased.task.id,
                    )
                    &&& failure.discard is None
                    &&& failure.error == ServiceError::Worktree(error)
                },
                Checkout::InPlace => {
                    &&& final(self)@ == old(self)@
                    &&& out matches Ok(prepared) && is_prepared(
                        prepared,
                        leased,
                        None,
                        old(self)@.resumed(leased.request.session),
                        old(self).home_dir(),
                    )
                },
                Checkout::Allocated(handle) => {
                    &&& final(self)@ == old(self)@
                    &&& out matches Ok(prepared) && is_prepared(
                        prepared,
                        leased,
                        Some(handle),
                        old(self)@.resumed(leased.request.session),
                        old(self).home_dir(),
                    )
                },
            },
            old(self)@.wf() && !(old(self)@.tasks.contains_key(leased.task.id.bits) && old(
                self,
            )@.tasks[leased.task.id.bits].state is Running) ==> final(self)@.wf(),
    {
        let handle = match checkout {
            Checkout::InPlace => None,
            Checkout::Allocated(handle) => Some(handle),
            Checkout::Failed(error) => {
                let write = self.release_session(leased.session_id, leased.task.id);
                return Err(
                    SpawnFailure {
                        error: ServiceError::Worktree(error),
                        write,
                        discard: None,
                        reclaim: ReclaimMode::DeleteBranch,
                    },
                );
            },
            Checkout::Panicked { error } => {
                let write = self.release_session(leased.session_id, leased.task.id);
                return Err(
                    SpawnFailure {
                        error: ServiceError::Internal {
                            message: text::cat2(
                                "worktree allocation task panicked: ",
                                error.as_str(),
                            ),
                        },
                        write,
                        discard: None,
                        reclaim: ReclaimMode::DeleteBranch,
                    },
                );
            },
        };
        let resume = self.conversation(leased.request.session);
        let overrides = overrides_for(&leased.entry.provider);
        let name = text::cat2(leased.task.id.to_string().as_str(), ".jsonl");
        let events_path = paths::join_path(self.home.events_dir().as_str(), name.as_str());
        let mut task = leased.task;
        let timeout: Option<u128> = match task.spec.timeout_secs {
            Some(secs) => Some(secs as u128 * 1000),
            None => None,
        };
        let cwd = match &handle {
            Some(checkout) => {
                task.worktree_path = Some(checkout.worktree_root.clone());
                checkout.task_cwd.clone()
            },
            None => leased.request.cwd,
        };
        task.events_path = Some(events_path.clone());
        let plan = LaunchPlan {
            prompt: leased.request.prompt,
            model: Some(leased.entry.served_name),
            sandbox: leased.request.sandbox,
            cwd,
            overrides,
            resume,
            skip_git_repo_check: leased.request.worktree == WorktreePolicy::InPlace,
            timeout,
        };
        Ok(
            Prepared {
                task,
                session_id: leased.session_id,
                checkout: handle,
                plan,
                events_path,
            },
        )
    }
}

/// Whether `prepared` is the task of `leased`, ready to be launched in the given
/// checkout.
pub open spec fn is_prepared(
    prepared: Prepared,
    leased: Leased,
    checkout: Option<WorktreeHandle>,
    resume: Option<String>,
    home: Seq<char>,
) -> bool {
    &&& prepared.task == (TaskRecord {
        worktree_path: match checkout {
            Some(handle) => Some(handle.worktree_root),
            None => leased.task.worktree_path,
        },
        events_path: Some(prepared.events_path),
        ..leased.task
    })
    &&& prepared.session_id == leased.session_id
    &&& prepared.checkout == checkout
    &&& is_planned(prepared.plan, leased, checkout, resume)
    &&& prepared.events_path@ == events_file(home, leased.task.id)
}

/// A task that was launched. Its record has to be written before it counts.
#[derive(Debug)]
pub struct Launched {
    /// The task, running.
    pub task: TaskRecord,
    /// Its session.
    pub session_id: SessionId,
    /// Its checkout, where it has one of its own.
    pub checkout: Option<WorktreeHandle>,
    /// What was launched.
    pub plan: LaunchPlan,
    /// Where its raw event stream is kept.
    pub events_path: String,
    /// What has to be written.
    pub write: RecordWrite,
}

/// A task that has begun: the answer to its request, and what watches over it.
#[derive(Debug)]
pub struct Spawned {
    /// The answer.
    pub reply: SpawnReply,
    /// What watches over it.
    pub drive: Drive,
}

/// Whether `reply` names the task, its session and its branch.
pub open spec fn is_reply(reply: SpawnReply, task: TaskRecord, session: SessionId) -> bool {
    &&& reply.task_id@ == task.id@
    &&& reply.session_id@ == session@
    &&& text::opt_text(reply.worktree_branch) == if task.spec.worktree == WorktreePolicy::Isolated {
        Some(worktree::branch_of(task.id))
    } else {
        None
    }
}

/// After how many equal tool failures in a row a task is stopped.
pub open spec fn breaker_limit(task: TaskRecord) -> u32 {
    match task.spec.breaker_threshold {
        Some(threshold) => threshold,
        None => acceptance::DEFAULT_BREAKER_THRESHOLD,
    }
}

impl Supervisor {
    /// What is handed to the operating system for a run: the program of this
    /// supervisor, with its home directory.
    pub fn launch_command(&self, task: TaskId, plan: &LaunchPlan, events_path: &str) -> (command:
        LaunchCommand)
        ensures
            command.runs(self.program(), task, *plan, events_path@),
    {
        executor::launch(&self.executor, task, plan, events_path)
    }

    /// Goes on once the task was launched, or was not. A task that was not
    /// launched lets go of its session, and its checkout goes with its branch.
    pub fn launched(&mut self, prepared: Prepared, launch: Result<Option<u32>, ExecError>) -> (out:
        Result<Launched, SpawnFailure>)
        ensures
            final(self).same_setup(old(self)),
            match launch {
                Err(error) => {
                    &&& out matches Err(failure) && {
                        &&& failure.lets_go(
                            old(self)@,
                            final(self)@,
                            old(self).home_dir(),
                            prepared.session_id,
                            prepared.task.id,
                        )
                        &&& failure.error == ServiceError::Exec(error)
                        &&& failure.discard == prepared.checkout
                    }
                },
                Ok(pid) => {
                    &&& final(self)@ == old(self)@
                    &&& if prepared.task.state is Pending || prepared.task.state is Running {
                        out matches Ok(launched) && {
                            &&& launched.task == prepared.task.moved(
                                TaskState::Running { pid },
                                launched.task.updated_at,
                            )
                            &&& clock::is_utc_instant(launched.task.updated_at.text@)
                            &&& launched.session_id == prepared.session_id
                            &&& launched.checkout == prepared.checkout
                            &&& launched.plan == prepared.plan
                            &&& launched.events_path == prepared.events_path
                            &&& launched.write.writes_task(old(self).home_dir(), launched.task)
                        }
                    } else {
                        out matches Err(failure) && {
                            &&& failure.error == ServiceError::Transition(
                                TransitionError {
                                    task: prepared.task.id,
                                    from: prepared.task.state,
                                    to: TaskState::Running { pid },
                                },
                            )
                            &&& failure.write is None
                            &&& failure.discard is None
                            &&& failure.reclaim == ReclaimMode::DeleteBranch
                        }
                    }
                },
            },
            old(self)@.wf() && !(old(self)@.tasks.contains_key(prepared.task.id.bits) && old(
                self,
            )@.tasks[prepared.task.id.bits].state is Running) ==> final(self)@.wf(),
    {
        match launch {
            Err(error) => {
                let write = self.release_session(prepared.session_id, prepared.task.id);
                Err(
                    SpawnFailure {
                        error: ServiceError::Exec(error),
                        write,
                        discard: prepared.checkout,
                        reclaim: ReclaimMode::DeleteBranch,
                    },
                )
            },
            Ok(pid) => {
                let mut task = prepared.task;
                match task.transition(TaskState::Running { pid }) {
                    Ok(()) => {},
                    Err(error) => {
                        return Err(
                            SpawnFailure {
                                error: ServiceError::Transition(error),
                                write: None,
                                discard: None,
                                reclaim: ReclaimMode::DeleteBranch,
                            },
                        );
                    },
                }
                let write = super::task_write(&self.home, &task);
                Ok(
                    Launched {
                        task,
                        session_id: prepared.session_id,
                        checkout: prepared.checkout,
                        plan: prepared.plan,
                        events_path: prepared.events_path,
                        write,
                    },
                )
            },
        }
    }

    /// Goes on once the record of the task was written, or was not. From here on
    /// the task is known, and can be interrupted.
    pub fn task_saved(&mut self, launched: Launched, saved: Result<(), StoreError>) -> (out: Result<
        Spawned,
        ServiceError,
    >)
        ensures
            final(self).same_setup(old(self)),
            match saved {
                Err(error) => {
                    &&& final(self)@ == old(self)@
                    &&& out == Err::<Spawned, ServiceError>(ServiceError::Store(error))
                },
                Ok(()) => {
                    &&& final(self)@ == (Board {
                        tasks: old(self)@.tasks.insert(launched.task.id.bits, launched.task),
                        running: old(self)@.running.insert(launched.task.id.bits),
                        ..old(self)@
                    })
                    &&& out matches Ok(spawned) && {
                        &&& is_reply(spawned.reply, launched.task, launched.session_id)
                        &&& spawned.drive == (Drive {
                            task_id: launched.task.id,
                            session_id: launched.session_id,
                            checkout: launched.checkout,
                            plan: launched.plan,
                            events_path: launched.events_path,
                            attempt: 0,
                            breaker_threshold: breaker_limit(launched.task),
                        })
                    }
                },
            },
            ({
                &&& old(self)@.wf()
                &&& launched.task.state is Running
                &&& launched.task.session_id == Some(launched.session_id)
                &&& old(self)@.holds(launched.task.id, launched.session_id)
            }) ==> final(self)@.wf(),
    {
        broadcast use vstd::std_specs::hash::group_hash_axioms;

        match saved {
            Err(error) => Err(ServiceError::Store(error)),
            Ok(()) => {
                let id = launched.task.id;
                let session_id = launched.session_id;
                let reply = SpawnReply {
                    task_id: id.to_string(),
                    session_id: session_id.to_string(),
                    worktree_branch: if launched.task.spec.worktree == WorktreePolicy::Isolated {
                        Some(worktree::branch_name(id))
                    } else {
                        None
                    },
                };
                let breaker_threshold: u32 = match launched.task.spec.breaker_threshold {
                    Some(threshold) => threshold,
                    None => acceptance::DEFAULT_BREAKER_THRESHOLD,
                };
                self.running.insert(id.bits);
                self.tasks.insert(id.bits, launched.task);
                Ok(
                    Spawned {
                        reply,
                        drive: Drive {
                            task_id: id,
                            session_id,
                            checkout: launched.checkout,
                            plan: launched.plan,
                            events_path: launched.events_path,
                            attempt: 0,
                            breaker_threshold,
                        },
                    },
                )
            },
        }
    }

    /// The request that resumes a session: in its directory, with its sandbox,
    /// and on its model unless another is named.
    pub fn reply(
        &self,
        session_id: SessionId,
        prompt: String,
        model_key: Option<String>,
        judge_command: Option<String>,
        timeout_secs: Option<u64>,
    ) -> (out: Result<SpawnRequest, ServiceError>)
        ensures
            if !self@.sessions.contains_key(session_id.bits) {
                out == Err::<SpawnRequest, ServiceError>(
                    ServiceError::SessionNotFound { session: session_id },
                )
            } else {
                let session = self@.sessions[session_id.bits];
                let key = match model_key {
                    Some(named) => Some(named@),
                    None => self.models().key_of_served(session.model.model@),
                };
                match key {
                    None => out == Err::<SpawnRequest, ServiceError>(
                        ServiceError::SessionNotResumable { session: session_id },
                    ),
                    Some(key) => out matches Ok(request) && {
                        &&& request.prompt == prompt
                        &&& request.model_key@ == key
                        &&& request.cwd == session.cwd
                        &&& request.sandbox == session.sandbox
                        &&& request.judge_command == judge_command
                        &&& request.timeout_secs == timeout_secs
                        &&& request.worktree == WorktreePolicy::InPlace
                        &&& request.session == (SessionTarget::Resume { session: session_id })
                        &&& request.diff_first
                        &&& request.breaker_threshold is None
                    },
                }
            },
    {
        broadcast use vstd::std_specs::hash::group_hash_axioms;

        let session = match self.sessions.get(&session_id.bits) {
            Some(session) => session,
            None => {
                return Err(ServiceError::SessionNotFound { session: session_id });
            },
        };
        let key = match model_key {
            Some(key) => Some(key),
            None => self.registry.key_serving(session.model.model.as_str()),
        };
        match key {
            None => Err(ServiceError::SessionNotResumable { session: session_id }),
            Some(model_key) => Ok(
                SpawnRequest {
                    prompt,
                    model_key,
                    cwd: session.cwd.clone(),
                    sandbox: session.sandbox,
                    judge_command,
                    timeout_secs,
                    worktree: WorktreePolicy::InPlace,
                    session: SessionTarget::Resume { session: session_id },
                    diff_first: true,
                    breaker_threshold: None,
                },
            ),
        }
    }
}

/// Law: a task that could not begin leaves no trace. It holds no session, every
/// other session is as it was, and no task was added.
pub proof fn law_failed_spawn_leaves_no_trace(
    before: Board,
    after: Board,
    session: SessionId,
    task: TaskId,
    other: u128,
)
    requires
        service::is_released(before, after, session, task),
    ensures
        !after.holds(task, session),
        after.tasks == before.tasks,
        after.running == before.running,
        after.sessions.dom() == before.sessions.dom(),
        other != session.bits && before.sessions.contains_key(other) ==> after.sessions[other]
            == before.sessions[other],
{
    assert(after.sessions.dom() =~= before.sessions.dom());
}

/// Law: a session that is held is not shared. Whoever asks for it is refused as
/// long as another task holds it.
pub proof fn law_held_session_is_refused(
    board: Board,
    session: SessionId,
    holder: TaskId,
    other: TaskId,
)
    requires
        board.holds(holder, session),
        holder != other,
    ensures
        board.refuses(SessionTarget::Resume { session }, other) is Some,
{
}

/// Law: a task that was opened holds its session once the record of the session
/// was written, whether the session is new or resumed.
pub proof fn law_opened_task_holds_its_session(
    board: Board,
    session: SessionRecord,
    task: TaskId,
    now: Timestamp,
)
    ensures
        session.owner == (SessionOwner::Task { task }) ==> (Board {
            sessions: board.sessions.insert(session.id.bits, session),
            ..board
        }).holds(task, session.id),
        board.sessions.contains_key(session.id.bits) && board.refuses(
            SessionTarget::Resume { session: session.id },
            task,
        ) is None ==> board.claimed(session.id, task, now).holds(task, session.id),
{
}

/// Law: nobody else ends a lease. While a task waits for its checkout or its
/// launch, the operations of other tasks leave its session to it.
pub proof fn law_nobody_else_ends_a_lease(
    before: Board,
    after: Board,
    task: TaskId,
    session: SessionId,
    other: TaskId,
    other_session: SessionId,
    now: Timestamp,
)
    requires
        before.holds(task, session),
        task != other,
        ({
            ||| service::is_released(before, after, other_session, other)
            ||| before.refuses(SessionTarget::Resume { session: other_session }, other) is None
                && after == before.claimed(other_session, other, now)
            ||| after == before.interrupted(other)
            ||| !before.sessions.contains_key(other_session.bits) && after.sessions
                == before.sessions.insert(other_session.bits, after.sessions[other_session.bits])
        }),
    ensures
        after.holds(task, session),
{
}

/// The position of an overridden setting among the arguments of a run.
pub proof fn lemma_override_is_an_argument(overrides: Seq<(String, String)>, at: int)
    requires
        0 <= at < overrides.len(),
    ensures
        crate::executor::override_args(overrides).len() == 2 * overrides.len(),
        crate::executor::override_args(overrides)[2 * at] == "-c"@,
        crate::executor::override_args(overrides)[2 * at + 1] == overrides[at].0@ + "="@
            + overrides[at].1@,
    decreases overrides.len(),
{
    let init = overrides.drop_last();
    if at < init.len() {
        lemma_override_is_an_argument(init, at);
    } else if init.len() > 0 {
        lemma_override_is_an_argument(init, 0);
    } else {
        assert(crate::executor::override_args(init).len() == 0);
    }
}

/// Whether an argument and the one behind it are `flag` and `value`.
pub open spec fn passes(args: Seq<Seq<char>>, flag: Seq<char>, value: Seq<char>) -> bool {
    exists|i: int| 0 <= i < args.len() - 1 && #[trigger] args[i] == flag && args[i + 1] == value
}

/// Law: a task runs on the model that it was given. Its run names the model and
/// the provider explicitly, and a run that resumes a conversation does so too.
pub proof fn law_run_names_model_and_provider(
    plan: LaunchPlan,
    leased: Leased,
    checkout: Option<WorktreeHandle>,
    resume: Option<String>,
)
    requires
        is_planned(plan, leased, checkout, resume),
    ensures
        passes(plan.args(), "-m"@, leased.entry.served_name@),
        passes(
            plan.args(),
            "-c"@,
            "model_provider"@ + "="@ + quoted(leased.entry.provider.id@),
        ),
        resume matches Some(id) ==> plan.args().skip(plan.args().len() - 4) == seq![
            "resume"@,
            "--"@,
            id@,
            leased.request.prompt@,
        ],
{
    let args = plan.args();
    crate::executor::law_model_is_always_named(plan);
    crate::executor::law_prompt_is_never_an_option(plan);
    let at = choose|i: int|
        0 <= i < args.len() - 1 && #[trigger] args[i] == "-m"@ && args[i + 1]
            == plan.model->Some_0@;
    assert(args[at] == "-m"@ && args[at + 1] == leased.entry.served_name@);
    let wanted = provider_overrides(leased.entry.provider);
    assert(wanted[0] == ("model_provider"@, quoted(leased.entry.provider.id@)));
    assert(override_texts(plan.overrides@).len() == plan.overrides@.len());
    assert(wanted.len() > 0);
    assert(override_texts(plan.overrides@)[0] == wanted[0]);
    lemma_override_is_an_argument(plan.overrides@, 0);
    let front = plan.head_args().len() as int;
    assert(args[front] == "-c"@);
    assert(args[front + 1] == "model_provider"@ + "="@ + quoted(leased.entry.provider.id@));
}

} // verus!

//! The decisions of applying a plan to the server, as a state machine: the
//! caller performs each action the machine asks for and reports the outcome.
//!
//! Order of work: updates of existing patterns; creation of missing patterns,
//! each followed by a save of the created pattern; a check that every local
//! pattern is present as desired; deletion of the server patterns without a
//! local counterpart; a final check that the server mirrors the directory.

use vstd::prelude::*;

use crate::dto::{PatternDto, PatternWrite};
use crate::local::LocalPattern;
use crate::sync::model::{
    creates_of, deletes_of, updates_of, OperationView, PlannedOperation, SyncPlan,
};
use crate::sync::planner::{
    build_sync_plan, first_repeat, plan_matches, server_problem, first_local_problem,
    PlanError,
};
use crate::text::{decimal, owned};

verus! {

/// Where the execution stands: which request it waits on.
#[derive(Clone, Copy, Debug, PartialEq, Eq, Structural)]
pub enum Stage {
    /// Nothing requested yet.
    Start,
    /// Waiting for the update of the given planned update.
    Updating(usize),
    /// Waiting for the creation of the given planned create.
    Creating(usize),
    /// Waiting for the save of the given created pattern.
    Finalizing(usize),
    /// Waiting for the server patterns, to check that all desired ones are present.
    VerifyingPresent,
    /// Waiting for the deletion of the given obsolete pattern.
    Deleting(usize),
    /// Waiting for the server patterns, for the final check.
    VerifyingExact,
    /// The server mirrors the directory.
    Done,
    /// The execution stopped on an error.
    Failed,
}

/// What the caller reports back.
#[derive(Debug)]
pub enum ExecEvent {
    /// The execution is started.
    Start,
    /// The requested update succeeded.
    Updated,
    /// The requested creation succeeded; the server's answer.
    Created(PatternDto),
    /// The server's current patterns.
    Fetched(Vec<PatternDto>),
    /// The requested deletion succeeded.
    Deleted,
}

/// Why the execution stopped.
#[derive(Debug)]
pub enum ExecError {
    /// A planned update has no UUID.
    UpdateWithoutUuid { name: String },
    /// The server created a pattern but gave no UUID for it.
    CreatedWithoutUuid,
    /// The server patterns could not be planned against.
    Plan(PlanError),
    /// After the writes, some local pattern is still missing or different.
    NotPresent { create: usize, update: usize },
    /// A pattern to delete has no UUID.
    DeleteWithoutUuid { name: String },
    /// After the deletions, the server still differs from the directory.
    NotExact { create: usize, update: usize, delete: usize },
    /// After the deletions, the server holds another number of patterns.
    CountMismatch { local: usize, server: usize },
}

/// What the caller is asked to do next.
#[derive(Debug)]
pub enum ExecAction {
    /// Save the pattern (PUT).
    Update(PatternWrite),
    /// Create the pattern (POST).
    Create(PatternWrite),
    /// Fetch the rule's patterns (GET).
    FetchPatterns,
    /// Delete the pattern with this UUID (DELETE).
    Delete { uuid: String, name: String },
    /// Nothing more: the server mirrors the directory.
    Finish,
    /// Stop with this error.
    Fail(ExecError),
}

/// The state of an execution.
pub struct SyncExecution {
    rule_id: String,
    locals: Vec<LocalPattern>,
    updates: Vec<PatternWrite>,
    creates: Vec<PatternWrite>,
    deletes: Vec<PatternDto>,
    stage: Stage,
}

/// The state of an execution, as values.
pub ghost struct ExecutionView {
    pub rule_id: Seq<char>,
    pub locals: Seq<LocalPattern>,
    /// The desired patterns of the plan's updates, in plan order.
    pub updates: Seq<PatternWrite>,
    /// The desired patterns of the plan's creates, in plan order.
    pub creates: Seq<PatternWrite>,
    /// The server patterns to delete, once presence is verified.
    pub deletes: Seq<PatternDto>,
    pub stage: Stage,
}

impl View for SyncExecution {
    type V = ExecutionView;

    closed spec fn view(&self) -> ExecutionView {
        ExecutionView {
            rule_id: self.rule_id@,
            locals: self.locals@,
            updates: self.updates@,
            creates: self.creates@,
            deletes: self.deletes@,
            stage: self.stage,
        }
    }
}

/// The desired patterns of the operations of one kind, in order.
pub open spec fn desired_of(ops: Seq<OperationView>, creating: bool) -> Seq<PatternWrite>
    decreases ops.len(),
{
    if ops.len() == 0 {
        seq![]
    } else {
        desired_of(ops.drop_last(), creating) + match ops.last() {
            OperationView::Create { desired } => if creating {
                seq![desired]
            } else {
                seq![]
            },
            OperationView::Update { desired, .. } => if creating {
                seq![]
            } else {
                seq![desired]
            },
            _ => seq![],
        }
    }
}

/// The server patterns removed by the delete operations, in order.
pub open spec fn deleted_of(ops: Seq<OperationView>) -> Seq<PatternDto>
    decreases ops.len(),
{
    if ops.len() == 0 {
        seq![]
    } else {
        deleted_of(ops.drop_last()) + match ops.last() {
            OperationView::Delete { current } => seq![current],
            _ => seq![],
        }
    }
}

/// Whether `event` is the kind of report the stage waits for.
pub open spec fn accepts_event(stage: Stage, event: ExecEvent) -> bool {
    match event {
        ExecEvent::Start => stage is Start,
        ExecEvent::Updated => stage is Updating || stage is Finalizing,
        ExecEvent::Created(_) => stage is Creating,
        ExecEvent::Fetched(_) => stage is VerifyingPresent || stage is VerifyingExact,
        ExecEvent::Deleted => stage is Deleting,
    }
}

/// The step that asks for the update at index `i` or, past the last one, for
/// the first creation.
pub open spec fn updates_from(v: ExecutionView, i: int, stage: Stage, action: ExecAction) -> bool {
    if i < v.updates.len() {
        if v.updates[i].uuid is None {
            stage is Failed && (action matches ExecAction::Fail(ExecError::UpdateWithoutUuid { name })
                && name@ == v.updates[i].name@)
        } else {
            stage == Stage::Updating(i as usize) && action == ExecAction::Update(v.updates[i])
        }
    } else {
        creates_from(v, 0, stage, action)
    }
}

/// The step that asks for the creation at index `i` or, past the last one,
/// for the server patterns.
pub open spec fn creates_from(v: ExecutionView, i: int, stage: Stage, action: ExecAction) -> bool {
    if i < v.creates.len() {
        stage == Stage::Creating(i as usize) && action == ExecAction::Create(v.creates[i])
    } else {
        stage is VerifyingPresent && action is FetchPatterns
    }
}

/// The step that asks for the deletion at index `i` or, past the last one,
/// for the server patterns.
pub open spec fn deletes_from(deletes: Seq<PatternDto>, i: int, stage: Stage, action: ExecAction) -> bool {
    if i < deletes.len() {
        if deletes[i].uuid is None || deletes[i].uuid.unwrap()@.len() == 0 {
            stage is Failed && (action matches ExecAction::Fail(ExecError::DeleteWithoutUuid { name })
                && name@ == deletes[i].name@)
        } else {
            stage == Stage::Deleting(i as usize) && (action matches ExecAction::Delete { uuid, name }
                && uuid@ == deletes[i].uuid.unwrap()@ && name@ == deletes[i].name@)
        }
    } else {
        stage is VerifyingExact && action is FetchPatterns
    }
}

/// The pattern saved after a creation: the desired pattern with the UUID,
/// sharing flag and owner the server gave, and the server's query type and
/// file filter where the desired pattern has none.
pub open spec fn finalized(desired: PatternWrite, created: PatternDto) -> PatternWrite {
    PatternWrite {
        uuid: created.uuid,
        shared: created.shared,
        user: created.user,
        query_type: crate::config::or_else(desired.query_type, created.query_type),
        file_regex: crate::config::or_else(desired.file_regex, created.file_regex),
        ..desired
    }
}

/// Whether a plan result is the error that stops a check of `server`.
pub open spec fn plan_failure(
    rule_id: Seq<char>,
    locals: Seq<LocalPattern>,
    server: Seq<PatternDto>,
    e: PlanError,
) -> bool {
    match server_problem(server) {
        Some(p) => e == p,
        None => match first_repeat(server, 0) {
            Some(j) => e == crate::sync::planner::repeat_error(server, j),
            None => first_local_problem(locals) == Some(e),
        },
    }
}

/// Whether planning `locals` against `server` succeeds.
pub open spec fn plannable(locals: Seq<LocalPattern>, server: Seq<PatternDto>) -> bool {
    server_problem(server) is None && first_repeat(server, 0) is None && first_local_problem(locals) is None
}

impl SyncExecution {
    /// The stage the execution is in.
    pub fn stage(&self) -> (r: Stage)
        ensures
            r == self@.stage,
    {
        self.stage
    }

    /// Whether the execution waits for a report of this kind, at a position
    /// that it holds (always so for an execution built by `new` and advanced
    /// by `step`).
    pub fn accepts(&self, event: &ExecEvent) -> (r: bool)
        ensures
            r == (accepts_event(self@.stage, *event) && indices_in_range(self@)),
    {
        let in_range = match self.stage {
            Stage::Updating(i) => i < self.updates.len(),
            Stage::Creating(i) => i < self.creates.len(),
            Stage::Finalizing(i) => i < self.creates.len(),
            Stage::Deleting(i) => i < self.deletes.len(),
            _ => true,
        };
        let kind = match event {
            ExecEvent::Start => self.stage == Stage::Start,
            ExecEvent::Updated => match self.stage {
                Stage::Updating(_) | Stage::Finalizing(_) => true,
                _ => false,
            },
            ExecEvent::Created(_) => match self.stage {
                Stage::Creating(_) => true,
                _ => false,
            },
            ExecEvent::Fetched(_) => self.stage == Stage::VerifyingPresent || self.stage
                == Stage::VerifyingExact,
            ExecEvent::Deleted => match self.stage {
                Stage::Deleting(_) => true,
                _ => false,
            },
        };
        kind && in_range
    }
}

/// Whether the position of the stage is within the list it walks.
pub open spec fn indices_in_range(v: ExecutionView) -> bool {
    &&& v.stage matches Stage::Updating(i) ==> i < v.updates.len()
    &&& v.stage matches Stage::Creating(i) ==> i < v.creates.len()
    &&& v.stage matches Stage::Finalizing(i) ==> i < v.creates.len()
    &&& v.stage matches Stage::Deleting(i) ==> i < v.deletes.len()
}

/// What the presence check decides, given the plan `ops` against `server`.
pub open spec fn present_outcome(
    ops: Seq<OperationView>,
    old: ExecutionView,
    server: Seq<PatternDto>,
    new: ExecutionView,
    action: ExecAction,
) -> bool {
    plan_matches(ops, old.rule_id, old.locals, server) && if creates_of(ops) + updates_of(ops) > 0 {
        new.stage is Failed && (action matches ExecAction::Fail(ExecError::NotPresent { create, update })
            && create == creates_of(ops) && update == updates_of(ops))
    } else {
        new.deletes == deleted_of(ops) && deletes_from(new.deletes, 0, new.stage, action)
    }
}

/// What the final check decides, given the plan `ops` against `server`.
pub open spec fn exact_outcome(
    ops: Seq<OperationView>,
    old: ExecutionView,
    server: Seq<PatternDto>,
    new: ExecutionView,
    action: ExecAction,
) -> bool {
    plan_matches(ops, old.rule_id, old.locals, server) && if creates_of(ops) + updates_of(ops)
        + deletes_of(ops) > 0 {
        new.stage is Failed && (action matches ExecAction::Fail(
            ExecError::NotExact { create, update, delete },
        ) && create == creates_of(ops) && update == updates_of(ops) && delete == deletes_of(ops))
    } else if server.len() != old.locals.len() {
        new.stage is Failed && (action matches ExecAction::Fail(
            ExecError::CountMismatch { local, server: count },
        ) && local == old.locals.len() && count == server.len())
    } else {
        new.stage is Done && action is Finish
    }
}

/// Whether the step from state `old` on `event` leads to state `new` and asks
/// for `action`.
pub open spec fn transition(old: ExecutionView, event: ExecEvent, new: ExecutionView, action: ExecAction) -> bool {
    &&& new.rule_id == old.rule_id
    &&& new.locals == old.locals
    &&& new.updates == old.updates
    &&& new.creates == old.creates
    &&& match (old.stage, event) {
        (Stage::Start, ExecEvent::Start) => new.deletes == old.deletes && updates_from(
            old,
            0,
            new.stage,
            action,
        ),
        (Stage::Updating(i), ExecEvent::Updated) => new.deletes == old.deletes && updates_from(
            old,
            i + 1,
            new.stage,
            action,
        ),
        (Stage::Creating(i), ExecEvent::Created(created)) => new.deletes == old.deletes && if created.uuid is None {
            new.stage is Failed && action matches ExecAction::Fail(ExecError::CreatedWithoutUuid)
        } else {
            new.stage == Stage::Finalizing(i) && action == ExecAction::Update(
                finalized(old.creates[i as int], created),
            )
        },
        (Stage::Finalizing(i), ExecEvent::Updated) => new.deletes == old.deletes && creates_from(
            old,
            i + 1,
            new.stage,
            action,
        ),
        (Stage::VerifyingPresent, ExecEvent::Fetched(server)) => if !plannable(old.locals, server@) {
            new.stage is Failed && (action matches ExecAction::Fail(ExecError::Plan(e))
                && plan_failure(old.rule_id, old.locals, server@, e))
        } else {
            exists|ops: Seq<OperationView>| present_outcome(ops, old, server@, new, action)
        },
        (Stage::Deleting(i), ExecEvent::Deleted) => new.deletes == old.deletes && deletes_from(
            old.deletes,
            i + 1,
            new.stage,
            action,
        ),
        (Stage::VerifyingExact, ExecEvent::Fetched(server)) => new.deletes == old.deletes && if !plannable(
            old.locals,
            server@,
        ) {
            new.stage is Failed && (action matches ExecAction::Fail(ExecError::Plan(e))
                && plan_failure(old.rule_id, old.locals, server@, e))
        } else {
            exists|ops: Seq<OperationView>| exact_outcome(ops, old, server@, new, action)
        },
        _ => false,
    }
}

fn plan_error_action(e: PlanError) -> (r: ExecAction)
    ensures
        r matches ExecAction::Fail(ExecError::Plan(f)) && f == e,
{
    ExecAction::Fail(ExecError::Plan(e))
}

impl SyncExecution {
    /// An execution of `plan`, which was built for `locals` against rule `rule_id`.
    pub fn new(rule_id: &str, locals: Vec<LocalPattern>, plan: &SyncPlan) -> (r: Self)
        ensures
            r@.rule_id == rule_id@,
            r@.locals == locals@,
            r@.updates == desired_of(plan@, false),
            r@.creates == desired_of(plan@, true),
            r@.deletes.len() == 0,
            r@.stage is Start,
    {
        let ops = plan.operations();
        let mut updates: Vec<PatternWrite> = Vec::new();
        let mut creates: Vec<PatternWrite> = Vec::new();
        let mut i: usize = 0;
        while i < ops.len()
            invariant
                i <= ops@.len(),
                crate::sync::model::op_views(ops@) == plan@,
                updates@ == desired_of(plan@.take(i as int), false),
                creates@ == desired_of(plan@.take(i as int), true),
            decreases ops@.len() - i,
        {
            proof {
                let t = plan@.take(i + 1);
                assert(t.drop_last() == plan@.take(i as int));
                assert(t.last() == ops@[i as int]@);
            }
            match &ops[i] {
                PlannedOperation::Create { desired } => {
                    creates.push(desired.clone());
                },
                PlannedOperation::Update { desired, .. } => {
                    updates.push(desired.clone());
                },
                _ => {},
            }
            i += 1;
        }
        assert(plan@.take(ops@.len() as int) == plan@);
        SyncExecution {
            rule_id: owned(rule_id),
            locals,
            updates,
            creates,
            deletes: Vec::new(),
            stage: Stage::Start,
        }
    }

    fn from_updates(&mut self, i: usize) -> (action: ExecAction)
        requires
            i <= old(self)@.updates.len(),
        ensures
            final(self)@ == (ExecutionView { stage: final(self)@.stage, ..old(self)@ }),
            updates_from(old(self)@, i as int, final(self)@.stage, action),
    {
        if i < self.updates.len() {
            let desired = &self.updates[i];
            if desired.uuid.is_none() {
                let name = desired.name.clone();
                self.stage = Stage::Failed;
                return ExecAction::Fail(ExecError::UpdateWithoutUuid { name });
            }
            let w = desired.clone();
            self.stage = Stage::Updating(i);
            ExecAction::Update(w)
        } else {
            self.from_creates(0)
        }
    }

    fn from_creates(&mut self, i: usize) -> (action: ExecAction)
        requires
            i <= old(self)@.creates.len(),
        ensures
            final(self)@ == (ExecutionView { stage: final(self)@.stage, ..old(self)@ }),
            creates_from(old(self)@, i as int, final(self)@.stage, action),
    {
        if i < self.creates.len() {
            let w = self.creates[i].clone();
            self.stage = Stage::Creating(i);
            ExecAction::Create(w)
        } else {
            self.stage = Stage::VerifyingPresent;
            ExecAction::FetchPatterns
        }
    }

    fn from_deletes(&mut self, i: usize) -> (action: ExecAction)
        requires
            i <= old(self)@.deletes.len(),
        ensures
            final(self)@ == (ExecutionView { stage: final(self)@.stage, ..old(self)@ }),
            deletes_from(old(self)@.deletes, i as int, final(self)@.stage, action),
    {
        if i < self.deletes.len() {
            let current = &self.deletes[i];
            let uuid = match &current.uuid {
                Some(u) => u.clone(),
                None => String::new(),
            };
            if uuid.as_str().is_empty() {
                let name = current.name.clone();
                self.stage = Stage::Failed;
                return ExecAction::Fail(ExecError::DeleteWithoutUuid { name });
            }
            let name = current.name.clone();
            self.stage = Stage::Deleting(i);
            ExecAction::Delete { uuid, name }
        } else {
            self.stage = Stage::VerifyingExact;
            ExecAction::FetchPatterns
        }
    }

    fn on_created(&mut self, i: usize, created: PatternDto) -> (action: ExecAction)
        requires
            i < old(self)@.creates.len(),
        ensures
            final(self)@ == (ExecutionView { stage: final(self)@.stage, ..old(self)@ }),
            created.uuid is None ==> (final(self)@.stage is Failed && action matches ExecAction::Fail(
                ExecError::CreatedWithoutUuid,
            )),
            created.uuid is Some ==> (final(self)@.stage == Stage::Finalizing(i) && action
                == ExecAction::Update(finalized(old(self)@.creates[i as int], created))),
    {
        if created.uuid.is_none() {
            self.stage = Stage::Failed;
            return ExecAction::Fail(ExecError::CreatedWithoutUuid);
        }
        let desired = &self.creates[i];
        let w = PatternWrite {
            uuid: created.uuid,
            rule_id: desired.rule_id.clone(),
            severity: desired.severity,
            confidence: desired.confidence,
            name: desired.name.clone(),
            xml: desired.xml.clone(),
            pattern_type: desired.pattern_type,
            active: desired.active,
            shared: created.shared,
            user: created.user,
            query_type: match desired.query_type {
                Some(q) => Some(q),
                None => created.query_type,
            },
            file_regex: match &desired.file_regex {
                Some(f) => Some(f.clone()),
                None => created.file_regex,
            },
        };
        self.stage = Stage::Finalizing(i);
        ExecAction::Update(w)
    }

    #[verifier::spinoff_prover]
    #[verifier::rlimit(40)]
    fn on_present(&mut self, server: Vec<PatternDto>) -> (action: ExecAction)
        ensures
            final(self)@.rule_id == old(self)@.rule_id,
            final(self)@.locals == old(self)@.locals,
            final(self)@.updates == old(self)@.updates,
            final(self)@.creates == old(self)@.creates,
            !plannable(old(self)@.locals, server@) ==> (final(self)@.stage is Failed && (action matches ExecAction::Fail(
                ExecError::Plan(e),
            ) && plan_failure(old(self)@.rule_id, old(self)@.locals, server@, e))),
            plannable(old(self)@.locals, server@) ==> exists|ops: Seq<OperationView>|
                present_outcome(ops, old(self)@, server@, final(self)@, action),
    {
        let plan = match build_sync_plan(self.rule_id.as_str(), self.locals.as_slice(), server.as_slice()) {
            Ok(p) => p,
            Err(e) => {
                self.stage = Stage::Failed;
                return plan_error_action(e);
            },
        };
        let ghost pv = plan@;
        assert(plan_matches(pv, self@.rule_id, self@.locals, server@));
        let counts = plan.counts();
        if counts.create != 0 || counts.update != 0 {
            self.stage = Stage::Failed;
            let action = ExecAction::Fail(
                ExecError::NotPresent { create: counts.create, update: counts.update },
            );
            assert(present_outcome(pv, old(self)@, server@, self@, action));
            return action;
        }
        let ops = plan.operations();
        let mut deletes: Vec<PatternDto> = Vec::new();
        let mut i: usize = 0;
        while i < ops.len()
            invariant
                i <= ops@.len(),
                crate::sync::model::op_views(ops@) == plan@,
                deletes@ == deleted_of(plan@.take(i as int)),
            decreases ops@.len() - i,
        {
            proof {
                let t = plan@.take(i + 1);
                assert(t.drop_last() == plan@.take(i as int));
                assert(t.last() == ops@[i as int]@);
            }
            match &ops[i] {
                PlannedOperation::Delete { current } => {
                    deletes.push(current.clone());
                },
                _ => {},
            }
            i += 1;
        }
        assert(plan@.take(ops@.len() as int) == plan@);
        self.deletes = deletes;
        let action = self.from_deletes(0);
        assert(self@.deletes == deleted_of(pv));
        assert(present_outcome(pv, old(self)@, server@, self@, action));
        action
    }

    #[verifier::spinoff_prover]
    #[verifier::rlimit(40)]
    fn on_exact(&mut self, server: Vec<PatternDto>) -> (action: ExecAction)
        ensures
            final(self)@ == (ExecutionView { stage: final(self)@.stage, ..old(self)@ }),
            !plannable(old(self)@.locals, server@) ==> (final(self)@.stage is Failed && (action matches ExecAction::Fail(
                ExecError::Plan(e),
            ) && plan_failure(old(self)@.rule_id, old(self)@.locals, server@, e))),
            plannable(old(self)@.locals, server@) ==> exists|ops: Seq<OperationView>|
                exact_outcome(ops, old(self)@, server@, final(self)@, action),
    {
        let plan = match build_sync_plan(self.rule_id.as_str(), self.locals.as_slice(), server.as_slice()) {
            Ok(p) => p,
            Err(e) => {
                self.stage = Stage::Failed;
                return plan_error_action(e);
            },
        };
        let ghost pv = plan@;
        assert(plan_matches(pv, self@.rule_id, self@.locals, server@));
        let counts = plan.counts();
        if plan.has_writes() {
            self.stage = Stage::Failed;
            let action = ExecAction::Fail(
                ExecError::NotExact {
                    create: counts.create,
                    update: counts.update,
                    delete: counts.delete,
                },
            );
            assert(exact_outcome(pv, old(self)@, server@, self@, action));
            return action;
        }
        if server.len() != self.locals.len() {
            self.stage = Stage::Failed;
            let action = ExecAction::Fail(
                ExecError::CountMismatch { local: self.locals.len(), server: server.len() },
            );
            assert(exact_outcome(pv, old(self)@, server@, self@, action));
            return action;
        }
        self.stage = Stage::Done;
        let action = ExecAction::Finish;
        assert(exact_outcome(pv, old(self)@, server@, self@, action));
        action
    }

    /// Takes the caller's report of the last action and gives the next one.
    pub fn step(&mut self, event: ExecEvent) -> (action: ExecAction)
        requires
            accepts_event(old(self)@.stage, event),
            indices_in_range(old(self)@),
        ensures
            transition(old(self)@, event, final(self)@, action),
            indices_in_range(final(self)@),
    {
        let n_updates = self.updates.len();
        let n_creates = self.creates.len();
        let n_deletes = self.deletes.len();
        match event {
            ExecEvent::Start => self.from_updates(0),
            ExecEvent::Updated => match self.stage {
                Stage::Updating(i) => self.from_updates(i + 1),
                Stage::Finalizing(i) => self.from_creates(i + 1),
                _ => ExecAction::Finish,
            },
            ExecEvent::Created(created) => match self.stage {
                Stage::Creating(i) => self.on_created(i, created),
                _ => ExecAction::Finish,
            },
            ExecEvent::Fetched(server) => {
                if self.stage == Stage::VerifyingPresent {
                    self.on_present(server)
                } else {
                    self.on_exact(server)
                }
            },
            ExecEvent::Deleted => match self.stage {
                Stage::Deleting(i) => self.from_deletes(i + 1),
                _ => ExecAction::Finish,
            },
        }
    }
}

/// Deletions are asked for only once the server was checked to hold every
/// local pattern as desired: the patterns deleted are those of the plan built
/// against that checked state.
pub proof fn lemma_delete_only_after_presence_check(
    old: ExecutionView,
    event: ExecEvent,
    new: ExecutionView,
    action: ExecAction,
)
    requires
        transition(old, event, new, action),
        action is Delete,
    ensures
        (old.stage is VerifyingPresent && (event matches ExecEvent::Fetched(server) && exists|ops: Seq<OperationView>|
            plan_matches(ops, old.rule_id, old.locals, server@) && creates_of(ops) == 0
                && updates_of(ops) == 0 && new.deletes == deleted_of(ops)))
            || (old.stage is Deleting && new.deletes == old.deletes),
{
    match (old.stage, event) {
        (Stage::VerifyingPresent, ExecEvent::Fetched(server)) => {
            let ops = choose|ops: Seq<OperationView>| present_outcome(ops, old, server@, new, action);
            assert(plan_matches(ops, old.rule_id, old.locals, server@) && creates_of(ops) == 0
                && updates_of(ops) == 0 && new.deletes == deleted_of(ops));
        },
        _ => {},
    }
}

/// The execution finishes only when the server mirrors the directory: every
/// local pattern has a server pattern with its name and nothing to change,
/// every server pattern has a local counterpart, and the counts agree.
pub proof fn lemma_finish_means_mirror(
    old: ExecutionView,
    event: ExecEvent,
    new: ExecutionView,
    action: ExecAction,
)
    requires
        transition(old, event, new, action),
        action is Finish,
    ensures
        old.stage is VerifyingExact,
        event matches ExecEvent::Fetched(server) && server@.len() == old.locals.len() && (forall|k: int|
            0 <= k < old.locals.len() ==> (crate::sync::planner::match_of(
                server@,
                #[trigger] crate::sync::planner::local_key(old.locals, k),
            ) matches Some(j) && crate::sync::planner::local_changes(server@[j], old.locals[k]).len()
                == 0)) && (forall|j: int|
            0 <= j < server@.len() ==> !crate::sync::planner::is_extra(server@, old.locals, j)),
{
    match (old.stage, event) {
        (Stage::VerifyingExact, ExecEvent::Fetched(server)) => {
            let ops = choose|ops: Seq<OperationView>| exact_outcome(ops, old, server@, new, action);
            crate::sync::planner::lemma_no_writes_means_mirror(ops, old.rule_id, old.locals, server@);
        },
        _ => {},
    }
}

/// Once an execution finishes, planning the same directory again against the
/// server state it last fetched finds nothing to create, update or delete.
pub proof fn lemma_replan_after_finish_is_empty(
    old: ExecutionView,
    event: ExecEvent,
    new: ExecutionView,
    action: ExecAction,
    ops: Seq<OperationView>,
)
    requires
        transition(old, event, new, action),
        action is Finish,
        event matches ExecEvent::Fetched(server) && plan_matches(ops, old.rule_id, old.locals, server@),
    ensures
        creates_of(ops) == 0,
        updates_of(ops) == 0,
        deletes_of(ops) == 0,
{
    lemma_finish_means_mirror(old, event, new, action);
    match event {
        ExecEvent::Fetched(server) => {
            crate::sync::planner::lemma_mirror_means_no_writes(ops, old.rule_id, old.locals, server@);
        },
        _ => {},
    }
}

/// The save that follows a creation writes what was desired: name, XML, rule,
/// type, active flag, severity and confidence as the plan wanted them; only the
/// UUID, sharing flag and owner come from the server's answer, and the query
/// type and file filter only where the plan left them open.
pub proof fn lemma_finalizing_write_keeps_desired(
    old: ExecutionView,
    created: PatternDto,
    new: ExecutionView,
    i: usize,
    w: PatternWrite,
)
    requires
        old.stage == Stage::Creating(i),
        transition(old, ExecEvent::Created(created), new, ExecAction::Update(w)),
    ensures
        created.uuid is Some,
        new.stage == Stage::Finalizing(i),
        w.name == old.creates[i as int].name,
        w.xml == old.creates[i as int].xml,
        w.rule_id == old.creates[i as int].rule_id,
        w.pattern_type == old.creates[i as int].pattern_type,
        w.active == old.creates[i as int].active,
        w.severity == old.creates[i as int].severity,
        w.confidence == old.creates[i as int].confidence,
        w.uuid == created.uuid,
        w.shared == created.shared,
        w.user == created.user,
        old.creates[i as int].query_type is Some ==> w.query_type == old.creates[i as int].query_type,
        old.creates[i as int].query_type is None ==> w.query_type == created.query_type,
        old.creates[i as int].file_regex is Some ==> w.file_regex == old.creates[i as int].file_regex,
        old.creates[i as int].file_regex is None ==> w.file_regex == created.file_regex,
{
}

/// The message that reports an execution error.
pub open spec fn exec_error_message(e: ExecError) -> Seq<char> {
    match e {
        ExecError::UpdateWithoutUuid { name } => "cannot update pattern "@ + crate::text::debug_text(name@)
            + ": UUID is missing"@,
        ExecError::CreatedWithoutUuid => "appScreener created a pattern but returned no UUID"@,
        ExecError::Plan(p) => crate::sync::planner::plan_error_message(p),
        ExecError::NotPresent { create, update } => "post-write verification failed: create="@ + decimal(
            create as int,
        ) + ", update="@ + decimal(update as int),
        ExecError::DeleteWithoutUuid { name } => "cannot delete pattern "@ + crate::text::debug_text(name@)
            + ": UUID is missing"@,
        ExecError::NotExact { create, update, delete } => "final verification failed: create="@
            + decimal(create as int) + ", update="@ + decimal(update as int) + ", delete="@ + decimal(
            delete as int,
        ),
        ExecError::CountMismatch { local, server } => "final pattern count mismatch: local="@ + decimal(
            local as int,
        ) + ", server="@ + decimal(server as int),
    }
}

fn push_count(s: &mut String, n: usize)
    ensures
        final(s)@ == old(s)@ + decimal(n as int),
{
    crate::text::push_digits(s, n as u64);
}

impl ExecError {
    /// The message that reports this error.
    pub fn message(&self) -> (r: String)
        ensures
            r@ == exec_error_message(*self),
    {
        match self {
            ExecError::UpdateWithoutUuid { name } => {
                let mut s = owned("cannot update pattern ");
                let quoted = crate::text::debug_quoted(name.as_str());
                s.append(quoted.as_str());
                s.append(": UUID is missing");
                s
            },
            ExecError::CreatedWithoutUuid => owned("appScreener created a pattern but returned no UUID"),
            ExecError::Plan(p) => p.message(),
            ExecError::NotPresent { create, update } => {
                let mut s = owned("post-write verification failed: create=");
                push_count(&mut s, *create);
                s.append(", update=");
                push_count(&mut s, *update);
                s
            },
            ExecError::DeleteWithoutUuid { name } => {
                let mut s = owned("cannot delete pattern ");
                let quoted = crate::text::debug_quoted(name.as_str());
                s.append(quoted.as_str());
                s.append(": UUID is missing");
                s
            },
            ExecError::NotExact { create, update, delete } => {
                let mut s = owned("final verification failed: create=");
                push_count(&mut s, *create);
                s.append(", update=");
                push_count(&mut s, *update);
                s.append(", delete=");
                push_count(&mut s, *delete);
                s
            },
            ExecError::CountMismatch { local, server } => {
                let mut s = owned("final pattern count mismatch: local=");
                push_count(&mut s, *local);
                s.append(", server=");
                push_count(&mut s, *server);
                s
            },
        }
    }
}

/// What `apply` does with a plan before any request.
#[derive(Clone, Copy, Debug, PartialEq, Eq, Structural)]
pub enum ApplyDecision {
    /// The rule already matches the directory: nothing to apply.
    UpToDate,
    /// The directory holds no pattern and erasing the rule was not allowed.
    RefuseEmpty,
    /// Apply the plan.
    Proceed,
}

/// Whether to apply a plan: not when it has no writes; not when the local
/// directory is empty unless erasing every server pattern is allowed.
pub fn apply_decision(plan: &SyncPlan, local_count: usize, allow_empty: bool) -> (r: ApplyDecision)
    ensures
        creates_of(plan@) + updates_of(plan@) + deletes_of(plan@) == 0 ==> r == ApplyDecision::UpToDate,
        creates_of(plan@) + updates_of(plan@) + deletes_of(plan@) > 0 && local_count == 0 && !allow_empty
            ==> r == ApplyDecision::RefuseEmpty,
        creates_of(plan@) + updates_of(plan@) + deletes_of(plan@) > 0 && (local_count > 0 || allow_empty)
            ==> r == ApplyDecision::Proceed,
{
    if !plan.has_writes() {
        ApplyDecision::UpToDate
    } else if local_count == 0 && !allow_empty {
        ApplyDecision::RefuseEmpty
    } else {
        ApplyDecision::Proceed
    }
}
} // verus!

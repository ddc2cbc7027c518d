//! The protocol that makes sure a multiplexer session exists for a directory
//! and hands the terminal over to it.
//!
//! The protocol is a state machine: [`Reconciliation::start`] gives the first
//! request for the multiplexer, and each reply handed to
//! [`Reconciliation::advance`] gives the next request or the outcome. The
//! caller performs the requests; nothing here talks to a multiplexer.
use crate::text::{final_component, final_component_of, opt_string_view};
use vstd::prelude::*;

verus! {

/// Why a reconciliation failed; each names the step that failed.
#[derive(PartialEq, Eq, Structural, Debug, Clone, Copy)]
pub enum SessionError {
    /// The directory has no final path component to name a session after.
    InvalidDirectoryError,
    /// The multiplexer server could not be started.
    ServerStartError,
    /// The existing sessions could not be listed.
    SessionQueryError,
    /// The session could not be created.
    SessionCreateError,
    /// The terminal could not be attached or switched to the session.
    SessionAttachError,
}

/// A request for the multiplexer.
#[derive(Debug, Clone, PartialEq, Eq)]
pub enum MuxRequest {
    /// Start the server; a no-op when it already runs.
    StartServer,
    /// List the names of the existing sessions.
    ListSessions,
    /// Create a detached session `name` whose working directory is `dir`,
    /// and run `command` in it when there is one.
    NewSession { name: String, dir: String, command: Option<String> },
    /// Attach this terminal to session `name` (outside a multiplexer client).
    AttachSession { name: String },
    /// Switch the current client to session `name` (inside a client).
    SwitchClient { name: String },
}

/// The multiplexer's answer to the last request.
#[derive(Debug, Clone, PartialEq, Eq)]
pub enum MuxReply {
    /// The request succeeded and returned nothing of interest.
    Done,
    /// The request failed.
    Failed,
    /// The names of the existing sessions, in answer to a listing.
    Sessions(Vec<String>),
}

/// What to do after a reply: make another request, or stop with an outcome.
#[derive(Debug, PartialEq, Eq)]
pub enum ReconcileStep {
    Request(MuxRequest),
    Finished(Result<(), SessionError>),
}

/// Where a reconciliation stands: which reply it waits for, or how it ended.
#[derive(Debug, Clone, Copy)]
pub enum Phase {
    AwaitServer,
    AwaitSessions,
    AwaitCreate,
    AwaitHandoff,
    Finished(Result<(), SessionError>),
}

/// One run of the protocol for one target directory.
#[derive(Debug)]
pub struct Reconciliation {
    dir: String,
    name: Option<String>,
    inside_client: bool,
    command: Option<String>,
    phase: Phase,
}

/// A request as the protocol's specification sees it.
pub enum MuxRequestView {
    StartServer,
    ListSessions,
    NewSession { name: Seq<char>, dir: Seq<char>, command: Option<Seq<char>> },
    AttachSession { name: Seq<char> },
    SwitchClient { name: Seq<char> },
}

/// A reply as the protocol's specification sees it.
pub enum MuxReplyView {
    Done,
    Failed,
    Sessions(Seq<Seq<char>>),
}

/// A step as the protocol's specification sees it.
pub enum ReconcileStepView {
    Request(MuxRequestView),
    Finished(Result<(), SessionError>),
}

/// A reconciliation's state: the target directory, the session name derived
/// from it (if any), whether the process runs inside a multiplexer client, the
/// startup command, and the phase.
pub struct ReconciliationView {
    pub dir: Seq<char>,
    pub name: Option<Seq<char>>,
    pub inside_client: bool,
    pub command: Option<Seq<char>>,
    pub phase: Phase,
}

impl View for MuxRequest {
    type V = MuxRequestView;

    open spec fn view(&self) -> MuxRequestView {
        match self {
            MuxRequest::StartServer => MuxRequestView::StartServer,
            MuxRequest::ListSessions => MuxRequestView::ListSessions,
            MuxRequest::NewSession { name, dir, command } => MuxRequestView::NewSession {
                name: name@,
                dir: dir@,
                command: opt_string_view(*command),
            },
            MuxRequest::AttachSession { name } => MuxRequestView::AttachSession { name: name@ },
            MuxRequest::SwitchClient { name } => MuxRequestView::SwitchClient { name: name@ },
        }
    }
}

impl View for MuxReply {
    type V = MuxReplyView;

    open spec fn view(&self) -> MuxReplyView {
        match self {
            MuxReply::Done => MuxReplyView::Done,
            MuxReply::Failed => MuxReplyView::Failed,
            MuxReply::Sessions(names) => MuxReplyView::Sessions(names.deep_view()),
        }
    }
}

impl View for ReconcileStep {
    type V = ReconcileStepView;

    open spec fn view(&self) -> ReconcileStepView {
        match self {
            ReconcileStep::Request(req) => ReconcileStepView::Request(req@),
            ReconcileStep::Finished(outcome) => ReconcileStepView::Finished(*outcome),
        }
    }
}

impl View for Reconciliation {
    type V = ReconciliationView;

    closed spec fn view(&self) -> ReconciliationView {
        ReconciliationView {
            dir: self.dir@,
            name: opt_string_view(self.name),
            inside_client: self.inside_client,
            command: opt_string_view(self.command),
            phase: self.phase,
        }
    }
}

/// The state in which a reconciliation of `dir` starts: the session is named
/// after the directory's final path component.
pub open spec fn initial_state(
    dir: Seq<char>,
    inside_client: bool,
    command: Option<Seq<char>>,
) -> ReconciliationView {
    ReconciliationView {
        dir,
        name: final_component(dir),
        inside_client,
        command,
        phase: Phase::AwaitServer,
    }
}

/// Stop with `outcome`.
pub open spec fn finish(s: ReconciliationView, outcome: Result<(), SessionError>) -> (
    ReconciliationView,
    ReconcileStepView,
) {
    (
        ReconciliationView { phase: Phase::Finished(outcome), ..s },
        ReconcileStepView::Finished(outcome),
    )
}

/// The handoff request: switch-client inside a multiplexer client, attach
/// outside one.
pub open spec fn handoff_request(inside_client: bool, name: Seq<char>) -> MuxRequestView {
    if inside_client {
        MuxRequestView::SwitchClient { name }
    } else {
        MuxRequestView::AttachSession { name }
    }
}

/// Move on to the handoff.
pub open spec fn hand_off(s: ReconciliationView, name: Seq<char>) -> (
    ReconciliationView,
    ReconcileStepView,
) {
    (
        ReconciliationView { phase: Phase::AwaitHandoff, ..s },
        ReconcileStepView::Request(handoff_request(s.inside_client, name)),
    )
}

/// The transition once the session name is known.
pub open spec fn next_named(s: ReconciliationView, name: Seq<char>, reply: MuxReplyView) -> (
    ReconciliationView,
    ReconcileStepView,
) {
    match s.phase {
        Phase::AwaitServer => (
            ReconciliationView { phase: Phase::AwaitSessions, ..s },
            ReconcileStepView::Request(MuxRequestView::ListSessions),
        ),
        Phase::AwaitSessions => match reply {
            MuxReplyView::Sessions(existing) => if existing.contains(name) {
                hand_off(s, name)
            } else {
                (
                    ReconciliationView { phase: Phase::AwaitCreate, ..s },
                    ReconcileStepView::Request(
                        MuxRequestView::NewSession { name, dir: s.dir, command: s.command },
                    ),
                )
            },
            _ => finish(s, Err(SessionError::SessionQueryError)),
        },
        Phase::AwaitCreate => if reply is Failed {
            finish(s, Err(SessionError::SessionCreateError))
        } else {
            hand_off(s, name)
        },
        Phase::AwaitHandoff => if reply is Failed {
            finish(s, Err(SessionError::SessionAttachError))
        } else {
            finish(s, Ok(()))
        },
        Phase::Finished(outcome) => (s, ReconcileStepView::Finished(outcome)),
    }
}

/// The protocol's transition on a reply. The first failure ends the run with
/// the error of its step; a finished run stays finished.
pub open spec fn next_step(s: ReconciliationView, reply: MuxReplyView) -> (
    ReconciliationView,
    ReconcileStepView,
) {
    match s.phase {
        Phase::Finished(outcome) => (s, ReconcileStepView::Finished(outcome)),
        _ => if s.phase is AwaitServer && reply is Failed {
            finish(s, Err(SessionError::ServerStartError))
        } else {
            match s.name {
                None => finish(s, Err(SessionError::InvalidDirectoryError)),
                Some(name) => next_named(s, name, reply),
            }
        },
    }
}

fn clone_opt_string(o: &Option<String>) -> (r: Option<String>)
    ensures
        opt_string_view(r) == opt_string_view(*o),
{
    match o {
        Some(s) => Some(s.clone()),
        None => None,
    }
}

/// Whether `name` is one of `names`.
fn contains_name(names: &Vec<String>, name: &String) -> (r: bool)
    ensures
        r == names.deep_view().contains(name@),
{
    let mut i: usize = 0;
    while i < names.len()
        invariant
            i <= names@.len(),
            forall|k: int| 0 <= k < i ==> names.deep_view()[k] != name@,
        decreases names@.len() - i,
    {
        if names[i] == *name {
            assert(names.deep_view()[i as int] == name@);
            return true;
        }
        i = i + 1;
    }
    false
}

impl Reconciliation {
    /// Starts reconciling `dir`. `inside_client` tells whether this process
    /// runs inside a multiplexer client; `command` is run in a session that
    /// has to be created. The first request is always to start the server.
    pub fn start(dir: String, inside_client: bool, command: Option<String>) -> (r: (
        Reconciliation,
        MuxRequest,
    ))
        ensures
            r.0@ == initial_state(dir@, inside_client, opt_string_view(command)),
            r.1@ == MuxRequestView::StartServer,
    {
        let name = final_component_of(dir.as_str());
        let r = Reconciliation { dir, name, inside_client, command, phase: Phase::AwaitServer };
        (r, MuxRequest::StartServer)
    }

    fn finish(&mut self, outcome: Result<(), SessionError>) -> (step: ReconcileStep)
        ensures
            (final(self)@, step@) == finish(old(self)@, outcome),
    {
        self.phase = Phase::Finished(outcome);
        ReconcileStep::Finished(outcome)
    }

    fn hand_off(&mut self, name: &String) -> (step: ReconcileStep)
        ensures
            (final(self)@, step@) == hand_off(old(self)@, name@),
    {
        self.phase = Phase::AwaitHandoff;
        let name = name.clone();
        if self.inside_client {
            ReconcileStep::Request(MuxRequest::SwitchClient { name })
        } else {
            ReconcileStep::Request(MuxRequest::AttachSession { name })
        }
    }

    /// Takes the multiplexer's reply to the last request and gives the next
    /// request, or the outcome.
    pub fn advance(&mut self, reply: MuxReply) -> (step: ReconcileStep)
        ensures
            (final(self)@, step@) == next_step(old(self)@, reply@),
    {
        if let Phase::Finished(outcome) = self.phase {
            return ReconcileStep::Finished(outcome);
        }
        if matches!(self.phase, Phase::AwaitServer) && matches!(reply, MuxReply::Failed) {
            return self.finish(Err(SessionError::ServerStartError));
        }
        let name = match &self.name {
            Some(name) => name.clone(),
            None => {
                return self.finish(Err(SessionError::InvalidDirectoryError));
            },
        };
        match self.phase {
            Phase::AwaitServer => {
                self.phase = Phase::AwaitSessions;
                ReconcileStep::Request(MuxRequest::ListSessions)
            },
            Phase::AwaitSessions => match reply {
                MuxReply::Sessions(existing) => {
                    if contains_name(&existing, &name) {
                        self.hand_off(&name)
                    } else {
                        self.phase = Phase::AwaitCreate;
                        let dir = self.dir.clone();
                        let command = clone_opt_string(&self.command);
                        ReconcileStep::Request(MuxRequest::NewSession { name, dir, command })
                    }
                },
                _ => self.finish(Err(SessionError::SessionQueryError)),
            },
            Phase::AwaitCreate => match reply {
                MuxReply::Failed => self.finish(Err(SessionError::SessionCreateError)),
                _ => self.hand_off(&name),
            },
            Phase::AwaitHandoff => match reply {
                MuxReply::Failed => self.finish(Err(SessionError::SessionAttachError)),
                _ => self.finish(Ok(())),
            },
            Phase::Finished(outcome) => ReconcileStep::Finished(outcome),
        }
    }

    /// How the run ended, or `None` while it goes on.
    pub fn outcome(&self) -> (r: Option<Result<(), SessionError>>)
        ensures
            r == (match self@.phase {
                Phase::Finished(outcome) => Some(outcome),
                _ => None,
            }),
    {
        match self.phase {
            Phase::Finished(outcome) => Some(outcome),
            _ => None,
        }
    }
}

/// How many of `sessions` are named `name`.
pub open spec fn sessions_named(sessions: Seq<Seq<char>>, name: Seq<char>) -> nat {
    sessions.to_multiset().count(name)
}

/// A multiplexer that carries out every request: `sessions` names the
/// sessions it holds before the request, and the result gives them after it,
/// with the reply.
pub open spec fn obliging_reply(sessions: Seq<Seq<char>>, req: MuxRequestView) -> (
    Seq<Seq<char>>,
    MuxReplyView,
) {
    match req {
        MuxRequestView::ListSessions => (sessions, MuxReplyView::Sessions(sessions)),
        MuxRequestView::NewSession { name, .. } => (sessions.push(name), MuxReplyView::Done),
        _ => (sessions, MuxReplyView::Done),
    }
}

/// Runs the protocol from state `s` against an obliging multiplexer that
/// holds `sessions`, beginning with request `req`, for at most `fuel`
/// requests. Gives the final state, the sessions afterwards, and the
/// requests made in order.
pub open spec fn run_against(
    s: ReconciliationView,
    sessions: Seq<Seq<char>>,
    req: MuxRequestView,
    fuel: nat,
) -> (ReconciliationView, Seq<Seq<char>>, Seq<MuxRequestView>)
    decreases fuel,
{
    if fuel == 0 {
        (s, sessions, Seq::empty())
    } else {
        let (after, reply) = obliging_reply(sessions, req);
        let (next, step) = next_step(s, reply);
        match step {
            ReconcileStepView::Finished(_) => (next, after, seq![req]),
            ReconcileStepView::Request(following) => {
                let (last, sessions_last, reqs) = run_against(next, after, following, (fuel - 1) as nat);
                (last, sessions_last, seq![req] + reqs)
            },
        }
    }
}

/// A whole reconciliation of `dir` against an obliging multiplexer that
/// holds `sessions`. Four requests are the most a run makes.
pub open spec fn reconcile_against(
    dir: Seq<char>,
    inside_client: bool,
    command: Option<Seq<char>>,
    sessions: Seq<Seq<char>>,
) -> (ReconciliationView, Seq<Seq<char>>, Seq<MuxRequestView>) {
    run_against(initial_state(dir, inside_client, command), sessions, MuxRequestView::StartServer, 4)
}

/// Reconciling a directory whose session does not exist yet makes exactly one
/// new-session request, with the directory's name and path, then one handoff,
/// and succeeds; the multiplexer then holds that one session more.
pub proof fn lemma_reconcile_creates_missing_session(
    dir: Seq<char>,
    inside_client: bool,
    command: Option<Seq<char>>,
    sessions: Seq<Seq<char>>,
)
    requires
        final_component(dir) is Some,
        !sessions.contains(final_component(dir)->0),
    ensures
        ({
            let name = final_component(dir)->0;
            let (last, after, reqs) = reconcile_against(dir, inside_client, command, sessions);
            &&& last.phase == Phase::Finished(Ok(()))
            &&& after == sessions.push(name)
            &&& reqs == seq![
                MuxRequestView::StartServer,
                MuxRequestView::ListSessions,
                MuxRequestView::NewSession { name, dir, command },
                handoff_request(inside_client, name),
            ]
        }),
{
    reveal_with_fuel(run_against, 5);
    let name = final_component(dir)->0;
    let (_, _, reqs) = reconcile_against(dir, inside_client, command, sessions);
    assert(reqs =~= seq![
        MuxRequestView::StartServer,
        MuxRequestView::ListSessions,
        MuxRequestView::NewSession { name, dir, command },
        handoff_request(inside_client, name),
    ]);
}

/// Reconciling a directory whose session exists already makes no
/// new-session request: it starts the server, lists the sessions, hands off,
/// and succeeds, leaving the sessions as they were.
pub proof fn lemma_reconcile_reuses_existing_session(
    dir: Seq<char>,
    inside_client: bool,
    command: Option<Seq<char>>,
    sessions: Seq<Seq<char>>,
)
    requires
        final_component(dir) is Some,
        sessions.contains(final_component(dir)->0),
    ensures
        ({
            let name = final_component(dir)->0;
            let (last, after, reqs) = reconcile_against(dir, inside_client, command, sessions);
            &&& last.phase == Phase::Finished(Ok(()))
            &&& after == sessions
            &&& reqs == seq![
                MuxRequestView::StartServer,
                MuxRequestView::ListSessions,
                handoff_request(inside_client, name),
            ]
        }),
{
    reveal_with_fuel(run_against, 5);
    let name = final_component(dir)->0;
    let (_, _, reqs) = reconcile_against(dir, inside_client, command, sessions);
    assert(reqs =~= seq![
        MuxRequestView::StartServer,
        MuxRequestView::ListSessions,
        handoff_request(inside_client, name),
    ]);
}

/// Reconciling the same directory twice in a row leaves exactly one session
/// named after it, and the second run creates none. Session names are unique
/// in a multiplexer, so at most one such session exists beforehand.
pub proof fn lemma_reconcile_twice_keeps_one_session(
    dir: Seq<char>,
    inside_client: bool,
    command: Option<Seq<char>>,
    sessions: Seq<Seq<char>>,
)
    requires
        final_component(dir) is Some,
        sessions_named(sessions, final_component(dir)->0) <= 1,
    ensures
        ({
            let name = final_component(dir)->0;
            let (first, after_first, _) = reconcile_against(dir, inside_client, command, sessions);
            let (second, after_second, reqs) = reconcile_against(
                dir,
                inside_client,
                command,
                after_first,
            );
            &&& first.phase == Phase::Finished(Ok(()))
            &&& second.phase == Phase::Finished(Ok(()))
            &&& sessions_named(after_second, name) == 1
            &&& after_second == after_first
            &&& forall|i: int| 0 <= i < reqs.len() ==> !(#[trigger] reqs[i] is NewSession)
        }),
{
    broadcast use vstd::seq_lib::to_multiset_contains, vstd::seq_lib::to_multiset_build;
    let name = final_component(dir)->0;
    let after_first = reconcile_against(dir, inside_client, command, sessions).1;
    if sessions.contains(name) {
        lemma_reconcile_reuses_existing_session(dir, inside_client, command, sessions);
        assert(sessions.to_multiset().count(name) > 0);
    } else {
        lemma_reconcile_creates_missing_session(dir, inside_client, command, sessions);
        assert(sessions.to_multiset().count(name) == 0);
        assert(sessions.push(name).to_multiset() =~= sessions.to_multiset().insert(name));
        assert(after_first.contains(name)) by {
            assert(after_first[sessions.len() as int] == name);
        }
    }
    lemma_reconcile_reuses_existing_session(dir, inside_client, command, after_first);
}

} // verus!

//! The workers and what each does at a tick, given the shared mode.

use crate::effector::{
    command_kind, command_kind_from, kind_plan, Effector, EffectorError, Step,
};
use crate::accessibility::{capture_focused_element, element_json, focused_view, ElementSource};
use crate::json::{rendered, Json};
use crate::kernel_link::{offered, FocusSnapshot, OutboundQueue, SnapshotView};
use crate::mode::AppState;
use crate::side_channel::{auth_json, focus_json, line_of, notify_kernel_focus, FocusNotice};
use crate::text::{chars_of, str_equal, string_from_chars, to_uppercase, uppercase};
use std::collections::VecDeque;
use vstd::prelude::*;

verus! {

/// What the process was started to do.
#[derive(Clone, Copy, Debug, PartialEq, Eq, Structural)]
pub enum RunMode {
    /// Capture the focused element once.
    Capture,
    /// Execute approved actions.
    Effector,
    /// Index files and watch them.
    Librarian,
    /// Serve the local command interface and capture on a fixed tick.
    Hybrid,
    /// Capture, act and index, each as the shared mode permits.
    Full,
}

/// The run mode that an argument asks for. None asks for capture.
pub open spec fn run_mode_of(arg: Option<Seq<char>>) -> Option<RunMode> {
    match arg {
        None => Some(RunMode::Capture),
        Some(a) => if a == "--capture"@ {
            Some(RunMode::Capture)
        } else if a == "--effector"@ {
            Some(RunMode::Effector)
        } else if a == "--librarian"@ {
            Some(RunMode::Librarian)
        } else if a == "--hybrid"@ {
            Some(RunMode::Hybrid)
        } else if a == "--full"@ {
            Some(RunMode::Full)
        } else {
            None
        },
    }
}

/// Reads the run mode from the first argument of the process. An argument
/// that names no mode is handed back.
pub fn parse_run_mode(arg: Option<&str>) -> (r: Result<RunMode, String>)
    ensures
        match r {
            Ok(mode) => run_mode_of(
                match arg {
                    Some(a) => Some(a@),
                    None => None,
                },
            ) == Some(mode),
            Err(unknown) => arg matches Some(a) && unknown@ == a@ && run_mode_of(Some(a@))
                is None,
        },
{
    let a = match arg {
        Some(a) => a,
        None => {
            return Ok(RunMode::Capture);
        },
    };
    if str_equal(a, "--capture") {
        Ok(RunMode::Capture)
    } else if str_equal(a, "--effector") {
        Ok(RunMode::Effector)
    } else if str_equal(a, "--librarian") {
        Ok(RunMode::Librarian)
    } else if str_equal(a, "--hybrid") {
        Ok(RunMode::Hybrid)
    } else if str_equal(a, "--full") {
        Ok(RunMode::Full)
    } else {
        let v = chars_of(a);
        Err(string_from_chars(&v))
    }
}

/// The workers that run in a run mode.
#[derive(Clone, Copy, Debug, PartialEq, Eq, Structural)]
pub struct WorkerSet {
    /// The poll of the shared mode.
    pub mode_poll: bool,
    pub capture: bool,
    pub effector: bool,
    pub indexer: bool,
    pub command_server: bool,
}

/// The workers of a run mode. Only the full mode polls the shared mode.
pub open spec fn worker_set(mode: RunMode) -> WorkerSet {
    match mode {
        RunMode::Capture => WorkerSet {
            mode_poll: false,
            capture: true,
            effector: false,
            indexer: false,
            command_server: false,
        },
        RunMode::Effector => WorkerSet {
            mode_poll: false,
            capture: false,
            effector: true,
            indexer: false,
            command_server: false,
        },
        RunMode::Librarian => WorkerSet {
            mode_poll: false,
            capture: false,
            effector: false,
            indexer: true,
            command_server: false,
        },
        RunMode::Hybrid => WorkerSet {
            mode_poll: false,
            capture: true,
            effector: false,
            indexer: false,
            command_server: true,
        },
        RunMode::Full => WorkerSet {
            mode_poll: true,
            capture: true,
            effector: true,
            indexer: true,
            command_server: false,
        },
    }
}

/// The workers to start in a run mode.
pub fn workers_of(mode: RunMode) -> (r: WorkerSet)
    ensures
        r == worker_set(mode),
{
    match mode {
        RunMode::Capture => WorkerSet {
            mode_poll: false,
            capture: true,
            effector: false,
            indexer: false,
            command_server: false,
        },
        RunMode::Effector => WorkerSet {
            mode_poll: false,
            capture: false,
            effector: true,
            indexer: false,
            command_server: false,
        },
        RunMode::Librarian => WorkerSet {
            mode_poll: false,
            capture: false,
            effector: false,
            indexer: true,
            command_server: false,
        },
        RunMode::Hybrid => WorkerSet {
            mode_poll: false,
            capture: true,
            effector: false,
            indexer: false,
            command_server: true,
        },
        RunMode::Full => WorkerSet {
            mode_poll: true,
            capture: true,
            effector: true,
            indexer: true,
            command_server: false,
        },
    }
}

/// The period of the poll of the shared mode, in milliseconds.
pub const POLL_INTERVAL_MS: u64 = 1000;

/// The pause between captures in the full mode, in milliseconds.
pub const ACTIVE_CAPTURE_INTERVAL_MS: u64 = 100;

/// The pause between captures beside the command server, in milliseconds.
pub const HYBRID_CAPTURE_INTERVAL_MS: u64 = 500;

/// The pause of a worker that the mode keeps dormant, in milliseconds.
pub const DORMANT_INTERVAL_MS: u64 = 1000;

/// The pause of the effector while the mode forbids action, in
/// milliseconds.
pub const EFFECTOR_IDLE_INTERVAL_MS: u64 = 500;

/// What a worker does at a tick.
#[derive(Clone, Copy, Debug, PartialEq, Eq, Structural)]
pub enum WorkerStep {
    /// Do the work, then pause for so many milliseconds.
    Work { then_pause_ms: u64 },
    /// Do nothing but pause for so many milliseconds, then look again.
    Pause { ms: u64 },
}

/// What the capture worker does at a tick.
pub open spec fn capture_step(mode: AppState) -> WorkerStep {
    if mode.captures() {
        WorkerStep::Work { then_pause_ms: ACTIVE_CAPTURE_INTERVAL_MS }
    } else {
        WorkerStep::Pause { ms: DORMANT_INTERVAL_MS }
    }
}

/// What the effector worker does at a tick.
pub open spec fn effector_step(mode: AppState) -> WorkerStep {
    if mode.acts() {
        WorkerStep::Work { then_pause_ms: 0 }
    } else {
        WorkerStep::Pause { ms: EFFECTOR_IDLE_INTERVAL_MS }
    }
}

/// What the indexer worker does at a tick.
pub open spec fn indexer_step(mode: AppState) -> WorkerStep {
    if mode.indexes() {
        WorkerStep::Work { then_pause_ms: 0 }
    } else {
        WorkerStep::Pause { ms: DORMANT_INTERVAL_MS }
    }
}

/// Decides what the capture worker does at a tick.
pub fn capture_tick(mode: AppState) -> (r: WorkerStep)
    ensures
        r == capture_step(mode),
        r is Work <==> mode.captures(),
{
    if mode.allows_capture() {
        WorkerStep::Work { then_pause_ms: ACTIVE_CAPTURE_INTERVAL_MS }
    } else {
        WorkerStep::Pause { ms: DORMANT_INTERVAL_MS }
    }
}

/// Decides what the effector worker does at a tick.
pub fn effector_tick(mode: AppState) -> (r: WorkerStep)
    ensures
        r == effector_step(mode),
        r is Work <==> mode.acts(),
{
    if mode.allows_actions() {
        WorkerStep::Work { then_pause_ms: 0 }
    } else {
        WorkerStep::Pause { ms: EFFECTOR_IDLE_INTERVAL_MS }
    }
}

/// Decides what the indexer worker does at a tick. A dormant indexer
/// pauses and looks again; it never ends.
pub fn indexer_tick(mode: AppState) -> (r: WorkerStep)
    ensures
        r == indexer_step(mode),
        r is Work <==> mode.indexes(),
{
    if mode.allows_indexing() {
        WorkerStep::Work { then_pause_ms: 0 }
    } else {
        WorkerStep::Pause { ms: DORMANT_INTERVAL_MS }
    }
}

/// The action of a command: its type and its parameters.
#[derive(Debug, PartialEq, Eq)]
pub struct ActionRequest {
    pub kind: String,
    pub payload: Json,
}

/// A command for the effector, from the remote authority or from the
/// local command interface.
#[derive(Debug, PartialEq, Eq)]
pub struct ActionCommand {
    pub command_id: String,
    pub action: Option<ActionRequest>,
}

/// What became of a command.
#[derive(Debug, PartialEq, Eq)]
pub enum Disposition {
    /// Dropped: the mode forbade action when the command was taken.
    Ignored,
    /// The command holds no action.
    Empty,
    /// The action type is unknown. This is no error.
    UnknownType,
    /// The steps of the action are recorded.
    Executed,
    /// The parameters of the action are wrong.
    Failed(EffectorError),
}

/// The steps that a command comes to, whatever the mode: those of its
/// action where its type is known, case aside, and its parameters are
/// right, and none otherwise.
pub open spec fn command_steps_of(command: ActionCommand) -> Seq<Step> {
    match command.action {
        None => Seq::<Step>::empty(),
        Some(request) => match command_kind(uppercase(request.kind@)) {
            None => Seq::<Step>::empty(),
            Some(kind) => match kind_plan(kind, request.payload@) {
                Ok(steps) => steps,
                Err(_) => Seq::<Step>::empty(),
            },
        },
    }
}

/// The steps that a command adds to the plan when it is taken in `mode`:
/// its own in the one mode that permits action, and none in any other.
pub open spec fn gated_steps(mode: AppState, command: ActionCommand) -> Seq<Step> {
    if mode.acts() {
        command_steps_of(command)
    } else {
        Seq::<Step>::empty()
    }
}

/// What must become of a command that is taken in `mode`: it is ignored
/// in every mode but the one that permits action; there, a command without
/// action is empty, one of an unknown type is skipped, and any other is
/// executed or fails with what is wrong with its parameters.
pub open spec fn disposed(d: Disposition, mode: AppState, command: ActionCommand) -> bool {
    if !mode.acts() {
        d is Ignored
    } else {
        match command.action {
            None => d is Empty,
            Some(request) => match command_kind(uppercase(request.kind@)) {
                None => d is UnknownType,
                Some(kind) => match kind_plan(kind, request.payload@) {
                    Ok(_) => d is Executed,
                    Err(f) => d matches Disposition::Failed(e) && e@ == f,
                },
            },
        }
    }
}

/// What becomes of a command whose action type, in upper case, is `upper`.
pub fn execute_request(effector: &mut Effector, upper: &str, payload: &Json) -> (r: Disposition)
    ensures
        match command_kind(upper@) {
            None => r is UnknownType && final(effector).plan() == old(effector).plan(),
            Some(kind) => match kind_plan(kind, payload@) {
                Ok(steps) => r is Executed && final(effector).plan() == old(effector).plan()
                    + steps,
                Err(f) => r matches Disposition::Failed(e) && e@ == f && final(effector).plan()
                    == old(effector).plan(),
            },
        },
{
    match command_kind_from(upper) {
        None => Disposition::UnknownType,
        Some(kind) => match effector.execute_kind(kind, payload) {
            Ok(_) => Disposition::Executed,
            Err(e) => Disposition::Failed(e),
        },
    }
}

/// Takes one command in `mode`. A command is executed only in the mode
/// that permits action; in any other it is dropped, and nothing of it is
/// kept for later.
pub fn process_command(effector: &mut Effector, mode: AppState, command: &ActionCommand) -> (r:
    Disposition)
    ensures
        final(effector).plan() == old(effector).plan() + gated_steps(mode, *command),
        !mode.acts() ==> final(effector).plan() == old(effector).plan(),
        disposed(r, mode, *command),
{
    let ghost before = effector.plan();
    assert(before + Seq::<Step>::empty() =~= before);
    if !mode.allows_actions() {
        return Disposition::Ignored;
    }
    match &command.action {
        None => Disposition::Empty,
        Some(request) => {
            let upper = to_uppercase(request.kind.as_str());
            execute_request(effector, upper.as_str(), &request.payload)
        },
    }
}

/// The channel of commands between the inbound stream and the effector:
/// first in, first out, one consumer.
#[derive(Debug, PartialEq, Eq)]
pub struct CommandChannel {
    commands: VecDeque<ActionCommand>,
}

impl View for CommandChannel {
    type V = Seq<ActionCommand>;

    closed spec fn view(&self) -> Seq<ActionCommand> {
        self.commands@
    }
}

impl CommandChannel {
    /// An empty channel.
    pub fn new() -> (r: CommandChannel)
        ensures
            r@ == Seq::<ActionCommand>::empty(),
    {
        CommandChannel { commands: VecDeque::new() }
    }

    /// The number of commands that wait.
    pub fn len(&self) -> (n: usize)
        ensures
            n == self@.len(),
    {
        self.commands.len()
    }

    /// Forwards a command: it waits behind those that came before it.
    pub fn forward(&mut self, command: ActionCommand)
        ensures
            final(self)@ == old(self)@.push(command),
    {
        self.commands.push_back(command);
    }

    /// Takes the command that has waited longest.
    pub fn take(&mut self) -> (r: Option<ActionCommand>)
        ensures
            match r {
                Some(c) => {
                    &&& old(self)@.len() > 0
                    &&& c == old(self)@[0]
                    &&& final(self)@ == old(self)@.drop_first()
                },
                None => old(self)@.len() == 0 && final(self)@ == old(self)@,
            },
    {
        self.commands.pop_front()
    }
}

/// Takes the next command from the channel, in `mode`. The command leaves
/// the channel whatever the mode.
pub fn drain_one(effector: &mut Effector, mode: AppState, channel: &mut CommandChannel) -> (r:
    Option<Disposition>)
    ensures
        match r {
            None => {
                &&& old(channel)@.len() == 0
                &&& final(channel)@ == old(channel)@
                &&& final(effector).plan() == old(effector).plan()
            },
            Some(d) => {
                &&& old(channel)@.len() > 0
                &&& final(channel)@ == old(channel)@.drop_first()
                &&& final(effector).plan() == old(effector).plan() + gated_steps(
                    mode,
                    old(channel)@[0],
                )
                &&& disposed(d, mode, old(channel)@[0])
            },
        },
{
    match channel.take() {
        None => None,
        Some(command) => Some(process_command(effector, mode, &command)),
    }
}

/// The steps that a run of commands adds to the plan, the command at
/// position `i` taken in the mode at position `i`.
pub open spec fn drained_steps(commands: Seq<ActionCommand>, modes: Seq<AppState>) -> Seq<Step>
    decreases commands.len(),
{
    if commands.len() == 0 || modes.len() == 0 {
        Seq::<Step>::empty()
    } else {
        drained_steps(commands.drop_last(), modes.drop_last()) + gated_steps(
            modes.last(),
            commands.last(),
        )
    }
}

/// A command that is taken while the mode forbids action has no effect at
/// all: the plan is what it would be had the command never been sent.
pub proof fn lemma_inactive_command_has_no_effect(
    commands: Seq<ActionCommand>,
    modes: Seq<AppState>,
    k: int,
)
    requires
        commands.len() == modes.len(),
        0 <= k < commands.len(),
        !modes[k].acts(),
    ensures
        drained_steps(commands, modes) == drained_steps(commands.remove(k), modes.remove(k)),
    decreases commands.len(),
{
    let n = commands.len();
    if k == n - 1 {
        assert(commands.remove(k) =~= commands.drop_last());
        assert(modes.remove(k) =~= modes.drop_last());
        assert(drained_steps(commands.drop_last(), modes.drop_last()) + Seq::<Step>::empty()
            =~= drained_steps(commands.drop_last(), modes.drop_last()));
    } else {
        lemma_inactive_command_has_no_effect(commands.drop_last(), modes.drop_last(), k);
        assert(commands.remove(k).drop_last() =~= commands.drop_last().remove(k));
        assert(modes.remove(k).drop_last() =~= modes.drop_last().remove(k));
        assert(commands.remove(k).last() == commands.last());
        assert(modes.remove(k).last() == modes.last());
    }
}

/// While no mode of a run permits action, the run executes nothing.
pub proof fn lemma_nothing_executes_while_inactive(
    commands: Seq<ActionCommand>,
    modes: Seq<AppState>,
)
    requires
        commands.len() == modes.len(),
        forall|i: int| 0 <= i < modes.len() ==> !(#[trigger] modes[i]).acts(),
    ensures
        drained_steps(commands, modes) == Seq::<Step>::empty(),
    decreases commands.len(),
{
    if commands.len() > 0 {
        assert forall|i: int| 0 <= i < modes.drop_last().len() implies !(
        #[trigger] modes.drop_last()[i]).acts() by {
            assert(modes.drop_last()[i] == modes[i]);
        }
        lemma_nothing_executes_while_inactive(commands.drop_last(), modes.drop_last());
        assert(!modes[modes.len() - 1].acts());
        assert(Seq::<Step>::empty() + Seq::<Step>::empty() =~= Seq::<Step>::empty());
    }
}

/// What publishing a snapshot comes to: the outbound queue afterwards, and
/// whether the side channel has something to send. The credential decides
/// the second and is not looked at for the first.
pub open spec fn publication(
    queue: Seq<SnapshotView>,
    capacity: nat,
    token: Option<Seq<char>>,
    snapshot: SnapshotView,
) -> (Seq<SnapshotView>, bool) {
    (offered(queue, capacity, snapshot), token is Some)
}

/// The side channel never affects the outbound stream: with any credential
/// or with none, the same snapshot leaves the same queue.
pub proof fn lemma_side_channel_leaves_queue(
    queue: Seq<SnapshotView>,
    capacity: nat,
    one: Option<Seq<char>>,
    other: Option<Seq<char>>,
    snapshot: SnapshotView,
)
    ensures
        publication(queue, capacity, one, snapshot).0 == publication(
            queue,
            capacity,
            other,
            snapshot,
        ).0,
{
}

/// What was done with a snapshot.
#[derive(Debug, PartialEq, Eq)]
pub struct Publication {
    /// Whether the outbound queue took the snapshot; where it did not, the
    /// snapshot is handed back for the producer to offer again.
    pub refused: Option<FocusSnapshot>,
    /// What to send over the side channel, where there is a credential.
    pub notice: Option<FocusNotice>,
}

/// What must be reported of publishing a snapshot: a notice where there is
/// a credential, with the preamble and the title of the snapshot, and the
/// snapshot itself where the queue was full.
pub open spec fn published(
    p: Publication,
    queue: Seq<SnapshotView>,
    capacity: nat,
    token: Option<Seq<char>>,
    snapshot: FocusSnapshot,
) -> bool {
    &&& match token {
        Some(t) => p.notice matches Some(notice) && notice.auth_line@ == line_of(auth_json(t))
            && notice.focus_line@ == line_of(focus_json(snapshot.window_title@)),
        None => p.notice is None,
    }
    &&& if queue.len() < capacity {
        p.refused is None
    } else {
        p.refused == Some(snapshot)
    }
}

/// The characters of an optional string slice.
pub open spec fn chars_of_token(token: Option<&str>) -> Option<Seq<char>> {
    match token {
        Some(t) => Some(t@),
        None => None,
    }
}

/// Publishes a snapshot: to the outbound queue, and to the side channel
/// where there is a credential.
pub fn publish(queue: &mut OutboundQueue, token: Option<&str>, snapshot: FocusSnapshot) -> (r:
    Publication)
    requires
        old(queue).wf(),
    ensures
        final(queue).wf(),
        final(queue).limit() == old(queue).limit(),
        final(queue)@ == publication(
            old(queue)@,
            old(queue).limit(),
            chars_of_token(token),
            snapshot@,
        ).0,
        published(r, old(queue)@, old(queue).limit(), chars_of_token(token), snapshot),
{
    let notice = notify_kernel_focus(token, snapshot.window_title.as_str());
    let refused = match queue.try_push(snapshot) {
        Ok(_) => None,
        Err(back) => Some(back),
    };
    Publication { refused, notice }
}

/// What the capture worker makes of what the provider returned at a tick:
/// a snapshot is published, and a failure of the provider skips the tick.
pub fn on_capture(
    queue: &mut OutboundQueue,
    token: Option<&str>,
    captured: Option<FocusSnapshot>,
) -> (r: Option<Publication>)
    requires
        old(queue).wf(),
    ensures
        final(queue).wf(),
        final(queue).limit() == old(queue).limit(),
        match captured {
            Some(s) => {
                &&& final(queue)@ == offered(old(queue)@, old(queue).limit(), s@)
                &&& r matches Some(p)
                &&& published(p, old(queue)@, old(queue).limit(), chars_of_token(token), s)
            },
            None => final(queue)@ == old(queue)@ && r is None,
        },
{
    match captured {
        Some(snapshot) => Some(publish(queue, token, snapshot)),
        None => None,
    }
}

/// One thing that happens to the pipeline of snapshots.
pub enum PipelineOp {
    /// A tick of the capture worker in `mode`; `captured` is what the
    /// provider returns where it is asked.
    Tick { mode: AppState, captured: Option<SnapshotView> },
    /// The outbound stream takes the next snapshot.
    Deliver,
}

/// The pipeline of snapshots: those that wait, those that the queue has
/// taken so far, and those that were delivered so far, each in order.
pub struct Pipeline {
    pub queue: Seq<SnapshotView>,
    pub accepted: Seq<SnapshotView>,
    pub delivered: Seq<SnapshotView>,
}

/// The pipeline after one operation. The mode is looked at when a snapshot
/// is produced, and never when one is delivered.
pub open spec fn pipeline_step(p: Pipeline, capacity: nat, op: PipelineOp) -> Pipeline {
    match op {
        PipelineOp::Tick { mode, captured } => match captured {
            Some(s) => if mode.captures() && p.queue.len() < capacity {
                Pipeline {
                    queue: offered(p.queue, capacity, s),
                    accepted: p.accepted.push(s),
                    delivered: p.delivered,
                }
            } else {
                p
            },
            None => p,
        },
        PipelineOp::Deliver => if p.queue.len() > 0 {
            Pipeline {
                queue: p.queue.drop_first(),
                accepted: p.accepted,
                delivered: p.delivered.push(p.queue[0]),
            }
        } else {
            p
        },
    }
}

/// The pipeline after a run of operations.
pub open spec fn pipeline_run(p: Pipeline, capacity: nat, ops: Seq<PipelineOp>) -> Pipeline
    decreases ops.len(),
{
    if ops.len() == 0 {
        p
    } else {
        pipeline_step(pipeline_run(p, capacity, ops.drop_last()), capacity, ops.last())
    }
}

/// Nothing is lost and nothing is duplicated, whatever the modes: at every
/// point, what was delivered followed by what waits is what the queue has
/// taken, in the order in which it took it.
pub proof fn lemma_pipeline_keeps_order(p: Pipeline, capacity: nat, ops: Seq<PipelineOp>)
    requires
        p.delivered + p.queue == p.accepted,
    ensures
        ({
            let after = pipeline_run(p, capacity, ops);
            after.delivered + after.queue == after.accepted
        }),
    decreases ops.len(),
{
    if ops.len() > 0 {
        lemma_pipeline_keeps_order(p, capacity, ops.drop_last());
        let before = pipeline_run(p, capacity, ops.drop_last());
        let after = pipeline_step(before, capacity, ops.last());
        match ops.last() {
            PipelineOp::Tick { mode, captured } => {
                if let Some(s) = captured {
                    if mode.captures() && before.queue.len() < capacity {
                        assert(before.delivered + before.queue.push(s) =~= (before.delivered
                            + before.queue).push(s));
                    }
                }
            },
            PipelineOp::Deliver => {
                if before.queue.len() > 0 {
                    assert(before.delivered.push(before.queue[0]) + before.queue.drop_first()
                        =~= before.delivered + before.queue);
                }
            },
        }
    }
}

/// The mode gates production, not delivery: a change of mode alone, a tick
/// at which nothing is captured, leaves the pipeline as it is, and what
/// waits is delivered in any mode.
pub proof fn lemma_mode_change_keeps_pipeline(p: Pipeline, capacity: nat, mode: AppState)
    ensures
        pipeline_step(p, capacity, PipelineOp::Tick { mode, captured: None }) == p,
        p.queue.len() > 0 ==> pipeline_step(p, capacity, PipelineOp::Deliver).delivered
            == p.delivered.push(p.queue[0]),
{
}

/// What is reported of the focused element at a tick beside the command
/// server.
#[derive(Debug, PartialEq, Eq)]
pub struct FocusReport {
    /// What to send over the side channel, where there is a credential.
    pub notice: Option<FocusNotice>,
    /// The element as one line of output, without its line feed.
    pub line: String,
}

/// Reports the focused element: its name goes to the side channel, and the
/// element goes to the output as a document.
pub fn report_focus(token: Option<&str>, source: &ElementSource) -> (r: FocusReport)
    ensures
        r.notice is Some <==> token is Some,
        r.notice matches Some(notice) ==> notice.auth_line@ == line_of(auth_json(token->0@))
            && notice.focus_line@ == line_of(focus_json(focused_view(*source).name)),
        r.line@ == rendered(element_json(focused_view(*source))),
{
    let element = capture_focused_element(source);
    let notice = notify_kernel_focus(token, element.name.as_str());
    let line = element.to_json_text();
    FocusReport { notice, line }
}

/// The snapshot of a focused element: the title is its name, and the tree
/// is the element as a document.
pub open spec fn snapshot_of(source: ElementSource, process_name: Seq<char>) -> SnapshotView {
    SnapshotView {
        window_title: focused_view(source).name,
        process_name,
        ui_tree_snapshot: Some(rendered(element_json(focused_view(source)))),
    }
}

/// Makes the snapshot of the focused element, for the process that owns
/// it.
pub fn focus_snapshot(source: &ElementSource, process_name: String) -> (r: FocusSnapshot)
    ensures
        r@ == snapshot_of(*source, process_name@),
{
    let element = capture_focused_element(source);
    let tree = element.to_json_text();
    FocusSnapshot {
        window_title: element.name.clone(),
        process_name,
        ui_tree_snapshot: Some(tree),
    }
}

} // verus!

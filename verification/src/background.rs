//! The background update loop: a debounced state machine that turns raw
//! filesystem notifications into at most one "content changed" signal per
//! logical change.
//!
//! The executable half of the loop (the thread that blocks on the OS watcher,
//! reads the file and sends over the channel) lives outside this crate; it
//! drives [`UpdateLoop::step`] with the events it observes and performs the
//! actions the machine hands back.

use vstd::prelude::*;

use crate::markdown::Renderer;
use crate::markdown::RenderedContent;
use crate::markdown::seq_views;

verus! {

/// How long after the first relevant event further events are absorbed into
/// the same change signal, in milliseconds. The exact value is a policy
/// choice: the coalescing guarantees proved below hold for any window length.
pub const DEBOUNCE_WINDOW_MS: u64 = 100;

/// The moment a debounce window opened at `now` closes, saturating at the top
/// of the clock's range.
pub open spec fn spec_window_end(now: u64) -> u64 {
    if now + DEBOUNCE_WINDOW_MS > u64::MAX {
        u64::MAX
    } else {
        (now + DEBOUNCE_WINDOW_MS) as u64
    }
}

/// Exec counterpart of [`spec_window_end`].
pub fn window_end(now: u64) -> (r: u64)
    ensures
        r == spec_window_end(now),
{
    now.saturating_add(DEBOUNCE_WINDOW_MS)
}

/// The debounce filter: `Idle` while no relevant activity is pending, and
/// `Pending` from the first relevant event until its window closes.
/// `will_fire` records whether the most recent relevant event left the target
/// present (create/write/rename) rather than removed.
#[derive(Clone, Copy, PartialEq, Eq, Structural, Debug)]
pub enum FilterState {
    Idle,
    Pending { deadline: u64, will_fire: bool },
}

/// The kind of a raw filesystem notification, as the OS watcher reports it.
#[derive(Clone, Copy, PartialEq, Eq, Structural, Debug)]
pub enum FsEventKind {
    Create,
    Write,
    Remove,
    Rename,
}

/// How the filter absorbs one relevant event observed at time `now`:
/// the first event opens a window whose deadline never moves; later events
/// inside the window only update whether the signal will fire, so a burst
/// collapses into at most one signal. A removal leaves `will_fire` false:
/// a file that is gone is not stale content, merely absent.
pub open spec fn spec_filter_on_event(st: FilterState, kind: FsEventKind, now: u64) -> FilterState {
    let fire = !(kind is Remove);
    match st {
        FilterState::Idle => FilterState::Pending { deadline: spec_window_end(now), will_fire: fire },
        FilterState::Pending { deadline, will_fire } => FilterState::Pending {
            deadline,
            will_fire: fire,
        },
    }
}

/// How the filter reacts to the clock reaching `now`: a pending window whose
/// deadline has passed closes, firing exactly when its last relevant event
/// left the target present.
pub open spec fn spec_filter_on_tick(st: FilterState, now: u64) -> (FilterState, bool) {
    match st {
        FilterState::Idle => (FilterState::Idle, false),
        FilterState::Pending { deadline, will_fire } => {
            if now >= deadline {
                (FilterState::Idle, will_fire)
            } else {
                (st, false)
            }
        },
    }
}

/// Absorb one relevant filesystem event into the filter.
pub fn filter_on_event(st: FilterState, kind: FsEventKind, now: u64) -> (r: FilterState)
    ensures
        r == spec_filter_on_event(st, kind, now),
{
    let fire = !matches!(kind, FsEventKind::Remove);
    match st {
        FilterState::Idle => FilterState::Pending { deadline: window_end(now), will_fire: fire },
        FilterState::Pending { deadline, will_fire: _ } => FilterState::Pending {
            deadline,
            will_fire: fire,
        },
    }
}

/// Let the filter observe that the clock has reached `now`; the returned flag
/// says whether a coalesced change signal fires at this moment.
pub fn filter_on_tick(st: FilterState, now: u64) -> (r: (FilterState, bool))
    ensures
        r == spec_filter_on_tick(st, now),
{
    match st {
        FilterState::Idle => (FilterState::Idle, false),
        FilterState::Pending { deadline, will_fire } => {
            if now >= deadline {
                (FilterState::Idle, will_fire)
            } else {
                (FilterState::Pending { deadline, will_fire }, false)
            }
        },
    }
}

/// The file under observation: the raw path the session was started with and
/// the resolved form used to match filesystem events. Fixed for the lifetime
/// of its update loop.
pub struct WatchTarget {
    /// The original path given for the session.
    pub raw_path: String,
    /// The resolved path to compare filesystem events against.
    pub canonical_path: String,
}

impl WatchTarget {
    /// A target whose path could not be resolved (or needed no resolving):
    /// the resolved form falls back to the raw path.
    pub fn new(raw_path: String) -> (r: Self)
        ensures
            r.raw_path@ == raw_path@,
            r.canonical_path@ == raw_path@,
    {
        let canonical_path = raw_path.clone();
        WatchTarget { raw_path, canonical_path }
    }

    /// A target whose path the embedding resolved.
    pub fn with_canonical_path(raw_path: String, canonical_path: String) -> (r: Self)
        ensures
            r.raw_path@ == raw_path@,
            r.canonical_path@ == canonical_path@,
    {
        WatchTarget { raw_path, canonical_path }
    }
}

/// One raw notification from the OS watcher on the target's parent directory.
/// The embedding resolves each reported path where it can before handing the
/// event in, falling back to the reported path itself.
pub struct RawFsEvent {
    /// What happened.
    pub kind: FsEventKind,
    /// The paths the notification says were affected.
    pub affected_paths: Vec<String>,
}

/// Whether a notification touching `paths` concerns the watched file: some
/// affected path equals the target's resolved path, or its raw path (the form
/// a removal is reported under when the path no longer resolves).
pub open spec fn spec_is_relevant(paths: Seq<Seq<char>>, target: WatchTarget) -> bool {
    exists|i: int|
        0 <= i < paths.len() && (#[trigger] paths[i] == target.canonical_path@ || paths[i]
            == target.raw_path@)
}

/// Decides [`spec_is_relevant`] for an event.
pub fn is_relevant(event: &RawFsEvent, target: &WatchTarget) -> (b: bool)
    ensures
        b == spec_is_relevant(seq_views(event.affected_paths@), *target),
{
    let ghost paths = seq_views(event.affected_paths@);
    let mut i: usize = 0;
    loop
        invariant
            i <= event.affected_paths@.len(),
            paths == seq_views(event.affected_paths@),
            forall|j: int|
                0 <= j < i ==> !(#[trigger] paths[j] == target.canonical_path@ || paths[j]
                    == target.raw_path@),
        ensures
            (i < event.affected_paths@.len() && (paths[i as int] == target.canonical_path@
                || paths[i as int] == target.raw_path@)) || (i == event.affected_paths@.len()
                && forall|j: int|
                0 <= j < i ==> !(#[trigger] paths[j] == target.canonical_path@ || paths[j]
                    == target.raw_path@)),
        decreases event.affected_paths@.len() - i,
    {
        if i >= event.affected_paths.len() {
            break ;
        }
        if event.affected_paths[i].eq(&target.canonical_path) || event.affected_paths[i].eq(
            &target.raw_path,
        ) {
            break ;
        }
        i = i + 1;
    }
    if i < event.affected_paths.len() {
        true
    } else {
        proof {
            if spec_is_relevant(paths, *target) {
                let j = choose|j: int|
                    0 <= j < paths.len() && (#[trigger] paths[j] == target.canonical_path@
                        || paths[j] == target.raw_path@);
                assert(!(paths[j] == target.canonical_path@ || paths[j] == target.raw_path@));
            }
        }
        false
    }
}

/// A message on its way to the presentation layer: a fresh render, or a
/// description of why rendering failed this time.
#[derive(Debug)]
pub enum OutboundMessage {
    /// Rendering succeeded; here is the new content.
    ContentReady(RenderedContent),
    /// Reading or rendering failed; the loop keeps watching.
    RenderFailed(String),
}

/// Where the update loop stands. Construction is the initializing stage:
/// [`UpdateLoop::init`] moves straight to `Watching` or, when the watch could
/// not be established, to `Stopped`.
#[derive(Clone, Copy, PartialEq, Eq, Structural, Debug)]
pub enum LoopPhase {
    /// Waiting for filesystem events.
    Watching,
    /// One render is outstanding; its message has not been emitted yet.
    Dispatching,
    /// Terminal: the consumer is gone or the watcher backend failed.
    Stopped,
}

/// What the embedding tells the loop happened.
pub enum LoopEvent {
    /// The watcher reported a raw event, observed at time `now` (ms).
    Notification { event: RawFsEvent, now: u64 },
    /// The bounded wait elapsed with nothing to report; the clock reads `now`.
    TimerTick { now: u64 },
    /// The render the loop asked for finished: the content read and rendered,
    /// or a description of the read failure.
    RenderDone { result: Result<RenderedContent, String> },
    /// Sending on the channel failed: the consumer closed its end.
    ChannelClosed,
    /// The OS notification subsystem itself failed.
    WatchFailed,
}

/// What the loop asks the embedding to do next.
pub enum LoopAction {
    /// Keep waiting for the next event.
    Continue,
    /// Render the target's current content, then report back with
    /// [`LoopEvent::RenderDone`].
    StartRender,
    /// Send this message to the consumer; report a failed send with
    /// [`LoopEvent::ChannelClosed`].
    Emit(OutboundMessage),
    /// Tear down the watch and exit: the session is over.
    Stop,
}

/// The orchestrating state machine of one watched session: the target, the
/// debounce filter, and the phase. The embedding owns the watcher thread and
/// the channel; it feeds every observation through [`UpdateLoop::step`] and
/// carries out the returned action.
pub struct UpdateLoop {
    /// The file under observation, fixed at creation.
    pub target: WatchTarget,
    /// The debounce filter over relevant events.
    pub filter: FilterState,
    /// Where the loop stands.
    pub phase: LoopPhase,
}

/// The message that one render outcome becomes: success carries the new
/// content, failure carries the description, and the loop stays alive either
/// way.
pub open spec fn spec_message_of(result: Result<RenderedContent, String>) -> OutboundMessage {
    match result {
        Ok(content) => OutboundMessage::ContentReady(content),
        Err(description) => OutboundMessage::RenderFailed(description),
    }
}

/// The dispatcher: on a change signal the embedding reads the target's
/// current text and hands the outcome here; a successful read is rendered
/// exactly once and becomes `ContentReady`, a failed read does not disturb
/// the loop and becomes `RenderFailed` carrying the description.
pub fn dispatch<R: Renderer>(renderer: &R, read_result: Result<String, String>) -> (m:
    OutboundMessage)
    ensures
        (read_result matches Ok(source) ==> m matches OutboundMessage::ContentReady(c)
            && c.html@ == renderer.spec_html(source@) && seq_views(c.code_languages@)
            == renderer.spec_languages(source@) && c.wf()),
        (read_result matches Err(description) ==> m == OutboundMessage::RenderFailed(
            description,
        )),
{
    match read_result {
        Ok(source) => OutboundMessage::ContentReady(renderer.run(&source)),
        Err(description) => OutboundMessage::RenderFailed(description),
    }
}

/// Packages one render outcome as the outbound message it becomes.
pub fn message_of_render(result: Result<RenderedContent, String>) -> (m: OutboundMessage)
    ensures
        m == spec_message_of(result),
{
    match result {
        Ok(content) => OutboundMessage::ContentReady(content),
        Err(description) => OutboundMessage::RenderFailed(description),
    }
}

/// The whole transition relation of the loop, one event at a time.
///
/// While watching: a relevant notification feeds the debounce filter, an
/// irrelevant one changes nothing, and a tick that closes a firing window
/// starts exactly one render. While a render is outstanding, notifications
/// still feed the filter but nothing fires, so at most one render is ever in
/// flight; the finished render is emitted as one message. A closed channel or
/// a failed watcher stops the loop for good, and a stopped loop reacts to
/// nothing.
pub open spec fn spec_step(l: UpdateLoop, event: LoopEvent) -> (UpdateLoop, LoopAction) {
    match l.phase {
        LoopPhase::Stopped => (l, LoopAction::Stop),
        LoopPhase::Watching => match event {
            LoopEvent::Notification { event, now } => {
                if spec_is_relevant(seq_views(event.affected_paths@), l.target) {
                    (
                        UpdateLoop {
                            filter: spec_filter_on_event(l.filter, event.kind, now),
                            ..l
                        },
                        LoopAction::Continue,
                    )
                } else {
                    (l, LoopAction::Continue)
                }
            },
            LoopEvent::TimerTick { now } => {
                let ticked = spec_filter_on_tick(l.filter, now);
                if ticked.1 {
                    (
                        UpdateLoop { filter: ticked.0, phase: LoopPhase::Dispatching, ..l },
                        LoopAction::StartRender,
                    )
                } else {
                    (UpdateLoop { filter: ticked.0, ..l }, LoopAction::Continue)
                }
            },
            LoopEvent::RenderDone { result } => (l, LoopAction::Continue),
            LoopEvent::ChannelClosed => (
                UpdateLoop { phase: LoopPhase::Stopped, ..l },
                LoopAction::Stop,
            ),
            LoopEvent::WatchFailed => (
                UpdateLoop { phase: LoopPhase::Stopped, ..l },
                LoopAction::Stop,
            ),
        },
        LoopPhase::Dispatching => match event {
            LoopEvent::Notification { event, now } => {
                if spec_is_relevant(seq_views(event.affected_paths@), l.target) {
                    (
                        UpdateLoop {
                            filter: spec_filter_on_event(l.filter, event.kind, now),
                            ..l
                        },
                        LoopAction::Continue,
                    )
                } else {
                    (l, LoopAction::Continue)
                }
            },
            LoopEvent::TimerTick { now } => (l, LoopAction::Continue),
            LoopEvent::RenderDone { result } => (
                UpdateLoop { phase: LoopPhase::Watching, ..l },
                LoopAction::Emit(spec_message_of(result)),
            ),
            LoopEvent::ChannelClosed => (
                UpdateLoop { phase: LoopPhase::Stopped, ..l },
                LoopAction::Stop,
            ),
            LoopEvent::WatchFailed => (
                UpdateLoop { phase: LoopPhase::Stopped, ..l },
                LoopAction::Stop,
            ),
        },
    }
}

impl UpdateLoop {
    /// Initializing: the loop takes its target, and enters `Watching` once
    /// the embedding reports that the directory watch stands — or `Stopped`
    /// when establishing it failed, which is the fatal setup error. No
    /// message can be emitted before this step, so a consumer attached to a
    /// fresh loop can miss nothing.
    pub fn init(target: WatchTarget, watch_established: bool) -> (l: UpdateLoop)
        ensures
            l.target == target,
            l.filter == FilterState::Idle,
            watch_established ==> l.phase == LoopPhase::Watching,
            !watch_established ==> l.phase == LoopPhase::Stopped,
    {
        UpdateLoop {
            target,
            filter: FilterState::Idle,
            phase: if watch_established {
                LoopPhase::Watching
            } else {
                LoopPhase::Stopped
            },
        }
    }

    /// Feed one observation to the loop; the result is what the embedding
    /// must do next. Every transition is exactly [`spec_step`]; the target is
    /// never touched.
    pub fn step(&mut self, event: LoopEvent) -> (a: LoopAction)
        ensures
            *final(self) == spec_step(*old(self), event).0,
            a == spec_step(*old(self), event).1,
            final(self).target == old(self).target,
    {
        match self.phase {
            LoopPhase::Stopped => LoopAction::Stop,
            LoopPhase::Watching => match event {
                LoopEvent::Notification { event, now } => {
                    if is_relevant(&event, &self.target) {
                        self.filter = filter_on_event(self.filter, event.kind, now);
                    }
                    LoopAction::Continue
                },
                LoopEvent::TimerTick { now } => {
                    let ticked = filter_on_tick(self.filter, now);
                    self.filter = ticked.0;
                    if ticked.1 {
                        self.phase = LoopPhase::Dispatching;
                        LoopAction::StartRender
                    } else {
                        LoopAction::Continue
                    }
                },
                LoopEvent::RenderDone { result: _ } => LoopAction::Continue,
                LoopEvent::ChannelClosed => {
                    self.phase = LoopPhase::Stopped;
                    LoopAction::Stop
                },
                LoopEvent::WatchFailed => {
                    self.phase = LoopPhase::Stopped;
                    LoopAction::Stop
                },
            },
            LoopPhase::Dispatching => match event {
                LoopEvent::Notification { event, now } => {
                    if is_relevant(&event, &self.target) {
                        self.filter = filter_on_event(self.filter, event.kind, now);
                    }
                    LoopAction::Continue
                },
                LoopEvent::TimerTick { now: _ } => LoopAction::Continue,
                LoopEvent::RenderDone { result } => {
                    self.phase = LoopPhase::Watching;
                    LoopAction::Emit(message_of_render(result))
                },
                LoopEvent::ChannelClosed => {
                    self.phase = LoopPhase::Stopped;
                    LoopAction::Stop
                },
                LoopEvent::WatchFailed => {
                    self.phase = LoopPhase::Stopped;
                    LoopAction::Stop
                },
            },
        }
    }
}

/// One input to the debounce filter, for stating properties of whole runs: a
/// relevant event arriving at a time, or the clock reaching a time.
#[derive(Clone, Copy, PartialEq, Eq, Structural, Debug)]
pub enum FilterInput {
    /// A relevant filesystem event of this kind arrived at `at`.
    Arrival { kind: FsEventKind, at: u64 },
    /// The clock reached `at`.
    Tick { at: u64 },
}

/// One filter transition: the next state, and whether a signal fired.
pub open spec fn spec_filter_apply(st: FilterState, input: FilterInput) -> (FilterState, bool) {
    match input {
        FilterInput::Arrival { kind, at } => (spec_filter_on_event(st, kind, at), false),
        FilterInput::Tick { at } => spec_filter_on_tick(st, at),
    }
}

/// The state the filter reaches after a whole run of inputs.
pub open spec fn spec_filter_run(st: FilterState, inputs: Seq<FilterInput>) -> FilterState
    decreases inputs.len(),
{
    if inputs.len() == 0 {
        st
    } else {
        spec_filter_run(spec_filter_apply(st, inputs[0]).0, inputs.drop_first())
    }
}

/// How many signals a whole run of inputs fires.
pub open spec fn spec_filter_fires(st: FilterState, inputs: Seq<FilterInput>) -> nat
    decreases inputs.len(),
{
    if inputs.len() == 0 {
        0
    } else {
        (if spec_filter_apply(st, inputs[0]).1 {
            1nat
        } else {
            0nat
        }) + spec_filter_fires(spec_filter_apply(st, inputs[0]).0, inputs.drop_first())
    }
}

/// The inputs one isolated write produces: the write itself, then the clock
/// reaching the end of its window.
pub open spec fn spec_write_then_tick(at: u64) -> Seq<FilterInput> {
    seq![
        FilterInput::Arrival { kind: FsEventKind::Write, at },
        FilterInput::Tick { at: spec_window_end(at) },
    ]
}

/// A whole session of isolated writes, each window closing before the next
/// write arrives.
pub open spec fn spec_isolated_write_trace(times: Seq<u64>) -> Seq<FilterInput>
    decreases times.len(),
{
    if times.len() == 0 {
        Seq::empty()
    } else {
        spec_write_then_tick(times[0]) + spec_isolated_write_trace(times.drop_first())
    }
}

/// Every sequence of writes in which consecutive writes are separated by more
/// than the debounce window fires exactly one signal per write, and leaves
/// the filter idle. Each such signal drives exactly one render message, which
/// carries the content read after the write: see [`lemma_dispatch_cycle`].
pub proof fn lemma_isolated_writes_fire_once(times: Seq<u64>)
    requires
        forall|i: int| 0 <= i < times.len() ==> #[trigger] times[i] <= u64::MAX
            - DEBOUNCE_WINDOW_MS,
        forall|i: int| 0 <= i < times.len() - 1 ==> times[i + 1] > spec_window_end(
            #[trigger] times[i],
        ),
    ensures
        spec_filter_fires(FilterState::Idle, spec_isolated_write_trace(times)) == times.len(),
        spec_filter_run(FilterState::Idle, spec_isolated_write_trace(times))
            == FilterState::Idle,
    decreases times.len(),
{
    reveal_with_fuel(spec_filter_fires, 4);
    reveal_with_fuel(spec_filter_run, 4);
    if times.len() > 0 {
        let trace = spec_isolated_write_trace(times);
        let rest = spec_isolated_write_trace(times.drop_first());
        let t0 = times[0];
        let deadline = spec_window_end(t0);
        assert(trace[0] == FilterInput::Arrival { kind: FsEventKind::Write, at: t0 });
        let pending = FilterState::Pending { deadline, will_fire: true };
        assert(spec_filter_apply(FilterState::Idle, trace[0]) == (pending, false));
        assert(trace.drop_first()[0] == FilterInput::Tick { at: deadline });
        assert(spec_filter_apply(pending, FilterInput::Tick { at: deadline }) == (
            FilterState::Idle,
            true,
        ));
        assert(trace.drop_first().drop_first() =~= rest);
        assert(forall|i: int|
            0 <= i < times.drop_first().len() ==> #[trigger] times.drop_first()[i] <= u64::MAX
                - DEBOUNCE_WINDOW_MS);
        assert forall|i: int| 0 <= i < times.drop_first().len() - 1 implies times.drop_first()[i
            + 1] > spec_window_end(#[trigger] times.drop_first()[i]) by {
            assert(times.drop_first()[i + 1] == times[i + 2]);
            assert(times.drop_first()[i] == times[i + 1]);
        }
        lemma_isolated_writes_fire_once(times.drop_first());
        assert(spec_filter_fires(FilterState::Idle, trace) == 1 + spec_filter_fires(
            FilterState::Idle,
            rest,
        ));
    }
}

/// Coalescing: two writes that land inside one debounce window yield exactly
/// one signal when the window closes, and a later quiet tick fires nothing
/// further.
pub proof fn lemma_writes_in_window_coalesce(t1: u64, t2: u64, t3: u64, t4: u64)
    requires
        t1 <= t2,
        t2 < spec_window_end(t1),
        t3 >= spec_window_end(t1),
        t4 >= t3,
    ensures
        ({
            let trace = seq![
                FilterInput::Arrival { kind: FsEventKind::Write, at: t1 },
                FilterInput::Arrival { kind: FsEventKind::Write, at: t2 },
                FilterInput::Tick { at: t3 },
                FilterInput::Tick { at: t4 },
            ];
            spec_filter_fires(FilterState::Idle, trace) == 1 && spec_filter_run(
                FilterState::Idle,
                trace,
            ) == FilterState::Idle
        }),
{
    reveal_with_fuel(spec_filter_fires, 6);
    reveal_with_fuel(spec_filter_run, 6);
    let deadline = spec_window_end(t1);
    let trace = seq![
        FilterInput::Arrival { kind: FsEventKind::Write, at: t1 },
        FilterInput::Arrival { kind: FsEventKind::Write, at: t2 },
        FilterInput::Tick { at: t3 },
        FilterInput::Tick { at: t4 },
    ];
    let pending = FilterState::Pending { deadline, will_fire: true };
    assert(spec_filter_apply(FilterState::Idle, trace[0]) == (pending, false));
    // The second write is absorbed: the deadline does not move.
    assert(spec_filter_apply(pending, trace[1]) == (pending, false));
    assert(spec_filter_apply(pending, trace[2]) == (FilterState::Idle, true));
    assert(spec_filter_apply(FilterState::Idle, trace[3]) == (FilterState::Idle, false));
    assert(trace.drop_first()[0] == trace[1]);
    assert(trace.drop_first().drop_first()[0] == trace[2]);
    assert(trace.drop_first().drop_first().drop_first()[0] == trace[3]);
    assert(trace.drop_first().drop_first().drop_first().drop_first() =~= Seq::<
        FilterInput,
    >::empty());
}

/// Deleting the file and recreating it inside the window yields exactly one
/// signal when the window closes — the recreation wins, so the one dispatch
/// that follows reads the recreated content; no failure message precedes it.
pub proof fn lemma_remove_recreate_fires_once(t1: u64, t2: u64, t3: u64)
    requires
        t1 <= t2,
        t2 < spec_window_end(t1),
        t3 >= spec_window_end(t1),
    ensures
        ({
            let trace = seq![
                FilterInput::Arrival { kind: FsEventKind::Remove, at: t1 },
                FilterInput::Arrival { kind: FsEventKind::Create, at: t2 },
                FilterInput::Tick { at: t3 },
            ];
            spec_filter_fires(FilterState::Idle, trace) == 1 && spec_filter_run(
                FilterState::Idle,
                trace,
            ) == FilterState::Idle
        }),
{
    reveal_with_fuel(spec_filter_fires, 5);
    reveal_with_fuel(spec_filter_run, 5);
    let deadline = spec_window_end(t1);
    let trace = seq![
        FilterInput::Arrival { kind: FsEventKind::Remove, at: t1 },
        FilterInput::Arrival { kind: FsEventKind::Create, at: t2 },
        FilterInput::Tick { at: t3 },
    ];
    let removed = FilterState::Pending { deadline, will_fire: false };
    let recreated = FilterState::Pending { deadline, will_fire: true };
    assert(spec_filter_apply(FilterState::Idle, trace[0]) == (removed, false));
    assert(spec_filter_apply(removed, trace[1]) == (recreated, false));
    assert(spec_filter_apply(recreated, trace[2]) == (FilterState::Idle, true));
    assert(trace.drop_first()[0] == trace[1]);
    assert(trace.drop_first().drop_first()[0] == trace[2]);
    assert(trace.drop_first().drop_first().drop_first() =~= Seq::<FilterInput>::empty());
}

/// Deleting the file with no recreation inside the window yields no message
/// at all, and the loop is still watching with an idle filter afterwards.
pub proof fn lemma_remove_alone_stays_silent(l: UpdateLoop, e: RawFsEvent, t1: u64, t2: u64)
    requires
        l.phase is Watching,
        l.filter is Idle,
        e.kind is Remove,
        spec_is_relevant(seq_views(e.affected_paths@), l.target),
        t2 >= spec_window_end(t1),
    ensures
        ({
            let first = spec_step(l, LoopEvent::Notification { event: e, now: t1 });
            let second = spec_step(first.0, LoopEvent::TimerTick { now: t2 });
            first.1 is Continue && second.1 is Continue && second.0.phase is Watching
                && second.0.filter is Idle && second.0.target == l.target
        }),
{
}

/// Once the consumer closes its end of the channel, the very next step stops
/// the loop.
pub proof fn lemma_channel_close_stops(l: UpdateLoop)
    ensures
        spec_step(l, LoopEvent::ChannelClosed).0.phase is Stopped,
        spec_step(l, LoopEvent::ChannelClosed).1 is Stop,
{
}

/// A stopped loop is inert: whatever arrives, it changes nothing, renders
/// nothing, and emits nothing — it only ever asks to be torn down.
pub proof fn lemma_stopped_is_terminal(l: UpdateLoop, event: LoopEvent)
    requires
        l.phase is Stopped,
    ensures
        spec_step(l, event).0 == l,
        spec_step(l, event).1 is Stop,
{
}

/// Filesystem activity unrelated to the target never changes the loop, so no
/// signal — and hence no message — can arise from it.
pub proof fn lemma_irrelevant_events_ignored(l: UpdateLoop, e: RawFsEvent, now: u64)
    requires
        !spec_is_relevant(seq_views(e.affected_paths@), l.target),
    ensures
        spec_step(l, LoopEvent::Notification { event: e, now }).0 == l,
        !(spec_step(l, LoopEvent::Notification { event: e, now }).1 is StartRender),
        !(spec_step(l, LoopEvent::Notification { event: e, now }).1 is Emit),
{
}

/// One firing window drives exactly one dispatch, and the message emitted is
/// exactly what the render of the then-current content produced: new content
/// on success, the failure's description otherwise.
pub proof fn lemma_dispatch_cycle(l: UpdateLoop, now: u64, result: Result<RenderedContent, String>)
    requires
        l.phase is Watching,
        l.filter matches FilterState::Pending { deadline, will_fire } && will_fire && now
            >= deadline,
    ensures
        ({
            let first = spec_step(l, LoopEvent::TimerTick { now });
            let second = spec_step(first.0, LoopEvent::RenderDone { result });
            first.1 is StartRender && first.0.phase is Dispatching && second.1
                == LoopAction::Emit(spec_message_of(result)) && second.0.phase is Watching
                && second.0.filter is Idle && second.0.target == l.target && (result matches Ok(c)
                ==> second.1 == LoopAction::Emit(OutboundMessage::ContentReady(c)))
        }),
{
}

} // verus!

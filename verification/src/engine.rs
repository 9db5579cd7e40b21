//! The staged animation engine: one plot, revealed by a queue of mutations
//! that start in index order, each followed by one render call.
//!
//! The engine decides; its caller acts. Every transition hands back the
//! render call to make, the caller makes it with the engine's model, and
//! reports what the renderer answered.
//!
//! An engine is the only owner of its model, and at most one of its render
//! calls is in flight at any time: a step whose timer fires while a call is
//! in flight waits, and starts when that call completes. Two engines share
//! nothing and may animate side by side.

use crate::error::{paired_len, PlotError};
use crate::model::{Mode, PlotModel, PlotView, Trace, TraceView};
use vstd::prelude::*;

verus! {

/// Where a managed plot stands in its life.
#[derive(Clone, Copy, Debug, PartialEq, Eq, Structural)]
pub enum Phase {
    /// Built, not yet shown.
    Uninitialized,
    /// Shown once, nothing scheduled yet.
    Initialized,
    /// Steps remain to start.
    Animating,
    /// Every step has started; the model is frozen.
    Settled,
}

/// One call to the renderer, always with the whole model.
#[derive(Clone, Copy, Debug, PartialEq, Eq, Structural)]
pub enum RenderCall {
    /// The first render of the surface.
    New,
    /// The render that follows the step with this index.
    Update(usize),
}

impl RenderCall {
    /// The place of the call in the order of rendering: the first render
    /// comes before every step, and the steps follow by index.
    pub open spec fn ordinal(self) -> nat {
        match self {
            RenderCall::New => 0,
            RenderCall::Update(step) => step as nat + 1,
        }
    }
}

/// What one step does to the plot.
#[derive(Debug, PartialEq)]
pub enum Mutation<C> {
    /// Appends one more trace after those already shown.
    AppendTrace(Trace<C>),
    /// Adds one point to the running series and replaces all traces by the
    /// series rebuilt from its points.
    ExtendSeries { x: C, y: C },
}

/// What a mutation holds.
pub enum MutationView<C> {
    AppendTrace(TraceView<C>),
    ExtendSeries { x: C, y: C },
}

impl<C> View for Mutation<C> {
    type V = MutationView<C>;

    open spec fn view(&self) -> MutationView<C> {
        match self {
            Mutation::AppendTrace(trace) => MutationView::AppendTrace(trace@),
            Mutation::ExtendSeries { x, y } => MutationView::ExtendSeries { x: *x, y: *y },
        }
    }
}

/// The contents of a list of mutations, in order.
pub open spec fn mutation_views<C>(mutations: Seq<Mutation<C>>) -> Seq<MutationView<C>> {
    Seq::new(mutations.len(), |i: int| mutations[i]@)
}

/// The running series after a mutation: one point longer after
/// `ExtendSeries`, unchanged after `AppendTrace`.
pub open spec fn series_after<C>(series: TraceView<C>, step: MutationView<C>) -> TraceView<C> {
    match step {
        MutationView::AppendTrace(_) => series,
        MutationView::ExtendSeries { x, y } => TraceView {
            xs: series.xs.push(x),
            ys: series.ys.push(y),
            ..series
        },
    }
}

/// The plot after a mutation. `AppendTrace` adds its trace behind the others;
/// `ExtendSeries` leaves the rebuilt series as the only trace. The layout
/// stays as it is.
pub open spec fn plot_after<C>(
    plot: PlotView<C>,
    series: TraceView<C>,
    step: MutationView<C>,
) -> PlotView<C> {
    match step {
        MutationView::AppendTrace(trace) => PlotView {
            traces: plot.traces.push(trace),
            layout: plot.layout,
        },
        MutationView::ExtendSeries { x, y } => PlotView {
            traces: seq![series_after(series, step)],
            layout: plot.layout,
        },
    }
}

/// The render calls made once `fired` steps have started: the first render,
/// then one update per step, by index.
pub open spec fn call_log(fired: nat) -> Seq<RenderCall> {
    Seq::new(
        fired + 1,
        |k: int|
            if k == 0 {
                RenderCall::New
            } else {
                RenderCall::Update((k - 1) as usize)
            },
    )
}

/// The delay of the step with the given index: steps are spaced by a fixed
/// interval, the first firing at once.
pub open spec fn delay_of(index: nat, interval: nat) -> nat {
    index * interval
}

/// The delays of `count` steps.
pub open spec fn delays_of(count: nat, interval: nat) -> Seq<u64> {
    Seq::new(count, |i: int| delay_of(i as nat, interval) as u64)
}

/// The state of an engine.
pub struct EngineView<C> {
    pub phase: Phase,
    /// The plot as the renderer sees it at the next call.
    pub model: PlotView<C>,
    /// The running series that `ExtendSeries` grows.
    pub series: TraceView<C>,
    /// The steps that have not started yet, the next one first.
    pub pending: Seq<MutationView<C>>,
    /// How many steps have started.
    pub fired: nat,
    /// Every render call made so far, in the order made.
    pub history: Seq<RenderCall>,
    /// The render calls that the renderer rejected, in the order reported.
    pub failures: Seq<RenderCall>,
    /// The render call that was asked for and has not completed yet.
    pub in_flight: Option<RenderCall>,
    /// How many pending steps are due: their timers fired while a call was
    /// in flight.
    pub waiting: nat,
}

/// What happens to an engine.
pub enum Event<C> {
    /// The plot is to be shown for the first time.
    Initialize,
    /// These steps are to be scheduled.
    Schedule(Seq<MutationView<C>>),
    /// The timer of a step fired.
    Fire,
    /// The renderer answered the call in flight: accepted or not.
    Complete(bool),
}

/// How many timers fire among the events.
pub open spec fn fire_count<C>(events: Seq<Event<C>>) -> nat
    decreases events.len(),
{
    if events.len() == 0 {
        0
    } else {
        let rest = fire_count(events.subrange(1, events.len() as int));
        if events[0] is Fire {
            rest + 1
        } else {
            rest
        }
    }
}

impl<C> EngineView<C> {
    /// What holds of every state that an engine reaches.
    pub open spec fn consistent(self) -> bool {
        &&& self.phase == Phase::Uninitialized ==> self.history.len() == 0
        &&& self.phase != Phase::Uninitialized ==> self.history == call_log(self.fired)
        &&& (self.phase == Phase::Uninitialized || self.phase == Phase::Initialized)
            ==> self.fired == 0
        &&& self.phase == Phase::Animating <==> self.pending.len() > 0
        &&& self.fired + self.pending.len() <= usize::MAX
        &&& self.phase == Phase::Uninitialized ==> self.in_flight.is_none()
        &&& self.in_flight.is_some() ==> self.in_flight == Some(self.history.last())
        &&& self.waiting <= self.pending.len()
        &&& self.waiting > 0 ==> self.in_flight.is_some()
    }

    /// How many pending steps are not due yet: their timers have not fired.
    pub open spec fn outstanding(self) -> nat {
        (self.pending.len() - self.waiting) as nat
    }

    /// How many steps were scheduled: those started and those still pending.
    pub open spec fn scheduled(self) -> nat {
        self.fired + self.pending.len()
    }

    /// The state after a request to show the plot for the first time: a
    /// plot not yet shown is initialized, with its first render in flight;
    /// any other plot is as before.
    pub open spec fn after_initialize(self) -> EngineView<C> {
        if self.phase == Phase::Uninitialized {
            EngineView {
                phase: Phase::Initialized,
                history: seq![RenderCall::New],
                in_flight: Some(RenderCall::New),
                ..self
            }
        } else {
            self
        }
    }

    /// The state after a request to schedule the given steps: an initialized
    /// plot is animating, or settled if there is no step; any other plot is as
    /// before.
    pub open spec fn after_schedule(self, steps: Seq<MutationView<C>>) -> EngineView<C> {
        if self.phase == Phase::Initialized {
            EngineView {
                phase: if steps.len() == 0 {
                    Phase::Settled
                } else {
                    Phase::Animating
                },
                pending: steps,
                ..self
            }
        } else {
            self
        }
    }

    /// The state when the next pending step has started: its mutation is
    /// applied and the update that shows it is in flight.
    pub open spec fn after_start(self) -> EngineView<C> {
        EngineView {
            phase: if self.pending.len() == 1 {
                Phase::Settled
            } else {
                Phase::Animating
            },
            model: plot_after(self.model, self.series, self.pending[0]),
            series: series_after(self.series, self.pending[0]),
            pending: self.pending.subrange(1, self.pending.len() as int),
            fired: self.fired + 1,
            history: self.history.push(RenderCall::Update(self.fired as usize)),
            failures: self.failures,
            in_flight: Some(RenderCall::Update(self.fired as usize)),
            waiting: self.waiting,
        }
    }

    /// The state after the timer of a step fired. On an animating plot the
    /// next step starts if no call is in flight; else one more step is due,
    /// unless every pending step is due already. Any other plot is as before.
    pub open spec fn after_fire(self) -> EngineView<C> {
        if self.phase != Phase::Animating {
            self
        } else if self.in_flight.is_none() {
            self.after_start()
        } else if self.waiting < self.pending.len() {
            EngineView { waiting: self.waiting + 1, ..self }
        } else {
            self
        }
    }

    /// The state after the renderer answered. The call in flight is done,
    /// and noted among the failures if it was rejected; the next step starts
    /// if one is due. With no call in flight the state is as before.
    pub open spec fn after_complete(self, accepted: bool) -> EngineView<C> {
        if self.in_flight.is_none() {
            self
        } else {
            let failures = if accepted {
                self.failures
            } else {
                self.failures.push(self.in_flight.unwrap())
            };
            if self.waiting > 0 {
                (EngineView {
                    failures,
                    in_flight: None,
                    waiting: (self.waiting - 1) as nat,
                    ..self
                }).after_start()
            } else {
                EngineView { failures, in_flight: None, ..self }
            }
        }
    }

    /// The state after one event.
    pub open spec fn after_event(self, event: Event<C>) -> EngineView<C> {
        match event {
            Event::Initialize => self.after_initialize(),
            Event::Schedule(steps) => self.after_schedule(steps),
            Event::Fire => self.after_fire(),
            Event::Complete(accepted) => self.after_complete(accepted),
        }
    }

    /// The state after a run of events, in their order.
    pub open spec fn after_events(self, events: Seq<Event<C>>) -> EngineView<C>
        decreases events.len(),
    {
        if events.len() == 0 {
            self
        } else {
            self.after_event(events[0]).after_events(events.subrange(1, events.len() as int))
        }
    }
}

/// A managed plot: the model, the steps still to fire, and the record of the
/// render calls made for it.
#[derive(Debug)]
pub struct Engine<C> {
    phase: Phase,
    model: PlotModel<C>,
    series: Trace<C>,
    /// The pending steps, the next one last.
    queue: Vec<Mutation<C>>,
    fired: usize,
    history: Vec<RenderCall>,
    failures: Vec<RenderCall>,
    in_flight: Option<RenderCall>,
    waiting: usize,
}

impl<C> View for Engine<C> {
    type V = EngineView<C>;

    closed spec fn view(&self) -> EngineView<C> {
        EngineView {
            phase: self.phase,
            model: self.model@,
            series: self.series@,
            pending: Seq::new(
                self.queue@.len(),
                |i: int| self.queue@[self.queue@.len() - 1 - i]@,
            ),
            fired: self.fired as nat,
            history: self.history@,
            failures: self.failures@,
            in_flight: self.in_flight,
            waiting: self.waiting as nat,
        }
    }
}

impl<C: Copy> Engine<C> {
    /// What every engine keeps: its state is one that the transitions reach.
    pub open spec fn wf(&self) -> bool {
        self@.consistent()
    }

    /// An engine for `model`, not yet shown, whose running series starts as
    /// `series` (the name and style of the series, and the points it has).
    pub fn with_series(model: PlotModel<C>, series: Trace<C>) -> (engine: Engine<C>)
        ensures
            engine.wf(),
            engine@ == (EngineView {
                phase: Phase::Uninitialized,
                model: model@,
                series: series@,
                pending: Seq::empty(),
                fired: 0,
                history: Seq::empty(),
                failures: Seq::empty(),
                in_flight: None,
                waiting: 0,
            }),
    {
        let engine = Engine {
            phase: Phase::Uninitialized,
            model,
            series,
            queue: Vec::new(),
            fired: 0,
            history: Vec::new(),
            failures: Vec::new(),
            in_flight: None,
            waiting: 0,
        };
        assert(engine@.pending =~= Seq::empty());
        engine
    }

    /// An engine for `model`, not yet shown, with an empty, unnamed running
    /// series drawn as lines with markers.
    pub fn new(model: PlotModel<C>) -> (engine: Engine<C>)
        ensures
            engine.wf(),
            engine@ == (EngineView {
                phase: Phase::Uninitialized,
                model: model@,
                series: TraceView {
                    mode: Mode::LinesMarkers,
                    name: Seq::empty(),
                    color: None,
                    xs: Seq::empty(),
                    ys: Seq::empty(),
                },
                pending: Seq::empty(),
                fired: 0,
                history: Seq::empty(),
                failures: Seq::empty(),
                in_flight: None,
                waiting: 0,
            }),
    {
        let series = Trace {
            mode: Mode::LinesMarkers,
            name: String::new(),
            color: None,
            xs: Vec::new(),
            ys: Vec::new(),
        };
        Engine::with_series(model, series)
    }

    /// The phase of the plot.
    pub fn phase(&self) -> (phase: Phase)
        ensures
            phase == self@.phase,
    {
        self.phase
    }

    /// The plot as the renderer is to see it at the next call.
    pub fn model(&self) -> (model: &PlotModel<C>)
        ensures
            model@ == self@.model,
    {
        &self.model
    }

    /// How many steps have not started yet.
    pub fn remaining(&self) -> (count: usize)
        ensures
            count == self@.pending.len(),
    {
        self.queue.len()
    }

    /// How many steps have started.
    pub fn fired(&self) -> (count: usize)
        ensures
            count == self@.fired,
    {
        self.fired
    }

    /// Every render call made so far, in the order made.
    pub fn history(&self) -> (calls: &Vec<RenderCall>)
        ensures
            calls@ == self@.history,
    {
        &self.history
    }

    /// The render calls that were rejected, in the order reported.
    pub fn failures(&self) -> (calls: &Vec<RenderCall>)
        ensures
            calls@ == self@.failures,
    {
        &self.failures
    }

    /// The render call that has not completed yet, if there is one.
    pub fn in_flight(&self) -> (call: Option<RenderCall>)
        ensures
            call == self@.in_flight,
    {
        self.in_flight
    }

    /// How many pending steps are due and wait for the call in flight.
    pub fn waiting(&self) -> (count: usize)
        ensures
            count == self@.waiting,
    {
        self.waiting
    }

    /// Shows the plot for the first time.
    ///
    /// On an engine not yet shown this asks for the first render and the plot
    /// becomes initialized. In every other phase nothing happens and no call
    /// is asked for.
    pub fn initialize(&mut self) -> (call: Option<RenderCall>)
        requires
            old(self).wf(),
        ensures
            final(self).wf(),
            final(self)@ == old(self)@.after_initialize(),
            old(self)@.phase == Phase::Uninitialized ==> call == Some(RenderCall::New),
            old(self)@.phase != Phase::Uninitialized ==> call.is_none(),
    {
        match self.phase {
            Phase::Uninitialized => {
                self.history.push(RenderCall::New);
                self.phase = Phase::Initialized;
                self.in_flight = Some(RenderCall::New);
                assert(self.history@ =~= seq![RenderCall::New]);
                assert(self.history@ =~= call_log(0));
                Some(RenderCall::New)
            },
            _ => None,
        }
    }

    /// Schedules the steps of the animation, spaced by `interval`.
    ///
    /// On an initialized plot the steps are queued in the order given and
    /// their delays come back, one per step: the plot is animating, or
    /// settled at once if there is no step. In every other phase nothing is
    /// scheduled.
    pub fn schedule(&mut self, steps: Vec<Mutation<C>>, interval: u64) -> (delays: Option<
        Vec<u64>,
    >)
        requires
            old(self).wf(),
            steps@.len() > 0 ==> delay_of((steps@.len() - 1) as nat, interval as nat) <= u64::MAX,
        ensures
            final(self).wf(),
            final(self)@ == old(self)@.after_schedule(mutation_views(steps@)),
            old(self)@.phase == Phase::Initialized ==> delays.is_some(),
            old(self)@.phase == Phase::Initialized ==> delays.unwrap()@ == delays_of(
                steps@.len(),
                interval as nat,
            ),
            old(self)@.phase != Phase::Initialized ==> delays.is_none(),
    {
        match self.phase {
            Phase::Initialized => {},
            _ => {
                return None;
            },
        }
        let count = steps.len();
        let mut delays: Vec<u64> = Vec::new();
        let mut i: usize = 0;
        while i < count
            invariant
                i <= count,
                count == steps@.len(),
                count > 0 ==> delay_of((count - 1) as nat, interval as nat) <= u64::MAX,
                delays@ == delays_of(i as nat, interval as nat),
            decreases count - i,
        {
            assert(i * interval <= (count - 1) * interval) by (nonlinear_arith)
                requires
                    0 <= i <= count - 1,
                    0 <= interval,
            ;
            delays.push(i as u64 * interval);
            i = i + 1;
            assert(delays@ =~= delays_of(i as nat, interval as nat));
        }
        let ghost given = steps@;
        let mut rest = steps;
        let mut queue: Vec<Mutation<C>> = Vec::new();
        while rest.len() > 0
            invariant
                rest@.len() + queue@.len() == given.len(),
                rest@ == given.subrange(0, rest@.len() as int),
                forall|k: int|
                    0 <= k < queue@.len() ==> #[trigger] queue@[k] == given[given.len() - 1 - k],
            decreases rest@.len(),
        {
            let step = rest.pop().unwrap();
            queue.push(step);
            assert(rest@ =~= given.subrange(0, rest@.len() as int));
        }
        self.queue = queue;
        self.phase = if count == 0 {
            Phase::Settled
        } else {
            Phase::Animating
        };
        assert(self@.pending =~= mutation_views(given));
        Some(delays)
    }

    /// Starts the next pending step: applies its mutation and puts the
    /// update that shows it in flight.
    fn start(&mut self) -> (call: RenderCall)
        requires
            old(self)@.pending.len() > 0,
            old(self)@.fired + old(self)@.pending.len() <= usize::MAX,
        ensures
            final(self)@ == old(self)@.after_start(),
            call == RenderCall::Update(old(self)@.fired as usize),
    {
        let step = self.queue.pop().unwrap();
        match step {
            Mutation::AppendTrace(trace) => {
                self.model.traces.push(trace);
                assert(self.model@.traces =~= old(self).model@.traces.push(trace@));
            },
            Mutation::ExtendSeries { x, y } => {
                self.series.xs.push(x);
                self.series.ys.push(y);
                let mut traces: Vec<Trace<C>> = Vec::new();
                traces.push(self.series.duplicate());
                self.model.traces = traces;
                assert(self.model@.traces =~= seq![self.series@]);
            },
        }
        let call = RenderCall::Update(self.fired);
        self.history.push(call);
        self.fired = self.fired + 1;
        self.in_flight = Some(call);
        self.phase = if self.queue.len() == 0 {
            Phase::Settled
        } else {
            Phase::Animating
        };
        assert(self@.pending =~= old(self)@.pending.subrange(
            1,
            old(self)@.pending.len() as int,
        ));
        call
    }

    /// Takes note that the timer of a step fired.
    ///
    /// On an animating plot with no call in flight the next pending step
    /// starts: its mutation is applied to the model and the update that shows
    /// it is asked for; the plot settles with its last step. While a call is
    /// in flight the step waits for it and no call is asked for. In every
    /// other phase nothing happens.
    pub fn fire(&mut self) -> (call: Option<RenderCall>)
        requires
            old(self).wf(),
        ensures
            final(self).wf(),
            final(self)@ == old(self)@.after_fire(),
            call == (if old(self)@.phase == Phase::Animating && old(self)@.in_flight.is_none() {
                Some(RenderCall::Update(old(self)@.fired as usize))
            } else {
                None
            }),
    {
        match self.phase {
            Phase::Animating => {},
            _ => {
                return None;
            },
        }
        if self.in_flight.is_none() {
            let call = self.start();
            proof {
                lemma_start_keeps_consistency(old(self)@);
            }
            Some(call)
        } else {
            if self.waiting < self.queue.len() {
                self.waiting = self.waiting + 1;
            }
            None
        }
    }

    /// Reports what the renderer answered to the call in flight.
    ///
    /// The call is done. If it was rejected, it is noted among the failures
    /// and reported as `RenderRejected`; it is not made again, the model
    /// keeps the state it has, and the steps still pending stay scheduled.
    /// If a step waited for the call, that step starts now and its update is
    /// asked for. With no call in flight nothing happens.
    pub fn complete(&mut self, accepted: bool) -> (answer: (
        Result<(), PlotError>,
        Option<RenderCall>,
    ))
        requires
            old(self).wf(),
        ensures
            final(self).wf(),
            final(self)@ == old(self)@.after_complete(accepted),
            answer.0 == (if old(self)@.in_flight.is_some() && !accepted {
                Err::<(), PlotError>(PlotError::RenderRejected)
            } else {
                Ok::<(), PlotError>(())
            }),
            answer.1 == (if old(self)@.in_flight.is_some() && old(self)@.waiting > 0 {
                Some(RenderCall::Update(old(self)@.fired as usize))
            } else {
                None
            }),
    {
        let done = match self.in_flight {
            Some(call) => call,
            None => {
                return (Ok(()), None);
            },
        };
        self.in_flight = None;
        let outcome = if accepted {
            Ok(())
        } else {
            self.failures.push(done);
            Err(PlotError::RenderRejected)
        };
        if self.waiting > 0 {
            self.waiting = self.waiting - 1;
            let call = self.start();
            proof {
                lemma_complete_keeps_consistency(old(self)@, accepted);
            }
            (outcome, Some(call))
        } else {
            (outcome, None)
        }
    }
}

/// The steps that reveal the given traces one by one, in their order.
pub fn reveal_steps<C>(traces: Vec<Trace<C>>) -> (steps: Vec<Mutation<C>>)
    ensures
        steps@.len() == traces@.len(),
        forall|i: int|
            0 <= i < traces@.len() ==> (#[trigger] steps@[i])@ == MutationView::AppendTrace(
                traces@[i]@,
            ),
{
    let ghost given = traces@;
    let mut rest = traces;
    let mut backwards: Vec<Mutation<C>> = Vec::new();
    while rest.len() > 0
        invariant
            rest@.len() + backwards@.len() == given.len(),
            rest@ == given.subrange(0, rest@.len() as int),
            forall|k: int|
                0 <= k < backwards@.len() ==> (#[trigger] backwards@[k])@
                    == MutationView::AppendTrace(given[given.len() - 1 - k]@),
        decreases rest@.len(),
    {
        let trace = rest.pop().unwrap();
        backwards.push(Mutation::AppendTrace(trace));
        assert(rest@ =~= given.subrange(0, rest@.len() as int));
    }
    let mut steps: Vec<Mutation<C>> = Vec::new();
    while backwards.len() > 0
        invariant
            backwards@.len() + steps@.len() == given.len(),
            forall|k: int|
                0 <= k < backwards@.len() ==> (#[trigger] backwards@[k])@
                    == MutationView::AppendTrace(given[given.len() - 1 - k]@),
            forall|i: int|
                0 <= i < steps@.len() ==> (#[trigger] steps@[i])@ == MutationView::AppendTrace(
                    given[i]@,
                ),
        decreases backwards@.len(),
    {
        let step = backwards.pop().unwrap();
        steps.push(step);
    }
    steps
}

/// The steps that grow the running series by the points `(x_values[i],
/// y_values[i])`, in index order.
///
/// Succeeds exactly when the two sequences have the same length.
pub fn series_steps<C: Copy>(x_values: &[C], y_values: &[C]) -> (steps: Result<
    Vec<Mutation<C>>,
    PlotError,
>)
    ensures
        x_values@.len() == y_values@.len() ==> steps.is_ok(),
        x_values@.len() == y_values@.len() ==> steps.unwrap()@.len() == x_values@.len(),
        x_values@.len() == y_values@.len() ==> forall|i: int|
            0 <= i < x_values@.len() ==> (#[trigger] steps.unwrap()@[i])@
                == (MutationView::ExtendSeries { x: x_values@[i], y: y_values@[i] }),
        x_values@.len() != y_values@.len() ==> steps == Err::<Vec<Mutation<C>>, PlotError>(
            PlotError::LengthMismatch,
        ),
{
    let count = match paired_len(x_values, y_values) {
        Ok(count) => count,
        Err(error) => {
            return Err(error);
        },
    };
    let mut steps: Vec<Mutation<C>> = Vec::new();
    let mut i: usize = 0;
    while i < count
        invariant
            i <= count,
            count == x_values@.len(),
            count == y_values@.len(),
            steps@.len() == i,
            forall|k: int|
                0 <= k < i ==> (#[trigger] steps@[k])@ == (MutationView::ExtendSeries {
                    x: x_values@[k],
                    y: y_values@[k],
                }),
        decreases count - i,
    {
        steps.push(Mutation::ExtendSeries { x: x_values[i], y: y_values[i] });
        i = i + 1;
    }
    Ok(steps)
}

/// Starting a step keeps the state reachable and the number of scheduled
/// steps, when the plot is animating and no call is in flight.
pub proof fn lemma_start_keeps_consistency<C>(state: EngineView<C>)
    requires
        state.consistent(),
        state.phase == Phase::Animating,
        state.in_flight.is_none(),
    ensures
        state.after_start().consistent(),
        state.after_start().scheduled() == state.scheduled(),
{
    let next = state.after_start();
    assert(next.history =~= call_log(next.fired));
}

/// The answer of the renderer keeps the state reachable, and as many steps
/// scheduled, and as many of them not due, as before.
pub proof fn lemma_complete_keeps_consistency<C>(state: EngineView<C>, accepted: bool)
    requires
        state.consistent(),
    ensures
        state.after_complete(accepted).consistent(),
        state.after_complete(accepted).scheduled() == state.scheduled(),
        state.after_complete(accepted).outstanding() == state.outstanding(),
        state.after_complete(accepted).phase == Phase::Uninitialized <==> state.phase
            == Phase::Uninitialized,
        state.after_complete(accepted).phase == Phase::Initialized <==> state.phase
            == Phase::Initialized,
{
    if state.in_flight.is_some() && state.waiting > 0 {
        let failures = if accepted {
            state.failures
        } else {
            state.failures.push(state.in_flight.unwrap())
        };
        let idle = EngineView {
            failures,
            in_flight: None,
            waiting: (state.waiting - 1) as nat,
            ..state
        };
        let next = idle.after_start();
        assert(next.history =~= call_log(next.fired));
    }
}

/// Every event keeps the state reachable and the number of scheduled steps,
/// but for the scheduling itself.
pub proof fn lemma_event_keeps_consistency<C>(state: EngineView<C>, event: Event<C>)
    requires
        state.consistent(),
        event matches Event::Schedule(steps) ==> steps.len() <= usize::MAX,
    ensures
        state.after_event(event).consistent(),
        state.phase == Phase::Animating || state.phase == Phase::Settled ==> ({
            let next = state.after_event(event);
            &&& next.phase == Phase::Animating || next.phase == Phase::Settled
            &&& next.scheduled() == state.scheduled()
            &&& next.outstanding() == if event is Fire && state.outstanding() > 0 {
                (state.outstanding() - 1) as nat
            } else {
                state.outstanding()
            }
        }),
{
    match event {
        Event::Initialize => {
            if state.phase == Phase::Uninitialized {
                assert(state.after_initialize().history =~= call_log(0));
            }
        },
        Event::Schedule(steps) => {},
        Event::Fire => {
            if state.phase == Phase::Animating && state.in_flight.is_none() {
                lemma_start_keeps_consistency(state);
            }
        },
        Event::Complete(accepted) => {
            lemma_complete_keeps_consistency(state, accepted);
        },
    }
}

/// Render calls are made in step order: of any two calls in the history of
/// a reachable state, the earlier one has the smaller place, so the first
/// render precedes every update and the updates follow by strictly
/// increasing step index. Once the plot has been shown, there is one call
/// more than steps started.
pub proof fn lemma_calls_follow_step_order<C>(state: EngineView<C>)
    requires
        state.consistent(),
    ensures
        forall|i: int, j: int|
            0 <= i < j < state.history.len() ==> (#[trigger] state.history[i]).ordinal() < (
            #[trigger] state.history[j]).ordinal(),
        state.phase != Phase::Uninitialized ==> state.history.len() == state.fired + 1,
        state.phase != Phase::Uninitialized ==> state.history[0] == RenderCall::New,
        forall|k: int|
            state.phase != Phase::Uninitialized && 1 <= k < state.history.len()
                ==> #[trigger] state.history[k] == RenderCall::Update((k - 1) as usize),
{
    if state.phase != Phase::Uninitialized {
        assert forall|i: int| 0 <= i < state.history.len() implies (
        #[trigger] state.history[i]).ordinal() == i by {}
    }
}

/// Whatever happens to an engine, in whatever order, its state stays
/// reachable: its render calls are in step order and at most one of them is
/// in flight. On a plot whose steps are scheduled no firing is lost: each
/// timer that fires makes one more step due or started, until all are.
pub proof fn lemma_events_keep_consistency<C>(state: EngineView<C>, events: Seq<Event<C>>)
    requires
        state.consistent(),
        forall|i: int|
            0 <= i < events.len() ==> ((#[trigger] events[i]) matches Event::Schedule(steps)
                ==> steps.len() <= usize::MAX),
    ensures
        state.after_events(events).consistent(),
        state.phase == Phase::Animating || state.phase == Phase::Settled ==> ({
            let end = state.after_events(events);
            &&& end.phase == Phase::Animating || end.phase == Phase::Settled
            &&& end.scheduled() == state.scheduled()
            &&& end.outstanding() == if fire_count(events) <= state.outstanding() {
                (state.outstanding() - fire_count(events)) as nat
            } else {
                0
            }
        }),
    decreases events.len(),
{
    if events.len() > 0 {
        let rest = events.subrange(1, events.len() as int);
        assert forall|i: int| 0 <= i < rest.len() implies ((
        #[trigger] rest[i]) matches Event::Schedule(steps) ==> steps.len() <= usize::MAX) by {
            assert(rest[i] == events[i + 1]);
        }
        lemma_event_keeps_consistency(state, events[0]);
        lemma_events_keep_consistency(state.after_event(events[0]), rest);
    }
}

/// A staged animation makes exactly one render call more than it has steps:
/// once the timers of all scheduled steps have fired and no call is in
/// flight, whatever else happened and in whatever order, the plot is settled
/// and its history holds the first render and then one update per step, in
/// step order.
pub proof fn lemma_staged_render_calls<C>(state: EngineView<C>, events: Seq<Event<C>>)
    requires
        state.consistent(),
        state.phase == Phase::Animating || state.phase == Phase::Settled,
        forall|i: int|
            0 <= i < events.len() ==> ((#[trigger] events[i]) matches Event::Schedule(steps)
                ==> steps.len() <= usize::MAX),
        fire_count(events) >= state.outstanding(),
        state.after_events(events).in_flight.is_none(),
    ensures
        ({
            let end = state.after_events(events);
            &&& end.phase == Phase::Settled
            &&& end.pending.len() == 0
            &&& end.fired == state.scheduled()
            &&& end.history == call_log(state.scheduled())
            &&& end.history.len() == state.scheduled() + 1
        }),
{
    lemma_events_keep_consistency(state, events);
}

/// A settled plot is frozen: whatever happens to it, it stays settled, and
/// its model, its running series and its history stay as they are.
pub proof fn lemma_settled_is_frozen<C>(state: EngineView<C>, events: Seq<Event<C>>)
    requires
        state.consistent(),
        state.phase == Phase::Settled,
    ensures
        state.after_events(events).consistent(),
        state.after_events(events).phase == Phase::Settled,
        state.after_events(events).model == state.model,
        state.after_events(events).series == state.series,
        state.after_events(events).history == state.history,
        state.after_events(events).fired == state.fired,
    decreases events.len(),
{
    if events.len() > 0 {
        let next = state.after_event(events[0]);
        assert(next.consistent());
        lemma_settled_is_frozen(next, events.subrange(1, events.len() as int));
    }
}

/// Showing a fresh plot and scheduling its steps leaves every step
/// outstanding: the plot has been rendered once, and as many timers are to
/// fire as steps were given.
pub proof fn lemma_schedule_leaves_all_outstanding<C>(
    start: EngineView<C>,
    steps: Seq<MutationView<C>>,
)
    requires
        start.consistent(),
        start.phase == Phase::Uninitialized,
        steps.len() <= usize::MAX,
    ensures
        ({
            let ready = start.after_initialize().after_schedule(steps);
            &&& ready.consistent()
            &&& ready.phase == Phase::Animating || ready.phase == Phase::Settled
            &&& ready.scheduled() == steps.len()
            &&& ready.outstanding() == steps.len()
            &&& ready.history == seq![RenderCall::New]
        }),
{
    let shown = start.after_initialize();
    assert(shown.history =~= call_log(0));
}

/// Delays grow with the step index: a later step never fires before an
/// earlier one is due, and with a positive interval it is due strictly later.
pub proof fn lemma_delays_increase(interval: nat, earlier: nat, later: nat)
    requires
        earlier < later,
    ensures
        delay_of(earlier, interval) <= delay_of(later, interval),
        interval > 0 ==> delay_of(earlier, interval) < delay_of(later, interval),
        delay_of(0, interval) == 0,
{
    assert(earlier * interval <= later * interval) by (nonlinear_arith)
        requires
            earlier < later,
            0 <= interval,
    ;
    if interval > 0 {
        assert(earlier * interval < later * interval) by (nonlinear_arith)
            requires
                earlier < later,
                0 < interval,
        ;
    }
}

} // verus!

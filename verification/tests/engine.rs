use regression_viz::engine::{reveal_steps, series_steps, Engine, Mutation, Phase, RenderCall};
use regression_viz::error::PlotError;
use regression_viz::model::{create_mse_plot, create_scatterplot, Mode, Trace};

fn scatter_engine(lines: usize) -> (Engine<f64>, Vec<Trace<f64>>) {
    let ends: Vec<(f64, f64)> = (0..lines).map(|i| (i as f64, -(i as f64))).collect();
    let (plot, traces) =
        create_scatterplot(-10.0, 10.0, vec![1.0, 2.0], vec![3.0, 4.0], (4.5, 6.0), &ends);
    (Engine::new(plot), traces)
}

/// An engine whose first render was accepted and whose steps are scheduled.
fn animating_engine(lines: usize) -> Engine<f64> {
    let (mut engine, traces) = scatter_engine(lines);
    engine.initialize();
    engine.complete(true);
    engine.schedule(reveal_steps(traces), 1000);
    engine
}

#[test]
fn new_engine_is_uninitialized() {
    let (engine, _traces) = scatter_engine(3);
    assert_eq!(engine.phase(), Phase::Uninitialized);
    assert_eq!(engine.remaining(), 0);
    assert_eq!(engine.fired(), 0);
    assert_eq!(engine.waiting(), 0);
    assert_eq!(engine.in_flight(), None);
    assert!(engine.history().is_empty());
    assert!(engine.failures().is_empty());
    assert_eq!(engine.model().traces.len(), 1);
}

#[test]
fn initialize_asks_for_the_first_render_once() {
    let (mut engine, _traces) = scatter_engine(3);
    assert_eq!(engine.initialize(), Some(RenderCall::New));
    assert_eq!(engine.phase(), Phase::Initialized);
    assert_eq!(engine.in_flight(), Some(RenderCall::New));
    assert_eq!(engine.history(), &vec![RenderCall::New]);
    assert_eq!(engine.initialize(), None);
    assert_eq!(engine.phase(), Phase::Initialized);
    assert_eq!(engine.history(), &vec![RenderCall::New]);
}

#[test]
fn schedule_spaces_the_steps_by_the_interval() {
    let (mut engine, traces) = scatter_engine(5);
    engine.initialize();
    let delays = engine.schedule(reveal_steps(traces), 1000);
    assert_eq!(delays, Some(vec![0, 1000, 2000, 3000, 4000]));
    assert_eq!(engine.phase(), Phase::Animating);
    assert_eq!(engine.remaining(), 5);
    assert_eq!(engine.fired(), 0);
    assert_eq!(engine.model().traces.len(), 1);
}

#[test]
fn schedule_with_zero_interval_fires_all_at_once() {
    let (mut engine, traces) = scatter_engine(3);
    engine.initialize();
    assert_eq!(engine.schedule(reveal_steps(traces), 0), Some(vec![0, 0, 0]));
}

#[test]
fn schedule_at_the_largest_delay() {
    let (mut engine, traces) = scatter_engine(2);
    engine.initialize();
    assert_eq!(engine.schedule(reveal_steps(traces), u64::MAX), Some(vec![0, u64::MAX]));
}

#[test]
fn schedule_needs_an_initialized_plot() {
    let (mut engine, traces) = scatter_engine(2);
    assert_eq!(engine.schedule(reveal_steps(traces), 1000), None);
    assert_eq!(engine.phase(), Phase::Uninitialized);
    assert_eq!(engine.remaining(), 0);
}

#[test]
fn schedule_happens_once() {
    let mut engine = animating_engine(2);
    let (_other, more) = scatter_engine(4);
    assert_eq!(engine.schedule(reveal_steps(more), 1000), None);
    assert_eq!(engine.remaining(), 2);
    assert_eq!(engine.phase(), Phase::Animating);
}

#[test]
fn schedule_of_no_steps_settles_at_once() {
    let (mut engine, traces) = scatter_engine(0);
    engine.initialize();
    engine.complete(true);
    assert_eq!(engine.schedule(reveal_steps(traces), 1000), Some(vec![]));
    assert_eq!(engine.phase(), Phase::Settled);
    assert_eq!(engine.history(), &vec![RenderCall::New]);
    assert_eq!(engine.fire(), None);
    assert_eq!(engine.waiting(), 0);
}

#[test]
fn fire_needs_an_animating_plot() {
    let (mut engine, _traces) = scatter_engine(2);
    assert_eq!(engine.fire(), None);
    engine.initialize();
    engine.complete(true);
    assert_eq!(engine.fire(), None);
    assert_eq!(engine.phase(), Phase::Initialized);
    assert_eq!(engine.waiting(), 0);
    assert_eq!(engine.model().traces.len(), 1);
    assert_eq!(engine.history(), &vec![RenderCall::New]);
}

#[test]
fn reveal_renders_once_more_than_it_has_steps() {
    let (mut engine, traces) = scatter_engine(5);
    let mut seen = vec![engine.initialize().unwrap()];
    assert_eq!(engine.complete(true), (Ok(()), None));
    engine.schedule(reveal_steps(traces), 1000);
    while let Some(call) = engine.fire() {
        seen.push(call);
        assert_eq!(engine.in_flight(), Some(call));
        assert_eq!(engine.complete(true), (Ok(()), None));
    }
    let expected = vec![
        RenderCall::New,
        RenderCall::Update(0),
        RenderCall::Update(1),
        RenderCall::Update(2),
        RenderCall::Update(3),
        RenderCall::Update(4),
    ];
    assert_eq!(seen, expected);
    assert_eq!(engine.history(), &expected);
    assert_eq!(engine.history().len(), 5 + 1);
    assert_eq!(engine.phase(), Phase::Settled);
    assert_eq!(engine.fired(), 5);
    assert_eq!(engine.remaining(), 0);
    assert_eq!(engine.in_flight(), None);
}

#[test]
fn reveal_appends_one_trace_per_step_in_order() {
    let mut engine = animating_engine(3);
    for step in 0..3 {
        assert_eq!(engine.phase(), Phase::Animating);
        assert_eq!(engine.fire(), Some(RenderCall::Update(step)));
        let shown = &engine.model().traces;
        assert_eq!(shown.len(), step + 2);
        assert_eq!(shown[0].name, "Data Points");
        for line in 0..=step {
            assert_eq!(shown[line + 1].name, format!("Line {}", line + 1));
            assert_eq!(shown[line + 1].ys, vec![line as f64, -(line as f64)]);
        }
        assert_eq!(engine.model().layout.y_range, Some((4.5, 6.0)));
        assert_eq!(engine.model().layout.show_legend, Some(false));
        engine.complete(true);
    }
    assert_eq!(engine.phase(), Phase::Settled);
}

#[test]
fn step_waits_while_a_call_is_in_flight() {
    let (mut engine, traces) = scatter_engine(3);
    assert_eq!(engine.initialize(), Some(RenderCall::New));
    engine.schedule(reveal_steps(traces), 0);
    assert_eq!(engine.fire(), None);
    assert_eq!(engine.fire(), None);
    assert_eq!(engine.waiting(), 2);
    assert_eq!(engine.fired(), 0);
    assert_eq!(engine.model().traces.len(), 1);
    assert_eq!(engine.history(), &vec![RenderCall::New]);

    assert_eq!(engine.complete(true), (Ok(()), Some(RenderCall::Update(0))));
    assert_eq!(engine.in_flight(), Some(RenderCall::Update(0)));
    assert_eq!(engine.waiting(), 1);
    assert_eq!(engine.model().traces.len(), 2);

    assert_eq!(engine.fire(), None);
    assert_eq!(engine.waiting(), 2);
    assert_eq!(engine.complete(true), (Ok(()), Some(RenderCall::Update(1))));
    assert_eq!(engine.complete(true), (Ok(()), Some(RenderCall::Update(2))));
    assert_eq!(engine.phase(), Phase::Settled);
    assert_eq!(engine.in_flight(), Some(RenderCall::Update(2)));
    assert_eq!(engine.complete(true), (Ok(()), None));
    assert_eq!(engine.in_flight(), None);
    assert_eq!(engine.waiting(), 0);
    assert_eq!(engine.model().traces.len(), 4);
    assert_eq!(
        engine.history(),
        &vec![
            RenderCall::New,
            RenderCall::Update(0),
            RenderCall::Update(1),
            RenderCall::Update(2),
        ]
    );
}

#[test]
fn no_more_steps_wait_than_are_pending() {
    let (mut engine, traces) = scatter_engine(2);
    engine.initialize();
    engine.schedule(reveal_steps(traces), 0);
    for _ in 0..5 {
        assert_eq!(engine.fire(), None);
    }
    assert_eq!(engine.waiting(), 2);
    assert_eq!(engine.complete(true), (Ok(()), Some(RenderCall::Update(0))));
    assert_eq!(engine.complete(true), (Ok(()), Some(RenderCall::Update(1))));
    assert_eq!(engine.complete(true), (Ok(()), None));
    assert_eq!(engine.history().len(), 3);
    assert_eq!(engine.phase(), Phase::Settled);
}

#[test]
fn complete_without_a_call_in_flight_changes_nothing() {
    let (mut engine, _traces) = scatter_engine(2);
    assert_eq!(engine.complete(false), (Ok(()), None));
    assert!(engine.failures().is_empty());
    assert_eq!(engine.phase(), Phase::Uninitialized);
    let mut engine = animating_engine(2);
    assert_eq!(engine.complete(false), (Ok(()), None));
    assert!(engine.failures().is_empty());
    assert_eq!(engine.remaining(), 2);
}

#[test]
fn settled_plot_is_frozen() {
    let mut engine = animating_engine(1);
    let (_other, more) = scatter_engine(2);
    engine.fire();
    engine.complete(true);
    assert_eq!(engine.phase(), Phase::Settled);
    assert_eq!(engine.fire(), None);
    assert_eq!(engine.initialize(), None);
    assert_eq!(engine.schedule(reveal_steps(more), 1000), None);
    assert_eq!(engine.complete(false), (Ok(()), None));
    assert_eq!(engine.phase(), Phase::Settled);
    assert_eq!(engine.model().traces.len(), 2);
    assert_eq!(engine.history(), &vec![RenderCall::New, RenderCall::Update(0)]);
    assert!(engine.failures().is_empty());
}

#[test]
fn series_is_rebuilt_as_the_only_trace() {
    let (plot, series) = create_mse_plot((-0.3, 3.3), (0.0, 10.5));
    let mut engine = Engine::with_series(plot, series);
    assert_eq!(engine.initialize(), Some(RenderCall::New));
    engine.complete(true);
    assert!(engine.model().traces.is_empty());
    let scores = vec![10.0, 2.5, 7.0];
    let indices = vec![0.0, 1.0, 2.0];
    let steps = series_steps(&indices, &scores).unwrap();
    assert_eq!(engine.schedule(steps, 1000), Some(vec![0, 1000, 2000]));
    for step in 0..3 {
        assert_eq!(engine.fire(), Some(RenderCall::Update(step)));
        let shown = &engine.model().traces;
        assert_eq!(shown.len(), 1);
        assert_eq!(shown[0].mode, Mode::LinesMarkers);
        assert_eq!(shown[0].name, "MSE Values");
        assert_eq!(shown[0].xs, indices[..=step].to_vec());
        assert_eq!(shown[0].ys, scores[..=step].to_vec());
        assert_eq!(engine.model().layout.x_range, Some((-0.3, 3.3)));
        assert_eq!(engine.model().layout.y_range, Some((0.0, 10.5)));
        engine.complete(true);
    }
    assert_eq!(engine.phase(), Phase::Settled);
    assert_eq!(engine.history().len(), 4);
}

#[test]
fn series_keeps_the_points_it_started_with() {
    let (plot, mut series) = create_mse_plot((0.0, 1.0), (0.0, 1.0));
    series.xs.push(9.0);
    series.ys.push(8.0);
    let mut engine = Engine::with_series(plot, series);
    engine.initialize();
    engine.complete(true);
    engine.schedule(vec![Mutation::ExtendSeries { x: 1.0, y: 2.0 }], 5);
    engine.fire();
    assert_eq!(engine.model().traces[0].xs, vec![9.0, 1.0]);
    assert_eq!(engine.model().traces[0].ys, vec![8.0, 2.0]);
}

#[test]
fn default_series_is_unnamed() {
    let (mut engine, _traces) = scatter_engine(0);
    engine.initialize();
    engine.complete(true);
    engine.schedule(vec![Mutation::ExtendSeries { x: 1.0, y: 2.0 }], 5);
    assert_eq!(engine.fire(), Some(RenderCall::Update(0)));
    let shown = &engine.model().traces;
    assert_eq!(shown.len(), 1);
    assert_eq!(shown[0].name, "");
    assert_eq!(shown[0].mode, Mode::LinesMarkers);
    assert_eq!(shown[0].color, None);
    assert_eq!(shown[0].xs, vec![1.0]);
    assert_eq!(shown[0].ys, vec![2.0]);
}

#[test]
fn both_kinds_of_step_in_one_queue() {
    let (mut engine, mut traces) = scatter_engine(1);
    engine.initialize();
    engine.complete(true);
    let line = traces.pop().unwrap();
    let steps = vec![
        Mutation::ExtendSeries { x: 0.0, y: 5.0 },
        Mutation::AppendTrace(line),
        Mutation::ExtendSeries { x: 1.0, y: 6.0 },
    ];
    engine.schedule(steps, 10);
    engine.fire();
    engine.complete(true);
    assert_eq!(engine.model().traces.len(), 1);
    engine.fire();
    engine.complete(true);
    assert_eq!(engine.model().traces.len(), 2);
    assert_eq!(engine.model().traces[1].name, "Line 1");
    engine.fire();
    engine.complete(true);
    assert_eq!(engine.model().traces.len(), 1);
    assert_eq!(engine.model().traces[0].ys, vec![5.0, 6.0]);
}

#[test]
fn accepted_render_changes_nothing_but_the_call_in_flight() {
    let (mut engine, traces) = scatter_engine(2);
    engine.initialize();
    assert_eq!(engine.complete(true), (Ok(()), None));
    assert_eq!(engine.in_flight(), None);
    assert_eq!(engine.phase(), Phase::Initialized);
    engine.schedule(reveal_steps(traces), 1000);
    engine.fire();
    assert_eq!(engine.complete(true), (Ok(()), None));
    assert!(engine.failures().is_empty());
    assert_eq!(engine.phase(), Phase::Animating);
    assert_eq!(engine.remaining(), 1);
    assert_eq!(engine.model().traces.len(), 2);
}

#[test]
fn rejected_render_is_reported_and_later_steps_still_fire() {
    let mut engine = animating_engine(3);
    assert_eq!(engine.fire(), Some(RenderCall::Update(0)));
    assert_eq!(engine.complete(false), (Err(PlotError::RenderRejected), None));
    assert_eq!(engine.failures(), &vec![RenderCall::Update(0)]);
    assert_eq!(engine.model().traces.len(), 2);
    assert_eq!(engine.phase(), Phase::Animating);
    assert_eq!(engine.remaining(), 2);
    assert_eq!(engine.fire(), Some(RenderCall::Update(1)));
    assert_eq!(engine.complete(true), (Ok(()), None));
    assert_eq!(engine.fire(), Some(RenderCall::Update(2)));
    assert_eq!(engine.complete(false), (Err(PlotError::RenderRejected), None));
    assert_eq!(engine.failures(), &vec![RenderCall::Update(0), RenderCall::Update(2)]);
    assert_eq!(engine.phase(), Phase::Settled);
    assert_eq!(engine.model().traces.len(), 4);
    assert_eq!(engine.history().len(), 4);
}

#[test]
fn rejected_render_still_starts_the_step_that_waits() {
    let mut engine = animating_engine(2);
    assert_eq!(engine.fire(), Some(RenderCall::Update(0)));
    assert_eq!(engine.fire(), None);
    assert_eq!(
        engine.complete(false),
        (Err(PlotError::RenderRejected), Some(RenderCall::Update(1)))
    );
    assert_eq!(engine.failures(), &vec![RenderCall::Update(0)]);
    assert_eq!(engine.model().traces.len(), 3);
    assert_eq!(engine.phase(), Phase::Settled);
}

#[test]
fn rejected_first_render_does_not_stop_the_animation() {
    let (mut engine, traces) = scatter_engine(1);
    engine.initialize();
    assert_eq!(engine.complete(false), (Err(PlotError::RenderRejected), None));
    assert_eq!(engine.failures(), &vec![RenderCall::New]);
    assert_eq!(engine.phase(), Phase::Initialized);
    assert_eq!(engine.schedule(reveal_steps(traces), 1000), Some(vec![0]));
    assert_eq!(engine.fire(), Some(RenderCall::Update(0)));
    assert_eq!(engine.phase(), Phase::Settled);
}

#[test]
fn two_plots_animate_independently() {
    let mut lines = animating_engine(2);
    let (plot, series) = create_mse_plot((0.0, 1.0), (0.0, 1.0));
    let mut errors = Engine::with_series(plot, series);
    errors.initialize();
    errors.complete(true);
    errors.schedule(series_steps(&[0.0, 1.0], &[4.0, 5.0]).unwrap(), 1000);
    assert_eq!(lines.fire(), Some(RenderCall::Update(0)));
    assert_eq!(errors.fire(), Some(RenderCall::Update(0)));
    assert_eq!(errors.complete(true), (Ok(()), None));
    assert_eq!(errors.fire(), Some(RenderCall::Update(1)));
    assert_eq!(errors.phase(), Phase::Settled);
    assert_eq!(lines.phase(), Phase::Animating);
    assert_eq!(lines.in_flight(), Some(RenderCall::Update(0)));
    assert_eq!(lines.model().traces.len(), 2);
    assert_eq!(errors.model().traces.len(), 1);
}

#[test]
fn reveal_steps_keep_the_order_of_the_traces() {
    let (_engine, traces) = scatter_engine(4);
    let steps = reveal_steps(traces);
    assert_eq!(steps.len(), 4);
    for (i, step) in steps.iter().enumerate() {
        match step {
            Mutation::AppendTrace(trace) => assert_eq!(trace.name, format!("Line {}", i + 1)),
            Mutation::ExtendSeries { .. } => panic!("a reveal step appends a trace"),
        }
    }
    assert!(reveal_steps(Vec::<Trace<f64>>::new()).is_empty());
}

#[test]
fn series_steps_pair_the_values_by_index() {
    let steps = series_steps(&[0.0, 1.0, 2.0], &[9.0, 8.0, 7.0]).unwrap();
    assert_eq!(
        steps,
        vec![
            Mutation::ExtendSeries { x: 0.0, y: 9.0 },
            Mutation::ExtendSeries { x: 1.0, y: 8.0 },
            Mutation::ExtendSeries { x: 2.0, y: 7.0 },
        ]
    );
    let none: [f64; 0] = [];
    assert_eq!(series_steps(&none, &none), Ok(vec![]));
}

#[test]
fn series_steps_refuse_mismatched_lengths() {
    assert_eq!(series_steps(&[1.0, 2.0], &[2.0, 4.0, 6.0]), Err(PlotError::LengthMismatch));
    assert_eq!(series_steps(&[1.0], &[]), Err(PlotError::LengthMismatch));
}

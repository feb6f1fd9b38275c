//! The simulation loop's decisions: applying drained semantic events to
//! the run state and the grid, and the fixed-rate frame tick with its
//! rate divider.
//!
//! The loop around these functions lives outside the library: it drains
//! the channel, calls in here, renders, and sleeps off the rest of the
//! frame budget.

use vstd::prelude::*;

use crate::events::SemanticEvent;
use crate::grid::grid_wf;
use crate::grid::step_spec;
use crate::grid::toggle;
use crate::grid::toggle_spec;
use crate::grid::update_table;

verus! {

/// How many frames pass between two generations: the simulation advances
/// on every `FRAMES_PER_UPDATE`-th frame while running, so the automaton
/// can move slower than the render loop.
pub const FRAMES_PER_UPDATE: u32 = 2;

/// The state the simulation loop owns: whether the simulation is paused,
/// and the frame counter of the rate divider. The loop starts paused.
pub struct RunState {
    pub paused: bool,
    pub counter: u32,
}

/// The initial run state: paused, with the frame counter at zero.
pub fn new_run_state() -> (s: RunState)
    ensures
        s.paused,
        s.counter == 0,
{
    RunState { paused: true, counter: 0 }
}

/// What one semantic event does to the grid and the pause flag:
/// `ToggleCell` flips one cell of the grid, `TogglePause` flips the pause
/// flag, and `Terminate` changes neither — its only effect is to end the
/// loop.
pub open spec fn apply_event_spec(g: Seq<Seq<bool>>, paused: bool, e: SemanticEvent) -> (
    Seq<Seq<bool>>,
    bool,
) {
    match e {
        SemanticEvent::ToggleCell(r, c) => (toggle_spec(g, r as int, c as int), paused),
        SemanticEvent::TogglePause => (g, !paused),
        SemanticEvent::Terminate => (g, paused),
    }
}

/// What a whole queue of semantic events does, applied in arrival order.
pub open spec fn apply_events_spec(
    g: Seq<Seq<bool>>,
    paused: bool,
    evs: Seq<SemanticEvent>,
) -> (Seq<Seq<bool>>, bool)
    decreases evs.len(),
{
    if evs.len() == 0 {
        (g, paused)
    } else {
        let first = apply_event_spec(g, paused, evs[0]);
        apply_events_spec(first.0, first.1, evs.skip(1))
    }
}

/// Whether the queue holds a `Terminate`.
pub open spec fn has_terminate(evs: Seq<SemanticEvent>) -> bool {
    exists|i: int| 0 <= i < evs.len() && evs[i] is Terminate
}

/// Applying a queue with one more event at its end is applying the queue,
/// then the event.
pub proof fn lemma_apply_events_snoc(
    g: Seq<Seq<bool>>,
    paused: bool,
    evs: Seq<SemanticEvent>,
    e: SemanticEvent,
)
    ensures
        apply_events_spec(g, paused, evs.push(e)) == ({
            let mid = apply_events_spec(g, paused, evs);
            apply_event_spec(mid.0, mid.1, e)
        }),
    decreases evs.len(),
{
    if evs.len() == 0 {
        assert(evs.push(e)[0] == e);
        assert(evs.push(e).skip(1) =~= Seq::<SemanticEvent>::empty());
        let first = apply_event_spec(g, paused, e);
        assert(apply_events_spec(g, paused, evs.push(e)) == apply_events_spec(
            first.0,
            first.1,
            Seq::<SemanticEvent>::empty(),
        ));
        assert(apply_events_spec(first.0, first.1, Seq::<SemanticEvent>::empty()) == first);
        assert(apply_events_spec(g, paused, evs) == (g, paused));
    } else {
        assert(evs.push(e)[0] == evs[0]);
        assert(evs.push(e).skip(1) =~= evs.skip(1).push(e));
        let first = apply_event_spec(g, paused, evs[0]);
        lemma_apply_events_snoc(first.0, first.1, evs.skip(1), e);
        assert(apply_events_spec(g, paused, evs.push(e)) == apply_events_spec(
            first.0,
            first.1,
            evs.skip(1).push(e),
        ));
        assert(apply_events_spec(g, paused, evs) == apply_events_spec(
            first.0,
            first.1,
            evs.skip(1),
        ));
    }
}

/// Applies one semantic event. The result says whether the event asks
/// the loop to stop; only `Terminate` does, and `Terminate` leaves both
/// the grid and the run state untouched.
pub fn apply_event(state: &mut RunState, table: &mut Vec<Vec<bool>>, e: &SemanticEvent) -> (stop:
    bool)
    requires
        grid_wf(old(table).deep_view()),
    ensures
        (final(table).deep_view(), final(state).paused) == apply_event_spec(
            old(table).deep_view(),
            old(state).paused,
            *e,
        ),
        final(state).counter == old(state).counter,
        grid_wf(final(table).deep_view()),
        stop == (*e is Terminate),
{
    match e {
        SemanticEvent::ToggleCell(r, c) => {
            let ghost g = table.deep_view();
            toggle(table, *r as usize, *c as usize);
            proof {
                crate::grid::lemma_toggle_shape(g, *r as int, *c as int);
            }
            false
        },
        SemanticEvent::TogglePause => {
            state.paused = !state.paused;
            false
        },
        SemanticEvent::Terminate => true,
    }
}

/// Drains one frame's queue: applies every event in arrival order and
/// reports whether a `Terminate` was among them, in which case the loop
/// must stop before the next frame.
pub fn drain_events(
    state: &mut RunState,
    table: &mut Vec<Vec<bool>>,
    events: &Vec<SemanticEvent>,
) -> (stop: bool)
    requires
        grid_wf(old(table).deep_view()),
    ensures
        (final(table).deep_view(), final(state).paused) == apply_events_spec(
            old(table).deep_view(),
            old(state).paused,
            events@,
        ),
        final(state).counter == old(state).counter,
        grid_wf(final(table).deep_view()),
        stop == has_terminate(events@),
{
    let ghost g0 = table.deep_view();
    let ghost p0 = state.paused;
    let mut stop = false;
    let mut i: usize = 0;
    while i < events.len()
        invariant
            i <= events@.len(),
            grid_wf(table.deep_view()),
            (table.deep_view(), state.paused) == apply_events_spec(g0, p0, events@.take(i as int)),
            state.counter == old(state).counter,
            stop == has_terminate(events@.take(i as int)),
        decreases events@.len() - i,
    {
        let e = &events[i];
        let s = apply_event(state, table, e);
        stop = stop || s;
        proof {
            let prefix = events@.take(i as int);
            lemma_apply_events_snoc(g0, p0, prefix, events@[i as int]);
            assert(events@.take(i + 1) =~= prefix.push(events@[i as int]));
            assert(has_terminate(events@.take(i + 1)) == (has_terminate(prefix) || events@[i
                as int] is Terminate)) by {
                let ext = events@.take(i + 1);
                if has_terminate(prefix) {
                    let k = choose|k: int| 0 <= k < prefix.len() && prefix[k] is Terminate;
                    assert(ext[k] is Terminate);
                } else if events@[i as int] is Terminate {
                    assert(ext[i as int] is Terminate);
                }
            }
        }
        i = i + 1;
    }
    proof {
        assert(events@.take(events@.len() as int) =~= events@);
    }
    stop
}

/// One tick of the rate divider. The frame counter always advances; the
/// grid advances a generation only when the simulation is running and the
/// counter has reached `FRAMES_PER_UPDATE`, and then the counter resets.
/// While paused the grid is never stepped.
pub fn frame_tick(state: &mut RunState, table: &mut Vec<Vec<bool>>)
    requires
        grid_wf(old(table).deep_view()),
        old(state).counter < u32::MAX,
    ensures
        grid_wf(final(table).deep_view()),
        final(state).paused == old(state).paused,
        old(state).paused ==> final(table).deep_view() == old(table).deep_view(),
        if !old(state).paused && (old(state).counter + 1) % (FRAMES_PER_UPDATE as int) == 0 {
            final(state).counter == 0 && final(table).deep_view() == step_spec(
                old(table).deep_view(),
            )
        } else {
            final(state).counter == old(state).counter + 1 && final(table).deep_view() == old(
                table,
            ).deep_view()
        },
{
    let ghost g = table.deep_view();
    state.counter = state.counter + 1;
    if !state.paused && state.counter % FRAMES_PER_UPDATE == 0 {
        update_table(table);
        state.counter = 0;
        proof {
            crate::grid::lemma_step_shape(g);
        }
    }
}

/// One full iteration of the simulation loop's decisions: drain the
/// queued events, and — unless a `Terminate` was among them — advance the
/// frame clock, stepping the grid when the rate divider says so. The
/// result says whether the loop must stop; on stop, nothing after the
/// drain touches the grid or the counter.
pub fn frame_iteration(
    state: &mut RunState,
    table: &mut Vec<Vec<bool>>,
    events: &Vec<SemanticEvent>,
) -> (stop: bool)
    requires
        grid_wf(old(table).deep_view()),
        old(state).counter < u32::MAX,
    ensures
        grid_wf(final(table).deep_view()),
        stop == has_terminate(events@),
        ({
            let drained = apply_events_spec(old(table).deep_view(), old(state).paused, events@);
            &&& final(state).paused == drained.1
            &&& (stop ==> final(table).deep_view() == drained.0 && final(state).counter == old(
                state,
            ).counter)
            &&& (!stop ==> (if !drained.1 && (old(state).counter + 1) % (FRAMES_PER_UPDATE as int)
                == 0 {
                final(state).counter == 0 && final(table).deep_view() == step_spec(drained.0)
            } else {
                final(state).counter == old(state).counter + 1 && final(table).deep_view()
                    == drained.0
            }))
        }),
{
    let stop = drain_events(state, table, events);
    if !stop {
        frame_tick(state, table);
    }
    stop
}

/// Law: `TogglePause` alternates the run state strictly. A queue of
/// nothing but `TogglePause` events leaves the pause flag as it was when
/// their number is even and flips it when their number is odd — so
/// starting paused, one toggle runs, a second pauses again — and such a
/// queue never touches the grid.
pub proof fn lemma_pause_alternation(g: Seq<Seq<bool>>, paused: bool, evs: Seq<SemanticEvent>)
    requires
        forall|i: int| 0 <= i < evs.len() ==> evs[i] is TogglePause,
    ensures
        apply_events_spec(g, paused, evs).0 == g,
        apply_events_spec(g, paused, evs).1 == if evs.len() % 2 == 0 {
            paused
        } else {
            !paused
        },
    decreases evs.len(),
{
    if evs.len() > 0 {
        assert(evs[0] is TogglePause);
        lemma_pause_alternation(g, !paused, evs.skip(1));
        assert(evs.skip(1).len() % 2 == (evs.len() - 1) % 2);
    }
}

/// Law: `Terminate` carries no state change of its own — it leaves the
/// grid and the pause flag exactly as they were; its entire effect is
/// the stop it requests from the loop.
pub proof fn lemma_terminate_is_inert(g: Seq<Seq<bool>>, paused: bool)
    ensures
        apply_event_spec(g, paused, SemanticEvent::Terminate) == (g, paused),
{
}

} // verus!

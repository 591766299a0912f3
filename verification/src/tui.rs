//! The live view's loop: it looks for the quit key, takes in what was reported, draws, and looks
//! for the stop flag.
use vstd::prelude::*;

use crate::report::Metrics;

verus! {

/// A key event of the terminal.
#[derive(Debug, Clone, Copy, PartialEq, Eq, Structural)]
pub struct KeyInput {
    /// Whether the key went down, and was not released or held.
    pub pressed: bool,
    /// The character that the key stands for, if it stands for one.
    pub character: Option<char>,
}

/// Where the loop stands, by what it waits for.
#[derive(Debug, Clone, Copy, PartialEq, Eq, Structural)]
pub enum TuiPhase {
    Polling,
    Draining,
    Drawing,
    Checking,
    Closed,
}

/// What happened outside.
#[derive(Debug, Clone, Copy, PartialEq, Eq, Structural)]
pub enum TuiEvent {
    /// The terminal was asked for input, and this key event came, if any.
    Polled(Option<KeyInput>),
    /// One second's metrics were waiting.
    Received(Metrics),
    /// No more metrics were waiting.
    QueueEmpty,
    /// The screen was drawn.
    Drawn,
    /// The stop flag was read.
    StopFlag(bool),
}

/// What is to be done outside next.
#[derive(Debug, Clone, Copy, PartialEq, Eq, Structural)]
pub enum TuiAction {
    Poll,
    Receive,
    /// Hand these to the live view and to the history, then receive again.
    Deliver(Metrics),
    Draw,
    ReadStop,
    /// Raise the stop flag and leave the loop.
    StopAndClose,
    /// Leave the loop.
    Close,
}

/// Whether this input asks to quit: the letter q going down.
pub open spec fn asks_to_quit(input: Option<KeyInput>) -> bool {
    input == Some(KeyInput { pressed: true, character: Some('q') })
}

/// The loop's own state.
#[derive(Debug, Clone, Copy, PartialEq, Eq, Structural)]
pub struct TuiLoop {
    pub phase: TuiPhase,
}

impl TuiLoop {
    /// What the loop waits for.
    pub open spec fn pending_spec(self) -> TuiAction {
        match self.phase {
            TuiPhase::Polling => TuiAction::Poll,
            TuiPhase::Draining => TuiAction::Receive,
            TuiPhase::Drawing => TuiAction::Draw,
            TuiPhase::Checking => TuiAction::ReadStop,
            TuiPhase::Closed => TuiAction::Close,
        }
    }

    /// The loop after `event`. An event that answers nothing leaves it as it is.
    pub open spec fn after(self, event: TuiEvent) -> TuiLoop {
        match (self.phase, event) {
            (TuiPhase::Polling, TuiEvent::Polled(input)) => TuiLoop {
                phase: if asks_to_quit(input) {
                    TuiPhase::Closed
                } else {
                    TuiPhase::Draining
                },
            },
            (TuiPhase::Draining, TuiEvent::QueueEmpty) => TuiLoop { phase: TuiPhase::Drawing },
            (TuiPhase::Drawing, TuiEvent::Drawn) => TuiLoop { phase: TuiPhase::Checking },
            (TuiPhase::Checking, TuiEvent::StopFlag(stop)) => TuiLoop {
                phase: if stop {
                    TuiPhase::Closed
                } else {
                    TuiPhase::Polling
                },
            },
            _ => self,
        }
    }

    /// What is to be done once `event` has been taken in.
    pub open spec fn action_after(self, event: TuiEvent) -> TuiAction {
        match (self.phase, event) {
            (TuiPhase::Polling, TuiEvent::Polled(input)) if asks_to_quit(input) =>
            TuiAction::StopAndClose,
            (TuiPhase::Draining, TuiEvent::Received(m)) => TuiAction::Deliver(m),
            _ => self.after(event).pending_spec(),
        }
    }

    /// A loop at the start of its first round.
    pub fn new() -> (tui: Self)
        ensures
            tui == (TuiLoop { phase: TuiPhase::Polling }),
    {
        TuiLoop { phase: TuiPhase::Polling }
    }

    /// What the loop waits for.
    pub fn pending(&self) -> (action: TuiAction)
        ensures
            action == self.pending_spec(),
    {
        match self.phase {
            TuiPhase::Polling => TuiAction::Poll,
            TuiPhase::Draining => TuiAction::Receive,
            TuiPhase::Drawing => TuiAction::Draw,
            TuiPhase::Checking => TuiAction::ReadStop,
            TuiPhase::Closed => TuiAction::Close,
        }
    }

    /// Takes in `event` and says what is to be done next.
    pub fn step(&mut self, event: TuiEvent) -> (action: TuiAction)
        ensures
            *final(self) == old(self).after(event),
            action == old(self).action_after(event),
    {
        match (self.phase, event) {
            (TuiPhase::Polling, TuiEvent::Polled(input)) => {
                if quit_requested(input) {
                    self.phase = TuiPhase::Closed;
                    return TuiAction::StopAndClose;
                }
                self.phase = TuiPhase::Draining;
            },
            (TuiPhase::Draining, TuiEvent::Received(m)) => {
                return TuiAction::Deliver(m);
            },
            (TuiPhase::Draining, TuiEvent::QueueEmpty) => {
                self.phase = TuiPhase::Drawing;
            },
            (TuiPhase::Drawing, TuiEvent::Drawn) => {
                self.phase = TuiPhase::Checking;
            },
            (TuiPhase::Checking, TuiEvent::StopFlag(stop)) => {
                self.phase = if stop {
                    TuiPhase::Closed
                } else {
                    TuiPhase::Polling
                };
            },
            _ => {},
        }
        self.pending()
    }
}

/// Whether this input asks to quit.
pub fn quit_requested(input: Option<KeyInput>) -> (quit: bool)
    ensures
        quit == asks_to_quit(input),
{
    match input {
        Some(key) => match key.character {
            Some(character) => key.pressed && character == 'q',
            None => false,
        },
        None => false,
    }
}

/// The loop after a series of events.
pub open spec fn tui_after(tui: TuiLoop, events: Seq<TuiEvent>) -> TuiLoop
    decreases events.len(),
{
    if events.len() == 0 {
        tui
    } else {
        tui_after(tui, events.drop_last()).after(events.last())
    }
}

/// What the loop delivers in the course of a series of events.
pub open spec fn delivered(tui: TuiLoop, events: Seq<TuiEvent>) -> Seq<Metrics>
    decreases events.len(),
{
    if events.len() == 0 {
        Seq::empty()
    } else {
        match tui_after(tui, events.drop_last()).action_after(events.last()) {
            TuiAction::Deliver(m) => delivered(tui, events.drop_last()).push(m),
            _ => delivered(tui, events.drop_last()),
        }
    }
}

/// How often the screen is drawn in the course of a series of events.
pub open spec fn draws(tui: TuiLoop, events: Seq<TuiEvent>) -> nat
    decreases events.len(),
{
    if events.len() == 0 {
        0
    } else {
        draws(tui, events.drop_last()) + if tui_after(tui, events.drop_last()).phase
            == TuiPhase::Drawing && events.last() == TuiEvent::Drawn {
            1nat
        } else {
            0
        }
    }
}

/// The arrival of each of a series of metrics.
pub open spec fn arrivals(metrics: Seq<Metrics>) -> Seq<TuiEvent> {
    metrics.map_values(|m: Metrics| TuiEvent::Received(m))
}

/// One round of the loop: `input` is seen, `metrics` are waiting, and the stop flag reads `stop`.
pub open spec fn round(
    input: Option<KeyInput>,
    metrics: Seq<Metrics>,
    stop: bool,
) -> Seq<TuiEvent> {
    (seq![TuiEvent::Polled(input)] + arrivals(metrics)).push(TuiEvent::QueueEmpty).push(
        TuiEvent::Drawn,
    ).push(TuiEvent::StopFlag(stop))
}

proof fn lemma_arrivals(tui: TuiLoop, input: Option<KeyInput>, metrics: Seq<Metrics>)
    requires
        tui.phase == TuiPhase::Polling,
        !asks_to_quit(input),
    ensures
        ({
            let events = seq![TuiEvent::Polled(input)] + arrivals(metrics);
            &&& tui_after(tui, events).phase == TuiPhase::Draining
            &&& delivered(tui, events) == metrics
            &&& draws(tui, events) == 0
        }),
    decreases metrics.len(),
{
    let events = seq![TuiEvent::Polled(input)] + arrivals(metrics);
    reveal_with_fuel(tui_after, 2);
    reveal_with_fuel(delivered, 2);
    reveal_with_fuel(draws, 2);
    if metrics.len() == 0 {
        assert(events =~= seq![TuiEvent::Polled(input)]);
        assert(events.drop_last() =~= Seq::empty());
        assert(delivered(tui, events) =~= metrics);
    } else {
        let before = metrics.drop_last();
        lemma_arrivals(tui, input, before);
        assert(events.drop_last() =~= seq![TuiEvent::Polled(input)] + arrivals(before));
        assert(events.last() == TuiEvent::Received(metrics.last()));
        assert(delivered(tui, events) =~= metrics);
    }
}

/// A round without the quit key delivers everything that was waiting, in order, then draws once,
/// and ends the loop if and only if the stop flag is up.
pub proof fn law_a_round_delivers_everything_then_draws(
    tui: TuiLoop,
    input: Option<KeyInput>,
    metrics: Seq<Metrics>,
    stop: bool,
)
    requires
        tui.phase == TuiPhase::Polling,
        !asks_to_quit(input),
    ensures
        delivered(tui, round(input, metrics, stop)) == metrics,
        draws(tui, round(input, metrics, stop)) == 1,
        tui_after(tui, round(input, metrics, stop)).phase == (if stop {
            TuiPhase::Closed
        } else {
            TuiPhase::Polling
        }),
{
    let start = seq![TuiEvent::Polled(input)] + arrivals(metrics);
    lemma_arrivals(tui, input, metrics);
    let e1 = start.push(TuiEvent::QueueEmpty);
    let e2 = e1.push(TuiEvent::Drawn);
    let e3 = e2.push(TuiEvent::StopFlag(stop));
    assert(e1.drop_last() =~= start);
    assert(e2.drop_last() =~= e1);
    assert(e3.drop_last() =~= e2);
    assert(tui_after(tui, e1).phase == TuiPhase::Drawing);
    assert(tui_after(tui, e2).phase == TuiPhase::Checking);
    assert(delivered(tui, e1) == metrics);
    assert(delivered(tui, e2) == metrics);
    assert(draws(tui, e1) == 0);
    assert(draws(tui, e2) == 1);
}

/// What one round of the loop meets: a key event, if any, the metrics that are waiting, and the
/// stop flag at its end.
pub struct TuiRound {
    pub input: Option<KeyInput>,
    pub metrics: Seq<Metrics>,
    pub stop: bool,
}

/// The events of a series of rounds.
pub open spec fn rounds_events(rounds: Seq<TuiRound>) -> Seq<TuiEvent>
    decreases rounds.len(),
{
    if rounds.len() == 0 {
        Seq::empty()
    } else {
        let last = rounds.last();
        rounds_events(rounds.drop_last()) + round(last.input, last.metrics, last.stop)
    }
}

/// The metrics that are waiting in a series of rounds, in order.
pub open spec fn rounds_metrics(rounds: Seq<TuiRound>) -> Seq<Metrics>
    decreases rounds.len(),
{
    if rounds.len() == 0 {
        Seq::empty()
    } else {
        rounds_metrics(rounds.drop_last()) + rounds.last().metrics
    }
}

/// Whether a series of rounds runs to its end: none meets the quit key, and none but the last
/// finds the stop flag up.
pub open spec fn rounds_run(rounds: Seq<TuiRound>) -> bool {
    &&& forall|i: int| 0 <= i < rounds.len() ==> !asks_to_quit((#[trigger] rounds[i]).input)
    &&& forall|i: int| 0 <= i < rounds.len() - 1 ==> !(#[trigger] rounds[i]).stop
}

/// A series of events and one after it do what they do one after the other.
proof fn lemma_concatenated(tui: TuiLoop, first: Seq<TuiEvent>, then: Seq<TuiEvent>)
    ensures
        ({
            let middle = tui_after(tui, first);
            &&& tui_after(tui, first + then) == tui_after(middle, then)
            &&& delivered(tui, first + then) == delivered(tui, first) + delivered(middle, then)
            &&& draws(tui, first + then) == draws(tui, first) + draws(middle, then)
        }),
    decreases then.len(),
{
    let middle = tui_after(tui, first);
    let all = first + then;
    if then.len() == 0 {
        assert(all =~= first);
        assert(delivered(tui, first) + delivered(middle, then) =~= delivered(tui, first));
    } else {
        lemma_concatenated(tui, first, then.drop_last());
        assert(all.drop_last() =~= first + then.drop_last());
        assert(delivered(tui, all) =~= delivered(tui, first) + delivered(middle, then));
    }
}

/// Over any number of rounds the loop delivers everything that was waiting in them, in order and
/// each once, draws once in each, and ends if and only if the last of them finds the stop flag
/// up.
pub proof fn law_rounds_deliver_everything_in_order(tui: TuiLoop, rounds: Seq<TuiRound>)
    requires
        tui.phase == TuiPhase::Polling,
        rounds_run(rounds),
    ensures
        delivered(tui, rounds_events(rounds)) == rounds_metrics(rounds),
        draws(tui, rounds_events(rounds)) == rounds.len(),
        tui_after(tui, rounds_events(rounds)).phase == (if rounds.len() > 0 && rounds.last().stop {
            TuiPhase::Closed
        } else {
            TuiPhase::Polling
        }),
    decreases rounds.len(),
{
    if rounds.len() > 0 {
        let before = rounds.drop_last();
        let last = rounds.last();
        assert forall|i: int| 0 <= i < before.len() implies !asks_to_quit(
            (#[trigger] before[i]).input,
        ) && !before[i].stop by {
            assert(before[i] == rounds[i]);
        }
        law_rounds_deliver_everything_in_order(tui, before);
        if before.len() > 0 {
            assert(!before[before.len() - 1].stop);
        }
        let middle = tui_after(tui, rounds_events(before));
        assert(rounds[rounds.len() - 1] == last);
        law_a_round_delivers_everything_then_draws(middle, last.input, last.metrics, last.stop);
        lemma_concatenated(
            tui,
            rounds_events(before),
            round(last.input, last.metrics, last.stop),
        );
    }
}

/// After any number of rounds that find the stop flag down, the quit key ends the loop with
/// everything delivered that was waiting before it, and nothing that comes later.
pub proof fn law_quitting_keeps_what_was_delivered(
    tui: TuiLoop,
    rounds: Seq<TuiRound>,
    input: Option<KeyInput>,
    later: Seq<TuiEvent>,
)
    requires
        tui.phase == TuiPhase::Polling,
        rounds_run(rounds),
        rounds.len() > 0 ==> !rounds.last().stop,
        asks_to_quit(input),
    ensures
        ({
            let events = rounds_events(rounds) + (seq![TuiEvent::Polled(input)] + later);
            &&& delivered(tui, events) == rounds_metrics(rounds)
            &&& draws(tui, events) == rounds.len()
            &&& tui_after(tui, events).phase == TuiPhase::Closed
        }),
{
    let quit = seq![TuiEvent::Polled(input)];
    law_rounds_deliver_everything_in_order(tui, rounds);
    let middle = tui_after(tui, rounds_events(rounds));
    lemma_concatenated(tui, rounds_events(rounds), quit + later);
    lemma_concatenated(middle, quit, later);
    reveal_with_fuel(tui_after, 2);
    reveal_with_fuel(delivered, 2);
    reveal_with_fuel(draws, 2);
    assert(quit.drop_last() =~= Seq::empty());
    assert(quit.last() == TuiEvent::Polled(input));
    assert(tui_after(middle, quit).phase == TuiPhase::Closed);
    law_a_closed_view_is_inert(tui_after(middle, quit), later);
    assert(delivered(middle, quit) =~= Seq::empty());
    assert(delivered(middle, quit + later) =~= Seq::empty());
    assert(delivered(tui, rounds_events(rounds) + (quit + later)) =~= rounds_metrics(rounds));
}

/// The quit key raises the stop flag and ends the loop at once, and nothing else raises the flag.
pub proof fn law_only_the_quit_key_raises_stop(tui: TuiLoop, event: TuiEvent)
    ensures
        tui.action_after(event) == TuiAction::StopAndClose <==> (tui.phase == TuiPhase::Polling
            && event is Polled && asks_to_quit(event->Polled_0)),
        tui.action_after(event) == TuiAction::StopAndClose ==> tui.after(event).phase
            == TuiPhase::Closed,
{
}

/// Once the loop is over it delivers nothing and draws nothing, whatever happens.
pub proof fn law_a_closed_view_is_inert(tui: TuiLoop, events: Seq<TuiEvent>)
    requires
        tui.phase == TuiPhase::Closed,
    ensures
        tui_after(tui, events) == tui,
        delivered(tui, events).len() == 0,
        draws(tui, events) == 0,
    decreases events.len(),
{
    if events.len() > 0 {
        law_a_closed_view_is_inert(tui, events.drop_last());
    }
}

/// What asks to quit: the lower-case letter q, going down; nothing else, and not silence.
pub proof fn law_only_q_going_down_quits(pressed: bool, character: Option<char>)
    ensures
        asks_to_quit(Some(KeyInput { pressed, character })) <==> (pressed && character is Some
            && character->0 == 'q'),
        !asks_to_quit(None),
{
}

/// What the loop asks to be done in answer to each of a series of events.
pub open spec fn answers(tui: TuiLoop, events: Seq<TuiEvent>) -> Seq<TuiAction>
    decreases events.len(),
{
    if events.len() == 0 {
        Seq::empty()
    } else {
        answers(tui, events.drop_last()).push(
            tui_after(tui, events.drop_last()).action_after(events.last()),
        )
    }
}

/// A round in full: the loop polls, then receives, hands on each of the metrics that were waiting,
/// draws, reads the stop flag, and closes if that is up and polls again if not.
pub proof fn law_a_round_asks_in_turn(
    tui: TuiLoop,
    input: Option<KeyInput>,
    metrics: Seq<Metrics>,
    stop: bool,
)
    requires
        tui.phase == TuiPhase::Polling,
        input matches Some(key) ==> !key.pressed || key.character != Some('q'),
    ensures
        tui.pending_spec() == TuiAction::Poll,
        ({
            let done = answers(tui, round(input, metrics, stop));
            let n = metrics.len() as int;
            &&& done.len() == n + 4
            &&& done[0] == TuiAction::Receive
            &&& forall|i: int|
                0 <= i < n ==> done[i + 1] == TuiAction::Deliver(#[trigger] metrics[i])
            &&& done[n + 1] == TuiAction::Draw
            &&& done[n + 2] == TuiAction::ReadStop
            &&& stop ==> done[n + 3] == TuiAction::Close
            &&& !stop ==> done[n + 3] == TuiAction::Poll
        }),
{
    let start = seq![TuiEvent::Polled(input)] + arrivals(metrics);
    let n = metrics.len() as int;
    lemma_answers_to_arrivals(tui, input, metrics);
    lemma_arrivals(tui, input, metrics);
    let e1 = start.push(TuiEvent::QueueEmpty);
    let e2 = e1.push(TuiEvent::Drawn);
    let e3 = e2.push(TuiEvent::StopFlag(stop));
    assert(e1.drop_last() =~= start);
    assert(e2.drop_last() =~= e1);
    assert(e3.drop_last() =~= e2);
    assert(tui_after(tui, e1).phase == TuiPhase::Drawing);
    assert(tui_after(tui, e2).phase == TuiPhase::Checking);
    let a0 = answers(tui, start);
    let a1 = answers(tui, e1);
    let a2 = answers(tui, e2);
    let a3 = answers(tui, e3);
    assert(a1 == a0.push(TuiAction::Draw));
    assert(a2 == a1.push(TuiAction::ReadStop));
    assert(e3.last() == TuiEvent::StopFlag(stop));
    assert(a3 == a2.push(
        if stop {
            TuiAction::Close
        } else {
            TuiAction::Poll
        },
    ));
    assert(round(input, metrics, stop) == e3);
    assert forall|i: int| 0 <= i < n implies a3[i + 1] == TuiAction::Deliver(
        #[trigger] metrics[i],
    ) by {
        assert(a0[i + 1] == TuiAction::Deliver(metrics[i]));
    }
}

proof fn lemma_answers_to_arrivals(
    tui: TuiLoop,
    input: Option<KeyInput>,
    metrics: Seq<Metrics>,
)
    requires
        tui.phase == TuiPhase::Polling,
        !asks_to_quit(input),
    ensures
        ({
            let done = answers(tui, seq![TuiEvent::Polled(input)] + arrivals(metrics));
            &&& done.len() == metrics.len() + 1
            &&& done[0] == TuiAction::Receive
            &&& forall|i: int|
                0 <= i < metrics.len() ==> done[i + 1] == TuiAction::Deliver(#[trigger] metrics[i])
        }),
    decreases metrics.len(),
{
    let events = seq![TuiEvent::Polled(input)] + arrivals(metrics);
    let done = answers(tui, events);
    reveal_with_fuel(answers, 2);
    if metrics.len() == 0 {
        assert(events =~= seq![TuiEvent::Polled(input)]);
        assert(events.drop_last() =~= Seq::empty());
        assert(events.last() == TuiEvent::Polled(input));
    } else {
        let before = metrics.drop_last();
        lemma_answers_to_arrivals(tui, input, before);
        lemma_arrivals(tui, input, before);
        assert(events.drop_last() =~= seq![TuiEvent::Polled(input)] + arrivals(before));
        assert(events.last() == TuiEvent::Received(metrics.last()));
        assert forall|i: int| 0 <= i < metrics.len() implies done[i + 1] == TuiAction::Deliver(
            #[trigger] metrics[i],
        ) by {
            if i < before.len() {
                assert(before[i] == metrics[i]);
            }
        }
    }
}

/// What the loop did not ask for changes nothing, and it asks again.
pub proof fn law_unasked_input_changes_nothing(tui: TuiLoop, event: TuiEvent)
    requires
        tui.phase == TuiPhase::Polling ==> !(event is Polled),
        tui.phase == TuiPhase::Draining ==> !(event is Received || event is QueueEmpty),
        tui.phase == TuiPhase::Drawing ==> event != TuiEvent::Drawn,
        tui.phase == TuiPhase::Checking ==> !(event is StopFlag),
    ensures
        tui.after(event) == tui,
        tui.action_after(event) == tui.pending_spec(),
{
}

/// The quit key is answered at once, with the stop flag raised and the loop left for good.
pub proof fn law_the_quit_key_ends_the_loop(tui: TuiLoop)
    requires
        tui.phase == TuiPhase::Polling,
    ensures
        ({
            let event = TuiEvent::Polled(Some(KeyInput { pressed: true, character: Some('q') }));
            &&& tui.action_after(event) == TuiAction::StopAndClose
            &&& tui.after(event).pending_spec() == TuiAction::Close
        }),
{
}

/// After every answer but two the loop waits for just what it asked for. What it hands on it
/// follows by receiving again, and having raised the stop flag it is closed.
pub proof fn law_the_view_waits_for_what_it_asked(tui: TuiLoop, event: TuiEvent)
    ensures
        match tui.action_after(event) {
            TuiAction::Deliver(m) => {
                &&& event == TuiEvent::Received(m)
                &&& tui.after(event).pending_spec() == TuiAction::Receive
            },
            TuiAction::StopAndClose => tui.after(event).pending_spec() == TuiAction::Close,
            asked => tui.after(event).pending_spec() == asked,
        },
{
}

} // verus!

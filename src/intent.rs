use vstd::prelude::*;

verus! {

/// The intent shown when nothing else is pending.
pub const DEFAULT_INTENT: &'static str = "default";

/// The intent that hands the screen to the chronometer.
pub const CHRONOMETER_INTENT: &'static str = "chronometer";

/// The intent that hands the screen to the weather display.
pub const WEATHER_INTENT: &'static str = "weather";

/// The intent that ends either modal sub-loop.
pub const DONE_INTENT: &'static str = "done";

/// State shared between the intent listener and the render loop. The
/// program keeps it behind one lock, so that the render loop reads all three
/// fields and switches in one critical section.
pub struct State {
    /// The last intent name received, or `default`.
    pub current_intent: String,
    /// Whether an in-flight audio clip of the active intent has finished.
    pub audio_finished: bool,
    /// Whether `current_intent` has not been consumed by the render loop yet.
    pub new_intent: bool,
}

/// What the shared state holds, as plain values.
pub struct StateView {
    pub current_intent: Seq<char>,
    pub audio_finished: bool,
    pub new_intent: bool,
}

impl StateView {
    /// The state after a line naming `name` was received.
    pub open spec fn received(self, name: Seq<char>) -> StateView {
        StateView { current_intent: name, new_intent: true, ..self }
    }

    /// The state after the pending intent, if any, was handed out.
    pub open spec fn taken(self) -> StateView {
        StateView { new_intent: false, ..self }
    }

    /// What taking the pending intent hands out.
    pub open spec fn pending(self) -> Option<Seq<char>> {
        if self.new_intent {
            Some(self.current_intent)
        } else {
            None
        }
    }
}

impl View for State {
    type V = StateView;

    open spec fn view(&self) -> StateView {
        StateView {
            current_intent: self.current_intent@,
            audio_finished: self.audio_finished,
            new_intent: self.new_intent,
        }
    }
}

impl State {
    pub fn new() -> (r: State)
        ensures
            r.current_intent@ == DEFAULT_INTENT@,
            !r.audio_finished,
            !r.new_intent,
    {
        State { current_intent: String::from_str(DEFAULT_INTENT), audio_finished: false, new_intent: false }
    }

    /// Records a line received from the controller as the pending intent.
    pub fn set_intent(&mut self, name: String)
        ensures
            final(self)@ == old(self)@.received(name@),
    {
        self.current_intent = name;
        self.new_intent = true;
    }

    /// Records that the audio clip of the active intent has finished.
    pub fn mark_audio_finished(&mut self)
        ensures
            final(self)@ == (StateView { audio_finished: true, ..old(self)@ }),
    {
        self.audio_finished = true;
    }

    /// Hands out the pending intent, if any, and marks it consumed.
    pub fn take_intent(&mut self) -> (r: Option<String>)
        ensures
            final(self)@ == old(self)@.taken(),
            r is Some <==> old(self)@.pending() is Some,
            r is Some ==> r->0@ == old(self)@.pending()->0,
    {
        if self.new_intent {
            self.new_intent = false;
            Some(self.current_intent.clone())
        } else {
            None
        }
    }
}

/// The names that the render loop takes out of the shared state over a run
/// of events: `Some(name)` is a line received, `None` a check that takes what
/// is pending.
pub open spec fn observed(st: StateView, events: Seq<Option<Seq<char>>>) -> Seq<Seq<char>>
    decreases events.len(),
{
    if events.len() == 0 {
        Seq::empty()
    } else {
        match events[0] {
            Some(name) => observed(st.received(name), events.drop_first()),
            None => match st.pending() {
                Some(name) => seq![name] + observed(st.taken(), events.drop_first()),
                None => observed(st.taken(), events.drop_first()),
            },
        }
    }
}

/// The names received over a run of events, in order.
pub open spec fn sent(events: Seq<Option<Seq<char>>>) -> Seq<Seq<char>>
    decreases events.len(),
{
    if events.len() == 0 {
        Seq::empty()
    } else {
        match events[0] {
            Some(name) => seq![name] + sent(events.drop_first()),
            None => sent(events.drop_first()),
        }
    }
}

/// Whether every line received is taken before the next one arrives, and
/// the run ends with a check.
pub open spec fn paced(events: Seq<Option<Seq<char>>>) -> bool {
    &&& forall|i: int| 0 <= i < events.len() - 1 && #[trigger] events[i] is Some ==> events[i + 1] is None
    &&& events.len() > 0 ==> events.last() is None
}

/// The render loop observes the received intents in the order sent, with
/// none lost, as long as each one is taken before the next arrives (the
/// shared state holds one pending intent: a line that arrives while another
/// is pending replaces it).
pub proof fn lemma_intents_observed_in_order(st: StateView, events: Seq<Option<Seq<char>>>)
    requires
        !st.new_intent,
        paced(events),
    ensures
        observed(st, events) == sent(events),
    decreases events.len(),
{
    if events.len() > 0 {
        let rest = events.drop_first();
        match events[0] {
            None => {
                assert forall|i: int| 0 <= i < rest.len() - 1 && #[trigger] rest[i] is Some implies rest[i + 1] is None by {
                    assert(rest[i] == events[i + 1]);
                }
                lemma_intents_observed_in_order(st.taken(), rest);
            },
            Some(name) => {
                assert(events.len() >= 2) by {
                    if events.len() == 1 {
                        assert(events.last() == events[0]);
                    }
                }
                assert(events[1] is None);
                let tail = rest.drop_first();
                assert(rest[0] == events[1]);
                assert forall|i: int| 0 <= i < tail.len() - 1 && #[trigger] tail[i] is Some implies tail[i + 1] is None by {
                    assert(tail[i] == events[i + 2]);
                }
                if tail.len() > 0 {
                    assert(tail.last() == events.last());
                }
                lemma_intents_observed_in_order(st.received(name).taken(), tail);
                assert(observed(st.received(name), rest) == seq![name] + observed(
                    st.received(name).taken(),
                    tail,
                ));
                assert(sent(rest) == sent(tail));
            },
        }
    }
}

} // verus!

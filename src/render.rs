use vstd::prelude::*;
use crate::error::ConfigError;
use crate::intent::{State, StateView, CHRONOMETER_INTENT, DEFAULT_INTENT, WEATHER_INTENT};
use crate::pick::{one_of, pick_path};
use crate::table::{AssetTable, TimingTable};
use crate::text::text_eq;

verus! {

/// Milliseconds between two ticks of the render loop.
pub const TICK_MS: u64 = 100;

/// Whether an intent name hands the screen to a sub-loop.
pub open spec fn reserved(name: Seq<char>) -> bool {
    name == CHRONOMETER_INTENT@ || name == WEATHER_INTENT@
}

/// The intent that a pending name switches to: a reserved name is kept, a
/// name with faces is kept, and any other name falls back to `default`.
pub open spec fn selected(name: Seq<char>, faces: Map<Seq<char>, Vec<String>>) -> Seq<char> {
    if reserved(name) || faces.contains_key(name) {
        name
    } else {
        DEFAULT_INTENT@
    }
}

/// Whether a table holds at least one path for an intent.
pub open spec fn has_paths(table: Map<Seq<char>, Vec<String>>, name: Seq<char>) -> bool {
    table.contains_key(name) && table[name]@.len() > 0
}

/// How the render loop left the active intent on one check.
#[derive(Clone, Copy, Debug, PartialEq, Eq, Structural)]
pub enum Transition {
    /// The active intent has not expired: nothing changed.
    Hold,
    /// It expired with nothing pending: the loop went back to `default`.
    Expire,
    /// It expired and the pending intent was consumed: the program clears
    /// the sub-loops' notification flag too.
    Consume,
}

/// Where the render loop goes with the active intent.
#[derive(Clone, Copy, Debug, PartialEq, Eq, Structural)]
pub enum Mode {
    /// Run the chronometer, then carry on with `default`.
    Chronometer,
    /// Run the weather display, then carry on with `default`.
    Weather,
    /// The weather was asked for without its startup parameters: warn and
    /// carry on with `default`.
    WeatherSkipped,
    /// Draw the active intent.
    Ordinary,
}

/// What one tick of an ordinary intent shows and starts.
pub struct Frame {
    /// The face to draw.
    pub face: String,
    /// The audio clip to start playing, on the first tick of a cycle only.
    pub audio: Option<String>,
}

/// The render loop's own state for the active intent; it is reset together
/// at every switch.
pub struct Cycle {
    /// The intent being displayed.
    pub intent: String,
    /// Its time limit in milliseconds, once loaded.
    pub time_limit: u64,
    /// Milliseconds spent on it so far.
    pub time_slept: u64,
    /// Whether it has an audio clip, once looked up.
    pub audio_available: bool,
    /// Whether its audio has been looked up and, if there is one, started.
    pub played_audio: bool,
    /// Whether a face has been chosen for it.
    pub loaded_face: bool,
    /// Whether its time limit has been looked up.
    pub time_limit_loaded: bool,
    /// The last face chosen.
    pub face: String,
}

/// What a cycle holds, as plain values.
pub struct CycleView {
    pub intent: Seq<char>,
    pub time_limit: u64,
    pub time_slept: u64,
    pub audio_available: bool,
    pub played_audio: bool,
    pub loaded_face: bool,
    pub time_limit_loaded: bool,
    pub face: Seq<char>,
}

impl CycleView {
    /// Whether the active intent is finished: its audio has played to the
    /// end, or, without audio, its time limit has passed.
    pub open spec fn expired(self, audio_finished: bool) -> bool {
        (self.audio_available && self.played_audio && audio_finished) || (!self.audio_available
            && self.time_slept > self.time_limit)
    }

    /// A new cycle for `name`: nothing loaded, nothing played, no time spent.
    pub open spec fn restart(self, name: Seq<char>) -> CycleView {
        CycleView {
            intent: name,
            time_slept: 0,
            audio_available: false,
            played_audio: false,
            loaded_face: false,
            time_limit_loaded: false,
            ..self
        }
    }

    /// The cycle after `k` more ticks.
    pub open spec fn advanced(self, k: nat) -> CycleView {
        let t = self.time_slept + k * TICK_MS;
        CycleView { time_slept: if t > u64::MAX { u64::MAX } else { t as u64 }, ..self }
    }
}

/// One check of the render loop, made under the shared state's lock: the
/// cycle, the shared state and the kind of transition after it.
pub open spec fn step(c: CycleView, st: StateView, faces: Map<Seq<char>, Vec<String>>) -> (
    CycleView,
    StateView,
    Transition,
) {
    if !c.expired(st.audio_finished) {
        (c, st, Transition::Hold)
    } else if !st.new_intent {
        (c.restart(DEFAULT_INTENT@), StateView { audio_finished: false, ..st }, Transition::Expire)
    } else {
        (
            c.restart(selected(st.current_intent, faces)),
            StateView { audio_finished: false, new_intent: false, ..st },
            Transition::Consume,
        )
    }
}

/// The intent that a pending name switches to.
pub fn select_intent(name: String, faces: &AssetTable) -> (r: String)
    ensures
        r@ == selected(name@, faces@),
{
    if text_eq(name.as_str(), CHRONOMETER_INTENT) || text_eq(name.as_str(), WEATHER_INTENT) {
        name
    } else {
        match faces.get(name.as_str()) {
            Some(_) => name,
            None => String::from_str(DEFAULT_INTENT),
        }
    }
}

impl View for Cycle {
    type V = CycleView;

    open spec fn view(&self) -> CycleView {
        CycleView {
            intent: self.intent@,
            time_limit: self.time_limit,
            time_slept: self.time_slept,
            audio_available: self.audio_available,
            played_audio: self.played_audio,
            loaded_face: self.loaded_face,
            time_limit_loaded: self.time_limit_loaded,
            face: self.face@,
        }
    }
}

impl Cycle {
    /// The cycle before the first check: `default`, already past any limit,
    /// so that the first check starts a fresh cycle.
    pub fn new() -> (r: Cycle)
        ensures
            r@.intent == DEFAULT_INTENT@,
            r@.time_limit == 0,
            r@.time_slept == u64::MAX,
            !r@.audio_available,
            !r@.played_audio,
            !r@.loaded_face,
            !r@.time_limit_loaded,
            r@.face.len() == 0,
    {
        Cycle {
            intent: String::from_str(DEFAULT_INTENT),
            time_limit: 0,
            time_slept: u64::MAX,
            audio_available: false,
            played_audio: false,
            loaded_face: false,
            time_limit_loaded: false,
            face: String::new(),
        }
    }

    /// Whether the active intent is finished.
    pub fn is_expired(&self, audio_finished: bool) -> (r: bool)
        ensures
            r == self@.expired(audio_finished),
    {
        (self.audio_available && self.played_audio && audio_finished) || (!self.audio_available
            && self.time_slept > self.time_limit)
    }

    /// Checks for expiry and, if the active intent is finished, switches to
    /// the pending intent or to `default`, all in one step.
    pub fn update(&mut self, state: &mut State, faces: &AssetTable) -> (r: Transition)
        ensures
            (final(self)@, final(state)@, r) == step(old(self)@, old(state)@, faces@),
    {
        if !self.is_expired(state.audio_finished) {
            return Transition::Hold;
        }
        let r = match state.take_intent() {
            None => {
                self.intent = String::from_str(DEFAULT_INTENT);
                Transition::Expire
            },
            Some(name) => {
                self.intent = select_intent(name, faces);
                Transition::Consume
            },
        };
        self.time_slept = 0;
        self.audio_available = false;
        self.played_audio = false;
        self.loaded_face = false;
        self.time_limit_loaded = false;
        state.audio_finished = false;
        r
    }

    /// Hands the screen to a sub-loop when the active intent is a reserved
    /// one; the render loop then carries on with `default`. The weather
    /// display runs only if its parameters were all given at startup.
    pub fn dispatch(&mut self, weather_ready: bool) -> (r: Mode)
        ensures
            old(self)@.intent == CHRONOMETER_INTENT@ ==> r == Mode::Chronometer,
            old(self)@.intent == WEATHER_INTENT@ && old(self)@.intent != CHRONOMETER_INTENT@
                ==> r == (if weather_ready {
                Mode::Weather
            } else {
                Mode::WeatherSkipped
            }),
            !reserved(old(self)@.intent) ==> r == Mode::Ordinary && final(self)@ == old(self)@,
            reserved(old(self)@.intent) ==> final(self)@ == (CycleView {
                intent: DEFAULT_INTENT@,
                ..old(self)@
            }),
    {
        let r = if text_eq(self.intent.as_str(), CHRONOMETER_INTENT) {
            Mode::Chronometer
        } else if text_eq(self.intent.as_str(), WEATHER_INTENT) {
            if weather_ready {
                Mode::Weather
            } else {
                Mode::WeatherSkipped
            }
        } else {
            return Mode::Ordinary;
        };
        self.intent = String::from_str(DEFAULT_INTENT);
        r
    }

    /// Chooses what one tick of an ordinary intent shows and starts. A face
    /// is drawn once per cycle, or again on every tick while the intent has
    /// audio; the audio is looked up, and started if there is some, on the
    /// first tick only; the time limit is looked up once per cycle, and only
    /// an intent without audio must have one.
    pub fn plan_tick(&mut self, faces: &AssetTable, audio: &AssetTable, timings: &TimingTable) -> (r:
        Result<Frame, ConfigError>)
        ensures
            ({
                let c = old(self)@;
                let needs_face = !c.loaded_face || c.audio_available;
                let has_audio = if c.played_audio {
                    c.audio_available
                } else {
                    has_paths(audio@, c.intent)
                };
                &&& needs_face && !has_paths(faces@, c.intent) ==> (r matches Err(
                    ConfigError::MissingFace(n),
                ) && n@ == c.intent)
                &&& !(needs_face && !has_paths(faces@, c.intent)) && !c.time_limit_loaded
                    && !timings@.contains_key(c.intent) && !has_audio ==> (r matches Err(
                    ConfigError::MissingTiming(n),
                ) && n@ == c.intent)
                &&& r is Err ==> (needs_face && !has_paths(faces@, c.intent)) || (
                !c.time_limit_loaded && !timings@.contains_key(c.intent) && !has_audio)
                &&& r is Ok ==> {
                    let f = r->Ok_0;
                    let d = final(self)@;
                    &&& needs_face ==> one_of(f.face@, faces@[c.intent]@)
                    &&& !needs_face ==> f.face@ == c.face
                    &&& d.face == f.face@
                    &&& d.loaded_face
                    &&& d.played_audio
                    &&& d.audio_available == has_audio
                    &&& c.played_audio ==> f.audio is None
                    &&& !c.played_audio ==> (f.audio is Some <==> has_audio)
                    &&& f.audio is Some ==> one_of(f.audio->0@, audio@[c.intent]@)
                    &&& d.time_limit_loaded
                    &&& c.time_limit_loaded ==> d.time_limit == c.time_limit
                    &&& !c.time_limit_loaded && timings@.contains_key(c.intent) ==> d.time_limit
                        == timings@[c.intent]
                    &&& d.intent == c.intent
                    &&& d.time_slept == c.time_slept
                }
            }),
    {
        if !self.loaded_face || self.audio_available {
            match faces.get(self.intent.as_str()) {
                Some(paths) => {
                    if paths.len() == 0 {
                        return Err(ConfigError::MissingFace(self.intent.clone()));
                    }
                    self.face = pick_path(paths);
                },
                None => {
                    return Err(ConfigError::MissingFace(self.intent.clone()));
                },
            }
            self.loaded_face = true;
        }
        let mut started: Option<String> = None;
        if !self.played_audio {
            match audio.get(self.intent.as_str()) {
                Some(paths) => {
                    if paths.len() > 0 {
                        started = Some(pick_path(paths));
                        self.audio_available = true;
                    } else {
                        self.audio_available = false;
                    }
                },
                None => {
                    self.audio_available = false;
                },
            }
            self.played_audio = true;
        }
        if !self.time_limit_loaded {
            match timings.get(self.intent.as_str()) {
                Some(limit) => {
                    self.time_limit = *limit;
                },
                None => {
                    if !self.audio_available {
                        return Err(ConfigError::MissingTiming(self.intent.clone()));
                    }
                    self.time_limit = 0;
                },
            }
            self.time_limit_loaded = true;
        }
        Ok(Frame { face: self.face.clone(), audio: started })
    }

    /// Counts one tick spent on the active intent.
    pub fn advance(&mut self)
        ensures
            final(self)@ == old(self)@.advanced(1),
    {
        self.time_slept = self.time_slept.saturating_add(TICK_MS);
    }
}

/// An intent without audio is held while its time limit has not passed and
/// is left on the first check after it has: `k` ticks into its cycle, the
/// check holds exactly when `k` ticks do not exceed the limit.
pub proof fn lemma_timed_intent_held(
    c: CycleView,
    st: StateView,
    faces: Map<Seq<char>, Vec<String>>,
    k: nat,
)
    requires
        !c.audio_available,
        c.time_slept == 0,
        k * TICK_MS <= u64::MAX,
    ensures
        step(c.advanced(k), st, faces).2 == Transition::Hold <==> k * TICK_MS <= c.time_limit,
        k * TICK_MS <= c.time_limit ==> step(c.advanced(k), st, faces).0 == c.advanced(k),
{
}

/// An intent with audio is held until its audio has finished, however long
/// that takes: with the audio unfinished, no number of ticks makes the check
/// switch or change anything.
pub proof fn lemma_audio_intent_held(
    c: CycleView,
    st: StateView,
    faces: Map<Seq<char>, Vec<String>>,
    k: nat,
)
    requires
        c.audio_available,
        !st.audio_finished,
    ensures
        step(c.advanced(k), st, faces) == (c.advanced(k), st, Transition::Hold),
{
}

/// Receiving the active intent again, twice in a row, while it has not
/// expired leaves its cycle as it was: its audio is not started again and
/// its time is not reset.
pub proof fn lemma_repeated_intent_keeps_cycle(
    c: CycleView,
    st: StateView,
    faces: Map<Seq<char>, Vec<String>>,
)
    requires
        !c.expired(st.audio_finished),
    ensures
        ({
            let twice = st.received(c.intent).received(c.intent);
            step(c, twice, faces) == (c, twice, Transition::Hold)
        }),
{
}

/// An unknown intent (not reserved, no faces) never becomes the active
/// intent: the next check switches to `default` if the active intent has
/// expired, and otherwise keeps the active intent.
pub proof fn lemma_unknown_intent_defaults(
    c: CycleView,
    st: StateView,
    faces: Map<Seq<char>, Vec<String>>,
    name: Seq<char>,
)
    requires
        !reserved(name),
        !faces.contains_key(name),
    ensures
        c.expired(st.audio_finished) ==> step(c, st.received(name), faces).0.intent
            == DEFAULT_INTENT@,
        !c.expired(st.audio_finished) ==> step(c, st.received(name), faces).0.intent == c.intent,
{
}

} // verus!

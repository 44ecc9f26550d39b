//! Core of a touch-driven remote-desktop viewer: a gesture recognizer that
//! turns raw touch samples into discrete input intents, and a two-tier tile
//! cache with bounded memory and disk budgets.
//!
//! The core does no I/O and knows nothing of the host's window system. The
//! host hands it plain events and performs the disk work it asks for.

use vstd::prelude::*;

use crate::cache::budget::{CacheBudget, CONSTRAINED_DISK_LIMIT, CONSTRAINED_MEMORY_LIMIT};
use crate::cache::lru::Slot;
use crate::cache::tile::TileEntry;
use crate::cache::tiered::{DiskAction, PressureLevel, TileCache};
use crate::input::geometry::{Delta, Point};
use crate::input::gesture::{
    is_unknown, step, Gesture, GestureConfig, GestureState, DEFAULT_MOVE_THRESHOLD,
    DEFAULT_PINCH_THRESHOLD, DEFAULT_TAP_WINDOW_MS,
};
use crate::input::intent::InputIntent;
use crate::input::keyboard::{codepoints_of, handle_keycode, handle_text_input};
use crate::input::pencil::{stylus_event, stylus_report, StylusState};
use crate::input::pointer::{
    after_mouse_move, button_acts, mouse_button, mouse_move, pointer_sample, scroll, PointerState,
    PRIMARY_BUTTON,
};
use crate::input::touch::{TouchPhase, TouchPoint};

pub mod cache;
pub mod error;
pub mod input;

verus! {

/// One event of the host, in plain values.
#[derive(Debug, PartialEq, Eq)]
pub enum HostEvent {
    /// A sample of a finger or of a stylus that the platform reports as a touch.
    Touch { sample: TouchPoint },
    /// A key went down or up.
    Key { keycode: u32, down: bool },
    /// Text was entered.
    Text { text: String },
    /// The pointer moved by a relative amount.
    PointerMoved { dx: i32, dy: i32, timestamp: u64 },
    /// A pointer button went down or up.
    PointerButton { button: u8, down: bool, timestamp: u64 },
    /// The wheel or the trackpad scrolled.
    Scroll { dx: i32, dy: i32 },
    /// The stylus reported its position and pressure.
    Stylus { x: i32, y: i32, pressure: u32, timestamp: u64 },
    /// Anything that carries no input: redraws, resizes, focus changes.
    Other,
}

impl Clone for HostEvent {
    fn clone(&self) -> (copy: HostEvent)
        ensures
            copy == *self,
    {
        match self {
            HostEvent::Touch { sample } => HostEvent::Touch { sample: *sample },
            HostEvent::Key { keycode, down } => HostEvent::Key { keycode: *keycode, down: *down },
            HostEvent::Text { text } => HostEvent::Text { text: text.clone() },
            HostEvent::PointerMoved { dx, dy, timestamp } => HostEvent::PointerMoved {
                dx: *dx,
                dy: *dy,
                timestamp: *timestamp,
            },
            HostEvent::PointerButton { button, down, timestamp } => HostEvent::PointerButton {
                button: *button,
                down: *down,
                timestamp: *timestamp,
            },
            HostEvent::Scroll { dx, dy } => HostEvent::Scroll { dx: *dx, dy: *dy },
            HostEvent::Stylus { x, y, pressure, timestamp } => HostEvent::Stylus {
                x: *x,
                y: *y,
                pressure: *pressure,
                timestamp: *timestamp,
            },
            HostEvent::Other => HostEvent::Other,
        }
    }
}

/// The state and the intents after a touch sample, where there is one.
pub open spec fn fed(config: GestureConfig, gesture: Gesture, sample: Option<TouchPoint>) -> (
    Gesture,
    Seq<InputIntent>,
) {
    match sample {
        Some(s) => step(config, gesture, s),
        None => (gesture, Seq::empty()),
    }
}

/// The core of the viewer: the recognizer of its touch surface, the state
/// of its pointer and stylus, and its tile cache.
pub struct VncApp {
    pub gestures: GestureState,
    pub pointer: PointerState,
    pub stylus: StylusState,
    pub cache: TileCache,
}

impl VncApp {
    /// The parts of the core are in states that their operations can reach.
    pub open spec fn wf(&self) -> bool {
        self.cache.wf()
    }

    /// The pointer after `event`.
    pub open spec fn pointer_after(&self, event: HostEvent) -> PointerState {
        match event {
            HostEvent::PointerMoved { dx, dy, .. } => after_mouse_move(self.pointer, dx, dy),
            HostEvent::PointerButton { button, down, .. } => PointerState {
                position: self.pointer.position,
                pressed: if button == PRIMARY_BUTTON {
                    down
                } else {
                    self.pointer.pressed
                },
            },
            _ => self.pointer,
        }
    }

    /// The stylus after `event`.
    pub open spec fn stylus_after(&self, event: HostEvent) -> StylusState {
        match event {
            HostEvent::Stylus { pressure, .. } => StylusState { in_contact: pressure > 0 },
            _ => self.stylus,
        }
    }

    /// The touch sample that `event` amounts to, where it amounts to one.
    pub open spec fn touch_of(&self, event: HostEvent) -> Option<TouchPoint> {
        match event {
            HostEvent::Touch { sample } => Some(sample),
            HostEvent::PointerMoved { dx, dy, timestamp } => if self.pointer.pressed {
                Some(
                    pointer_sample(
                        after_mouse_move(self.pointer, dx, dy).position,
                        timestamp,
                        TouchPhase::Moved,
                    ),
                )
            } else {
                None
            },
            HostEvent::PointerButton { button, down, timestamp } => if button_acts(
                self.pointer,
                button,
                down,
            ) {
                Some(
                    pointer_sample(
                        self.pointer.position,
                        timestamp,
                        if down {
                            TouchPhase::Began
                        } else {
                            TouchPhase::Ended
                        },
                    ),
                )
            } else {
                None
            },
            HostEvent::Stylus { x, y, pressure, timestamp } => stylus_report(
                self.stylus,
                Point { x, y },
                pressure,
                timestamp,
            ),
            _ => None,
        }
    }

    /// The intents that `event` is passed through as without going through
    /// the recognizer. Text is passed through too; see `handle_event`.
    pub open spec fn passed_through(event: HostEvent) -> Seq<InputIntent> {
        match event {
            HostEvent::Key { keycode, down } => seq![InputIntent::KeyEvent { keycode, down }],
            HostEvent::Scroll { dx, dy } => seq![
                InputIntent::ScrollDelta { delta: Delta { dx: dx as i64, dy: dy as i64 } },
            ],
            _ => Seq::empty(),
        }
    }

    /// A core with an idle recognizer of the default thresholds, a pointer at
    /// the origin, a lifted stylus, and an empty cache with the budget of the
    /// constrained platform. `default()` builds the same.
    pub fn new() -> (app: VncApp)
        ensures
            app.wf(),
            app.gestures.gesture() == Gesture::Idle,
            app.gestures.config() == (GestureConfig {
                move_threshold: DEFAULT_MOVE_THRESHOLD,
                pinch_threshold: DEFAULT_PINCH_THRESHOLD,
                tap_window_ms: DEFAULT_TAP_WINDOW_MS,
            }),
            app.pointer == (PointerState { position: Point { x: 0, y: 0 }, pressed: false }),
            app.stylus == (StylusState { in_contact: false }),
            app.cache@.memory == Seq::<Slot<TileEntry>>::empty(),
            app.cache@.disk == Seq::<Slot<()>>::empty(),
            app.cache@.memory_limit == CONSTRAINED_MEMORY_LIMIT,
            app.cache@.disk_limit == CONSTRAINED_DISK_LIMIT,
    {
        VncApp::with_parts(GestureState::new(), CacheBudget::constrained())
    }

    /// A core with the given recognizer and an empty cache of the given
    /// budget.
    pub fn with_parts(gestures: GestureState, budget: CacheBudget) -> (app: VncApp)
        ensures
            app.wf(),
            app.gestures == gestures,
            app.pointer == (PointerState { position: Point { x: 0, y: 0 }, pressed: false }),
            app.stylus == (StylusState { in_contact: false }),
            app.cache@.memory == Seq::<Slot<TileEntry>>::empty(),
            app.cache@.disk == Seq::<Slot<()>>::empty(),
            app.cache@.memory_limit == budget.memory_limit(),
            app.cache@.disk_limit == budget.disk_limit(),
    {
        VncApp {
            gestures,
            pointer: PointerState::new(),
            stylus: StylusState::new(),
            cache: TileCache::new(budget),
        }
    }

    /// Takes one event of the host and returns the intents it yields, in
    /// order.
    ///
    /// Keys, text and scrolls are passed through. Touches go through the
    /// recognizer, and so do the touches that pointer and stylus events
    /// amount to. A sample of an unknown touch is absorbed: it yields
    /// nothing and changes nothing. The cache is never touched.
    pub fn handle_event(&mut self, event: &HostEvent) -> (intents: Vec<InputIntent>)
        ensures
            final(self).cache == old(self).cache,
            final(self).pointer == old(self).pointer_after(*event),
            final(self).stylus == old(self).stylus_after(*event),
            final(self).gestures.config() == old(self).gestures.config(),
            final(self).gestures.gesture() == fed(
                old(self).gestures.config(),
                old(self).gestures.gesture(),
                old(self).touch_of(*event),
            ).0,
            match *event {
                HostEvent::Text { text } => intents@.len() == 1 && (
                intents@[0] matches InputIntent::TextInput { codepoints } && codepoints@
                    == codepoints_of(text@)),
                _ => intents@ == fed(
                    old(self).gestures.config(),
                    old(self).gestures.gesture(),
                    old(self).touch_of(*event),
                ).1 + VncApp::passed_through(*event),
            },
    {
        let sample = match event {
            HostEvent::Touch { sample } => Some(*sample),
            HostEvent::PointerMoved { dx, dy, timestamp } => mouse_move(
                &mut self.pointer,
                *dx,
                *dy,
                *timestamp,
            ),
            HostEvent::PointerButton { button, down, timestamp } => mouse_button(
                &mut self.pointer,
                *button,
                *down,
                *timestamp,
            ),
            HostEvent::Stylus { x, y, pressure, timestamp } => stylus_event(
                &mut self.stylus,
                *x,
                *y,
                *pressure,
                *timestamp,
            ),
            _ => None,
        };
        let mut intents: Vec<InputIntent> = match sample {
            Some(s) => match self.gestures.handle_touch(&s) {
                Ok(yielded) => yielded,
                Err(_) => Vec::new(),
            },
            None => Vec::new(),
        };
        match event {
            HostEvent::Key { keycode, down } => {
                intents.push(handle_keycode(*keycode, *down));
            },
            HostEvent::Text { text } => {
                intents.push(handle_text_input(text.as_str()));
            },
            HostEvent::Scroll { dx, dy } => {
                intents.push(scroll(*dx, *dy));
            },
            _ => {
                assert(intents@ + Seq::<InputIntent>::empty() =~= intents@);
            },
        }
        intents
    }

    /// Whether `handle_event` would absorb `event` as a sample of a touch
    /// that is not active: a move, a lift or a cancellation that the event
    /// amounts to, of an identity that the recognizer does not track. A host
    /// that keeps a log asks this before it hands the event over. Nothing is
    /// changed.
    pub fn ignores(&self, event: &HostEvent) -> (ignored: bool)
        ensures
            ignored == (self.touch_of(*event) matches Some(sample) && is_unknown(
                self.gestures.gesture(),
                sample,
            )),
    {
        let sample = match event {
            HostEvent::Touch { sample } => Some(*sample),
            HostEvent::PointerMoved { dx, dy, timestamp } => {
                let mut pointer = self.pointer;
                mouse_move(&mut pointer, *dx, *dy, *timestamp)
            },
            HostEvent::PointerButton { button, down, timestamp } => {
                let mut pointer = self.pointer;
                mouse_button(&mut pointer, *button, *down, *timestamp)
            },
            HostEvent::Stylus { x, y, pressure, timestamp } => {
                let mut stylus = self.stylus;
                stylus_event(&mut stylus, *x, *y, *pressure, *timestamp)
            },
            _ => None,
        };
        match sample {
            Some(s) => {
                let began = match s.phase {
                    TouchPhase::Began => true,
                    _ => false,
                };
                !began && !self.gestures.current().is_tracking(s.id)
            },
            None => false,
        }
    }

    /// Renders one frame. Drawing is the host's business: the core has
    /// nothing to draw with, and stays exactly as it was.
    pub fn render(&mut self)
        ensures
            *final(self) == *old(self),
    {
    }

    /// Answers a low-memory signal of the platform; see
    /// `TileCache::on_memory_pressure`. Input state is not touched.
    pub fn on_memory_warning(&mut self, level: PressureLevel) -> (actions: Vec<DiskAction>)
        requires
            old(self).wf(),
        ensures
            final(self).wf(),
            final(self).gestures == old(self).gestures,
            final(self).pointer == old(self).pointer,
            final(self).stylus == old(self).stylus,
            final(self).cache@ == old(self).cache@.after_pressure(level),
            final(self).cache@.resident_bytes() <= old(self).cache@.memory_limit / 2,
            actions@ == old(self).cache@.pressure_actions(level),
    {
        self.cache.on_memory_pressure(level)
    }
}

impl Default for VncApp {
    fn default() -> (app: VncApp)
        ensures
            app.wf(),
            app.gestures.gesture() == Gesture::Idle,
            app.gestures.config() == (GestureConfig {
                move_threshold: DEFAULT_MOVE_THRESHOLD,
                pinch_threshold: DEFAULT_PINCH_THRESHOLD,
                tap_window_ms: DEFAULT_TAP_WINDOW_MS,
            }),
            app.pointer == (PointerState { position: Point { x: 0, y: 0 }, pressed: false }),
            app.stylus == (StylusState { in_contact: false }),
            app.cache@.memory == Seq::<Slot<TileEntry>>::empty(),
            app.cache@.disk == Seq::<Slot<()>>::empty(),
            app.cache@.memory_limit == CONSTRAINED_MEMORY_LIMIT,
            app.cache@.disk_limit == CONSTRAINED_DISK_LIMIT,
    {
        VncApp::new()
    }
}

} // verus!

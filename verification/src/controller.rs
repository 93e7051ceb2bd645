//! The editing loop, one key at a time.
//!
//! The controller holds the batch of sessions and a cursor on the one that is
//! being edited. It does not wait for keys, draw or save: it is handed each
//! key event, changes at most the session under the cursor, and says what
//! the caller has to do next.

use crate::crop::{lemma_pushed_stays_in_frame, Cropped, CroppedView};
use crate::geometry::Direction;
use vstd::prelude::*;

verus! {

/// What a key stands for.
#[derive(Clone, Copy, Debug, PartialEq, Eq, Structural)]
pub enum Key {
    Up,
    Down,
    Left,
    Right,
    ZoomIn,
    ZoomOut,
    RotateLeft,
    RotateRight,
    Next,
    Previous,
    Save,
    Quit,
    /// Any key that the editor does not use.
    Other,
}

/// The modifier keys that are held down.
#[derive(Clone, Copy, Debug, PartialEq, Eq, Structural)]
pub struct Modifiers {
    pub shift: bool,
    pub ctrl: bool,
    pub alt: bool,
}

/// One event of the keyboard.
#[derive(Clone, Copy, Debug, PartialEq, Eq, Structural)]
pub struct KeyEvent {
    pub key: Key,
    /// Whether the key went down; a key that comes up is not acted on.
    pub pressed: bool,
    pub modifiers: Modifiers,
}

/// What the caller has to do after an event.
#[derive(Clone, Copy, Debug, PartialEq, Eq, Structural)]
pub enum Action {
    /// Nothing: the event was passed over.
    Nothing,
    /// Show the crop of the session under the cursor.
    Show,
    /// Write every session's record into its file, first to last, and make
    /// the cropped pictures anew.
    Save,
    /// Leave the loop.
    Quit,
}

/// The step of a push, and by how much each modifier key multiplies it.
#[derive(Clone, Copy, Debug, PartialEq, Eq, Structural)]
pub struct StepConfig {
    base: i32,
    shift: i32,
    ctrl: i32,
    alt: i32,
}

/// The step with no modifier held is `base`; each modifier that is held
/// multiplies it by its own factor.
pub open spec fn step_for(base: int, shift: int, ctrl: int, alt: int, held: Modifiers) -> int {
    base * (if held.shift {
        shift
    } else {
        1
    }) * (if held.ctrl {
        ctrl
    } else {
        1
    }) * (if held.alt {
        alt
    } else {
        1
    })
}

proof fn lemma_products(base: int, shift: int, ctrl: int, alt: int)
    requires
        0 <= base,
        1 <= shift,
        1 <= ctrl,
        1 <= alt,
    ensures
        0 <= base <= base * shift <= base * shift * ctrl <= base * shift * ctrl * alt,
        0 <= base * ctrl <= base * shift * ctrl,
        0 <= base * alt <= base * ctrl * alt <= base * shift * ctrl * alt,
        0 <= base * shift * alt <= base * shift * ctrl * alt,
{
    assert(0 <= base <= base * shift) by (nonlinear_arith)
        requires
            0 <= base,
            1 <= shift,
    ;
    assert(0 <= base <= base * ctrl) by (nonlinear_arith)
        requires
            0 <= base,
            1 <= ctrl,
    ;
    assert(0 <= base <= base * alt) by (nonlinear_arith)
        requires
            0 <= base,
            1 <= alt,
    ;
    assert(base * shift <= base * shift * ctrl && base * ctrl <= base * shift * ctrl)
        by (nonlinear_arith)
        requires
            0 <= base,
            1 <= shift,
            1 <= ctrl,
    ;
    assert(base * alt <= base * ctrl * alt) by (nonlinear_arith)
        requires
            0 <= base,
            1 <= ctrl,
            1 <= alt,
    ;
    assert(base * shift <= base * shift * alt) by (nonlinear_arith)
        requires
            0 <= base,
            1 <= shift,
            1 <= alt,
    ;
    assert(base * shift * ctrl <= base * shift * ctrl * alt && base * ctrl * alt <= base * shift
        * ctrl * alt && base * shift * alt <= base * shift * ctrl * alt) by (nonlinear_arith)
        requires
            0 <= base,
            1 <= shift,
            1 <= ctrl,
            1 <= alt,
    ;
}

impl StepConfig {
    /// The base step is not negative, no factor is under 1, and the step
    /// with every modifier held fits in 31 bits.
    #[verifier::type_invariant]
    pub closed spec fn wf(self) -> bool {
        &&& 0 <= self.base
        &&& 1 <= self.shift
        &&& 1 <= self.ctrl
        &&& 1 <= self.alt
        &&& self.base * self.shift * self.ctrl * self.alt <= i32::MAX
    }

    /// The step with no modifier held.
    pub closed spec fn spec_base(self) -> int {
        self.base as int
    }

    /// The factor of the shift key.
    pub closed spec fn spec_shift(self) -> int {
        self.shift as int
    }

    /// The factor of the control key.
    pub closed spec fn spec_ctrl(self) -> int {
        self.ctrl as int
    }

    /// The factor of the alt key.
    pub closed spec fn spec_alt(self) -> int {
        self.alt as int
    }

    /// This configuration has these four numbers.
    pub open spec fn is(self, base: int, shift: int, ctrl: int, alt: int) -> bool {
        &&& self.spec_base() == base
        &&& self.spec_shift() == shift
        &&& self.spec_ctrl() == ctrl
        &&& self.spec_alt() == alt
    }

    /// The step that these modifiers give.
    pub open spec fn step(self, held: Modifiers) -> int {
        step_for(self.spec_base(), self.spec_shift(), self.spec_ctrl(), self.spec_alt(), held)
    }

    /// A base step and the factors of shift, control and alt. There is no
    /// configuration where the base is negative, a factor is under 1, or the
    /// product of all four does not fit in 31 bits.
    pub fn new(base: i32, shift: i32, ctrl: i32, alt: i32) -> (out: Option<StepConfig>)
        ensures
            out is Some <==> 0 <= base && 1 <= shift && 1 <= ctrl && 1 <= alt && base * shift
                * ctrl * alt <= i32::MAX,
            out matches Some(steps) ==> steps.wf() && steps.is(
                base as int,
                shift as int,
                ctrl as int,
                alt as int,
            ),
    {
        if base < 0 || shift < 1 || ctrl < 1 || alt < 1 {
            return None;
        }
        proof {
            lemma_products(base as int, shift as int, ctrl as int, alt as int);
        }
        let limit: i64 = 0x7fff_ffff;
        assert(base * shift <= 0x4000_0000_0000_0000) by (nonlinear_arith)
            requires
                0 <= base <= 0x7fff_ffff,
                1 <= shift <= 0x7fff_ffff,
        ;
        let a: i64 = base as i64 * shift as i64;
        if a > limit {
            return None;
        }
        assert(a * ctrl <= 0x4000_0000_0000_0000) by (nonlinear_arith)
            requires
                0 <= a <= 0x7fff_ffff,
                1 <= ctrl <= 0x7fff_ffff,
        ;
        let b: i64 = a * ctrl as i64;
        if b > limit {
            return None;
        }
        assert(b * alt <= 0x4000_0000_0000_0000) by (nonlinear_arith)
            requires
                0 <= b <= 0x7fff_ffff,
                1 <= alt <= 0x7fff_ffff,
        ;
        let c: i64 = b * alt as i64;
        if c > limit {
            return None;
        }
        Some(StepConfig { base, shift, ctrl, alt })
    }

    /// One pixel a step; shift makes it three, control five, alt seven.
    pub fn fine() -> (steps: StepConfig)
        ensures
            steps.wf(),
            steps.is(1, 3, 5, 7),
    {
        StepConfig { base: 1, shift: 3, ctrl: 5, alt: 7 }
    }

    /// The step for the modifiers that are held.
    pub fn compute_step(&self, held: &Modifiers) -> (step: i32)
        ensures
            step == self.step(*held),
            step >= 0,
    {
        proof {
            use_type_invariant(self);
            lemma_products(self.base as int, self.shift as int, self.ctrl as int, self.alt as int);
        }
        let mut step: i32 = self.base;
        if held.shift {
            step = step * self.shift;
        }
        if held.ctrl {
            step = step * self.ctrl;
        }
        if held.alt {
            step = step * self.alt;
        }
        step
    }
}

/// A controller as the contracts see it.
pub struct ControllerView {
    pub sessions: Seq<CroppedView>,
    pub index: int,
    pub steps: StepConfig,
}

impl ControllerView {
    /// The view with the session under the cursor replaced.
    pub open spec fn with_current(self, session: CroppedView) -> ControllerView {
        ControllerView { sessions: self.sessions.update(self.index, session), ..self }
    }

    /// The view with the cursor elsewhere.
    pub open spec fn at(self, index: int) -> ControllerView {
        ControllerView { index, ..self }
    }

    /// The session under the cursor.
    pub open spec fn current(self) -> CroppedView {
        self.sessions[self.index]
    }

    /// The view after a push of the session under the cursor.
    pub open spec fn pushed(self, direction: Direction, held: Modifiers) -> ControllerView {
        self.with_current(self.current().pushed(direction, self.steps.step(held)))
    }

    /// The view and the caller's task after one event.
    pub open spec fn handled(self, event: KeyEvent) -> (ControllerView, Action) {
        if !event.pressed {
            (self, Action::Nothing)
        } else {
            match event.key {
                Key::Up => (self.pushed(Direction::Up, event.modifiers), Action::Show),
                Key::Down => (self.pushed(Direction::Down, event.modifiers), Action::Show),
                Key::Left => (self.pushed(Direction::Left, event.modifiers), Action::Show),
                Key::Right => (self.pushed(Direction::Right, event.modifiers), Action::Show),
                Key::ZoomIn => (self.pushed(Direction::ZoomIn, event.modifiers), Action::Show),
                Key::ZoomOut => (self.pushed(Direction::ZoomOut, event.modifiers), Action::Show),
                Key::RotateLeft => (
                    self.with_current(self.current().turned(self.current().rotation - 1)),
                    Action::Show,
                ),
                Key::RotateRight => (
                    self.with_current(self.current().turned(self.current().rotation + 1)),
                    Action::Show,
                ),
                Key::Next => (
                    self.at(
                        if self.index + 1 < self.sessions.len() {
                            self.index + 1
                        } else {
                            self.index
                        },
                    ),
                    Action::Show,
                ),
                Key::Previous => (
                    self.at(
                        if self.index > 0 {
                            self.index - 1
                        } else {
                            self.index
                        },
                    ),
                    Action::Show,
                ),
                Key::Save => (self, Action::Save),
                Key::Quit => (self, Action::Quit),
                Key::Other => (self, Action::Nothing),
            }
        }
    }
}

/// Whatever the event, the batch keeps its length, the cursor stays on one of
/// its sessions, and no session but the one under the cursor changes. Unless
/// the event is a turn, a session whose rectangle satisfied the bounds
/// invariant in its frame still does.
pub proof fn lemma_handled(view: ControllerView, event: KeyEvent)
    requires
        0 <= view.index < view.sessions.len(),
    ensures
        view.handled(event).0.sessions.len() == view.sessions.len(),
        0 <= view.handled(event).0.index < view.sessions.len(),
        view.handled(event).0.steps == view.steps,
        forall|j: int|
            0 <= j < view.sessions.len() && j != view.index ==> view.handled(event).0.sessions[j]
                == view.sessions[j],
        !event.pressed ==> view.handled(event) == (view, Action::Nothing),
        event.key != Key::RotateLeft && event.key != Key::RotateRight
            && view.current().rect.ratio.wf() && view.current().frame_width() <= i32::MAX
            && view.current().frame_height() <= i32::MAX && view.current().in_frame()
            ==> view.handled(event).0.sessions[view.index].in_frame(),
{
    let current = view.current();
    if current.rect.ratio.wf() && current.frame_width() <= i32::MAX && current.frame_height()
        <= i32::MAX {
        let step = view.steps.step(event.modifiers);
        lemma_pushed_stays_in_frame(current, Direction::Up, step);
        lemma_pushed_stays_in_frame(current, Direction::Down, step);
        lemma_pushed_stays_in_frame(current, Direction::Left, step);
        lemma_pushed_stays_in_frame(current, Direction::Right, step);
        lemma_pushed_stays_in_frame(current, Direction::ZoomIn, step);
        lemma_pushed_stays_in_frame(current, Direction::ZoomOut, step);
    }
}

/// The sessions of a batch, by their views.
pub open spec fn views(sessions: Seq<Cropped>) -> Seq<CroppedView> {
    sessions.map_values(|session: Cropped| session@)
}

/// A batch of sessions and the cursor on the one being edited.
pub struct Controller {
    sessions: Vec<Cropped>,
    index: usize,
    steps: StepConfig,
}

impl View for Controller {
    type V = ControllerView;

    closed spec fn view(&self) -> ControllerView {
        ControllerView { sessions: views(self.sessions@), index: self.index as int, steps: self.steps }
    }
}

impl Controller {
    /// The batch is not empty and the cursor is on one of its sessions.
    pub closed spec fn wf(&self) -> bool {
        &&& self.index < self.sessions.len()
        &&& self.steps.wf()
    }

    /// A controller for a batch, with the cursor on its first session. There
    /// is none for an empty batch.
    pub fn new(sessions: Vec<Cropped>, steps: StepConfig) -> (out: Option<Controller>)
        ensures
            out is Some <==> sessions.len() > 0,
            out matches Some(controller) ==> controller.wf() && controller@ == (ControllerView {
                sessions: views(sessions@),
                index: 0,
                steps,
            }),
    {
        if sessions.len() == 0 {
            return None;
        }
        proof {
            use_type_invariant(&steps);
        }
        Some(Controller { sessions, index: 0, steps })
    }

    /// Acts on one event of the keyboard and says what the caller has to do.
    ///
    /// At most the session under the cursor changes, and the batch keeps its
    /// length.
    pub fn handle(&mut self, event: &KeyEvent) -> (action: Action)
        requires
            old(self).wf(),
        ensures
            final(self).wf(),
            (final(self)@, action) == old(self)@.handled(*event),
            final(self)@.sessions.len() == old(self)@.sessions.len(),
            0 <= final(self)@.index < final(self)@.sessions.len(),
            forall|j: int|
                0 <= j < old(self)@.sessions.len() && j != old(self)@.index
                    ==> final(self)@.sessions[j] == old(self)@.sessions[j],
    {
        if !event.pressed {
            return Action::Nothing;
        }
        let step = self.steps.compute_step(&event.modifiers);
        match event.key {
            Key::Up => self.push_current(Direction::Up, step),
            Key::Down => self.push_current(Direction::Down, step),
            Key::Left => self.push_current(Direction::Left, step),
            Key::Right => self.push_current(Direction::Right, step),
            Key::ZoomIn => self.push_current(Direction::ZoomIn, step),
            Key::ZoomOut => self.push_current(Direction::ZoomOut, step),
            Key::RotateLeft => self.turn_current(false),
            Key::RotateRight => self.turn_current(true),
            Key::Next => {
                let next = if self.index + 1 < self.sessions.len() {
                    self.index + 1
                } else {
                    self.index
                };
                self.move_to(next)
            },
            Key::Previous => {
                let previous = if self.index > 0 {
                    self.index - 1
                } else {
                    self.index
                };
                self.move_to(previous)
            },
            Key::Save => Action::Save,
            Key::Quit => Action::Quit,
            Key::Other => Action::Nothing,
        }
    }

    fn push_current(&mut self, direction: Direction, step: i32) -> (action: Action)
        requires
            old(self).wf(),
        ensures
            final(self).wf(),
            action == Action::Show,
            final(self)@ == old(self)@.with_current(old(self)@.current().pushed(direction, step as int)),
    {
        let i = self.index;
        self.sessions[i].mutate(direction, step);
        assert(views(self.sessions@) =~= views(old(self).sessions@).update(
            i as int,
            self.sessions@[i as int]@,
        ));
        Action::Show
    }

    fn turn_current(&mut self, right: bool) -> (action: Action)
        requires
            old(self).wf(),
        ensures
            final(self).wf(),
            action == Action::Show,
            final(self)@ == old(self)@.with_current(
                old(self)@.current().turned(
                    old(self)@.current().rotation + if right {
                        1int
                    } else {
                        -1int
                    },
                ),
            ),
    {
        let i = self.index;
        if right {
            self.sessions[i].rot_r();
        } else {
            self.sessions[i].rot_l();
        }
        assert(views(self.sessions@) =~= views(old(self).sessions@).update(
            i as int,
            self.sessions@[i as int]@,
        ));
        Action::Show
    }

    fn move_to(&mut self, index: usize) -> (action: Action)
        requires
            old(self).wf(),
            index < old(self)@.sessions.len(),
        ensures
            final(self).wf(),
            action == Action::Show,
            final(self)@ == old(self)@.at(index as int),
    {
        self.index = index;
        Action::Show
    }

    /// The session under the cursor.
    pub fn current(&self) -> (session: &Cropped)
        requires
            self.wf(),
        ensures
            session@ == self@.current(),
    {
        &self.sessions[self.index]
    }

    /// Where the cursor stands.
    pub fn index(&self) -> (index: usize)
        ensures
            index == self@.index,
    {
        self.index
    }

    /// The batch, first to last.
    pub fn sessions(&self) -> (sessions: &Vec<Cropped>)
        ensures
            views(sessions@) == self@.sessions,
    {
        &self.sessions
    }

    /// Gives the batch back.
    pub fn into_sessions(self) -> (sessions: Vec<Cropped>)
        ensures
            views(sessions@) == self@.sessions,
    {
        self.sessions
    }
}

} // verus!

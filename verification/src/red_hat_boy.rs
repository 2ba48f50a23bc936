//! The player character: a six-state machine with per-state animation and
//! physics rules.  Transitions consume the machine by value and return a
//! new one; (event, state) pairs outside the table are no-ops.

use vstd::prelude::*;
use vstd::string::StringExecFns;
use crate::geometry::{add_clamped, clamp_i16, Point, Rect};
use crate::render::DrawCommand;
use crate::sheet::{Cell, Sheet};
use crate::text::{decimal_string, spec_decimal};

verus! {

/// Height of the canvas, in pixels.
pub const HEIGHT: i16 = 600;

/// The y-coordinate of the character's anchor when it stands on the ground.
pub const FLOOR: i16 = 479;

/// The character's height used to sit its anchor on a surface.
pub const PLAYER_HEIGHT: i16 = HEIGHT - FLOOR;

/// Where the character starts, slightly off the left edge.
pub const STARTING_POINT: i16 = -20;

/// Per-state animation frame ceilings (three ticks per sprite image).
pub const IDLE_FRAMES: u8 = 29;

pub const RUNNING_FRAMES: u8 = 23;

pub const SLIDING_FRAMES: u8 = 14;

pub const JUMPING_FRAMES: u8 = 35;

pub const FALLING_FRAMES: u8 = 29;

/// Horizontal speed while running, in pixels per tick.
pub const RUNNING_SPEED: i16 = 4;

/// Vertical velocity set by a jump (negative is upward).
pub const JUMP_SPEED: i16 = -25;

/// Downward acceleration per tick.
pub const GRAVITY: i16 = 1;

/// Fastest permitted downward velocity.
pub const TERMINAL_VELOCITY: i16 = 20;

/// What every state carries: animation frame, position and velocity.
#[derive(Clone, Copy, PartialEq, Eq, Structural, Debug)]
pub struct RedHatBoyContext {
    pub frame: u8,
    pub position: Point,
    pub velocity: Point,
}

/// The context the character is born with.
pub open spec fn spec_initial_context() -> RedHatBoyContext {
    RedHatBoyContext {
        frame: 0,
        position: Point { x: STARTING_POINT, y: FLOOR },
        velocity: Point { x: 0, y: 0 },
    }
}

/// One physics tick: gravity up to terminal velocity, frame advance
/// wrapping at `frame_count`, vertical motion clamped at the floor line.
pub open spec fn spec_update_ctx(c: RedHatBoyContext, frame_count: u8) -> RedHatBoyContext {
    let vy: i16 = if c.velocity.y < TERMINAL_VELOCITY {
        (c.velocity.y + GRAVITY) as i16
    } else {
        c.velocity.y
    };
    let frame: u8 = if c.frame < frame_count {
        (c.frame + 1) as u8
    } else {
        0
    };
    let moved: int = clamp_i16(c.position.y + vy);
    let y: i16 = if moved > FLOOR {
        FLOOR
    } else {
        moved as i16
    };
    RedHatBoyContext {
        frame,
        position: Point { x: c.position.x, y },
        velocity: Point { x: c.velocity.x, y: vy },
    }
}

pub open spec fn spec_reset_frame(c: RedHatBoyContext) -> RedHatBoyContext {
    RedHatBoyContext { frame: 0, position: c.position, velocity: c.velocity }
}

pub open spec fn spec_run_right(c: RedHatBoyContext) -> RedHatBoyContext {
    RedHatBoyContext {
        frame: c.frame,
        position: c.position,
        velocity: Point { x: RUNNING_SPEED, y: c.velocity.y },
    }
}

pub open spec fn spec_set_vertical_velocity(c: RedHatBoyContext, speed: i16) -> RedHatBoyContext {
    RedHatBoyContext {
        frame: c.frame,
        position: c.position,
        velocity: Point { x: c.velocity.x, y: speed },
    }
}

pub open spec fn spec_stop(c: RedHatBoyContext) -> RedHatBoyContext {
    RedHatBoyContext { frame: c.frame, position: c.position, velocity: Point { x: 0, y: 0 } }
}

/// Sit the character's anchor on the surface at height `position`.
pub open spec fn spec_set_on(c: RedHatBoyContext, position: i16) -> RedHatBoyContext {
    RedHatBoyContext {
        frame: c.frame,
        position: Point { x: c.position.x, y: clamp_i16(position - PLAYER_HEIGHT) as i16 },
        velocity: c.velocity,
    }
}

impl RedHatBoyContext {
    /// The per-tick physics update shared by every state.
    pub fn update(self, frame_count: u8) -> (r: Self)
        ensures
            r == spec_update_ctx(self, frame_count),
    {
        let mut next = self;
        if next.velocity.y < TERMINAL_VELOCITY {
            next.velocity.y = next.velocity.y + GRAVITY;
        }
        if next.frame < frame_count {
            next.frame = next.frame + 1;
        } else {
            next.frame = 0;
        }
        next.position.y = add_clamped(next.position.y, next.velocity.y);
        if next.position.y > FLOOR {
            next.position.y = FLOOR;
        }
        next
    }

    fn reset_frame(self) -> (r: Self)
        ensures
            r == spec_reset_frame(self),
    {
        let mut next = self;
        next.frame = 0;
        next
    }

    fn run_right(self) -> (r: Self)
        ensures
            r == spec_run_right(self),
    {
        let mut next = self;
        next.velocity.x = RUNNING_SPEED;
        next
    }

    fn set_vertical_velocity(self, speed: i16) -> (r: Self)
        ensures
            r == spec_set_vertical_velocity(self, speed),
    {
        let mut next = self;
        next.velocity.y = speed;
        next
    }

    fn stop(self) -> (r: Self)
        ensures
            r == spec_stop(self),
    {
        let mut next = self;
        next.velocity.x = 0;
        next.velocity.y = 0;
        next
    }

    fn set_on(self, position: i16) -> (r: Self)
        ensures
            r == spec_set_on(self, position),
    {
        let mut next = self;
        next.position.y = add_clamped(position, -PLAYER_HEIGHT);
        next
    }
}

#[derive(Clone, Copy, PartialEq, Eq, Structural, Debug)]
pub struct Idle;

#[derive(Clone, Copy, PartialEq, Eq, Structural, Debug)]
pub struct Running;

#[derive(Clone, Copy, PartialEq, Eq, Structural, Debug)]
pub struct Sliding;

#[derive(Clone, Copy, PartialEq, Eq, Structural, Debug)]
pub struct Jumping;

#[derive(Clone, Copy, PartialEq, Eq, Structural, Debug)]
pub struct Falling;

#[derive(Clone, Copy, PartialEq, Eq, Structural, Debug)]
pub struct KnockedOut;

/// A state of the character: its context tagged with the state's type.
#[derive(Clone, Copy, PartialEq, Eq, Structural, Debug)]
pub struct RedHatBoyState<S> {
    pub context: RedHatBoyContext,
    pub _state: S,
}

impl<S> RedHatBoyState<S> {
    pub fn context(&self) -> (r: &RedHatBoyContext)
        ensures
            *r == self.context,
    {
        &self.context
    }
}

impl RedHatBoyState<Idle> {
    pub fn new() -> (r: Self)
        ensures
            r == (RedHatBoyState { context: spec_initial_context(), _state: Idle }),
    {
        RedHatBoyState {
            context: RedHatBoyContext {
                frame: 0,
                position: Point { x: STARTING_POINT, y: FLOOR },
                velocity: Point { x: 0, y: 0 },
            },
            _state: Idle,
        }
    }

    pub fn run(self) -> (r: RedHatBoyState<Running>)
        ensures
            r == (RedHatBoyState {
                context: spec_run_right(spec_reset_frame(self.context)),
                _state: Running,
            }),
    {
        RedHatBoyState { context: self.context.reset_frame().run_right(), _state: Running }
    }

    pub fn frame_name(&self) -> (r: &'static str)
        ensures
            r@ == "Idle"@,
    {
        "Idle"
    }

    pub fn update(self) -> (r: Self)
        ensures
            r == (RedHatBoyState { context: spec_update_ctx(self.context, IDLE_FRAMES), _state: Idle }),
    {
        RedHatBoyState { context: self.context.update(IDLE_FRAMES), _state: Idle }
    }
}

impl RedHatBoyState<Running> {
    pub fn frame_name(&self) -> (r: &'static str)
        ensures
            r@ == "Run"@,
    {
        "Run"
    }

    pub fn update(self) -> (r: Self)
        ensures
            r == (RedHatBoyState {
                context: spec_update_ctx(self.context, RUNNING_FRAMES),
                _state: Running,
            }),
    {
        RedHatBoyState { context: self.context.update(RUNNING_FRAMES), _state: Running }
    }

    pub fn slide(self) -> (r: RedHatBoyState<Sliding>)
        ensures
            r == (RedHatBoyState { context: spec_reset_frame(self.context), _state: Sliding }),
    {
        RedHatBoyState { context: self.context.reset_frame(), _state: Sliding }
    }

    pub fn jump(self) -> (r: RedHatBoyState<Jumping>)
        ensures
            r == (RedHatBoyState {
                context: spec_set_vertical_velocity(spec_reset_frame(self.context), JUMP_SPEED),
                _state: Jumping,
            }),
    {
        RedHatBoyState {
            context: self.context.reset_frame().set_vertical_velocity(JUMP_SPEED),
            _state: Jumping,
        }
    }

    pub fn knock_out(self) -> (r: RedHatBoyState<Falling>)
        ensures
            r == (RedHatBoyState {
                context: spec_stop(spec_reset_frame(self.context)),
                _state: Falling,
            }),
    {
        RedHatBoyState { context: self.context.reset_frame().stop(), _state: Falling }
    }

    pub fn land_on(self, position: i16) -> (r: RedHatBoyState<Running>)
        ensures
            r == (RedHatBoyState { context: spec_set_on(self.context, position), _state: Running }),
    {
        RedHatBoyState { context: self.context.set_on(position), _state: Running }
    }
}

impl RedHatBoyState<Sliding> {
    pub fn frame_name(&self) -> (r: &'static str)
        ensures
            r@ == "Slide"@,
    {
        "Slide"
    }

    pub fn update(self) -> (r: SlidingEndState)
        ensures
            ({
                let c = spec_update_ctx(self.context, SLIDING_FRAMES);
                if c.frame >= SLIDING_FRAMES {
                    r == SlidingEndState::Complete(
                        RedHatBoyState { context: spec_reset_frame(c), _state: Running },
                    )
                } else {
                    r == SlidingEndState::Sliding(RedHatBoyState { context: c, _state: Sliding })
                }
            }),
    {
        let next = RedHatBoyState { context: self.context.update(SLIDING_FRAMES), _state: Sliding };
        if next.context.frame >= SLIDING_FRAMES {
            SlidingEndState::Complete(next.stand())
        } else {
            SlidingEndState::Sliding(next)
        }
    }

    pub fn stand(self) -> (r: RedHatBoyState<Running>)
        ensures
            r == (RedHatBoyState { context: spec_reset_frame(self.context), _state: Running }),
    {
        RedHatBoyState { context: self.context.reset_frame(), _state: Running }
    }

    pub fn knock_out(self) -> (r: RedHatBoyState<Falling>)
        ensures
            r == (RedHatBoyState {
                context: spec_stop(spec_reset_frame(self.context)),
                _state: Falling,
            }),
    {
        RedHatBoyState { context: self.context.reset_frame().stop(), _state: Falling }
    }

    pub fn land_on(self, position: i16) -> (r: RedHatBoyState<Sliding>)
        ensures
            r == (RedHatBoyState { context: spec_set_on(self.context, position), _state: Sliding }),
    {
        RedHatBoyState { context: self.context.set_on(position), _state: Sliding }
    }
}

impl RedHatBoyState<Jumping> {
    pub fn frame_name(&self) -> (r: &'static str)
        ensures
            r@ == "Jump"@,
    {
        "Jump"
    }

    pub fn update(self) -> (r: JumpingEndState)
        ensures
            ({
                let c = spec_update_ctx(self.context, JUMPING_FRAMES);
                if c.position.y >= FLOOR {
                    r == JumpingEndState::Landing(
                        RedHatBoyState {
                            context: spec_set_on(spec_reset_frame(c), HEIGHT),
                            _state: Running,
                        },
                    )
                } else {
                    r == JumpingEndState::Jumping(RedHatBoyState { context: c, _state: Jumping })
                }
            }),
    {
        let next = RedHatBoyState { context: self.context.update(JUMPING_FRAMES), _state: Jumping };
        if next.context.position.y >= FLOOR {
            JumpingEndState::Landing(next.land_on(HEIGHT))
        } else {
            JumpingEndState::Jumping(next)
        }
    }

    pub fn land_on(self, position: i16) -> (r: RedHatBoyState<Running>)
        ensures
            r == (RedHatBoyState {
                context: spec_set_on(spec_reset_frame(self.context), position),
                _state: Running,
            }),
    {
        RedHatBoyState { context: self.context.reset_frame().set_on(position), _state: Running }
    }

    pub fn knock_out(self) -> (r: RedHatBoyState<Falling>)
        ensures
            r == (RedHatBoyState {
                context: spec_stop(spec_reset_frame(self.context)),
                _state: Falling,
            }),
    {
        RedHatBoyState { context: self.context.reset_frame().stop(), _state: Falling }
    }
}

impl RedHatBoyState<Falling> {
    pub fn frame_name(&self) -> (r: &'static str)
        ensures
            r@ == "Dead"@,
    {
        "Dead"
    }

    pub fn knock_out(self) -> (r: RedHatBoyState<KnockedOut>)
        ensures
            r == (RedHatBoyState { context: self.context, _state: KnockedOut }),
    {
        RedHatBoyState { context: self.context, _state: KnockedOut }
    }

    pub fn update(self) -> (r: FallingEndState)
        ensures
            ({
                let c = spec_update_ctx(self.context, FALLING_FRAMES);
                if c.frame >= FALLING_FRAMES {
                    r == FallingEndState::KnockedOut(
                        RedHatBoyState { context: c, _state: KnockedOut },
                    )
                } else {
                    r == FallingEndState::Falling(RedHatBoyState { context: c, _state: Falling })
                }
            }),
    {
        let next = RedHatBoyState { context: self.context.update(FALLING_FRAMES), _state: Falling };
        if next.context.frame >= FALLING_FRAMES {
            FallingEndState::KnockedOut(next.knock_out())
        } else {
            FallingEndState::Falling(next)
        }
    }
}

impl RedHatBoyState<KnockedOut> {
    pub fn frame_name(&self) -> (r: &'static str)
        ensures
            r@ == "Dead"@,
    {
        "Dead"
    }
}

/// What a sliding update ends in: still sliding, or back to running.
#[derive(Clone, Copy, PartialEq, Eq, Structural, Debug)]
pub enum SlidingEndState {
    Complete(RedHatBoyState<Running>),
    Sliding(RedHatBoyState<Sliding>),
}

/// What a jumping update ends in: still airborne, or landed.
#[derive(Clone, Copy, PartialEq, Eq, Structural, Debug)]
pub enum JumpingEndState {
    Landing(RedHatBoyState<Running>),
    Jumping(RedHatBoyState<Jumping>),
}

/// What a falling update ends in: still falling, or knocked out.
#[derive(Clone, Copy, PartialEq, Eq, Structural, Debug)]
pub enum FallingEndState {
    KnockedOut(RedHatBoyState<KnockedOut>),
    Falling(RedHatBoyState<Falling>),
}

/// The events the character responds to.
#[derive(Clone, Copy, PartialEq, Eq, Structural, Debug)]
pub enum Event {
    Run,
    Slide,
    Jump,
    KnockOut,
    Update,
    Land(i16),
}

/// The closed sum of the six character states.
#[derive(Clone, Copy, PartialEq, Eq, Structural, Debug)]
pub enum RedHatBoyStateMachine {
    Idle(RedHatBoyState<Idle>),
    Running(RedHatBoyState<Running>),
    Sliding(RedHatBoyState<Sliding>),
    Jumping(RedHatBoyState<Jumping>),
    Falling(RedHatBoyState<Falling>),
    KnockedOut(RedHatBoyState<KnockedOut>),
}

/// The context of whichever state is live.
pub open spec fn spec_context(m: RedHatBoyStateMachine) -> RedHatBoyContext {
    match m {
        RedHatBoyStateMachine::Idle(s) => s.context,
        RedHatBoyStateMachine::Running(s) => s.context,
        RedHatBoyStateMachine::Sliding(s) => s.context,
        RedHatBoyStateMachine::Jumping(s) => s.context,
        RedHatBoyStateMachine::Falling(s) => s.context,
        RedHatBoyStateMachine::KnockedOut(s) => s.context,
    }
}

/// The whole transition table.  Pairs not listed leave the machine
/// unchanged.
pub open spec fn spec_transition(m: RedHatBoyStateMachine, event: Event) -> RedHatBoyStateMachine {
    match (m, event) {
        (RedHatBoyStateMachine::Idle(s), Event::Run) => RedHatBoyStateMachine::Running(
            RedHatBoyState { context: spec_run_right(spec_reset_frame(s.context)), _state: Running },
        ),
        (RedHatBoyStateMachine::Idle(s), Event::Update) => RedHatBoyStateMachine::Idle(
            RedHatBoyState { context: spec_update_ctx(s.context, IDLE_FRAMES), _state: Idle },
        ),
        (RedHatBoyStateMachine::Running(s), Event::Slide) => RedHatBoyStateMachine::Sliding(
            RedHatBoyState { context: spec_reset_frame(s.context), _state: Sliding },
        ),
        (RedHatBoyStateMachine::Running(s), Event::Jump) => RedHatBoyStateMachine::Jumping(
            RedHatBoyState {
                context: spec_set_vertical_velocity(spec_reset_frame(s.context), JUMP_SPEED),
                _state: Jumping,
            },
        ),
        (RedHatBoyStateMachine::Running(s), Event::Update) => RedHatBoyStateMachine::Running(
            RedHatBoyState { context: spec_update_ctx(s.context, RUNNING_FRAMES), _state: Running },
        ),
        (RedHatBoyStateMachine::Running(s), Event::KnockOut) => RedHatBoyStateMachine::Falling(
            RedHatBoyState { context: spec_stop(spec_reset_frame(s.context)), _state: Falling },
        ),
        (RedHatBoyStateMachine::Running(s), Event::Land(position)) => RedHatBoyStateMachine::Running(
            RedHatBoyState { context: spec_set_on(s.context, position), _state: Running },
        ),
        (RedHatBoyStateMachine::Sliding(s), Event::Update) => {
            let c = spec_update_ctx(s.context, SLIDING_FRAMES);
            if c.frame >= SLIDING_FRAMES {
                RedHatBoyStateMachine::Running(
                    RedHatBoyState { context: spec_reset_frame(c), _state: Running },
                )
            } else {
                RedHatBoyStateMachine::Sliding(RedHatBoyState { context: c, _state: Sliding })
            }
        },
        (RedHatBoyStateMachine::Sliding(s), Event::KnockOut) => RedHatBoyStateMachine::Falling(
            RedHatBoyState { context: spec_stop(spec_reset_frame(s.context)), _state: Falling },
        ),
        (RedHatBoyStateMachine::Sliding(s), Event::Land(position)) => RedHatBoyStateMachine::Sliding(
            RedHatBoyState { context: spec_set_on(s.context, position), _state: Sliding },
        ),
        (RedHatBoyStateMachine::Jumping(s), Event::Update) => {
            let c = spec_update_ctx(s.context, JUMPING_FRAMES);
            if c.position.y >= FLOOR {
                RedHatBoyStateMachine::Running(
                    RedHatBoyState {
                        context: spec_set_on(spec_reset_frame(c), HEIGHT),
                        _state: Running,
                    },
                )
            } else {
                RedHatBoyStateMachine::Jumping(RedHatBoyState { context: c, _state: Jumping })
            }
        },
        (RedHatBoyStateMachine::Jumping(s), Event::KnockOut) => RedHatBoyStateMachine::Falling(
            RedHatBoyState { context: spec_stop(spec_reset_frame(s.context)), _state: Falling },
        ),
        (RedHatBoyStateMachine::Jumping(s), Event::Land(position)) => RedHatBoyStateMachine::Running(
            RedHatBoyState {
                context: spec_set_on(spec_reset_frame(s.context), position),
                _state: Running,
            },
        ),
        (RedHatBoyStateMachine::Falling(s), Event::Update) => {
            let c = spec_update_ctx(s.context, FALLING_FRAMES);
            if c.frame >= FALLING_FRAMES {
                RedHatBoyStateMachine::KnockedOut(
                    RedHatBoyState { context: c, _state: KnockedOut },
                )
            } else {
                RedHatBoyStateMachine::Falling(RedHatBoyState { context: c, _state: Falling })
            }
        },
        _ => m,
    }
}

/// The animation cycle the machine's state draws from.
pub open spec fn spec_frame_prefix(m: RedHatBoyStateMachine) -> Seq<char> {
    match m {
        RedHatBoyStateMachine::Idle(_) => "Idle"@,
        RedHatBoyStateMachine::Running(_) => "Run"@,
        RedHatBoyStateMachine::Sliding(_) => "Slide"@,
        RedHatBoyStateMachine::Jumping(_) => "Jump"@,
        RedHatBoyStateMachine::Falling(_) => "Dead"@,
        RedHatBoyStateMachine::KnockedOut(_) => "Dead"@,
    }
}

impl RedHatBoyStateMachine {
    /// Apply one event.  Every (state, event) pair is accepted; pairs
    /// outside the table return the machine unchanged.
    pub fn transition(self, event: Event) -> (r: Self)
        ensures
            r == spec_transition(self, event),
    {
        match (self, event) {
            (RedHatBoyStateMachine::Idle(state), Event::Run) => RedHatBoyStateMachine::Running(
                state.run(),
            ),
            (RedHatBoyStateMachine::Idle(state), Event::Update) => RedHatBoyStateMachine::Idle(
                state.update(),
            ),
            (RedHatBoyStateMachine::Running(state), Event::Slide) => RedHatBoyStateMachine::Sliding(
                state.slide(),
            ),
            (RedHatBoyStateMachine::Running(state), Event::Jump) => RedHatBoyStateMachine::Jumping(
                state.jump(),
            ),
            (RedHatBoyStateMachine::Running(state), Event::Update) => {
                RedHatBoyStateMachine::Running(state.update())
            },
            (RedHatBoyStateMachine::Running(state), Event::KnockOut) => {
                RedHatBoyStateMachine::Falling(state.knock_out())
            },
            (RedHatBoyStateMachine::Running(state), Event::Land(position)) => {
                RedHatBoyStateMachine::Running(state.land_on(position))
            },
            (RedHatBoyStateMachine::Sliding(state), Event::Update) => match state.update() {
                SlidingEndState::Complete(running) => RedHatBoyStateMachine::Running(running),
                SlidingEndState::Sliding(sliding) => RedHatBoyStateMachine::Sliding(sliding),
            },
            (RedHatBoyStateMachine::Sliding(state), Event::KnockOut) => {
                RedHatBoyStateMachine::Falling(state.knock_out())
            },
            (RedHatBoyStateMachine::Sliding(state), Event::Land(position)) => {
                RedHatBoyStateMachine::Sliding(state.land_on(position))
            },
            (RedHatBoyStateMachine::Jumping(state), Event::Update) => match state.update() {
                JumpingEndState::Landing(running) => RedHatBoyStateMachine::Running(running),
                JumpingEndState::Jumping(jumping) => RedHatBoyStateMachine::Jumping(jumping),
            },
            (RedHatBoyStateMachine::Jumping(state), Event::KnockOut) => {
                RedHatBoyStateMachine::Falling(state.knock_out())
            },
            (RedHatBoyStateMachine::Jumping(state), Event::Land(position)) => {
                RedHatBoyStateMachine::Running(state.land_on(position))
            },
            (RedHatBoyStateMachine::Falling(state), Event::Update) => match state.update() {
                FallingEndState::KnockedOut(knocked_out) => {
                    RedHatBoyStateMachine::KnockedOut(knocked_out)
                },
                FallingEndState::Falling(falling) => RedHatBoyStateMachine::Falling(falling),
            },
            _ => self,
        }
    }

    pub fn frame_name(&self) -> (r: &'static str)
        ensures
            r@ == spec_frame_prefix(*self),
    {
        match self {
            RedHatBoyStateMachine::Idle(state) => state.frame_name(),
            RedHatBoyStateMachine::Running(state) => state.frame_name(),
            RedHatBoyStateMachine::Sliding(state) => state.frame_name(),
            RedHatBoyStateMachine::Jumping(state) => state.frame_name(),
            RedHatBoyStateMachine::Falling(state) => state.frame_name(),
            RedHatBoyStateMachine::KnockedOut(state) => state.frame_name(),
        }
    }

    pub fn context(&self) -> (r: &RedHatBoyContext)
        ensures
            *r == spec_context(*self),
    {
        match self {
            RedHatBoyStateMachine::Idle(state) => state.context(),
            RedHatBoyStateMachine::Running(state) => state.context(),
            RedHatBoyStateMachine::Sliding(state) => state.context(),
            RedHatBoyStateMachine::Jumping(state) => state.context(),
            RedHatBoyStateMachine::Falling(state) => state.context(),
            RedHatBoyStateMachine::KnockedOut(state) => state.context(),
        }
    }

    pub fn update(self) -> (r: Self)
        ensures
            r == spec_transition(self, Event::Update),
    {
        self.transition(Event::Update)
    }

    /// True exactly when the live state is `KnockedOut`.
    pub fn knocked_out(&self) -> (r: bool)
        ensures
            r == (*self is KnockedOut),
    {
        matches!(self, RedHatBoyStateMachine::KnockedOut(_))
    }
}

/// The largest animation frame the live state can carry.
pub open spec fn spec_frame_bound(m: RedHatBoyStateMachine) -> u8 {
    match m {
        RedHatBoyStateMachine::Idle(_) => IDLE_FRAMES,
        RedHatBoyStateMachine::Running(_) => RUNNING_FRAMES,
        RedHatBoyStateMachine::Sliding(_) => SLIDING_FRAMES,
        RedHatBoyStateMachine::Jumping(_) => JUMPING_FRAMES,
        RedHatBoyStateMachine::Falling(_) => FALLING_FRAMES,
        RedHatBoyStateMachine::KnockedOut(_) => FALLING_FRAMES,
    }
}

/// The reachable-state invariant: the frame counter never exceeds the
/// live state's ceiling, the horizontal velocity is either standing or
/// running speed, and the vertical velocity stays between the jump
/// impulse and terminal velocity.
pub open spec fn spec_machine_wf(m: RedHatBoyStateMachine) -> bool {
    &&& spec_context(m).frame <= spec_frame_bound(m)
    &&& (spec_context(m).velocity.x == 0 || spec_context(m).velocity.x == RUNNING_SPEED)
    &&& JUMP_SPEED <= spec_context(m).velocity.y <= TERMINAL_VELOCITY
}

/// Every transition keeps the frame counter under the live state's
/// ceiling.
pub proof fn lemma_transition_preserves_wf(m: RedHatBoyStateMachine, event: Event)
    requires
        spec_machine_wf(m),
    ensures
        spec_machine_wf(spec_transition(m, event)),
{
}

/// The full name of a sprite cell: prefix, then the one-based image
/// number in parentheses, then the file suffix.
pub open spec fn spec_frame_name_parts(prefix: Seq<char>, number: int) -> Seq<char> {
    prefix + " ("@ + spec_decimal(number) + ").png"@
}

/// The cell name the machine's state and frame select.
pub open spec fn spec_frame_name(m: RedHatBoyStateMachine) -> Seq<char> {
    spec_frame_name_parts(spec_frame_prefix(m), spec_context(m).frame / 3 + 1)
}

/// The sheet holds cells `prefix (1).png` through `prefix (count).png`.
pub open spec fn spec_has_cells(sheet: Sheet, prefix: Seq<char>, count: int) -> bool {
    forall|k: int|
        1 <= k <= count ==> sheet.spec_cell(#[trigger] spec_frame_name_parts(prefix, k)) is Some
}

/// The sheet holds every cell any well-formed machine state can name.
pub open spec fn spec_has_boy_cells(sheet: Sheet) -> bool {
    &&& spec_has_cells(sheet, "Idle"@, 10)
    &&& spec_has_cells(sheet, "Run"@, 8)
    &&& spec_has_cells(sheet, "Slide"@, 5)
    &&& spec_has_cells(sheet, "Jump"@, 12)
    &&& spec_has_cells(sheet, "Dead"@, 10)
}

/// Build the sprite cell name for one animation image.
pub fn build_frame_name(prefix: &str, number: u16) -> (r: String)
    ensures
        r@ == spec_frame_name_parts(prefix@, number as int),
{
    let digits = decimal_string(number);
    let r = String::from_str(prefix).concat(" (").concat(digits.as_str()).concat(").png");
    proof {
        assert(r@ =~= spec_frame_name_parts(prefix@, number as int));
    }
    r
}

/// Check that the sheet holds cells 1 through `count` for a prefix.
fn has_cells(sheet: &Sheet, prefix: &str, count: u16) -> (r: bool)
    requires
        count < u16::MAX,
    ensures
        r == spec_has_cells(*sheet, prefix@, count as int),
{
    let mut k: u16 = 1;
    while k <= count
        invariant
            count < u16::MAX,
            1 <= k <= count + 1,
            forall|j: int|
                1 <= j < k ==> sheet.spec_cell(#[trigger] spec_frame_name_parts(prefix@, j)) is Some,
        decreases count + 1 - k,
    {
        let name = build_frame_name(prefix, k);
        if sheet.cell(name.as_str()).is_none() {
            return false;
        }
        k = k + 1;
    }
    true
}

/// Runtime check for `spec_has_boy_cells`, so that an unverified caller
/// can test a freshly loaded sheet before building a character from it.
pub fn has_boy_cells(sheet: &Sheet) -> (r: bool)
    ensures
        r == spec_has_boy_cells(*sheet),
{
    has_cells(sheet, "Idle", 10) && has_cells(sheet, "Run", 8) && has_cells(sheet, "Slide", 5)
        && has_cells(sheet, "Jump", 12) && has_cells(sheet, "Dead", 10)
}

/// A well-formed machine names only cells the sheet is known to hold.
pub proof fn lemma_wf_cell_present(sheet: Sheet, m: RedHatBoyStateMachine)
    requires
        spec_has_boy_cells(sheet),
        spec_machine_wf(m),
    ensures
        sheet.spec_cell(spec_frame_name(m)) is Some,
{
    let number = spec_context(m).frame / 3 + 1;
    assert(spec_frame_name(m) == spec_frame_name_parts(spec_frame_prefix(m), number));
}

/// Horizontal inset of the gameplay collision box inside the sprite.
pub const X_OFFSET: i16 = 18;

/// Vertical inset of the gameplay collision box inside the sprite.
pub const Y_OFFSET: i16 = 14;

/// Total width taken off the sprite to form the collision box.
pub const WIDTH_OFFSET: i16 = 28;

/// The player character: its state machine plus the sprite sheet and
/// image handle it draws from.
#[derive(Clone, Debug)]
pub struct RedHatBoy {
    pub state_machine: RedHatBoyStateMachine,
    pub sprite_sheet: Sheet,
    pub image: u32,
}

impl RedHatBoy {
    /// The character is usable: its frame counter is in range and its
    /// sheet holds every cell its states can ask for.
    pub open spec fn wf(&self) -> bool {
        &&& spec_machine_wf(self.state_machine)
        &&& spec_has_boy_cells(self.sprite_sheet)
    }

    /// The cell the character currently draws.
    pub open spec fn spec_current_cell(&self) -> Option<Cell> {
        self.sprite_sheet.spec_cell(spec_frame_name(self.state_machine))
    }

    /// Where the sprite is painted: the position moved by the sprite's
    /// trim offset, sized to the sprite's frame.
    pub open spec fn spec_destination_box(&self) -> Rect {
        let sprite = self.spec_current_cell()->Some_0;
        let position = spec_context(self.state_machine).position;
        Rect {
            position: Point {
                x: clamp_i16(position.x + sprite.sprite_source_size.x) as i16,
                y: clamp_i16(position.y + sprite.sprite_source_size.y) as i16,
            },
            width: sprite.frame.w,
            height: sprite.frame.h,
        }
    }

    /// The gameplay collision box: the draw box shrunk by fixed insets so
    /// collisions stay forgiving at animation edges.
    pub open spec fn spec_bounding_box(&self) -> Rect {
        let dest = self.spec_destination_box();
        Rect {
            position: Point {
                x: clamp_i16(dest.position.x + X_OFFSET) as i16,
                y: clamp_i16(dest.position.y + Y_OFFSET) as i16,
            },
            width: clamp_i16(dest.width - WIDTH_OFFSET) as i16,
            height: clamp_i16(dest.height - Y_OFFSET) as i16,
        }
    }

    pub fn new(sprite_sheet: Sheet, image: u32) -> (r: Self)
        ensures
            r.state_machine == RedHatBoyStateMachine::Idle(
                RedHatBoyState { context: spec_initial_context(), _state: Idle },
            ),
            r.sprite_sheet == sprite_sheet,
            r.image == image,
    {
        RedHatBoy {
            state_machine: RedHatBoyStateMachine::Idle(RedHatBoyState::<Idle>::new()),
            sprite_sheet,
            image,
        }
    }

    /// A fresh character that keeps the consumed one's assets.
    pub fn reset(boy: Self) -> (r: Self)
        ensures
            r.state_machine == RedHatBoyStateMachine::Idle(
                RedHatBoyState { context: spec_initial_context(), _state: Idle },
            ),
            r.sprite_sheet == boy.sprite_sheet,
            r.image == boy.image,
    {
        RedHatBoy::new(boy.sprite_sheet, boy.image)
    }

    /// The name of the sprite cell the character currently shows.
    pub fn frame_name(&self) -> (r: String)
        ensures
            r@ == spec_frame_name(self.state_machine),
    {
        let frame = self.state_machine.context().frame;
        let number: u16 = (frame / 3) as u16 + 1;
        build_frame_name(self.state_machine.frame_name(), number)
    }

    pub fn current_sprite(&self) -> (r: Option<&Cell>)
        ensures
            match r {
                Some(c) => self.spec_current_cell() == Some(*c),
                None => self.spec_current_cell() is None,
            },
    {
        let name = self.frame_name();
        self.sprite_sheet.cell(name.as_str())
    }

    pub fn destination_box(&self) -> (r: Rect)
        requires
            self.wf(),
        ensures
            r == self.spec_destination_box(),
    {
        proof {
            lemma_wf_cell_present(self.sprite_sheet, self.state_machine);
        }
        let sprite = self.current_sprite().unwrap();
        let position = self.state_machine.context().position;
        Rect::new_from_x_y(
            add_clamped(position.x, sprite.sprite_source_size.x),
            add_clamped(position.y, sprite.sprite_source_size.y),
            sprite.frame.w,
            sprite.frame.h,
        )
    }

    pub fn bounding_box(&self) -> (r: Rect)
        requires
            self.wf(),
        ensures
            r == self.spec_bounding_box(),
    {
        let dest = self.destination_box();
        Rect::new_from_x_y(
            add_clamped(dest.position.x, X_OFFSET),
            add_clamped(dest.position.y, Y_OFFSET),
            add_clamped(dest.width, -WIDTH_OFFSET),
            add_clamped(dest.height, -Y_OFFSET),
        )
    }

    /// The draw command for the current sprite.
    pub fn draw(&self) -> (r: DrawCommand)
        requires
            self.wf(),
        ensures
            r == spec_boy_draw_command(*self),
    {
        proof {
            lemma_wf_cell_present(self.sprite_sheet, self.state_machine);
        }
        let destination = self.destination_box();
        let sprite = self.current_sprite().unwrap();
        DrawCommand::Image {
            image: self.image,
            source: Rect::new_from_x_y(sprite.frame.x, sprite.frame.y, sprite.frame.w, sprite.frame.h),
            destination,
        }
    }

    pub fn update(&mut self)
        ensures
            final(self).state_machine == spec_transition(old(self).state_machine, Event::Update),
            final(self).sprite_sheet == old(self).sprite_sheet,
            final(self).image == old(self).image,
            old(self).wf() ==> final(self).wf(),
    {
        proof {
            lemma_transition_if_wf(old(self).state_machine, Event::Update);
        }
        self.state_machine = self.state_machine.update();
    }

    pub fn run_right(&mut self)
        ensures
            final(self).state_machine == spec_transition(old(self).state_machine, Event::Run),
            final(self).sprite_sheet == old(self).sprite_sheet,
            final(self).image == old(self).image,
            old(self).wf() ==> final(self).wf(),
    {
        proof {
            lemma_transition_if_wf(old(self).state_machine, Event::Run);
        }
        self.state_machine = self.state_machine.transition(Event::Run);
    }

    pub fn slide(&mut self)
        ensures
            final(self).state_machine == spec_transition(old(self).state_machine, Event::Slide),
            final(self).sprite_sheet == old(self).sprite_sheet,
            final(self).image == old(self).image,
            old(self).wf() ==> final(self).wf(),
    {
        proof {
            lemma_transition_if_wf(old(self).state_machine, Event::Slide);
        }
        self.state_machine = self.state_machine.transition(Event::Slide);
    }

    pub fn jump(&mut self)
        ensures
            final(self).state_machine == spec_transition(old(self).state_machine, Event::Jump),
            final(self).sprite_sheet == old(self).sprite_sheet,
            final(self).image == old(self).image,
            old(self).wf() ==> final(self).wf(),
    {
        proof {
            lemma_transition_if_wf(old(self).state_machine, Event::Jump);
        }
        self.state_machine = self.state_machine.transition(Event::Jump);
    }

    pub fn knock_out(&mut self)
        ensures
            final(self).state_machine == spec_transition(old(self).state_machine, Event::KnockOut),
            final(self).sprite_sheet == old(self).sprite_sheet,
            final(self).image == old(self).image,
            old(self).wf() ==> final(self).wf(),
    {
        proof {
            lemma_transition_if_wf(old(self).state_machine, Event::KnockOut);
        }
        self.state_machine = self.state_machine.transition(Event::KnockOut);
    }

    pub fn land_on(&mut self, position: i16)
        ensures
            final(self).state_machine == spec_transition(
                old(self).state_machine,
                Event::Land(position),
            ),
            final(self).sprite_sheet == old(self).sprite_sheet,
            final(self).image == old(self).image,
            old(self).wf() ==> final(self).wf(),
    {
        proof {
            lemma_transition_if_wf(old(self).state_machine, Event::Land(position));
        }
        self.state_machine = self.state_machine.transition(Event::Land(position));
    }

    pub fn pos_y(&self) -> (r: i16)
        ensures
            r == spec_context(self.state_machine).position.y,
    {
        self.state_machine.context().position.y
    }

    pub fn velocity_y(&self) -> (r: i16)
        ensures
            r == spec_context(self.state_machine).velocity.y,
    {
        self.state_machine.context().velocity.y
    }

    pub fn walking_speed(&self) -> (r: i16)
        ensures
            r == spec_context(self.state_machine).velocity.x,
    {
        self.state_machine.context().velocity.x
    }

    pub fn knocked_out(&self) -> (r: bool)
        ensures
            r == (self.state_machine is KnockedOut),
    {
        self.state_machine.knocked_out()
    }
}

/// The draw command a character produces: its current sprite copied to
/// its destination box.
pub open spec fn spec_boy_draw_command(boy: RedHatBoy) -> DrawCommand {
    let sprite = boy.spec_current_cell()->Some_0;
    DrawCommand::Image {
        image: boy.image,
        source: Rect {
            position: Point { x: sprite.frame.x, y: sprite.frame.y },
            width: sprite.frame.w,
            height: sprite.frame.h,
        },
        destination: boy.spec_destination_box(),
    }
}

/// Helper form of the well-formedness preservation lemma, guarded so that
/// the `&mut` methods above can invoke it without a precondition.
proof fn lemma_transition_if_wf(m: RedHatBoyStateMachine, event: Event)
    ensures
        spec_machine_wf(m) ==> spec_machine_wf(spec_transition(m, event)),
{
    if spec_machine_wf(m) {
        lemma_transition_preserves_wf(m, event);
    }
}

/// The machine after `n` Update events.
pub open spec fn spec_updates(m: RedHatBoyStateMachine, n: nat) -> RedHatBoyStateMachine
    decreases n,
{
    if n == 0 {
        m
    } else {
        spec_transition(spec_updates(m, (n - 1) as nat), Event::Update)
    }
}

/// Iterating updates from `m` one step further is the same as iterating
/// from the updated machine.
pub proof fn lemma_updates_shift(m: RedHatBoyStateMachine, n: nat)
    ensures
        spec_updates(spec_transition(m, Event::Update), n) == spec_updates(m, n + 1),
    decreases n,
{
    if n == 0 {
        assert(spec_updates(m, 0) == m);
        assert(spec_updates(spec_transition(m, Event::Update), 0) == spec_transition(
            m,
            Event::Update,
        ));
        assert(spec_updates(m, 1) == spec_transition(spec_updates(m, 0), Event::Update));
    } else {
        lemma_updates_shift(m, (n - 1) as nat);
        assert(spec_updates(spec_transition(m, Event::Update), n) == spec_transition(
            spec_updates(spec_transition(m, Event::Update), (n - 1) as nat),
            Event::Update,
        ));
        assert(spec_updates(m, n + 1) == spec_transition(spec_updates(m, n), Event::Update));
    }
}

/// From Idle, the Run event always yields Running with the frame reset to
/// 0 and the horizontal velocity set to the running speed; position and
/// vertical velocity carry over.
pub proof fn lemma_run_from_idle(s: RedHatBoyState<Idle>)
    ensures
        ({
            let r = spec_transition(RedHatBoyStateMachine::Idle(s), Event::Run);
            &&& r is Running
            &&& spec_context(r).frame == 0
            &&& spec_context(r).velocity.x == RUNNING_SPEED
            &&& spec_context(r).velocity.y == s.context.velocity.y
            &&& spec_context(r).position == s.context.position
        }),
{
}

/// From Running, repeated updates keep the machine Running and cycle the
/// frame: after `RUNNING_FRAMES + 1` ticks it has wrapped to 0, and it
/// never exceeds the ceiling.
pub proof fn lemma_running_frames_wrap(m: RedHatBoyStateMachine, n: nat)
    requires
        m is Running,
        spec_context(m).frame <= RUNNING_FRAMES,
    ensures
        spec_updates(m, n) is Running,
        spec_context(spec_updates(m, n)).frame == (spec_context(m).frame + n) % (
        RUNNING_FRAMES + 1),
        spec_context(spec_updates(m, n)).frame <= RUNNING_FRAMES,
    decreases n,
{
    let f = spec_context(m).frame as int;
    let cycle = RUNNING_FRAMES + 1;
    if n == 0 {
        vstd::arithmetic::div_mod::lemma_small_mod(f as nat, cycle as nat);
    } else {
        lemma_running_frames_wrap(m, (n - 1) as nat);
        let prev = spec_updates(m, (n - 1) as nat);
        let pf = spec_context(prev).frame as int;
        assert(pf == (f + n - 1) % cycle);
        vstd::arithmetic::div_mod::lemma_add_mod_noop(f + n - 1, 1, cycle);
        vstd::arithmetic::div_mod::lemma_small_mod(1nat, cycle as nat);
        if pf < RUNNING_FRAMES {
            vstd::arithmetic::div_mod::lemma_small_mod((pf + 1) as nat, cycle as nat);
        } else {
            vstd::arithmetic::div_mod::lemma_mod_self_0(cycle as int);
        }
    }
}

/// From a fresh slide, fewer than `SLIDING_FRAMES` updates stay Sliding
/// with the frame counting the ticks; exactly `SLIDING_FRAMES` updates
/// return to Running with the frame reset.
pub proof fn lemma_sliding_duration(m: RedHatBoyStateMachine, n: nat)
    requires
        m is Sliding,
        spec_context(m).frame == 0,
        n <= SLIDING_FRAMES,
    ensures
        n < SLIDING_FRAMES ==> spec_updates(m, n) is Sliding && spec_context(
            spec_updates(m, n),
        ).frame == n,
        n == SLIDING_FRAMES ==> spec_updates(m, n) is Running && spec_context(
            spec_updates(m, n),
        ).frame == 0,
    decreases n,
{
    if n > 0 {
        lemma_sliding_duration(m, (n - 1) as nat);
    }
}

/// From Running, Jump yields Jumping with the frame reset and the
/// vertical velocity set to the fixed jump speed.
pub proof fn lemma_jump_from_running(s: RedHatBoyState<Running>)
    ensures
        ({
            let r = spec_transition(RedHatBoyStateMachine::Running(s), Event::Jump);
            &&& r is Jumping
            &&& spec_context(r).frame == 0
            &&& spec_context(r).velocity.y == JUMP_SPEED
            &&& spec_context(r).velocity.x == s.context.velocity.x
            &&& spec_context(r).position == s.context.position
        }),
{
}

/// A jumping machine lands: gravity raises the vertical velocity tick by
/// tick, and once the position reaches the floor line the machine
/// auto-lands into Running.  Until that tick it stays Jumping.
pub proof fn lemma_jumping_eventually_lands(m: RedHatBoyStateMachine) -> (n: nat)
    requires
        m is Jumping,
        spec_context(m).velocity.y <= TERMINAL_VELOCITY,
        spec_context(m).position.y <= FLOOR,
    ensures
        n > 0,
        spec_updates(m, n) is Running,
        spec_context(spec_updates(m, n)).position.y == FLOOR,
        forall|k: nat| k < n ==> #[trigger] spec_updates(m, k) is Jumping,
    decreases TERMINAL_VELOCITY - spec_context(m).velocity.y, FLOOR - spec_context(m).position.y,
{
    let c = spec_context(m);
    let c1 = spec_update_ctx(c, JUMPING_FRAMES);
    let m1 = spec_transition(m, Event::Update);
    if c1.position.y >= FLOOR {
        assert(m1 is Running);
        assert(spec_updates(m, 0) == m);
        assert(spec_updates(m, 1) == m1);
        1
    } else {
        assert(m1 is Jumping);
        assert(spec_context(m1) == c1);
        assert(c1.velocity.y <= TERMINAL_VELOCITY);
        assert(c1.position.y <= FLOOR);
        if c.velocity.y == TERMINAL_VELOCITY {
            assert(c1.velocity.y == c.velocity.y);
            assert(c1.position.y == c.position.y + TERMINAL_VELOCITY);
        }
        let n1 = lemma_jumping_eventually_lands(m1);
        lemma_updates_shift(m, n1);
        assert forall|k: nat| k < n1 + 1 implies #[trigger] spec_updates(m, k) is Jumping by {
            if k > 0 {
                assert(spec_updates(m1, (k - 1) as nat) is Jumping);
                lemma_updates_shift(m, (k - 1) as nat);
            }
        }
        n1 + 1
    }
}

/// KnockOut from Running, Sliding or Jumping yields Falling with the
/// velocity zeroed and the frame reset.
pub proof fn lemma_knock_out_falls(m: RedHatBoyStateMachine)
    requires
        m is Running || m is Sliding || m is Jumping,
    ensures
        ({
            let r = spec_transition(m, Event::KnockOut);
            &&& r is Falling
            &&& spec_context(r).frame == 0
            &&& spec_context(r).velocity == (Point { x: 0, y: 0 })
            &&& spec_context(r).position == spec_context(m).position
        }),
{
}

/// A falling machine reaches KnockedOut once its frame ceiling is
/// reached, and stays Falling until then.
pub proof fn lemma_falling_knocks_out(m: RedHatBoyStateMachine) -> (n: nat)
    requires
        m is Falling,
        spec_context(m).frame < FALLING_FRAMES,
    ensures
        n == FALLING_FRAMES - spec_context(m).frame,
        spec_updates(m, n) is KnockedOut,
        forall|k: nat| k < n ==> #[trigger] spec_updates(m, k) is Falling,
    decreases FALLING_FRAMES - spec_context(m).frame,
{
    let c = spec_context(m);
    let m1 = spec_transition(m, Event::Update);
    if c.frame + 1 >= FALLING_FRAMES {
        assert(m1 is KnockedOut);
        assert(spec_updates(m, 0) == m);
        assert(spec_updates(m, 1) == m1);
        1
    } else {
        assert(m1 is Falling);
        let n1 = lemma_falling_knocks_out(m1);
        lemma_updates_shift(m, n1);
        assert forall|k: nat| k < n1 + 1 implies #[trigger] spec_updates(m, k) is Falling by {
            if k > 0 {
                assert(spec_updates(m1, (k - 1) as nat) is Falling);
                lemma_updates_shift(m, (k - 1) as nat);
            }
        }
        n1 + 1
    }
}

/// Once knocked out, every further event is a no-op.
pub proof fn lemma_knocked_out_absorbs(m: RedHatBoyStateMachine, event: Event)
    requires
        m is KnockedOut,
    ensures
        spec_transition(m, event) == m,
{
}

/// No transition moves the character horizontally: its x-coordinate is
/// world-relative and never changes.
pub proof fn lemma_transition_preserves_x(m: RedHatBoyStateMachine, event: Event)
    ensures
        spec_context(spec_transition(m, event)).position.x == spec_context(m).position.x,
{
}

} // verus!

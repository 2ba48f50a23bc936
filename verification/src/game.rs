//! The game-level state machine: Ready, Walking and GameOver, each
//! wrapping the world.  Updates consume the machine and return the next
//! one together with the side effects the host should perform.  Each
//! state's tick is specified by a relation between the world before and
//! after, and the dispatchers' contracts carry those relations through,
//! so the functions the host calls promise the full simulation step.

use vstd::prelude::*;
use vstd::string::StringExecFns;
use crate::geometry::{Point, Rect};
use crate::key_state::{spec_is_pressed, KeyState};
use crate::obstacle::{
    lemma_collide_all_preserves_x, lemma_collide_all_wf, lemma_small_move_exact,
    spec_collide_all, spec_moved, spec_obstacle_right, spec_boxes_within, spec_box_sizes_wf,
    spec_draws_of, spec_rightmost,
};
use crate::red_hat_boy::{
    lemma_transition_preserves_x, spec_boy_draw_command, spec_context, spec_initial_context,
    spec_transition, Event, Idle, RedHatBoy, RedHatBoyState, RedHatBoyStateMachine, HEIGHT,
};
use crate::render::DrawCommand;
use crate::sound::LOOPING;
use crate::walk::{
    spec_score_text, spec_scroll_backgrounds, Walk, OBSTACLE_BUFFER, TIMELINE_MINIMUM,
};

verus! {

/// A side effect the simulation asks the host to perform.
#[derive(Clone, Debug)]
pub enum Effect {
    /// Play a decoded sound.
    PlaySound { sound: u32, looping: LOOPING },
    /// Show an HTML fragment in the overlay.
    ShowUi { html: String },
    /// Remove the overlay's newest fragment.
    HideUi,
}

/// Waiting for the first input.
#[derive(Clone, Copy, PartialEq, Eq, Structural, Debug)]
pub struct Ready;

/// The run is on.
#[derive(Clone, Copy, PartialEq, Eq, Structural, Debug)]
pub struct Walking;

/// The character was knocked out; waiting for a restart.
#[derive(Clone, Copy, PartialEq, Eq, Structural, Debug)]
pub struct GameOver;

/// The world tagged with the game state it is in.
#[derive(Clone, Debug)]
pub struct WalkTheDogState<T> {
    pub _state: T,
    pub walk: Walk,
}

/// The closed sum of the game states.
#[derive(Clone, Debug)]
pub enum WalkTheDogStateMachine {
    Ready(WalkTheDogState<Ready>),
    Walking(WalkTheDogState<Walking>),
    GameOver(WalkTheDogState<GameOver>),
}

/// The world of whichever game state is live.
pub open spec fn spec_game_walk(m: WalkTheDogStateMachine) -> Walk {
    match m {
        WalkTheDogStateMachine::Ready(s) => s.walk,
        WalkTheDogStateMachine::Walking(s) => s.walk,
        WalkTheDogStateMachine::GameOver(s) => s.walk,
    }
}

/// What a Ready update ends in.
pub enum ReadyEndState {
    Complete(WalkTheDogState<Walking>),
    Continue(WalkTheDogState<Ready>),
}

pub open spec fn spec_ready_end_walk(r: ReadyEndState) -> Walk {
    match r {
        ReadyEndState::Complete(s) => s.walk,
        ReadyEndState::Continue(s) => s.walk,
    }
}

/// What a Walking update ends in.
pub enum WalkingEndState {
    Continue(WalkTheDogState<Walking>),
    Complete(WalkTheDogState<GameOver>),
}

pub open spec fn spec_walking_end_walk(r: WalkingEndState) -> Walk {
    match r {
        WalkingEndState::Continue(s) => s.walk,
        WalkingEndState::Complete(s) => s.walk,
    }
}

/// What a GameOver update ends in.
pub enum GameOverEndState {
    Continue(WalkTheDogState<GameOver>),
    Complete(WalkTheDogState<Ready>),
}

pub open spec fn spec_game_over_end_walk(r: GameOverEndState) -> Walk {
    match r {
        GameOverEndState::Continue(s) => s.walk,
        GameOverEndState::Complete(s) => s.walk,
    }
}

/// One Ready tick relates the world before (`walk0`) and after (`w`):
/// the character animates in place — the Update event and, when the run
/// key is down, the Run event — and nothing else of the world changes.
/// `started` says whether the run began.
pub open spec fn spec_ready_tick(walk0: Walk, keystate: KeyState, started: bool, w: Walk) -> bool {
    let run = spec_is_pressed(keystate, "ArrowRight"@);
    let m1 = spec_transition(walk0.boy.state_machine, Event::Update);
    let m2 = if run {
        spec_transition(m1, Event::Run)
    } else {
        m1
    };
    &&& started == run
    &&& w.wf()
    &&& w.boy.state_machine == m2
    &&& w == (Walk { boy: w.boy, ..walk0 })
    &&& w.boy.sprite_sheet == walk0.boy.sprite_sheet
    &&& w.boy.image == walk0.boy.image
}

/// One full Walking tick relates the world before (`walk0`) and after
/// (`w`), together with the effects it asks of the host: the character
/// takes the pressed events and its physics update; both backgrounds
/// scroll and wrap; the obstacles whose right edge had passed 0 — and
/// only those — are removed; the kept ones shift by the scroll speed
/// and collide with the character in order; the timeline is refilled
/// with one new segment placed past `walk0.timeline + OBSTACLE_BUFFER`
/// (the timeline becoming the new content's rightmost edge) or
/// decremented in lock-step with the scroll; and the score counts the
/// tick.  `ended` says whether the tick ended the game.
pub open spec fn spec_walking_tick(
    walk0: Walk,
    keystate: KeyState,
    ended: bool,
    w: Walk,
    effects: Seq<Effect>,
) -> bool {
    let jump = spec_is_pressed(keystate, "Space"@);
    let slide = spec_is_pressed(keystate, "ArrowDown"@);
    let m0 = walk0.boy.state_machine;
    let m1 = if jump {
        spec_transition(m0, Event::Jump)
    } else {
        m0
    };
    let m2 = if slide {
        spec_transition(m1, Event::Slide)
    } else {
        m1
    };
    let m3 = spec_transition(m2, Event::Update);
    let speed = (-spec_context(m3).velocity.x) as i16;
    let generated: int = if walk0.timeline < TIMELINE_MINIMUM {
        2
    } else {
        0
    };
    let kept = w.obstacles@.len() - generated;
    let dropped = walk0.obstacles@.len() - kept;
    &&& w.wf()
    &&& ended == (w.boy.state_machine is KnockedOut)
    &&& w.boy.sprite_sheet == walk0.boy.sprite_sheet
    &&& w.boy.image == walk0.boy.image
    &&& spec_context(w.boy.state_machine).position.x == spec_context(m0).position.x
    &&& w.score == (if walk0.score < u16::MAX {
        walk0.score + 1
    } else {
        walk0.score as int
    })
    &&& ({
        let scrolled = spec_scroll_backgrounds(walk0.backgrounds@[0], walk0.backgrounds@[1], speed);
        w.backgrounds@ =~= seq![scrolled.0, scrolled.1]
    })
    &&& 0 <= dropped <= walk0.obstacles@.len()
    &&& 0 <= kept
    &&& forall|i: int|
        0 <= i < dropped ==> spec_obstacle_right(#[trigger] walk0.obstacles@[i]) <= 0
    &&& forall|i: int|
        dropped <= i < walk0.obstacles@.len() ==> spec_obstacle_right(
            #[trigger] walk0.obstacles@[i],
        ) > 0
    &&& forall|i: int|
        0 <= i < kept ==> spec_moved(
            #[trigger] walk0.obstacles@[dropped + i],
            w.obstacles@[i],
            speed,
        )
    &&& w.boy.state_machine == spec_collide_all(
        w.obstacles@.take(kept),
        (RedHatBoy {
            state_machine: m3,
            sprite_sheet: walk0.boy.sprite_sheet,
            image: walk0.boy.image,
        }),
    ).state_machine
    &&& (if walk0.timeline < TIMELINE_MINIMUM {
        &&& w.timeline > walk0.timeline
        &&& w.timeline == spec_rightmost(w.obstacles@.skip(kept))
        &&& forall|i: int|
            kept <= i < w.obstacles@.len() ==> spec_boxes_within(
                #[trigger] w.obstacles@[i],
                walk0.timeline + OBSTACLE_BUFFER,
                w.timeline as int,
            )
    } else {
        w.timeline == walk0.timeline + speed
    })
    &&& w.obstacle_sheet == walk0.obstacle_sheet
    &&& w.stone == walk0.stone
    &&& w.stone_width == walk0.stone_width
    &&& w.stone_height == walk0.stone_height
    &&& w.jump_sound == walk0.jump_sound
    &&& effects.len() == (if jump && m0 is Running {
        1int
    } else {
        0int
    }) + (if w.boy.state_machine is KnockedOut {
        1int
    } else {
        0int
    })
    &&& (jump && m0 is Running ==> effects[0] == (Effect::PlaySound {
        sound: walk0.jump_sound,
        looping: LOOPING::NO,
    }))
    &&& (w.boy.state_machine is KnockedOut ==> (effects.last() matches Effect::ShowUi { html }
        && html@ == "<button id='new_game'>New Game</button>"@))
}

/// One GameOver tick relates the world before (`walk0`) and after
/// (`w`): without the restart signal nothing happens; with it the
/// world is reset — fresh Idle character over the same assets, the
/// starting segment regenerated from the origin, score zero — and the
/// host is asked to clear the overlay.  `restarted` says whether the
/// signal was taken.
pub open spec fn spec_game_over_tick(
    walk0: Walk,
    new_game_pressed: bool,
    restarted: bool,
    w: Walk,
    effects: Seq<Effect>,
) -> bool {
    &&& restarted == new_game_pressed
    &&& w.wf()
    &&& (!new_game_pressed ==> w == walk0 && effects.len() == 0)
    &&& (new_game_pressed ==> {
        &&& w.score == 0
        &&& w.boy.state_machine == RedHatBoyStateMachine::Idle(
            RedHatBoyState { context: spec_initial_context(), _state: Idle },
        )
        &&& w.boy.sprite_sheet == walk0.boy.sprite_sheet
        &&& w.boy.image == walk0.boy.image
        &&& w.backgrounds == walk0.backgrounds
        &&& w.obstacle_sheet == walk0.obstacle_sheet
        &&& w.obstacles@.len() == 2
        &&& forall|k: int|
            0 <= k < w.obstacles@.len() ==> spec_boxes_within(
                #[trigger] w.obstacles@[k],
                0,
                w.timeline as int,
            )
        &&& effects.len() == 1
        &&& effects[0] == Effect::HideUi
    })
}

/// One tick of the whole game machine: the live state takes its tick
/// relation, the machine moves along the state graph accordingly, and
/// the effects are the live state's.
pub open spec fn spec_machine_update(
    m: WalkTheDogStateMachine,
    keystate: KeyState,
    new_game_pressed: bool,
    m2: WalkTheDogStateMachine,
    effects: Seq<Effect>,
) -> bool {
    match m {
        WalkTheDogStateMachine::Ready(s) => {
            &&& (m2 is Ready || m2 is Walking)
            &&& spec_ready_tick(s.walk, keystate, m2 is Walking, spec_game_walk(m2))
            &&& effects.len() == 0
        },
        WalkTheDogStateMachine::Walking(s) => {
            &&& (m2 is Walking || m2 is GameOver)
            &&& spec_walking_tick(s.walk, keystate, m2 is GameOver, spec_game_walk(m2), effects)
        },
        WalkTheDogStateMachine::GameOver(s) => {
            &&& (m2 is GameOver || m2 is Ready)
            &&& spec_game_over_tick(
                s.walk,
                new_game_pressed,
                m2 is Ready,
                spec_game_walk(m2),
                effects,
            )
        },
    }
}

impl WalkTheDogState<Ready> {
    /// Enter the Ready state, asking the host to show the score
    /// overlay.
    pub fn new(walk: Walk) -> (r: (WalkTheDogState<Ready>, Vec<Effect>))
        ensures
            r.0.walk == walk,
            r.1@.len() == 1,
            (r.1@[0] matches Effect::ShowUi { html } && html@ == "<p id='score'>0</>"@),
    {
        let mut effects: Vec<Effect> = Vec::new();
        effects.push(Effect::ShowUi { html: String::from_str("<p id='score'>0</>") });
        (WalkTheDogState { _state: Ready, walk }, effects)
    }

    /// One Ready tick: the character animates in place, and a press of
    /// the run key starts the run.
    pub fn update(self, keystate: &KeyState) -> (r: ReadyEndState)
        requires
            self.walk.wf(),
        ensures
            spec_ready_tick(self.walk, *keystate, r is Complete, spec_ready_end_walk(r)),
    {
        let mut this = self;
        this.walk.boy.update();
        if keystate.is_pressed("ArrowRight") {
            ReadyEndState::Complete(this.start_running())
        } else {
            ReadyEndState::Continue(this)
        }
    }

    /// Send the character running and move to the Walking state.
    pub fn start_running(self) -> (r: WalkTheDogState<Walking>)
        ensures
            r.walk.boy.state_machine == spec_transition(self.walk.boy.state_machine, Event::Run),
            r.walk == (Walk { boy: r.walk.boy, ..self.walk }),
            r.walk.boy.sprite_sheet == self.walk.boy.sprite_sheet,
            r.walk.boy.image == self.walk.boy.image,
            self.walk.wf() ==> r.walk.wf(),
    {
        let mut this = self;
        this.run_right();
        WalkTheDogState { _state: Walking, walk: this.walk }
    }

    fn run_right(&mut self)
        ensures
            final(self).walk.boy.state_machine == spec_transition(
                old(self).walk.boy.state_machine,
                Event::Run,
            ),
            final(self).walk == (Walk { boy: final(self).walk.boy, ..old(self).walk }),
            final(self).walk.boy.sprite_sheet == old(self).walk.boy.sprite_sheet,
            final(self).walk.boy.image == old(self).walk.boy.image,
            old(self).walk.wf() ==> final(self).walk.wf(),
            final(self)._state == old(self)._state,
    {
        self.walk.boy.run_right();
    }
}

impl WalkTheDogState<Walking> {
    /// One full simulation tick: apply jump and slide input, advance
    /// the character, scroll the world, prune, move and collide the
    /// obstacles, refill the timeline, and count the tick.  Ends the
    /// game when the character is knocked out.
    pub fn update(self, keystate: &KeyState) -> (r: (WalkingEndState, Vec<Effect>))
        requires
            self.walk.wf(),
        ensures
            spec_walking_tick(
                self.walk,
                *keystate,
                r.0 is Complete,
                spec_walking_end_walk(r.0),
                r.1@,
            ),
    {
        let ghost walk0 = self.walk;
        let mut walk = self.walk;
        let mut effects: Vec<Effect> = Vec::new();
        if keystate.is_pressed("Space") {
            if matches!(&walk.boy.state_machine, RedHatBoyStateMachine::Running(_)) {
                effects.push(
                    Effect::PlaySound { sound: walk.jump_sound, looping: LOOPING::NO },
                );
            }
            walk.boy.jump();
        }
        if keystate.is_pressed("ArrowDown") {
            walk.boy.slide();
        }
        walk.boy.update();
        let ghost boy3 = walk.boy;
        let walking_speed = walk.velocity();
        walk.scroll_backgrounds(walking_speed);
        walk.prune_obstacles();
        let ghost pruned = walk.obstacles@;
        let ghost pruned_timeline = walk.timeline;
        walk.move_and_collide(walking_speed);
        let ghost after_collide = walk.obstacles@;
        proof {
            lemma_collide_all_preserves_x(after_collide, boy3);
            lemma_transition_preserves_x(walk0.boy.state_machine, Event::Jump);
            lemma_transition_preserves_x(
                spec_transition(walk0.boy.state_machine, Event::Jump),
                Event::Slide,
            );
            lemma_transition_preserves_x(walk0.boy.state_machine, Event::Slide);
            lemma_transition_preserves_x(
                if spec_is_pressed(*keystate, "Space"@) {
                    spec_transition(walk0.boy.state_machine, Event::Jump)
                } else {
                    walk0.boy.state_machine
                },
                Event::Slide,
            );
            lemma_transition_preserves_x(boy3.state_machine, Event::Update);
        }
        if walk.timeline < TIMELINE_MINIMUM {
            walk.generate_next_segment();
            proof {
                assert(walk.obstacles@.take(after_collide.len() as int) =~= after_collide);
            }
        } else {
            walk.timeline = walk.timeline + walking_speed;
            proof {
                assert forall|i: int| 0 <= i < walk.obstacles@.len() implies spec_boxes_within(
                    #[trigger] walk.obstacles@[i],
                    -32000,
                    walk.timeline as int,
                ) by {
                    assert(spec_moved(pruned[i], walk.obstacles@[i], walking_speed));
                    assert(spec_boxes_within(pruned[i], -32000, pruned_timeline as int));
                    assert(spec_box_sizes_wf(pruned[i]));
                    lemma_small_move_exact(pruned[i], walk.obstacles@[i], walking_speed);
                }
                assert(walk.obstacles@.take(walk.obstacles@.len() as int) =~= after_collide);
            }
        }
        walk.score = if walk.score < u16::MAX {
            walk.score + 1
        } else {
            walk.score
        };
        let ghost m3 = boy3.state_machine;
        proof {
            lemma_transition_preserves_x(walk0.boy.state_machine, Event::Update);
            lemma_collide_all_wf(after_collide, boy3);
            assert(boy3 == (RedHatBoy {
                state_machine: m3,
                sprite_sheet: walk0.boy.sprite_sheet,
                image: walk0.boy.image,
            }));
            let d0 = walk0.obstacles@.len() - pruned.len();
            assert forall|i: int| 0 <= i < pruned.len() implies #[trigger] pruned[i]
                == walk0.obstacles@[d0 + i] by {
                assert(walk0.obstacles@.skip(d0 as int)[i] == walk0.obstacles@[d0 + i]);
            }
            let generated: int = if walk0.timeline < TIMELINE_MINIMUM {
                2int
            } else {
                0int
            };
            let kept = walk.obstacles@.len() - generated;
            assert(kept == after_collide.len());
            assert(walk0.obstacles@.len() - kept == d0);
            assert forall|i: int| 0 <= i < kept implies spec_moved(
                #[trigger] walk0.obstacles@[d0 + i],
                walk.obstacles@[i],
                walking_speed,
            ) by {
                assert(pruned[i] == walk0.obstacles@[d0 + i]);
                assert(spec_moved(pruned[i], after_collide[i], walking_speed));
                assert(walk.obstacles@[i] == after_collide[i]);
            }
            assert forall|i: int| d0 <= i < walk0.obstacles@.len() implies spec_obstacle_right(
                #[trigger] walk0.obstacles@[i],
            ) > 0 by {
                assert(pruned[i - d0] == walk0.obstacles@[i]);
                assert(spec_obstacle_right(pruned[i - d0]) > 0);
            }
        }
        if walk.knocked_out() {
            let html = String::from_str("<button id='new_game'>New Game</button>");
            proof {
                assert(html@ == "<button id='new_game'>New Game</button>"@);
            }
            effects.push(Effect::ShowUi { html });
            proof {
                assert(effects@.last() matches Effect::ShowUi { html: h } && h@
                    == "<button id='new_game'>New Game</button>"@);
            }
            (WalkingEndState::Complete(WalkTheDogState { _state: GameOver, walk }), effects)
        } else {
            (WalkingEndState::Continue(WalkTheDogState { _state: Walking, walk }), effects)
        }
    }
}

impl WalkTheDogState<GameOver> {
    /// One GameOver tick: wait for the restart signal; on it, reset the
    /// world and return to Ready, asking the host to clear the overlay.
    pub fn update(self, new_game_pressed: bool) -> (r: (GameOverEndState, Vec<Effect>))
        requires
            self.walk.wf(),
        ensures
            spec_game_over_tick(
                self.walk,
                new_game_pressed,
                r.0 is Complete,
                spec_game_over_end_walk(r.0),
                r.1@,
            ),
    {
        if new_game_pressed {
            self.new_game()
        } else {
            (GameOverEndState::Continue(self), Vec::new())
        }
    }

    /// Reset the world for a new run.
    fn new_game(self) -> (r: (GameOverEndState, Vec<Effect>))
        requires
            self.walk.wf(),
        ensures
            r.0 is Complete,
            spec_game_over_tick(self.walk, true, true, spec_game_over_end_walk(r.0), r.1@),
    {
        let mut effects: Vec<Effect> = Vec::new();
        effects.push(Effect::HideUi);
        let walk = Walk::reset(self.walk);
        (GameOverEndState::Complete(WalkTheDogState { _state: Ready, walk }), effects)
    }
}

impl WalkTheDogStateMachine {
    /// Start the game machine in Ready over a fresh world.
    pub fn new(walk: Walk) -> (r: (Self, Vec<Effect>))
        ensures
            spec_game_walk(r.0) == walk,
            r.0 is Ready,
            r.1@.len() == 1,
            (r.1@[0] matches Effect::ShowUi { html } && html@ == "<p id='score'>0</>"@),
    {
        let (state, effects) = WalkTheDogState::<Ready>::new(walk);
        (WalkTheDogStateMachine::Ready(state), effects)
    }

    /// One tick of the whole game: dispatch to the live state, which
    /// takes its full tick relation.
    pub fn update(self, keystate: &KeyState, new_game_pressed: bool) -> (r: (Self, Vec<Effect>))
        requires
            spec_game_walk(self).wf(),
        ensures
            spec_game_walk(r.0).wf(),
            spec_machine_update(self, *keystate, new_game_pressed, r.0, r.1@),
    {
        match self {
            WalkTheDogStateMachine::Ready(state) => {
                let end = state.update(keystate);
                let machine = match end {
                    ReadyEndState::Complete(walking) => WalkTheDogStateMachine::Walking(walking),
                    ReadyEndState::Continue(ready) => WalkTheDogStateMachine::Ready(ready),
                };
                (machine, Vec::new())
            },
            WalkTheDogStateMachine::Walking(state) => {
                let (end, effects) = state.update(keystate);
                let machine = match end {
                    WalkingEndState::Continue(walking) => WalkTheDogStateMachine::Walking(walking),
                    WalkingEndState::Complete(game_over) => WalkTheDogStateMachine::GameOver(
                        game_over,
                    ),
                };
                (machine, effects)
            },
            WalkTheDogStateMachine::GameOver(state) => {
                let (end, effects) = state.update(new_game_pressed);
                let machine = match end {
                    GameOverEndState::Continue(game_over) => WalkTheDogStateMachine::GameOver(
                        game_over,
                    ),
                    GameOverEndState::Complete(ready) => WalkTheDogStateMachine::Ready(ready),
                };
                (machine, effects)
            },
        }
    }

    /// The render pass of the live state's world: both backgrounds, the
    /// character, every obstacle's commands in order, and the score
    /// text last.
    pub fn draw(&self) -> (r: Vec<DrawCommand>)
        requires
            spec_game_walk(*self).boy.wf(),
        ensures
            ({
                let w = spec_game_walk(*self);
                &&& r@.len() == 4 + spec_draws_of(w.obstacles@).len()
                &&& r@[0] == (DrawCommand::EntireImage {
                    image: w.backgrounds@[0].element,
                    position: w.backgrounds@[0].bounding_box.position,
                })
                &&& r@[1] == (DrawCommand::EntireImage {
                    image: w.backgrounds@[1].element,
                    position: w.backgrounds@[1].bounding_box.position,
                })
                &&& r@[2] == spec_boy_draw_command(w.boy)
                &&& r@.subrange(3, r@.len() - 1) =~= spec_draws_of(w.obstacles@)
                &&& (r@.last() matches DrawCommand::Text { content } && content@
                    == spec_score_text(w.score))
            }),
    {
        match self {
            WalkTheDogStateMachine::Ready(state) => state.walk.draw(),
            WalkTheDogStateMachine::Walking(state) => state.walk.draw(),
            WalkTheDogStateMachine::GameOver(state) => state.walk.draw(),
        }
    }
}

/// The whole game: the machine, once the host has initialized a world
/// for it.
pub struct WalkTheDog {
    pub machine: Option<WalkTheDogStateMachine>,
}

impl WalkTheDog {
    /// Before initialization: no machine yet.
    pub fn new() -> (r: Self)
        ensures
            r.machine is None,
    {
        WalkTheDog { machine: None }
    }

    /// One tick: update the machine if the game has been initialized.
    /// The machine that comes out is the one that went in advanced by
    /// exactly one machine update, and the effects are that update's.
    pub fn update(&mut self, keystate: &KeyState, new_game_pressed: bool) -> (effects: Vec<
        Effect,
    >)
        requires
            old(self).machine matches Some(m) ==> spec_game_walk(m).wf(),
        ensures
            old(self).machine is None ==> final(self).machine is None && effects@.len() == 0,
            old(self).machine matches Some(m) ==> (final(self).machine matches Some(m2)
                && spec_game_walk(m2).wf() && spec_machine_update(
                m,
                *keystate,
                new_game_pressed,
                m2,
                effects@,
            )),
    {
        let machine = self.machine.take();
        match machine {
            Some(m) => {
                let (next, effects) = m.update(keystate, new_game_pressed);
                self.machine = Some(next);
                effects
            },
            None => Vec::new(),
        }
    }

    /// One render pass: clear the canvas, then — when the game is
    /// initialized — the live world's full draw list.
    pub fn draw(&self) -> (r: Vec<DrawCommand>)
        requires
            self.machine matches Some(m) ==> spec_game_walk(m).boy.wf(),
        ensures
            r@.len() >= 1,
            r@[0] == (DrawCommand::Clear {
                rect: (Rect {
                    position: Point { x: 0, y: 0 },
                    width: HEIGHT,
                    height: 600,
                }),
            }),
            self.machine is None ==> r@.len() == 1,
            self.machine matches Some(m) ==> ({
                let w = spec_game_walk(m);
                &&& r@.len() == 5 + spec_draws_of(w.obstacles@).len()
                &&& r@[1] == (DrawCommand::EntireImage {
                    image: w.backgrounds@[0].element,
                    position: w.backgrounds@[0].bounding_box.position,
                })
                &&& r@[2] == (DrawCommand::EntireImage {
                    image: w.backgrounds@[1].element,
                    position: w.backgrounds@[1].bounding_box.position,
                })
                &&& r@[3] == spec_boy_draw_command(w.boy)
                &&& r@.subrange(4, r@.len() - 1) =~= spec_draws_of(w.obstacles@)
                &&& (r@.last() matches DrawCommand::Text { content } && content@
                    == spec_score_text(w.score))
            }),
    {
        let mut commands: Vec<DrawCommand> = Vec::new();
        commands.push(
            DrawCommand::Clear { rect: Rect::new_from_x_y(0, 0, HEIGHT, 600) },
        );
        match &self.machine {
            Some(machine) => {
                let mut rest = machine.draw();
                let ghost rest0 = rest@;
                commands.append(&mut rest);
                proof {
                    assert(commands@.subrange(4, commands@.len() - 1) =~= rest0.subrange(
                        3,
                        rest0.len() - 1,
                    ));
                    assert(commands@.last() == rest0.last());
                }
            },
            None => {},
        }
        commands
    }
}

} // verus!

//! The world state: the character, the two scrolling background tiles,
//! the live obstacle list, the generation timeline and the score.

use vstd::prelude::*;
use vstd::string::StringExecFns;
use crate::geometry::{clamp_i16, spec_right, Point, Rect};
use crate::obstacle::{
    lemma_collide_all_wf, lemma_collide_all_push, lemma_draws_of_push, lemma_move_preserves_order,
    lemma_ordered_disjoint, lemma_ordered_right_mono, lemma_small_move_exact, rightmost,
    spec_boxes, spec_box_sizes_wf, spec_boxes_within, spec_collide_all, spec_compact,
    spec_draws_of, spec_h_disjoint, spec_h_ordered, spec_moved, spec_obstacle_right,
    spec_rightmost, spec_translate_x, Image, Obstacle,
};
use crate::red_hat_boy::{
    spec_boy_draw_command,
    spec_context, spec_initial_context, spec_machine_wf, Idle, RedHatBoy, RedHatBoyState,
    RedHatBoyStateMachine,
};
use crate::render::DrawCommand;
use crate::rng::random_below;
use crate::segment::{
    platform_and_stone, stone_and_platform, MAX_STONE_WIDTH, SEGMENT_REACH,
};
use crate::sheet::SpriteSheet;
use crate::text::spec_decimal;

verus! {

/// When the generated content's right edge falls below this, another
/// segment is generated.
pub const TIMELINE_MINIMUM: i16 = 1000;

/// Gap kept between the generated content and the next segment.
pub const OBSTACLE_BUFFER: i16 = 20;

/// The world the game simulates.
#[derive(Clone, Debug)]
pub struct Walk {
    pub boy: RedHatBoy,
    pub backgrounds: [Image; 2],
    pub obstacles: Vec<Obstacle>,
    pub obstacle_sheet: SpriteSheet,
    pub stone: u32,
    pub stone_width: i16,
    pub stone_height: i16,
    pub jump_sound: u32,
    pub timeline: i16,
    pub score: u16,
}

impl Walk {
    /// The world invariant: a usable character, a stone that fits the
    /// segment catalog, a timeline in range, and an obstacle list whose
    /// members are non-degenerate, stand left to right without
    /// horizontal overlap, and end at or before the timeline.
    pub open spec fn wf(&self) -> bool {
        &&& self.boy.wf()
        &&& 0 <= self.stone_width <= MAX_STONE_WIDTH
        &&& 0 <= self.stone_height <= 2000
        &&& -3000 <= self.timeline <= 25000
        &&& forall|i: int|
            0 <= i < self.obstacles@.len() ==> spec_boxes(#[trigger] self.obstacles@[i]).len() > 0
        &&& forall|i: int|
            0 <= i < self.obstacles@.len() ==> spec_box_sizes_wf(#[trigger] self.obstacles@[i])
        &&& forall|i: int|
            0 <= i < self.obstacles@.len() ==> spec_compact(#[trigger] self.obstacles@[i])
        &&& forall|i: int|
            0 <= i < self.obstacles@.len() ==> spec_boxes_within(
                #[trigger] self.obstacles@[i],
                -32000,
                self.timeline as int,
            )
        &&& forall|i: int, j: int|
            0 <= i < j < self.obstacles@.len() ==> spec_h_ordered(
                #[trigger] self.obstacles@[i],
                #[trigger] self.obstacles@[j],
            )
    }

    /// A fresh world: the character as given, the starting segment laid
    /// out from the origin, score zero.
    pub fn new(
        boy: RedHatBoy,
        backgrounds: [Image; 2],
        obstacle_sheet: SpriteSheet,
        stone: u32,
        stone_width: i16,
        stone_height: i16,
        jump_sound: u32,
    ) -> (r: Self)
        requires
            boy.wf(),
            0 <= stone_width <= MAX_STONE_WIDTH,
            0 <= stone_height <= 2000,
        ensures
            r.wf(),
            r.boy == boy,
            r.backgrounds == backgrounds,
            r.obstacle_sheet == obstacle_sheet,
            r.stone == stone,
            r.stone_width == stone_width,
            r.stone_height == stone_height,
            r.jump_sound == jump_sound,
            r.score == 0,
            r.obstacles@.len() == 2,
            forall|k: int|
                0 <= k < r.obstacles@.len() ==> spec_boxes_within(
                    #[trigger] r.obstacles@[k],
                    0,
                    r.timeline as int,
                ),
            r.timeline == spec_rightmost(r.obstacles@),
            300 <= r.timeline <= SEGMENT_REACH,
    {
        let starting_obstacles = stone_and_platform(
            stone,
            stone_width,
            stone_height,
            &obstacle_sheet,
            0,
        );
        let timeline = rightmost(&starting_obstacles);
        Walk {
            boy,
            backgrounds,
            obstacles: starting_obstacles,
            obstacle_sheet,
            stone,
            stone_width,
            stone_height,
            jump_sound,
            timeline,
            score: 0,
        }
    }

    /// The world scroll velocity: the opposite of the character's
    /// walking speed.
    pub fn velocity(&self) -> (r: i16)
        requires
            spec_machine_wf(self.boy.state_machine),
        ensures
            r == -spec_context(self.boy.state_machine).velocity.x,
            -100 <= r <= 0,
    {
        -self.boy.walking_speed()
    }

    /// Whether the character has been knocked out.
    pub fn knocked_out(&self) -> (r: bool)
        ensures
            r == (self.boy.state_machine is KnockedOut),
    {
        self.boy.knocked_out()
    }

    /// A new run over the same assets: a fresh character, the starting
    /// segment regenerated from the origin, the score zeroed.
    pub fn reset(walk: Self) -> (r: Self)
        requires
            walk.wf(),
        ensures
            r.wf(),
            r.boy.state_machine == RedHatBoyStateMachine::Idle(
                RedHatBoyState { context: spec_initial_context(), _state: Idle },
            ),
            r.boy.sprite_sheet == walk.boy.sprite_sheet,
            r.boy.image == walk.boy.image,
            r.backgrounds == walk.backgrounds,
            r.obstacle_sheet == walk.obstacle_sheet,
            r.stone == walk.stone,
            r.stone_width == walk.stone_width,
            r.stone_height == walk.stone_height,
            r.jump_sound == walk.jump_sound,
            r.score == 0,
            r.obstacles@.len() == 2,
            forall|k: int|
                0 <= k < r.obstacles@.len() ==> spec_boxes_within(
                    #[trigger] r.obstacles@[k],
                    0,
                    r.timeline as int,
                ),
            r.timeline == spec_rightmost(r.obstacles@),
            300 <= r.timeline <= SEGMENT_REACH,
    {
        let boy = RedHatBoy::reset(walk.boy);
        Walk::new(
            boy,
            walk.backgrounds,
            walk.obstacle_sheet,
            walk.stone,
            walk.stone_width,
            walk.stone_height,
            walk.jump_sound,
        )
    }
}

/// One scroll step of the two background tiles: both move by `speed`;
/// a tile that has fully left the screen wraps to the right edge of the
/// other.
pub open spec fn spec_scroll_backgrounds(first: Image, second: Image, speed: i16) -> (
    Image,
    Image,
) {
    let m0 = Image {
        element: first.element,
        bounding_box: spec_translate_x(first.bounding_box, speed),
    };
    let m1 = Image {
        element: second.element,
        bounding_box: spec_translate_x(second.bounding_box, speed),
    };
    let w0 = if clamp_i16(spec_right(m0.bounding_box)) < 0 {
        Image {
            element: m0.element,
            bounding_box: Rect {
                position: Point {
                    x: clamp_i16(spec_right(m1.bounding_box)) as i16,
                    y: m0.bounding_box.position.y,
                },
                width: m0.bounding_box.width,
                height: m0.bounding_box.height,
            },
        }
    } else {
        m0
    };
    let w1 = if clamp_i16(spec_right(m1.bounding_box)) < 0 {
        Image {
            element: m1.element,
            bounding_box: Rect {
                position: Point {
                    x: clamp_i16(spec_right(w0.bounding_box)) as i16,
                    y: m1.bounding_box.position.y,
                },
                width: m1.bounding_box.width,
                height: m1.bounding_box.height,
            },
        }
    } else {
        m1
    };
    (w0, w1)
}

impl Walk {
    /// Scroll both background tiles, wrapping whichever has left the
    /// screen behind the other.
    pub fn scroll_backgrounds(&mut self, speed: i16)
        ensures
            ({
                let scrolled = spec_scroll_backgrounds(
                    old(self).backgrounds@[0],
                    old(self).backgrounds@[1],
                    speed,
                );
                final(self).backgrounds@ =~= seq![scrolled.0, scrolled.1]
            }),
            final(self).boy == old(self).boy,
            final(self).obstacles == old(self).obstacles,
            final(self).obstacle_sheet == old(self).obstacle_sheet,
            final(self).stone == old(self).stone,
            final(self).stone_width == old(self).stone_width,
            final(self).stone_height == old(self).stone_height,
            final(self).jump_sound == old(self).jump_sound,
            final(self).timeline == old(self).timeline,
            final(self).score == old(self).score,
    {
        let mut first = self.backgrounds[0];
        let mut second = self.backgrounds[1];
        first.move_horizontally(speed);
        second.move_horizontally(speed);
        if first.right() < 0 {
            let edge = second.right();
            first.set_x(edge);
        }
        if second.right() < 0 {
            let edge = first.right();
            second.set_x(edge);
        }
        self.backgrounds = [first, second];
        proof {
            assert(self.backgrounds@ =~= seq![first, second]);
        }
    }

    /// Drop obstacles that have scrolled fully past the left edge.
    /// Obstacles stand left to right, so the pruned ones form a prefix.
    pub fn prune_obstacles(&mut self)
        requires
            old(self).wf(),
        ensures
            final(self).wf(),
            final(self).obstacles@.len() <= old(self).obstacles@.len(),
            ({
                let dropped = old(self).obstacles@.len() - final(self).obstacles@.len();
                &&& final(self).obstacles@ =~= old(self).obstacles@.skip(dropped as int)
                &&& forall|i: int|
                    0 <= i < dropped ==> spec_obstacle_right(#[trigger] old(self).obstacles@[i])
                        <= 0
            }),
            forall|i: int|
                0 <= i < final(self).obstacles@.len() ==> spec_obstacle_right(
                    #[trigger] final(self).obstacles@[i],
                ) > 0,
            final(self).boy == old(self).boy,
            final(self).backgrounds == old(self).backgrounds,
            final(self).obstacle_sheet == old(self).obstacle_sheet,
            final(self).stone == old(self).stone,
            final(self).stone_width == old(self).stone_width,
            final(self).stone_height == old(self).stone_height,
            final(self).jump_sound == old(self).jump_sound,
            final(self).timeline == old(self).timeline,
            final(self).score == old(self).score,
    {
        let ghost obs0 = self.obstacles@;
        let mut done = false;
        proof {
            assert(self.obstacles@ =~= obs0.skip(0));
        }
        while !done && self.obstacles.len() > 0
            invariant
                self.obstacles@.len() <= obs0.len(),
                self.obstacles@ =~= obs0.skip((obs0.len() - self.obstacles@.len()) as int),
                forall|i: int|
                    0 <= i < obs0.len() - self.obstacles@.len() ==> spec_obstacle_right(
                        #[trigger] obs0[i],
                    ) <= 0,
                done ==> self.obstacles@.len() > 0 && spec_obstacle_right(self.obstacles@[0]) > 0,
                *self == (Walk { obstacles: self.obstacles, ..*old(self) }),
                obs0 == old(self).obstacles@,
            decreases self.obstacles@.len() + (if done {
                0int
            } else {
                1int
            }),
        {
            if self.obstacles[0].right() > 0 {
                done = true;
            } else {
                proof {
                    let k = (obs0.len() - self.obstacles@.len()) as int;
                    assert(self.obstacles@[0] == obs0[k]);
                    assert(self.obstacles@.remove(0) =~= obs0.skip(k + 1));
                }
                self.obstacles.remove(0);
            }
        }
        proof {
            let dropped = (obs0.len() - self.obstacles@.len()) as int;
            assert forall|i: int|
                0 <= i < self.obstacles@.len() implies spec_obstacle_right(
                #[trigger] self.obstacles@[i],
            ) > 0 by {
                assert(self.obstacles@[i] == obs0[dropped + i]);
                if i > 0 {
                    assert(spec_h_ordered(obs0[dropped], obs0[dropped + i]));
                    lemma_ordered_right_mono(self.obstacles@[0], self.obstacles@[i]);
                }
            }
            assert forall|i: int, j: int|
                0 <= i < j < self.obstacles@.len() implies spec_h_ordered(
                #[trigger] self.obstacles@[i],
                #[trigger] self.obstacles@[j],
            ) by {
                assert(self.obstacles@[i] == obs0[dropped + i]);
                assert(self.obstacles@[j] == obs0[dropped + j]);
            }
        }
    }

    /// Move every obstacle by `speed` and resolve its collision with
    /// the character, in list order.
    pub fn move_and_collide(&mut self, speed: i16)
        requires
            old(self).wf(),
            -100 <= speed <= 0,
            forall|i: int|
                0 <= i < old(self).obstacles@.len() ==> spec_obstacle_right(
                    #[trigger] old(self).obstacles@[i],
                ) > 0,
        ensures
            final(self).wf(),
            final(self).obstacles@.len() == old(self).obstacles@.len(),
            forall|i: int|
                0 <= i < old(self).obstacles@.len() ==> spec_moved(
                    #[trigger] old(self).obstacles@[i],
                    final(self).obstacles@[i],
                    speed,
                ),
            final(self).boy == spec_collide_all(final(self).obstacles@, old(self).boy),
            final(self).backgrounds == old(self).backgrounds,
            final(self).obstacle_sheet == old(self).obstacle_sheet,
            final(self).stone == old(self).stone,
            final(self).stone_width == old(self).stone_width,
            final(self).stone_height == old(self).stone_height,
            final(self).jump_sound == old(self).jump_sound,
            final(self).timeline == old(self).timeline,
            final(self).score == old(self).score,
    {
        let ghost obs0 = self.obstacles@;
        let ghost boy0 = self.boy;
        let mut processed: Vec<Obstacle> = Vec::new();
        proof {
            assert(self.obstacles@ =~= obs0.skip(0));
        }
        while self.obstacles.len() > 0
            invariant
                processed@.len() + self.obstacles@.len() == obs0.len(),
                self.obstacles@ =~= obs0.skip(processed@.len() as int),
                forall|k: int|
                    0 <= k < processed@.len() ==> spec_moved(
                        #[trigger] obs0[k],
                        processed@[k],
                        speed,
                    ),
                self.boy == spec_collide_all(processed@, boy0),
                self.boy.wf(),
                boy0.wf(),
                -100 <= speed <= 0,
                obs0 == old(self).obstacles@,
                boy0 == old(self).boy,
                old(self).wf(),
                *self == (Walk { obstacles: self.obstacles, boy: self.boy, ..*old(self) }),
            decreases self.obstacles@.len(),
        {
            let ghost k = processed@.len() as int;
            proof {
                assert(self.obstacles@[0] == obs0[k]);
                assert(self.obstacles@.remove(0) =~= obs0.skip(k + 1));
            }
            let mut obstacle = self.obstacles.remove(0);
            obstacle.move_horizontally(speed);
            obstacle.check_intersection(&mut self.boy);
            proof {
                lemma_collide_all_push(processed@, obstacle, boy0);
            }
            processed.push(obstacle);
        }
        proof {
            assert(obs0.skip(processed@.len() as int).len() == 0);
            lemma_collide_all_wf(processed@, boy0);
        }
        self.obstacles = processed;
        proof {
            assert forall|i: int| 0 <= i < obs0.len() implies {
                &&& spec_boxes(#[trigger] self.obstacles@[i]).len() > 0
                &&& spec_box_sizes_wf(self.obstacles@[i])
                &&& spec_compact(self.obstacles@[i])
                &&& spec_boxes_within(self.obstacles@[i], -32000, self.timeline as int)
            } by {
                assert(spec_moved(obs0[i], self.obstacles@[i], speed));
                assert(spec_boxes_within(obs0[i], -32000, self.timeline as int));
                lemma_small_move_exact(obs0[i], self.obstacles@[i], speed);
                assert(spec_obstacle_right(obs0[i]) > 0);
            }
            assert forall|i: int, j: int|
                0 <= i < j < obs0.len() implies spec_h_ordered(
                #[trigger] self.obstacles@[i],
                #[trigger] self.obstacles@[j],
            ) by {
                assert(spec_h_ordered(obs0[i], obs0[j]));
                lemma_move_preserves_order(
                    obs0[i],
                    obs0[j],
                    self.obstacles@[i],
                    self.obstacles@[j],
                    speed,
                );
            }
        }
    }

    /// Lay the next randomly chosen segment past the current timeline,
    /// with the fixed buffer before it, and advance the timeline to the
    /// new content's right edge.
    pub fn generate_next_segment(&mut self)
        requires
            old(self).wf(),
            old(self).timeline < TIMELINE_MINIMUM,
        ensures
            final(self).wf(),
            final(self).obstacles@.len() == old(self).obstacles@.len() + 2,
            forall|i: int|
                0 <= i < old(self).obstacles@.len() ==> final(self).obstacles@[i] == old(
                    self,
                ).obstacles@[i],
            old(self).timeline < final(self).timeline,
            final(self).timeline <= old(self).timeline + OBSTACLE_BUFFER + SEGMENT_REACH,
            final(self).timeline == spec_rightmost(
                final(self).obstacles@.skip(old(self).obstacles@.len() as int),
            ),
            forall|i: int|
                old(self).obstacles@.len() <= i < final(self).obstacles@.len()
                    ==> spec_boxes_within(
                    #[trigger] final(self).obstacles@[i],
                    old(self).timeline + OBSTACLE_BUFFER,
                    final(self).timeline as int,
                ),
            final(self).boy == old(self).boy,
            final(self).backgrounds == old(self).backgrounds,
            final(self).obstacle_sheet == old(self).obstacle_sheet,
            final(self).stone == old(self).stone,
            final(self).stone_width == old(self).stone_width,
            final(self).stone_height == old(self).stone_height,
            final(self).jump_sound == old(self).jump_sound,
            final(self).score == old(self).score,
    {
        let next_segment = random_below(2);
        self.generate_next_segment_with(next_segment);
    }

    /// The deterministic core of segment generation: lay the chosen
    /// catalog entry past the timeline.  Verified for every choice the
    /// random source can hand back.
    pub fn generate_next_segment_with(&mut self, next_segment: u32)
        requires
            old(self).wf(),
            old(self).timeline < TIMELINE_MINIMUM,
            next_segment < 2,
        ensures
            final(self).wf(),
            final(self).obstacles@.len() == old(self).obstacles@.len() + 2,
            forall|i: int|
                0 <= i < old(self).obstacles@.len() ==> final(self).obstacles@[i] == old(
                    self,
                ).obstacles@[i],
            old(self).timeline < final(self).timeline,
            final(self).timeline <= old(self).timeline + OBSTACLE_BUFFER + SEGMENT_REACH,
            final(self).timeline == spec_rightmost(
                final(self).obstacles@.skip(old(self).obstacles@.len() as int),
            ),
            forall|i: int|
                old(self).obstacles@.len() <= i < final(self).obstacles@.len()
                    ==> spec_boxes_within(
                    #[trigger] final(self).obstacles@[i],
                    old(self).timeline + OBSTACLE_BUFFER,
                    final(self).timeline as int,
                ),
            final(self).boy == old(self).boy,
            final(self).backgrounds == old(self).backgrounds,
            final(self).obstacle_sheet == old(self).obstacle_sheet,
            final(self).stone == old(self).stone,
            final(self).stone_width == old(self).stone_width,
            final(self).stone_height == old(self).stone_height,
            final(self).jump_sound == old(self).jump_sound,
            final(self).score == old(self).score,
    {
        let offset_x = self.timeline + OBSTACLE_BUFFER;
        let mut next_obstacles = if next_segment == 0 {
            stone_and_platform(
                self.stone,
                self.stone_width,
                self.stone_height,
                &self.obstacle_sheet,
                offset_x,
            )
        } else {
            platform_and_stone(
                self.stone,
                self.stone_width,
                self.stone_height,
                &self.obstacle_sheet,
                offset_x,
            )
        };
        let ghost new_obs = next_obstacles@;
        self.timeline = rightmost(&next_obstacles);
        self.obstacles.append(&mut next_obstacles);
        proof {
            let all = self.obstacles@;
            let old_obs = old(self).obstacles@;
            assert(all =~= old_obs + new_obs);
            assert(all.skip(old_obs.len() as int) =~= new_obs);
            assert forall|i: int|
                old_obs.len() <= i < all.len() implies spec_boxes_within(
                #[trigger] all[i],
                old(self).timeline + OBSTACLE_BUFFER,
                self.timeline as int,
            ) by {
                assert(all[i] == new_obs[i - old_obs.len()]);
                assert(spec_boxes_within(
                    new_obs[i - old_obs.len()],
                    offset_x as int,
                    spec_rightmost(new_obs),
                ));
            }
            assert forall|i: int| 0 <= i < all.len() implies {
                &&& spec_boxes(#[trigger] all[i]).len() > 0
                &&& spec_box_sizes_wf(all[i])
                &&& spec_compact(all[i])
                &&& spec_boxes_within(all[i], -32000, self.timeline as int)
            } by {
                if i < old_obs.len() {
                    assert(all[i] == old_obs[i]);
                    assert(spec_boxes_within(old_obs[i], -32000, old(self).timeline as int));
                } else {
                    assert(all[i] == new_obs[i - old_obs.len()]);
                    assert(spec_boxes_within(
                        new_obs[i - old_obs.len()],
                        offset_x as int,
                        spec_rightmost(new_obs),
                    ));
                }
            }
            assert forall|i: int, j: int|
                0 <= i < j < all.len() implies spec_h_ordered(
                #[trigger] all[i],
                #[trigger] all[j],
            ) by {
                if j < old_obs.len() {
                    assert(all[i] == old_obs[i] && all[j] == old_obs[j]);
                } else if i >= old_obs.len() {
                    assert(all[i] == new_obs[i - old_obs.len()]);
                    assert(all[j] == new_obs[j - old_obs.len()]);
                    assert(i - old_obs.len() == 0 && j - old_obs.len() == 1);
                } else {
                    assert(all[i] == old_obs[i]);
                    assert(all[j] == new_obs[j - old_obs.len()]);
                    assert(spec_boxes_within(old_obs[i], -32000, old(self).timeline as int));
                    assert(spec_boxes_within(
                        new_obs[j - old_obs.len()],
                        offset_x as int,
                        spec_rightmost(new_obs),
                    ));
                }
            }
        }
    }
}

/// The text shown in the score overlay.
pub open spec fn spec_score_text(score: u16) -> Seq<char> {
    "Score: "@ + spec_decimal(score as int)
}

impl Walk {
    /// One render pass: both backgrounds, the character, every obstacle,
    /// and the score text, in that order.
    pub fn draw(&self) -> (r: Vec<DrawCommand>)
        requires
            self.boy.wf(),
        ensures
            r@.len() == 4 + spec_draws_of(self.obstacles@).len(),
            r@[0] == (DrawCommand::EntireImage {
                image: self.backgrounds@[0].element,
                position: self.backgrounds@[0].bounding_box.position,
            }),
            r@[1] == (DrawCommand::EntireImage {
                image: self.backgrounds@[1].element,
                position: self.backgrounds@[1].bounding_box.position,
            }),
            r@[2] == spec_boy_draw_command(self.boy),
            r@.subrange(3, r@.len() - 1) =~= spec_draws_of(self.obstacles@),
            (r@.last() matches DrawCommand::Text { content } && content@ == spec_score_text(
                self.score,
            )),
    {
        let mut commands: Vec<DrawCommand> = Vec::new();
        commands.push(self.backgrounds[0].draw());
        commands.push(self.backgrounds[1].draw());
        commands.push(self.boy.draw());
        let ghost start = commands@;
        let mut i: usize = 0;
        proof {
            assert(spec_draws_of(self.obstacles@.take(0)) =~= Seq::<DrawCommand>::empty());
            assert(commands@ =~= start + spec_draws_of(self.obstacles@.take(0)));
        }
        while i < self.obstacles.len()
            invariant
                i <= self.obstacles@.len(),
                commands@ =~= start + spec_draws_of(self.obstacles@.take(i as int)),
            decreases self.obstacles@.len() - i,
        {
            let mut cmds = self.obstacles[i].draw();
            commands.append(&mut cmds);
            proof {
                lemma_draws_of_push(self.obstacles@.take(i as int), self.obstacles@[i as int]);
                assert(self.obstacles@.take(i as int).push(self.obstacles@[i as int])
                    =~= self.obstacles@.take(i as int + 1));
            }
            i = i + 1;
        }
        proof {
            assert(self.obstacles@.take(self.obstacles@.len() as int) =~= self.obstacles@);
        }
        let score_text = String::from_str("Score: ").concat(
            crate::text::decimal_string(self.score).as_str(),
        );
        proof {
            assert(score_text@ =~= spec_score_text(self.score));
        }
        commands.push(DrawCommand::Text { content: score_text });
        proof {
            assert(commands@.subrange(3, commands@.len() - 1) =~= spec_draws_of(self.obstacles@));
        }
        commands
    }
}

/// The background pair is healthy: two tiles of one width (at least the
/// viewport's), standing end to end, whose combined span covers the
/// whole viewport.
pub open spec fn spec_backgrounds_cover(first: Image, second: Image) -> bool {
    let w = first.bounding_box.width;
    let fx = first.bounding_box.position.x;
    let sx = second.bounding_box.position.x;
    let lo = if fx <= sx {
        fx as int
    } else {
        sx as int
    };
    &&& second.bounding_box.width == w
    &&& 600 <= w <= 8000
    &&& -16000 <= fx <= 16000
    &&& -16000 <= sx <= 16000
    &&& (sx == fx + w || fx == sx + w)
    &&& lo <= 0
    &&& lo + 2 * w >= 600
}

/// The background wrap invariant: a scroll step of at most one tick's
/// speed keeps the two tiles end to end and the viewport covered, so no
/// gap ever becomes visible during infinite scroll.
pub proof fn lemma_scroll_keeps_viewport_covered(first: Image, second: Image, speed: i16)
    requires
        spec_backgrounds_cover(first, second),
        -100 <= speed <= 0,
    ensures
        ({
            let scrolled = spec_scroll_backgrounds(first, second, speed);
            spec_backgrounds_cover(scrolled.0, scrolled.1)
        }),
{
}

/// In a well-formed world no two obstacles overlap on the horizontal
/// axis by more than a touch.
pub proof fn lemma_obstacles_never_overlap(w: Walk, i: int, j: int)
    requires
        w.wf(),
        0 <= i < w.obstacles@.len(),
        0 <= j < w.obstacles@.len(),
        i != j,
    ensures
        spec_h_disjoint(w.obstacles@[i], w.obstacles@[j]),
{
    if i < j {
        lemma_ordered_disjoint(w.obstacles@[i], w.obstacles@[j]);
    } else {
        lemma_ordered_disjoint(w.obstacles@[j], w.obstacles@[i]);
    }
}

} // verus!

use walk_the_dog::game::{
    Effect, GameOver, Walking, WalkTheDog, WalkTheDogState, WalkTheDogStateMachine,
};
use walk_the_dog::game_loop::{GameLoop, FRAME_DURATION_MICROS};
use walk_the_dog::geometry::{Point, Rect};
use walk_the_dog::key_state::KeyState;
use walk_the_dog::obstacle::{rightmost, Barrier, Image, Obstacle};
use walk_the_dog::red_hat_boy::{RedHatBoy, RedHatBoyStateMachine};
use walk_the_dog::render::DrawCommand;
use walk_the_dog::sheet::{Cell, Sheet, SheetRect, SpriteSheet};
use walk_the_dog::sound::LOOPING;
use walk_the_dog::text::decimal_string;
use walk_the_dog::ui::{draw_ui, hide_ui, Overlay};
use walk_the_dog::walk::{Walk, TIMELINE_MINIMUM};

fn cell(x: i16, y: i16, w: i16, h: i16) -> Cell {
    Cell {
        frame: SheetRect { x, y, w, h },
        sprite_source_size: SheetRect { x: 0, y: 0, w, h },
    }
}

fn boy_sheet() -> Sheet {
    let mut frames: Vec<(String, Cell)> = Vec::new();
    let prefixes = [("Idle", 10), ("Run", 8), ("Slide", 5), ("Jump", 12), ("Dead", 10)];
    for (prefix, count) in prefixes {
        for k in 1..=count {
            frames.push((format!("{} ({}).png", prefix, k), cell(0, 0, 100, 100)));
        }
    }
    Sheet { frames }
}

fn tiles_sheet() -> SpriteSheet {
    let frames = vec![
        ("13.png".to_string(), cell(0, 0, 128, 70)),
        ("14.png".to_string(), cell(128, 0, 128, 70)),
        ("15.png".to_string(), cell(256, 0, 128, 70)),
    ];
    SpriteSheet::new(Sheet { frames }, 2)
}

fn new_walk() -> Walk {
    let boy = RedHatBoy::new(boy_sheet(), 1);
    let backgrounds = [
        Image::new(3, 600, 600, Point { x: 0, y: 0 }),
        Image::new(3, 600, 600, Point { x: 600, y: 0 }),
    ];
    Walk::new(boy, backgrounds, tiles_sheet(), 4, 90, 54, 5)
}

fn obstacle_spans(walk: &Walk) -> Vec<Vec<(i32, i32)>> {
    walk.obstacles
        .iter()
        .map(|o| match o {
            Obstacle::Platform(p) => p
                .bounding_boxes
                .iter()
                .map(|b| (b.position.x as i32, b.position.x as i32 + b.width as i32))
                .collect(),
            Obstacle::Barrier(b) => vec![(
                b.image.bounding_box.position.x as i32,
                b.image.bounding_box.position.x as i32 + b.image.bounding_box.width as i32,
            )],
        })
        .collect()
}

fn assert_no_horizontal_overlap(walk: &Walk) {
    let spans = obstacle_spans(walk);
    for i in 0..spans.len() {
        for j in 0..spans.len() {
            if i == j {
                continue;
            }
            for &(il, ir) in &spans[i] {
                for &(jl, jr) in &spans[j] {
                    assert!(
                        ir <= jl || jr <= il,
                        "boxes ({il},{ir}) and ({jl},{jr}) overlap"
                    );
                }
            }
        }
    }
}

#[test]
fn segment_generation_keeps_obstacles_disjoint() {
    let mut walk = new_walk();
    assert_no_horizontal_overlap(&walk);
    for _ in 0..600 {
        if walk.timeline < TIMELINE_MINIMUM {
            let before = walk.timeline;
            walk.generate_next_segment();
            assert!(walk.timeline > before, "timeline must not decrease on generation");
        } else {
            walk.prune_obstacles();
            walk.move_and_collide(-4);
            walk.timeline -= 4;
        }
        assert_no_horizontal_overlap(&walk);
    }
}

#[test]
fn generated_segments_extend_the_obstacle_list() {
    let mut walk = new_walk();
    let before = walk.obstacles.len();
    assert!(walk.timeline < TIMELINE_MINIMUM);
    walk.generate_next_segment();
    assert_eq!(walk.obstacles.len(), before + 2);
}

#[test]
fn prune_drops_offscreen_obstacles() {
    let mut walk = new_walk();
    // Scroll far enough that the starting stone (right edge near 240)
    // passes x = 0; the platform further right stays.
    for _ in 0..70 {
        walk.prune_obstacles();
        walk.move_and_collide(-4);
        walk.timeline -= 4;
    }
    walk.prune_obstacles();
    assert!(walk.obstacles.len() < 2);
}

#[test]
fn walk_reset_restores_start(){
    let mut walk = new_walk();
    walk.generate_next_segment();
    let walk = Walk::reset(walk);
    assert_eq!(walk.score, 0);
    assert!(matches!(walk.boy.state_machine, RedHatBoyStateMachine::Idle(_)));
    assert_eq!(walk.obstacles.len(), 2);
    for spans in obstacle_spans(&walk) {
        for (l, r) in spans {
            assert!(l >= 0);
            assert!(r <= walk.timeline as i32);
        }
    }
}

#[test]
fn game_over_restart_returns_to_ready() {
    let walk = new_walk();
    let machine = WalkTheDogStateMachine::GameOver(WalkTheDogState {
        _state: GameOver,
        walk,
    });
    let keys = KeyState::new();
    let (machine, effects) = machine.update(&keys, true);
    assert!(matches!(effects.as_slice(), [Effect::HideUi]));
    match machine {
        WalkTheDogStateMachine::Ready(state) => {
            assert_eq!(state.walk.score, 0);
            assert!(matches!(state.walk.boy.state_machine, RedHatBoyStateMachine::Idle(_)));
            assert_eq!(state.walk.obstacles.len(), 2);
        }
        _ => panic!("a restart must return to Ready"),
    }
}

#[test]
fn game_over_waits_without_restart_signal() {
    let walk = new_walk();
    let machine = WalkTheDogStateMachine::GameOver(WalkTheDogState {
        _state: GameOver,
        walk,
    });
    let keys = KeyState::new();
    let (machine, effects) = machine.update(&keys, false);
    assert!(effects.is_empty());
    assert!(matches!(machine, WalkTheDogStateMachine::GameOver(_)));
}

#[test]
fn end_to_end_run_keeps_character_x() {
    let walk = new_walk();
    let (mut machine, _effects) = WalkTheDogStateMachine::new(walk);
    let mut keys = KeyState::new();
    keys.set_pressed("ArrowRight");
    let (next, _) = machine.update(&keys, false);
    machine = next;
    assert!(matches!(machine, WalkTheDogStateMachine::Walking(_)));
    let keys = KeyState::new();
    for _ in 0..100 {
        if let WalkTheDogStateMachine::Walking(state) = &machine {
            if matches!(state.walk.boy.state_machine, RedHatBoyStateMachine::Running(_)) {
                assert_eq!(state.walk.velocity(), -4);
            }
        }
        let (next, _) = machine.update(&keys, false);
        machine = next;
        let walk = match &machine {
            WalkTheDogStateMachine::Ready(s) => &s.walk,
            WalkTheDogStateMachine::Walking(s) => &s.walk,
            WalkTheDogStateMachine::GameOver(s) => &s.walk,
        };
        assert_eq!(
            match &walk.boy.state_machine {
                RedHatBoyStateMachine::Idle(s) => s.context().position.x,
                RedHatBoyStateMachine::Running(s) => s.context().position.x,
                RedHatBoyStateMachine::Sliding(s) => s.context().position.x,
                RedHatBoyStateMachine::Jumping(s) => s.context().position.x,
                RedHatBoyStateMachine::Falling(s) => s.context().position.x,
                RedHatBoyStateMachine::KnockedOut(s) => s.context().position.x,
            },
            -20,
            "horizontal motion is world-relative, not character-relative"
        );
    }
}

#[test]
fn barrier_contact_while_not_rising_knocks_out() {
    let mut boy = RedHatBoy::new(boy_sheet(), 1);
    boy.run_right();
    // The boy's collision box sits at (-2, 493) sized 72 x 86; place a
    // barrier overlapping it while vertical velocity is still 0.
    let barrier = Obstacle::Barrier(Barrier::new(Image::new(
        4,
        50,
        50,
        Point { x: 0, y: 500 },
    )));
    assert_eq!(boy.velocity_y(), 0);
    barrier.check_intersection(&mut boy);
    assert!(matches!(boy.state_machine, RedHatBoyStateMachine::Falling(_)));
}

#[test]
fn score_increments_each_walking_tick() {
    let walk = new_walk();
    let machine = WalkTheDogStateMachine::Walking(WalkTheDogState {
        _state: Walking,
        walk,
    });
    let keys = KeyState::new();
    let (machine, _) = machine.update(&keys, false);
    let walk = match &machine {
        WalkTheDogStateMachine::Walking(s) => &s.walk,
        WalkTheDogStateMachine::GameOver(s) => &s.walk,
        WalkTheDogStateMachine::Ready(s) => &s.walk,
    };
    assert_eq!(walk.score, 1);
}

#[test]
fn jump_from_running_emits_the_jump_sound() {
    let mut walk = new_walk();
    walk.boy.run_right();
    let machine = WalkTheDogStateMachine::Walking(WalkTheDogState {
        _state: Walking,
        walk,
    });
    let mut keys = KeyState::new();
    keys.set_pressed("Space");
    let (_machine, effects) = machine.update(&keys, false);
    assert!(matches!(
        effects.as_slice()[0],
        Effect::PlaySound { sound: 5, looping: LOOPING::NO }
    ));
}

#[test]
fn fixed_timestep_accumulator_drains_whole_steps() {
    let mut game_loop = GameLoop::new(1_000);
    let steps = game_loop.advance(1_000 + 3 * FRAME_DURATION_MICROS + 5);
    assert_eq!(steps, 3);
    assert_eq!(game_loop.accumulated_delta, 5);
    assert_eq!(game_loop.last_frame, 1_000 + 3 * FRAME_DURATION_MICROS + 5);
    let steps = game_loop.advance(game_loop.last_frame);
    assert_eq!(steps, 0);
    let steps = game_loop.advance(game_loop.last_frame + FRAME_DURATION_MICROS - 5);
    assert_eq!(steps, 0);
    assert_eq!(game_loop.accumulated_delta, FRAME_DURATION_MICROS);
    let steps = game_loop.advance(game_loop.last_frame + 10);
    assert_eq!(steps, 1);
    assert_eq!(game_loop.accumulated_delta, 10);
}

#[test]
fn decimal_string_renders_expected_digits() {
    assert_eq!(decimal_string(0), "0");
    assert_eq!(decimal_string(7), "7");
    assert_eq!(decimal_string(10), "10");
    assert_eq!(decimal_string(409), "409");
    assert_eq!(decimal_string(65535), "65535");
}

#[test]
fn draw_pass_ends_with_the_score_text() {
    let mut walk = new_walk();
    walk.score = 42;
    let commands = walk.draw();
    match commands.last() {
        Some(DrawCommand::Text { content }) => assert_eq!(content.as_str(), "Score: 42"),
        other => panic!("the render pass must end with the score text, got {:?}", other),
    }
    assert!(matches!(commands[0], DrawCommand::EntireImage { image: 3, .. }));
}

#[test]
fn game_draw_clears_the_canvas_first() {
    let game = WalkTheDog::new();
    let commands = game.draw();
    assert_eq!(commands.len(), 1);
    assert_eq!(
        commands[0],
        DrawCommand::Clear {
            rect: Rect::new_from_x_y(0, 0, 600, 600)
        }
    );
}

#[test]
fn sheet_cell_lookup_finds_only_known_names() {
    let sheet = boy_sheet();
    assert!(sheet.cell("Run (3).png").is_some());
    assert!(sheet.cell("Run (9).png").is_none());
    assert!(sheet.cell("").is_none());
}

#[test]
fn key_state_tracks_presses_and_releases() {
    let mut keys = KeyState::new();
    assert!(!keys.is_pressed("Space"));
    keys.set_pressed("Space");
    keys.set_pressed("ArrowDown");
    assert!(keys.is_pressed("Space"));
    assert!(keys.is_pressed("ArrowDown"));
    keys.set_released("Space");
    assert!(!keys.is_pressed("Space"));
    assert!(keys.is_pressed("ArrowDown"));
}

#[test]
fn overlay_stacks_and_pops_fragments() {
    let mut overlay = Overlay::new();
    draw_ui(&mut overlay, "<p id='score'>0</>");
    draw_ui(&mut overlay, "<button id='new_game'>New Game</button>");
    assert_eq!(overlay.fragments.len(), 2);
    assert_eq!(overlay.fragments[0], "<button id='new_game'>New Game</button>");
    hide_ui(&mut overlay);
    assert_eq!(overlay.fragments.len(), 1);
    assert_eq!(overlay.fragments[0], "<p id='score'>0</>");
    hide_ui(&mut overlay);
    hide_ui(&mut overlay);
    assert!(overlay.fragments.is_empty());
}

#[test]
fn background_scroll_never_leaves_a_gap() {
    let mut walk = new_walk();
    for _ in 0..500 {
        walk.scroll_backgrounds(-4);
        let a = walk.backgrounds[0].bounding_box;
        let b = walk.backgrounds[1].bounding_box;
        let (ax, bx) = (a.position.x as i32, b.position.x as i32);
        let lo = ax.min(bx);
        assert!(lo <= 0, "the trailing tile must start at or before the viewport");
        assert!(lo + 1200 >= 600, "the pair must span the whole viewport");
        assert!(
            bx == ax + 600 || ax == bx + 600,
            "the tiles must stand end to end"
        );
    }
}

#[test]
fn rightmost_of_empty_list_is_zero() {
    let empty: Vec<Obstacle> = Vec::new();
    assert_eq!(rightmost(&empty), 0);
    let mut walk = new_walk();
    walk.obstacles.clear();
    walk.prune_obstacles();
    assert!(walk.obstacles.is_empty());
}

#[test]
fn score_saturates_at_its_ceiling() {
    let mut walk = new_walk();
    walk.score = u16::MAX;
    let machine = WalkTheDogStateMachine::Walking(WalkTheDogState {
        _state: Walking,
        walk,
    });
    let keys = KeyState::new();
    let (machine, _) = machine.update(&keys, false);
    let walk = match &machine {
        WalkTheDogStateMachine::Walking(s) => &s.walk,
        WalkTheDogStateMachine::GameOver(s) => &s.walk,
        WalkTheDogStateMachine::Ready(s) => &s.walk,
    };
    assert_eq!(walk.score, u16::MAX);
}

#[test]
fn generated_segment_starts_past_the_buffer() {
    let mut walk = new_walk();
    let before_timeline = walk.timeline as i32;
    let before_len = walk.obstacles.len();
    walk.generate_next_segment();
    let spans = obstacle_spans(&walk);
    let mut rightmost_edge = i32::MIN;
    for obstacle in &spans[before_len..] {
        for &(l, r) in obstacle {
            assert!(
                l >= before_timeline + 20,
                "new content must start past the old timeline plus the buffer"
            );
            rightmost_edge = rightmost_edge.max(r);
        }
    }
    assert_eq!(
        walk.timeline as i32, rightmost_edge,
        "the timeline must be the new content's rightmost edge"
    );
}

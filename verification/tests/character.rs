use walk_the_dog::red_hat_boy::{
    Event, RedHatBoy, RedHatBoyState, RedHatBoyStateMachine, FALLING_FRAMES, FLOOR, Idle,
    JUMP_SPEED, PLAYER_HEIGHT, RUNNING_FRAMES, RUNNING_SPEED, SLIDING_FRAMES,
};
use walk_the_dog::sheet::{Cell, Sheet, SheetRect};

fn cell(x: i16, y: i16, w: i16, h: i16) -> Cell {
    Cell {
        frame: SheetRect { x, y, w, h },
        sprite_source_size: SheetRect { x: 0, y: 0, w, h },
    }
}

fn boy_sheet() -> Sheet {
    let mut frames: Vec<(String, Cell)> = Vec::new();
    let prefixes = [("Idle", 10), ("Run", 8), ("Slide", 5), ("Jump", 12), ("Dead", 10)];
    for (prefix, count) in prefixes {
        for k in 1..=count {
            frames.push((format!("{} ({}).png", prefix, k), cell(0, 0, 100, 100)));
        }
    }
    Sheet { frames }
}

fn fresh_machine() -> RedHatBoyStateMachine {
    RedHatBoyStateMachine::Idle(RedHatBoyState::<Idle>::new())
}

fn running_machine() -> RedHatBoyStateMachine {
    fresh_machine().transition(Event::Run)
}

#[test]
fn run_from_idle_resets_frame_and_sets_speed() {
    let machine = fresh_machine().transition(Event::Run);
    match &machine {
        RedHatBoyStateMachine::Running(state) => {
            assert_eq!(state.context().frame, 0);
            assert_eq!(state.context().velocity.x, RUNNING_SPEED);
            assert_eq!(state.context().position.x, -20);
            assert_eq!(state.context().position.y, FLOOR);
        }
        _ => panic!("Run from Idle must yield Running"),
    }
}

#[test]
fn running_frames_wrap_at_ceiling() {
    let mut machine = running_machine();
    let cycle = RUNNING_FRAMES as u32 + 1;
    for tick in 1..=2 * cycle {
        machine = machine.transition(Event::Update);
        let frame = machine.context().frame;
        assert!(frame <= RUNNING_FRAMES);
        assert_eq!(frame as u32, tick % cycle);
        assert!(matches!(machine, RedHatBoyStateMachine::Running(_)));
    }
}

#[test]
fn sliding_ends_after_exact_frames() {
    let mut machine = running_machine().transition(Event::Slide);
    assert!(matches!(machine, RedHatBoyStateMachine::Sliding(_)));
    assert_eq!(machine.context().frame, 0);
    for _ in 0..SLIDING_FRAMES as u32 - 1 {
        machine = machine.transition(Event::Update);
        assert!(matches!(machine, RedHatBoyStateMachine::Sliding(_)));
    }
    machine = machine.transition(Event::Update);
    match &machine {
        RedHatBoyStateMachine::Running(state) => assert_eq!(state.context().frame, 0),
        _ => panic!("sliding must stand back up after its frame ceiling"),
    }
}

#[test]
fn jump_applies_gravity_until_landing() {
    let mut machine = running_machine().transition(Event::Jump);
    match &machine {
        RedHatBoyStateMachine::Jumping(state) => {
            assert_eq!(state.context().velocity.y, JUMP_SPEED);
            assert_eq!(state.context().frame, 0);
        }
        _ => panic!("Jump from Running must yield Jumping"),
    }
    let mut vy = machine.context().velocity.y;
    let mut ticks: u32 = 0;
    while matches!(machine, RedHatBoyStateMachine::Jumping(_)) {
        machine = machine.transition(Event::Update);
        let next_vy = machine.context().velocity.y;
        assert!(next_vy == vy + 1 || next_vy == vy);
        vy = next_vy;
        ticks += 1;
        assert!(ticks < 100, "a jump must land");
    }
    match &machine {
        RedHatBoyStateMachine::Running(state) => {
            assert_eq!(state.context().position.y, FLOOR);
        }
        _ => panic!("a jump must land back into Running"),
    }
}

#[test]
fn knock_out_leads_to_knocked_out() {
    for start in [
        running_machine(),
        running_machine().transition(Event::Slide),
        running_machine().transition(Event::Jump),
    ] {
        let mut machine = start.transition(Event::KnockOut);
        match &machine {
            RedHatBoyStateMachine::Falling(state) => {
                assert_eq!(state.context().velocity.x, 0);
                assert_eq!(state.context().velocity.y, 0);
                assert_eq!(state.context().frame, 0);
            }
            _ => panic!("KnockOut must yield Falling"),
        }
        for _ in 0..FALLING_FRAMES as u32 {
            assert!(!machine.knocked_out());
            machine = machine.transition(Event::Update);
        }
        assert!(machine.knocked_out());
    }
}

#[test]
fn knocked_out_ignores_all_events() {
    let mut machine = running_machine().transition(Event::KnockOut);
    for _ in 0..FALLING_FRAMES as u32 {
        machine = machine.transition(Event::Update);
    }
    assert!(machine.knocked_out());
    let before = machine.context().clone();
    for event in [Event::Run, Event::Slide, Event::Jump, Event::KnockOut, Event::Update, Event::Land(300)] {
        machine = machine.transition(event);
        assert!(machine.knocked_out());
        assert_eq!(*machine.context(), before);
    }
}

#[test]
fn land_event_sets_position_on_surface() {
    let machine = running_machine().transition(Event::Land(420));
    match &machine {
        RedHatBoyStateMachine::Running(state) => {
            assert_eq!(state.context().position.y, 420 - PLAYER_HEIGHT);
        }
        _ => panic!("Land while Running must stay Running"),
    }
}

#[test]
fn updates_never_move_character_horizontally() {
    let mut machine = running_machine();
    for _ in 0..50 {
        machine = machine.transition(Event::Update);
        assert_eq!(machine.context().position.x, -20);
    }
}

#[test]
fn frame_name_formats_current_cell() {
    let boy = RedHatBoy::new(boy_sheet(), 7);
    assert_eq!(boy.frame_name(), "Idle (1).png");
    let mut boy = boy;
    boy.run_right();
    for _ in 0..5 {
        boy.update();
    }
    assert_eq!(boy.frame_name(), "Run (2).png");
}

#[test]
fn bounding_box_is_inset_from_sprite() {
    let boy = RedHatBoy::new(boy_sheet(), 7);
    let dest = boy.destination_box();
    let bb = boy.bounding_box();
    assert_eq!(dest.position.x, -20);
    assert_eq!(dest.position.y, FLOOR);
    assert_eq!(dest.width, 100);
    assert_eq!(dest.height, 100);
    assert_eq!(bb.position.x, dest.position.x + 18);
    assert_eq!(bb.position.y, dest.position.y + 14);
    assert_eq!(bb.width, dest.width - 28);
    assert_eq!(bb.height, dest.height - 14);
}

#[test]
fn update_clamps_character_at_floor() {
    let mut machine = fresh_machine();
    for _ in 0..40 {
        machine = machine.transition(Event::Update);
        assert!(machine.context().position.y <= FLOOR);
    }
    assert_eq!(machine.context().position.y, FLOOR);
}

#[test]
fn gravity_stops_at_terminal_velocity() {
    let mut machine = running_machine().transition(Event::Land(0));
    for _ in 0..60 {
        machine = machine.transition(Event::Update);
        assert!(machine.context().velocity.y <= 20);
    }
    assert_eq!(machine.context().velocity.y, 20);
}

use cbb_2d::collidable::Collidable;
use cbb_2d::event::Event;
use cbb_2d::objects::{Color, Player, PlayerMode};
use cbb_2d::sys_event::{EventQueue, SysEvent};
use cbb_2d::sys_input::{GamepadState, KeyboardState, SysInput};
use cbb_2d::sys_osd::Osd;
use cbb_2d::world::World;

const RED: Color = Color { r: 230, g: 41, b: 55, a: 255 };
const GREEN: Color = Color { r: 0, g: 228, b: 48, a: 255 };
const WHITE: Color = Color { r: 255, g: 255, b: 255, a: 255 };

fn player_of(w: &World, k: usize) -> Player {
    match w.objects[k] {
        Collidable::Player(p) => p,
        _ => panic!("player expected"),
    }
}

fn two_players() -> (World, SysEvent) {
    let mut w = World::new();
    let mut bus = SysEvent::new();
    let a = w.add_player_object(Player::new(0, 0, (0, 0), (30_000, 30_000), 500, 200, RED));
    let b = w.add_player_object(Player::new(1, 0, (0, 0), (20_000, 20_000), 2000, 50, RED));
    bus.subscribe(a.unwrap());
    bus.subscribe(b.unwrap());
    (w, bus)
}

#[test]
fn queue_is_first_in_first_out() {
    let mut q = EventQueue::new(2);
    assert_eq!(q.pop(), None);
    q.push(Event::Quit);
    q.push(Event::MovePlayer { id: 0, fx: 1, fy: 2 });
    q.push(Event::SetPlayerMode { id: 1, mode: PlayerMode::NoClip });
    assert_eq!(q.pop(), Some(Event::Quit));
    assert_eq!(q.pop(), Some(Event::MovePlayer { id: 0, fx: 1, fy: 2 }));
    assert_eq!(q.pop(), Some(Event::SetPlayerMode { id: 1, mode: PlayerMode::NoClip }));
    assert_eq!(q.pop(), None);
}

#[test]
fn events_reach_only_the_addressed_player() {
    let (mut w, mut bus) = two_players();
    bus.publish(Event::MovePlayer { id: 1, fx: 30_000, fy: -40_000 });
    bus.process_all(&mut w);
    assert_eq!((player_of(&w, 0).dynamic_data.fx, player_of(&w, 0).dynamic_data.fy), (0, 0));
    assert_eq!(
        (player_of(&w, 1).dynamic_data.fx, player_of(&w, 1).dynamic_data.fy),
        (30_000, -40_000)
    );
}

#[test]
fn later_events_win_and_the_queue_drains() {
    let (mut w, mut bus) = two_players();
    bus.publish(Event::MovePlayer { id: 0, fx: 10_000, fy: 0 });
    bus.publish(Event::MovePlayer { id: 0, fx: 0, fy: 300_000 });
    bus.process_all(&mut w);
    let p = player_of(&w, 0);
    assert_eq!((p.dynamic_data.fx, p.dynamic_data.fy), (0, 100_000));
    // nothing left to deliver
    bus.process_all(&mut w);
    assert_eq!(player_of(&w, 0), p);
}

#[test]
fn mode_switch_changes_dynamics_and_colour() {
    let (mut w, mut bus) = two_players();
    bus.publish(Event::SetPlayerMode { id: 0, mode: PlayerMode::NoClip });
    bus.process_all(&mut w);
    let p = player_of(&w, 0);
    assert_eq!(p.player_mode, PlayerMode::NoClip);
    assert_eq!((p.dynamic_data.mass, p.dynamic_data.friction), (1400, 700));
    assert_eq!(p.color_current, WHITE);

    bus.publish(Event::SetPlayerMode { id: 0, mode: PlayerMode::Normal });
    bus.process_all(&mut w);
    let p = player_of(&w, 0);
    assert_eq!(p.player_mode, PlayerMode::Normal);
    assert_eq!((p.dynamic_data.mass, p.dynamic_data.friction), (500, 200));
    assert_eq!(p.color_current, RED);
}

#[test]
fn colour_change_and_reset() {
    let (mut w, mut bus) = two_players();
    bus.publish(Event::ChangeColor { id: 1, color: Some(GREEN) });
    bus.process_all(&mut w);
    assert_eq!(player_of(&w, 1).color_current, GREEN);
    assert_eq!(player_of(&w, 0).color_current, RED);
    bus.publish(Event::ChangeColor { id: 1, color: None });
    bus.process_all(&mut w);
    assert_eq!(player_of(&w, 1).color_current, RED);
}

#[test]
fn quit_and_unknown_players_are_ignored() {
    let (mut w, mut bus) = two_players();
    let before: Vec<Collidable> = w.objects.clone();
    bus.publish(Event::Quit);
    bus.publish(Event::MovePlayer { id: 7, fx: 1_000, fy: 0 });
    bus.subscribe(99);
    bus.process_all(&mut w);
    assert_eq!(w.objects, before);
}

#[test]
fn idle_input_asks_for_no_force() {
    let input = SysInput::new();
    let events = input.read_input(&Vec::new(), &KeyboardState::default());
    assert_eq!(
        events,
        vec![
            Event::MovePlayer { id: 0, fx: 0, fy: 0 },
            Event::MovePlayer { id: 1, fx: 0, fy: 0 },
        ]
    );
}

#[test]
fn keyboard_steers_both_players() {
    let input = SysInput::new();
    let keys = KeyboardState {
        right: true,
        up: true,
        a: true,
        d: true,
        s: true,
        right_control_down: true,
        left_shift_released: true,
        ..KeyboardState::default()
    };
    let events = input.read_input(&Vec::new(), &keys);
    assert_eq!(
        events,
        vec![
            Event::SetPlayerMode { id: 0, mode: PlayerMode::NoClip },
            Event::SetPlayerMode { id: 1, mode: PlayerMode::Normal },
            Event::MovePlayer { id: 0, fx: 100_000, fy: -100_000 },
            Event::MovePlayer { id: 1, fx: 0, fy: 100_000 },
        ]
    );
}

#[test]
fn gamepads_steer_with_a_dead_zone() {
    let input = SysInput::new();
    let pads = vec![
        GamepadState { action_down: true, left_stick_x: 500, left_stick_y: -250 },
        GamepadState { action_down: false, left_stick_x: 99, left_stick_y: 1000 },
        GamepadState { action_down: true, left_stick_x: 1000, left_stick_y: 1000 },
    ];
    let keys = KeyboardState { left: true, ..KeyboardState::default() };
    let events = input.read_input(&pads, &keys);
    assert_eq!(
        events,
        vec![
            Event::SetPlayerMode { id: 0, mode: PlayerMode::NoClip },
            Event::SetPlayerMode { id: 1, mode: PlayerMode::Normal },
            Event::SetPlayerMode { id: 2, mode: PlayerMode::NoClip },
            Event::MovePlayer { id: 0, fx: 50_000 - 100_000, fy: 25_000 },
            Event::MovePlayer { id: 1, fx: 0, fy: -100_000 },
        ]
    );
}

#[test]
fn osd_holds_its_text() {
    let mut osd = Osd::new();
    assert_eq!(osd.text, "OSD Placeholder");
    osd.set_text("TIME: 30, RED:0 BLUE:0");
    assert_eq!(osd.text, "TIME: 30, RED:0 BLUE:0");
}

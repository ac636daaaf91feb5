use cbb_2d::collidable::Collidable;
use cbb_2d::event::Event;
use cbb_2d::objects::{Collectable, Color, PlayerMode};
use cbb_2d::sys_input::{KeyboardState, SysInput};
use cbb_2d::universe::{Universe, SPAWN_MARGIN, TIMER};

const RED: Color = Color { r: 230, g: 41, b: 55, a: 255 };
const BLUE: Color = Color { r: 0, g: 121, b: 241, a: 255 };
const WIDTH: i64 = 800_000;
const HEIGHT: i64 = 600_000;

fn count_collectibles(u: &Universe) -> usize {
    u.world.objects.iter().filter(|o| matches!(o, Collidable::Collectable(_))).count()
}

#[test]
fn round_ends_after_thirty_seconds_without_input() {
    let mut u = Universe::new(WIDTH, HEIGHT);
    u.add_player(0, (100_000, 100_000), (30_000, 30_000), 500, 200, RED);
    u.add_player(1, (200_000, 200_000), (20_000, 20_000), 2000, 50, BLUE);
    u.start(0);
    assert_eq!(u.timer, TIMER);
    let input = SysInput::new();
    let mut now: i64 = 0;
    let mut over_at = None;
    while now < 31_000 {
        now += 16;
        let events = input.read_input(&Vec::new(), &KeyboardState::default());
        if u.frame(events, 16, now) {
            over_at = Some(now);
            break;
        }
        assert!(u.timer > 0);
    }
    let t = over_at.expect("the round should be over");
    assert!(t > 30_000 && t < 31_000);
    assert!(u.game_over);
    assert_eq!(u.timer, 0);
    assert_eq!((u.score_0, u.score_1), (0, 0));
    assert_eq!(count_collectibles(&u), 0);
}

#[test]
fn finished_round_does_not_change() {
    let mut u = Universe::new(WIDTH, HEIGHT);
    u.add_player(0, (100_000, 100_000), (30_000, 30_000), 500, 200, RED);
    u.start(0);
    let mut now: i64 = 0;
    for _ in 0..TIMER {
        now += 1001;
        u.frame(Vec::new(), 16, now);
    }
    assert!(u.game_over);
    let x = u.world.objects[0].get_x();
    assert!(u.frame(vec![Event::MovePlayer { id: 0, fx: 100_000, fy: 0 }], 1000, now + 5000));
    assert_eq!(u.world.objects[0].get_x(), x);
    assert_eq!(u.timer, 0);
}

#[test]
fn timer_ticks_only_after_more_than_a_second() {
    let mut u = Universe::new(WIDTH, HEIGHT);
    u.start(5_000);
    u.frame(Vec::new(), 16, 6_000);
    assert_eq!(u.timer, TIMER);
    u.frame(Vec::new(), 16, 6_001);
    assert_eq!(u.timer, TIMER - 1);
    assert_eq!(u.last_time, 6_001);
}

#[test]
fn three_points_spawn_three_collectibles() {
    let mut u = Universe::new(WIDTH, HEIGHT);
    // the player and its three collectibles lie outside the spawn area, so
    // that no new collectible can touch the player
    u.add_player(0, (-500_000, -500_000), (30_000, 30_000), 500, 200, RED);
    for k in 0..3 {
        let id = u
            .world
            .add_collectable_object(Collectable::new(-495_000 + 5_000 * k, -495_000))
            .unwrap();
        u.sys_collision.add_collidable_object(id);
    }
    u.start(0);
    assert_eq!(count_collectibles(&u), 3);
    u.frame(Vec::new(), 16, 16);
    assert_eq!((u.score_0, u.score_1), (3, 0));
    assert_eq!(count_collectibles(&u), 6);
    let fresh: Vec<&Collidable> = u.world.objects[4..].iter().collect();
    assert_eq!(fresh.len(), 3);
    for (k, c) in fresh.iter().enumerate() {
        assert!(matches!(c, Collidable::Collectable(_)));
        assert_eq!(c.get_id(), 4 + k as u32);
        assert!(c.get_x() >= SPAWN_MARGIN && c.get_x() < WIDTH - SPAWN_MARGIN);
        assert!(c.get_y() >= SPAWN_MARGIN && c.get_y() < HEIGHT - SPAWN_MARGIN);
        assert!(u.sys_collision.objects.contains(&c.get_id()));
    }
    // the collected ones are gone one frame later, and nothing more spawns
    u.frame(Vec::new(), 16, 32);
    assert_eq!((u.score_0, u.score_1), (3, 0));
    assert_eq!(count_collectibles(&u), 3);
    assert_eq!(u.sys_collision.objects, vec![0, 4, 5, 6]);
}

#[test]
fn random_collectibles_are_spread_over_the_arena() {
    let mut u = Universe::new(WIDTH, HEIGHT);
    for _ in 0..20 {
        u.add_random_collectible();
    }
    let xs: Vec<i64> = u.world.objects.iter().map(|o| o.get_x()).collect();
    assert_eq!(xs.len(), 20);
    assert!(xs.iter().all(|&x| x >= SPAWN_MARGIN && x < WIDTH - SPAWN_MARGIN));
    assert!(xs.iter().any(|&x| x != xs[0]));
    for o in &u.world.objects {
        let w = o.get_width();
        assert!(w >= 10_000 && w < 11_000);
    }
}

#[test]
fn random_walls_stay_in_their_ranges() {
    let mut u = Universe::new(WIDTH, HEIGHT);
    for _ in 0..20 {
        u.add_random_wall();
    }
    assert_eq!(u.sys_collision.objects.len(), 20);
    for o in &u.world.objects {
        assert!(matches!(o, Collidable::Wall(_)));
        assert!(o.get_x() >= 0 && o.get_x() < WIDTH);
        assert!(o.get_y() >= 0 && o.get_y() < HEIGHT);
        assert!(o.get_width() >= 30_000 && o.get_width() < 100_000);
        assert!(o.get_height() >= 30_000 && o.get_height() < 100_000);
    }
    let xs: Vec<i64> = u.world.objects.iter().map(|o| o.get_x()).collect();
    assert!(xs.iter().any(|&x| x != xs[0]));
}

#[test]
fn noclip_player_keeps_its_place_inside_a_wall_for_a_frame() {
    let mut u = Universe::new(WIDTH, HEIGHT);
    u.add_player(0, (100_000, 100_000), (30_000, 30_000), 500, 200, RED);
    u.add_wall((110_000, 110_000), (50_000, 50_000));
    u.start(0);
    u.frame(vec![Event::SetPlayerMode { id: 0, mode: PlayerMode::NoClip }], 16, 16);
    let p = match u.world.objects[0] {
        Collidable::Player(p) => p,
        _ => panic!("player expected"),
    };
    assert_eq!(p.obj_attr.get_position(), (100_000, 100_000));
    assert_eq!((p.dynamic_data.vel_x, p.dynamic_data.vel_y), (0, 0));

    let mut v = Universe::new(WIDTH, HEIGHT);
    v.add_player(0, (100_000, 100_000), (30_000, 30_000), 500, 200, RED);
    v.add_wall((110_000, 110_000), (50_000, 50_000));
    v.start(0);
    v.frame(Vec::new(), 16, 16);
    assert_eq!((v.world.objects[0].get_x(), v.world.objects[0].get_y()), (100_000, 80_000));
}

#[test]
fn players_listen_and_collide_once_added() {
    let mut u = Universe::new(WIDTH, HEIGHT);
    u.add_player(0, (100_000, 100_000), (30_000, 30_000), 500, 200, RED);
    u.add_player(1, (300_000, 300_000), (20_000, 20_000), 2000, 50, BLUE);
    u.add_wall((0, 0), (10_000, 10_000));
    assert_eq!(u.sys_event.subscribers, vec![0, 1]);
    assert_eq!(u.sys_collision.objects, vec![0, 1, 2]);
    u.start(0);
    u.frame(vec![Event::MovePlayer { id: 1, fx: 0, fy: 100_000 }], 1000, 100);
    // acceleration 100 / 2 = 50, 5% friction: 47.5 per second, for a second
    assert_eq!((u.world.objects[1].get_x(), u.world.objects[1].get_y()), (300_000, 347_500));
    assert_eq!((u.world.objects[0].get_x(), u.world.objects[0].get_y()), (100_000, 100_000));
}

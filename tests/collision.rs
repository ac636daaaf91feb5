use cbb_2d::collidable::Collidable;
use cbb_2d::collidable_type::CollidableType;
use cbb_2d::game_object::GameObjectAttributes;
use cbb_2d::objects::{Collectable, Color, Player, PlayerMode, Wall};

const RED: Color = Color { r: 230, g: 41, b: 55, a: 255 };

fn player_at(x: i64, y: i64) -> Player {
    Player::new(0, 0, (x, y), (30_000, 30_000), 500, 200, RED)
}

fn wall(x: i64, y: i64, w: i64, h: i64) -> Collidable {
    Collidable::Wall(Wall::new(1, (x, y), (w, h)))
}

#[test]
fn overlap_test_is_symmetric() {
    let boxes = [
        wall(0, 0, 10_000, 10_000),
        wall(5_000, 5_000, 10_000, 10_000),
        wall(10_000, 0, 10_000, 10_000),
        wall(-20_000, -20_000, 100_000, 100_000),
        wall(50_000, 50_000, 1_000, 1_000),
        Collidable::Player(player_at(2_000, 3_000)),
    ];
    for a in &boxes {
        for b in &boxes {
            assert_eq!(a.is_collides(b), b.is_collides(a));
        }
    }
    assert!(boxes[0].is_collides(&boxes[1]));
    assert!(boxes[3].is_collides(&boxes[4]));
    assert!(!boxes[0].is_collides(&boxes[4]));
}

#[test]
fn touching_boxes_do_not_overlap() {
    let a = wall(0, 0, 10_000, 10_000);
    let right = wall(10_000, 0, 10_000, 10_000);
    let below = wall(0, 10_000, 10_000, 10_000);
    assert!(!a.is_collides(&right));
    assert!(!a.is_collides(&below));
}

#[test]
fn impulse_is_skipped_when_moving_away() {
    let mut p = player_at(100_000, 0);
    p.set_velocity((50_000, 7_000));
    let other = GameObjectAttributes::new(1, (80_000, 0), (30_000, 30_000));
    let before = p;
    p.change_dynamics(&other);
    assert_eq!(p, before);
}

#[test]
fn impulse_reverses_an_approach_along_the_normal() {
    let mut p = player_at(100_000, 0);
    p.set_velocity((-10_000, 0));
    let other = GameObjectAttributes::new(1, (80_000, 0), (30_000, 30_000));
    p.change_dynamics(&other);
    // -10 + 1.5 * 10 = 5
    assert_eq!((p.dynamic_data.vel_x, p.dynamic_data.vel_y), (5_000, 0));
}

#[test]
fn overlap_is_corrected_along_the_shallower_axis() {
    let mut p = player_at(100_000, 100_000);
    let other = GameObjectAttributes::new(1, (125_000, 90_000), (50_000, 100_000));
    p.compensate_overlap(&other);
    // x overlap 5, y overlap 40: pushed left by 5
    assert_eq!(p.obj_attr.get_position(), (95_000, 100_000));

    let mut q = player_at(100_000, 100_000);
    let above = GameObjectAttributes::new(1, (90_000, 80_000), (100_000, 30_000));
    q.compensate_overlap(&above);
    // y overlap 10 < x overlap 40, and the player is below: pushed down by 10
    assert_eq!(q.obj_attr.get_position(), (100_000, 110_000));
}

#[test]
fn normal_player_is_pushed_out_of_a_wall() {
    let mut me = Collidable::Player(player_at(100_000, 100_000));
    let w = wall(110_000, 110_000, 50_000, 50_000);
    me.try_collide(&w);
    assert_eq!((me.get_x(), me.get_y()), (100_000, 80_000));
}

#[test]
fn noclip_player_passes_through_a_wall() {
    let mut p = player_at(100_000, 100_000);
    p.set_mode(PlayerMode::NoClip);
    p.set_velocity((-20_000, 30_000));
    let mut me = Collidable::Player(p);
    let before = me;
    let w = wall(110_000, 110_000, 50_000, 50_000);
    assert!(me.is_collides(&w));
    me.try_collide(&w);
    assert_eq!(me, before);
}

#[test]
fn player_scores_and_collectible_flags_itself() {
    let mut me = Collidable::Player(player_at(0, 0));
    let mut c = Collidable::Collectable(Collectable::new(10_000, 10_000));
    let me_before = me;
    me.try_collide(&c);
    c.try_collide(&me_before);
    match me {
        Collidable::Player(p) => assert_eq!(p.score, 1),
        _ => panic!("player expected"),
    }
    assert!(c.borrow_base_object().is_deletion_requested());
}

#[test]
fn walls_ignore_collisions() {
    let mut w = wall(0, 0, 50_000, 50_000);
    let before = w;
    w.try_collide(&Collidable::Player(player_at(10_000, 10_000)));
    assert_eq!(w, before);
}

#[test]
fn collectible_ignores_walls() {
    let mut c = Collidable::Collectable(Collectable::new(0, 0));
    c.try_collide(&wall(0, 0, 50_000, 50_000));
    assert!(!c.borrow_base_object().is_deletion_requested());
}

#[test]
fn kind_codes() {
    assert_eq!(CollidableType::Unknown.to_int(), 0);
    assert_eq!(CollidableType::SolidObstacle.to_int(), 1);
    assert_eq!(CollidableType::Player.to_int(), 2);
    assert_eq!(CollidableType::Collectable.to_int(), 3);
    assert_eq!(CollidableType::from_int(1), CollidableType::SolidObstacle);
    assert_eq!(CollidableType::from_int(2), CollidableType::Player);
    assert_eq!(CollidableType::from_int(3), CollidableType::Collectable);
    assert_eq!(CollidableType::from_int(0), CollidableType::Unknown);
    assert_eq!(CollidableType::from_int(4), CollidableType::Unknown);
    assert_eq!(CollidableType::from_int(u32::MAX), CollidableType::Unknown);
    assert_eq!(wall(0, 0, 1, 1).get_collidable_type(), 1);
    assert_eq!(Collidable::Player(player_at(0, 0)).get_collidable_type(), 2);
    assert_eq!(Collidable::Collectable(Collectable::new(0, 0)).get_collidable_type(), 3);
}

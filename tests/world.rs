use cbb_2d::collidable::Collidable;
use cbb_2d::objects::{Collectable, Color, Player, Wall};
use cbb_2d::sys_collision::SysCollision;
use cbb_2d::world::World;

const BLUE: Color = Color { r: 0, g: 121, b: 241, a: 255 };

fn player(player_id: u32, x: i64, y: i64) -> Player {
    Player::new(player_id, 0, (x, y), (30_000, 30_000), 500, 200, BLUE)
}

#[test]
fn identifiers_are_sequential_from_zero() {
    let mut w = World::new();
    assert_eq!(w.add_object(Collidable::Wall(Wall::new(7, (0, 0), (1, 1)))), Some(0));
    assert_eq!(w.add_player_object(player(0, 0, 0)), Some(1));
    assert_eq!(w.add_collectable_object(Collectable::new(0, 0)), Some(2));
    let ids: Vec<u32> = w.objects.iter().map(|o| o.get_id()).collect();
    assert_eq!(ids, vec![0, 1, 2]);
    assert_eq!(w.next_object_id, 3);
}

#[test]
fn identifiers_are_not_reused_after_cleanup() {
    let mut w = World::new();
    w.add_collectable_object(Collectable::new(0, 0));
    match &mut w.objects[0] {
        Collidable::Collectable(c) => c.obj_attr.request_deletion(),
        _ => panic!("collectible expected"),
    }
    w.cleanup_objects();
    assert!(w.objects.is_empty());
    assert_eq!(w.add_collectable_object(Collectable::new(0, 0)), Some(1));
}

#[test]
fn nothing_is_added_once_identifiers_run_out() {
    let mut w = World::new();
    w.next_object_id = u32::MAX;
    assert_eq!(w.add_collectable_object(Collectable::new(0, 0)), None);
    assert!(w.objects.is_empty());
    assert_eq!(w.next_object_id, u32::MAX);
}

#[test]
fn score_of_missing_player_is_zero() {
    let mut w = World::new();
    assert_eq!(w.get_player_score(0), 0);
    w.add_player_object(player(1, 0, 0));
    assert_eq!(w.get_player_score(0), 0);
    assert_eq!(w.get_player_score(5), 0);
}

#[test]
fn score_is_looked_up_by_player_id() {
    let mut w = World::new();
    w.add_object(Collidable::Wall(Wall::new(0, (0, 0), (1, 1))));
    let mut p = player(1, 0, 0);
    p.score = 4;
    w.add_player_object(p);
    let mut q = player(0, 0, 0);
    q.score = 9;
    w.add_player_object(q);
    assert_eq!(w.get_player_score(1), 4);
    assert_eq!(w.get_player_score(0), 9);
}

#[test]
fn update_moves_only_players() {
    let mut w = World::new();
    w.add_object(Collidable::Wall(Wall::new(0, (0, 0), (10_000, 10_000))));
    let mut p = player(0, 0, 0);
    p.set_velocity((100_000, 0));
    w.add_player_object(p);
    w.add_collectable_object(Collectable::new(50_000, 50_000));
    w.update(1000);
    assert_eq!((w.objects[0].get_x(), w.objects[0].get_y()), (0, 0));
    // no force, 20% friction: 100 -> 80 per second over one second
    assert_eq!((w.objects[1].get_x(), w.objects[1].get_y()), (80_000, 0));
    assert_eq!((w.objects[2].get_x(), w.objects[2].get_y()), (50_000, 50_000));
}

#[test]
fn players_are_drawn_last_in_registration_order() {
    let mut w = World::new();
    w.add_player_object(player(0, 0, 0));
    w.add_object(Collidable::Wall(Wall::new(0, (0, 0), (1, 1))));
    w.add_player_object(player(1, 0, 0));
    w.add_collectable_object(Collectable::new(0, 0));
    let order: Vec<u32> = w.draw_order().iter().map(|o| o.get_id()).collect();
    assert_eq!(order, vec![1, 3, 0, 2]);
}

#[test]
fn collected_item_leaves_world_and_registry() {
    let mut w = World::new();
    let p = w.add_player_object(player(0, 0, 0)).unwrap();
    let c = w.add_collectable_object(Collectable::new(10_000, 10_000)).unwrap();
    let far = w.add_collectable_object(Collectable::new(500_000, 500_000)).unwrap();
    let mut sc = SysCollision::new();
    sc.add_collidable_object(p);
    sc.add_collidable_object(c);
    sc.add_collidable_object(far);
    sc.process_collisions(&mut w);
    assert_eq!(w.get_player_score(0), 1);
    assert!(w.objects[1].borrow_base_object().is_deletion_requested());
    assert!(!w.objects[2].borrow_base_object().is_deletion_requested());

    w.cleanup_objects();
    sc.cleanup_objects(&w);
    let ids: Vec<u32> = w.objects.iter().map(|o| o.get_id()).collect();
    assert_eq!(ids, vec![p, far]);
    assert_eq!(sc.objects, vec![p, far]);

    // a second pass scores nothing more
    sc.process_collisions(&mut w);
    assert_eq!(w.get_player_score(0), 1);
}

#[test]
fn registry_stays_sorted_without_duplicates() {
    let mut sc = SysCollision::new();
    sc.add_collidable_object(5);
    sc.add_static_object(2);
    sc.add_collidable_object(9);
    sc.add_collidable_object(5);
    sc.add_static_object(0);
    assert_eq!(sc.objects, vec![0, 2, 5, 9]);
}

#[test]
fn registry_cleanup_drops_unknown_identifiers() {
    let mut w = World::new();
    w.add_collectable_object(Collectable::new(0, 0));
    let mut sc = SysCollision::new();
    sc.add_collidable_object(0);
    sc.add_collidable_object(42);
    sc.cleanup_objects(&w);
    assert_eq!(sc.objects, vec![0]);
}

#[test]
fn collisions_run_in_identifier_order() {
    // Player 0 is pushed out of the wall before it would reach the
    // collectible, which it no longer overlaps.
    let mut w = World::new();
    let p = w.add_player_object(player(0, 100_000, 100_000)).unwrap();
    let wall = w
        .add_object(Collidable::Wall(Wall::new(0, (110_000, 110_000), (50_000, 50_000))))
        .unwrap();
    let c = w.add_collectable_object(Collectable::new(100_000, 115_000)).unwrap();
    let mut sc = SysCollision::new();
    sc.add_collidable_object(c);
    sc.add_static_object(wall);
    sc.add_collidable_object(p);
    sc.process_collisions(&mut w);
    assert_eq!((w.objects[0].get_x(), w.objects[0].get_y()), (100_000, 80_000));
    assert_eq!(w.get_player_score(0), 0);
    assert!(!w.objects[2].borrow_base_object().is_deletion_requested());
}

use cloud_lib::combat::{
    acquire_targets, attack_target, find_mark, maintain_target_list, priority_key,
    prioritize_targets, CombatStats, Combatant, Mark, STALE_KEY,
};
use cloud_lib::enemy::{despawn_debris, enemy_stats, splodey, Debris, DEBRIS_PER_DEATH};
use cloud_lib::geometry::Point;
use cloud_lib::hexling::hexling_stats;
use cloud_lib::player::player_stats;

fn stats(aggro: i64, range: i64, rate: i64, damage: i64, cooldown: i64, health: i64) -> CombatStats {
    CombatStats {
        aggro_radius: aggro,
        attack_range: range,
        attack_rate: rate,
        base_damage: damage,
        cooldown,
        debris_despawn_timer: 0,
        health,
        target_list: vec![],
    }
}

fn mark(id: u64, x: i32, y: i32) -> Mark {
    Mark { id, position: Point::new(x, y) }
}

fn has_duplicates(v: &[u64]) -> bool {
    (0..v.len()).any(|i| (i + 1..v.len()).any(|j| v[i] == v[j]))
}

#[test]
fn acquisition_appends_in_range_without_duplicates_or_self() {
    let mut s = stats(100, 0, 0, 0, 0, 10);
    s.target_list = vec![5];
    let seen = vec![mark(5, 10, 0), mark(6, 50, 0), mark(1, 0, 0), mark(7, 500, 0), mark(6, 20, 0)];
    maintain_target_list(&mut s, 1, Point::new(0, 0), &seen, None);
    assert!(!has_duplicates(&s.target_list));
    assert!(!s.target_list.contains(&1));
    assert_eq!(s.target_list, vec![5, 6]);
}

#[test]
fn acquisition_keeps_targets_out_of_range() {
    let mut s = stats(100, 0, 0, 0, 0, 10);
    s.target_list = vec![9];
    acquire_targets(&mut s, 1, Point::new(0, 0), &vec![mark(9, 1000, 0)]);
    assert_eq!(s.target_list, vec![9]);
}

#[test]
fn priority_target_first_whatever_the_order() {
    let seen = vec![mark(2, 10, 0), mark(3, 20, 0), mark(4, 30, 0)];
    for start in [vec![2, 3, 4], vec![4, 3, 2], vec![3, 4, 2], vec![2, 4, 3]] {
        let mut s = stats(0, 0, 0, 0, 0, 10);
        s.target_list = start;
        prioritize_targets(&mut s, Point::new(0, 0), &seen, Some(4));
        assert_eq!(s.target_list, vec![4, 2, 3]);
    }
}

#[test]
fn stale_targets_sort_last_in_their_order() {
    let seen = vec![mark(2, 30, 0), mark(3, 10, 0)];
    let mut s = stats(0, 0, 0, 0, 0, 10);
    s.target_list = vec![8, 2, 7, 3];
    prioritize_targets(&mut s, Point::new(0, 0), &seen, None);
    assert_eq!(s.target_list, vec![3, 2, 8, 7]);
    assert_eq!(priority_key(8, Point::new(0, 0), &seen, None), STALE_KEY);
    assert_eq!(priority_key(3, Point::new(0, 0), &seen, Some(3)), -1);
    assert_eq!(priority_key(2, Point::new(0, 0), &seen, Some(3)), 900);
}

#[test]
fn find_mark_returns_first_match() {
    let seen = vec![mark(2, 1, 1), mark(2, 5, 5)];
    assert_eq!(find_mark(&seen, 2), Some(Point::new(1, 1)));
    assert_eq!(find_mark(&seen, 3), None);
}

#[test]
fn attack_lands_when_ready_and_in_range() {
    let mut a = stats(0, 10, 4, 3, 0, 10);
    let mut t = stats(0, 0, 0, 0, 0, 10);
    let struck = attack_target(&mut a, Point::new(0, 0), &mut t, Point::new(5, 0), 16, 0);
    assert!(struck);
    assert_eq!(t.health, 7);
    assert_eq!(a.cooldown, 4 * 16);
    assert_eq!(a.health, 10);
}

#[test]
fn attack_skipped_while_cooling_down() {
    let mut a = stats(0, 10, 4, 3, 5, 10);
    let mut t = stats(0, 0, 0, 0, 0, 10);
    let struck = attack_target(&mut a, Point::new(0, 0), &mut t, Point::new(5, 0), 2, 0);
    assert!(!struck);
    assert_eq!(t.health, 10);
    assert_eq!(a.cooldown, 5 - 2);
    // The cooldown keeps running down below zero.
    let mut b = stats(0, 10, 4, 3, 1, 10);
    attack_target(&mut b, Point::new(0, 0), &mut t, Point::new(50, 0), 3, 0);
    assert_eq!(b.cooldown, -2);
}

#[test]
fn attack_skipped_on_dead_or_distant_target() {
    let mut a = stats(0, 10, 4, 3, 0, 10);
    let mut dead = stats(0, 0, 0, 0, 0, 0);
    assert!(!attack_target(&mut a, Point::new(0, 0), &mut dead, Point::new(1, 0), 5, 0));
    assert_eq!(dead.health, 0);
    let mut far = stats(0, 0, 0, 0, 0, 10);
    assert!(!attack_target(&mut a, Point::new(0, 0), &mut far, Point::new(10, 0), 5, 0));
    assert_eq!(far.health, 10);
    assert_eq!(a.cooldown, -10);
}

#[test]
fn hexling_wears_down_when_striking() {
    let mut h = hexling_stats();
    let mut e = enemy_stats();
    assert!(attack_target(&mut h, Point::new(0, 0), &mut e, Point::new(5_000, 0), 16, 1));
    assert_eq!(h.health, 99);
    assert_eq!(e.health, 20);
    assert_eq!(h.cooldown, 16);
}

fn combatant(id: u64, x: i32, health: i64) -> Combatant {
    let mut s = enemy_stats();
    s.health = health;
    Combatant { id, position: Point::new(x, 0), stats: s }
}

#[test]
fn fallen_enemy_leaves_one_batch_of_debris() {
    let mut enemies = vec![combatant(1, 0, 3), combatant(2, 700, 0), combatant(3, 9, -4)];
    let debris = splodey(&mut enemies);
    assert_eq!(enemies.len(), 1);
    assert_eq!(enemies[0].id, 1);
    assert_eq!(debris.len(), 2 * DEBRIS_PER_DEATH);
    assert!(debris[..DEBRIS_PER_DEATH].iter().all(|d| d.position == Point::new(700, 0)));
    assert!(debris[DEBRIS_PER_DEATH..].iter().all(|d| d.position == Point::new(9, 0)));
    assert!(debris.iter().all(|d| d.despawn_timer == 10_000));
    let mut calm = vec![combatant(4, 0, 1)];
    assert!(splodey(&mut calm).is_empty());
    assert_eq!(calm.len(), 1);
}

#[test]
fn debris_runs_out() {
    let mut debris = vec![
        Debris { despawn_timer: 10, position: Point::new(0, 0) },
        Debris { despawn_timer: 30, position: Point::new(1, 0) },
    ];
    despawn_debris(&mut debris, 10);
    assert_eq!(debris, vec![Debris { despawn_timer: 20, position: Point::new(1, 0) }]);
}

#[test]
fn starting_records() {
    let p = player_stats();
    assert_eq!(p.health, 500);
    assert_eq!(p.aggro_radius, 0);
    let e = enemy_stats();
    assert_eq!((e.aggro_radius, e.attack_range, e.health), (200_000, 100_000, 30));
}

#[test]
fn equal_distances_keep_their_order() {
    let seen = vec![mark(2, 10, 0), mark(3, 0, 10), mark(4, -10, 0), mark(5, 5, 0)];
    for (start, want) in [
        (vec![2, 3, 4, 5], vec![5, 2, 3, 4]),
        (vec![4, 3, 5, 2], vec![5, 4, 3, 2]),
        (vec![3, 2, 4, 5], vec![5, 3, 2, 4]),
    ] {
        let mut s = stats(0, 0, 0, 0, 0, 10);
        s.target_list = start;
        prioritize_targets(&mut s, Point::new(0, 0), &seen, None);
        assert_eq!(s.target_list, want);
    }
}

#[test]
fn three_fallen_leave_three_batches() {
    let mut enemies = vec![combatant(1, 10, 0), combatant(2, 20, 5), combatant(3, 30, 0), combatant(4, 40, -1)];
    let debris = splodey(&mut enemies);
    assert_eq!(enemies.iter().map(|c| c.id).collect::<Vec<_>>(), vec![2]);
    assert_eq!(debris.len(), 3 * DEBRIS_PER_DEATH);
    for (f, x) in [10, 30, 40].iter().enumerate() {
        let batch = &debris[f * DEBRIS_PER_DEATH..(f + 1) * DEBRIS_PER_DEATH];
        assert!(batch.iter().all(|d| d.position == Point::new(*x, 0) && d.despawn_timer == 10_000));
    }
}

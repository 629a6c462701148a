use cloud_lib::combat::{Combatant, Mark};
use cloud_lib::enemy::{enemy_stats, remove_fallen};
use cloud_lib::geometry::Point;
use cloud_lib::hexling::{hexling_stats, HEXLING_DETERIORATION};
use cloud_lib::player::player_stats;
use cloud_lib::systems::{acquire_all, enemy_target_step, find_combatant, marks_of, resolve_attacks};

fn enemy(id: u64, x: i32, y: i32) -> Combatant {
    Combatant { id, position: Point::new(x, y), stats: enemy_stats() }
}

fn hexling(id: u64, x: i32, y: i32) -> Combatant {
    Combatant { id, position: Point::new(x, y), stats: hexling_stats() }
}

#[test]
fn enemies_skip_acquisition_without_a_player() {
    let mut enemies = vec![enemy(10, 0, 0)];
    let friendlies = vec![hexling(2, 1_000, 0)];
    enemy_target_step(&mut enemies, &friendlies, None);
    assert!(enemies[0].stats.target_list.is_empty());
}

#[test]
fn enemies_put_the_player_first() {
    let mut enemies = vec![enemy(10, 0, 0), enemy(11, 500_000, 0)];
    let friendlies = vec![
        hexling(2, 1_000, 0),
        Combatant { id: 1, position: Point::new(100_000, 0), stats: player_stats() },
        hexling(3, 50_000, 0),
    ];
    enemy_target_step(&mut enemies, &friendlies, Some(1));
    assert_eq!(enemies[0].stats.target_list, vec![1, 2, 3]);
    assert!(enemies[1].stats.target_list.is_empty());
    assert_eq!(enemies[1].id, 11);
}

#[test]
fn hexlings_acquire_nearest_first() {
    let mut hexlings = vec![hexling(2, 0, 0)];
    let seen = marks_of(&vec![enemy(10, 40_000, 0), enemy(11, 20_000, 0), enemy(12, 90_000, 0)]);
    assert_eq!(seen[1], Mark { id: 11, position: Point::new(20_000, 0) });
    acquire_all(&mut hexlings, &seen, None);
    assert_eq!(hexlings[0].stats.target_list, vec![11, 10]);
}

#[test]
fn attack_round_hits_primary_targets_in_turn() {
    let mut a1 = hexling(2, 0, 0);
    a1.stats.target_list = vec![10];
    let mut a2 = hexling(3, 0, 0);
    a2.stats.target_list = vec![10];
    a2.stats.cooldown = 7;
    let mut a3 = hexling(4, 0, 0);
    a3.stats.target_list = vec![99];
    let a4 = hexling(5, 0, 0);
    let mut attackers = vec![a1, a2, a3, a4];
    let mut defenders = vec![enemy(11, 0, 0), enemy(10, 5_000, 0)];
    let struck = resolve_attacks(&mut attackers, &mut defenders, 16, HEXLING_DETERIORATION);
    assert_eq!(struck, vec![2]);
    assert_eq!(defenders[1].stats.health, 20);
    assert_eq!(defenders[0].stats.health, 30);
    assert_eq!(attackers[0].stats.cooldown, 16);
    assert_eq!(attackers[0].stats.health, 99);
    assert_eq!(attackers[1].stats.cooldown, 7 - 16);
    // A stale primary target and an empty list are both left alone.
    assert_eq!(attackers[2].stats.cooldown, 0);
    assert_eq!(attackers[3].stats.cooldown, 0);
}

#[test]
fn attack_round_stops_at_a_dead_target() {
    let mut attackers = vec![];
    for id in 0..5 {
        let mut e = enemy(id, 0, 0);
        e.stats.target_list = vec![1];
        attackers.push(e);
    }
    let mut victim = hexling(1, 50_000, 0);
    victim.stats.health = 25;
    let mut defenders = vec![victim];
    let struck = resolve_attacks(&mut attackers, &mut defenders, 10, 0);
    assert_eq!(struck, vec![0, 1, 2]);
    assert_eq!(defenders[0].stats.health, -5);
    assert_eq!(attackers[3].stats.cooldown, -10);
    assert_eq!(attackers[0].stats.cooldown, 100);
}

#[test]
fn fallen_combatants_are_removed() {
    let mut all = vec![hexling(1, 0, 0), hexling(2, 7, 8), hexling(3, 0, 0)];
    all[1].stats.health = 0;
    let fallen = remove_fallen(&mut all);
    assert_eq!(fallen, vec![Point::new(7, 8)]);
    assert_eq!(all.iter().map(|c| c.id).collect::<Vec<_>>(), vec![1, 3]);
    assert_eq!(find_combatant(&all, 3), Some(1));
    assert_eq!(find_combatant(&all, 2), None);
}

use vstd::prelude::*;

use crate::combat::{
    acquired, attack_lands, keyed, attack_target, hold, in_priority_order, maintain_target_list,
    same_but_targets, strike, valid_targets, CombatStats, Combatant, Mark,
};

verus! {

/// Index of the first combatant at or after `i` with identity `id`.
pub open spec fn first_from(s: Seq<Combatant>, id: u64, i: int) -> Option<int>
    decreases s.len() - i,
{
    if i < 0 || i >= s.len() {
        None
    } else if s[i].id == id {
        Some(i)
    } else {
        first_from(s, id, i + 1)
    }
}

/// Index of the first combatant with identity `id`.
pub open spec fn index_of(s: Seq<Combatant>, id: u64) -> Option<int> {
    first_from(s, id, 0)
}

proof fn lemma_first_from_range(s: Seq<Combatant>, id: u64, i: int)
    ensures
        match first_from(s, id, i) {
            Some(j) => 0 <= i <= j < s.len() && s[j].id == id,
            None => true,
        },
    decreases s.len() - i,
{
    if 0 <= i < s.len() && s[i].id != id {
        lemma_first_from_range(s, id, i + 1);
    }
}

/// Index of the first combatant with identity `id`.
pub fn find_combatant(s: &Vec<Combatant>, id: u64) -> (r: Option<usize>)
    ensures
        r.is_some() ==> index_of(s@, id) == Some(r.unwrap() as int),
        r.is_none() ==> index_of(s@, id).is_none(),
        r.is_some() ==> r.unwrap() < s@.len() && s@[r.unwrap() as int].id == id,
{
    proof {
        lemma_first_from_range(s@, id, 0);
    }
    let mut i: usize = 0;
    while i < s.len()
        invariant
            i <= s@.len(),
            first_from(s@, id, 0) == first_from(s@, id, i as int),
        decreases s@.len() - i,
    {
        if s[i].id == id {
            return Some(i);
        }
        i += 1;
    }
    None
}

/// The state after attacker `i` takes its turn. An attacker without targets, or whose
/// primary target is not among `def`, does nothing; otherwise it strikes or holds.
pub open spec fn attack_turn(att: Seq<Combatant>, def: Seq<Combatant>, i: int, dt_ms: int, wear: int) -> (Seq<Combatant>, Seq<Combatant>) {
    let a = att[i];
    if a.stats.target_list@.len() == 0 {
        (att, def)
    } else {
        match index_of(def, a.stats.target_list@[0]) {
            None => (att, def),
            Some(j) => {
                let t = def[j];
                if attack_lands(a.stats, a.position, t.stats, t.position) {
                    let (sa, st) = strike(a.stats, t.stats, dt_ms, wear);
                    (att.update(i, Combatant { stats: sa, ..a }), def.update(j, Combatant { stats: st, ..t }))
                } else {
                    (att.update(i, Combatant { stats: hold(a.stats, dt_ms), ..a }), def)
                }
            },
        }
    }
}

/// Attacker `i`'s attack lands on its turn from the given state.
pub open spec fn turn_lands(att: Seq<Combatant>, def: Seq<Combatant>, i: int) -> bool {
    let a = att[i];
    &&& a.stats.target_list@.len() > 0
    &&& index_of(def, a.stats.target_list@[0]).is_some()
    &&& attack_lands(
        a.stats,
        a.position,
        def[index_of(def, a.stats.target_list@[0]).unwrap()].stats,
        def[index_of(def, a.stats.target_list@[0]).unwrap()].position,
    )
}

/// Identities of the attackers, among the first `n`, whose attack landed on their turn.
pub open spec fn landed(att: Seq<Combatant>, def: Seq<Combatant>, n: nat, dt_ms: int, wear: int) -> Seq<u64>
    decreases n,
{
    if n == 0 {
        Seq::empty()
    } else {
        let prev = attack_round(att, def, (n - 1) as nat, dt_ms, wear);
        let ids = landed(att, def, (n - 1) as nat, dt_ms, wear);
        if turn_lands(prev.0, prev.1, n - 1) {
            ids.push(prev.0[n - 1].id)
        } else {
            ids
        }
    }
}

/// The state after the first `n` attackers have taken their turns, in order.
pub open spec fn attack_round(att: Seq<Combatant>, def: Seq<Combatant>, n: nat, dt_ms: int, wear: int) -> (Seq<Combatant>, Seq<Combatant>)
    decreases n,
{
    if n == 0 {
        (att, def)
    } else {
        let prev = attack_round(att, def, (n - 1) as nat, dt_ms, wear);
        attack_turn(prev.0, prev.1, n - 1, dt_ms, wear)
    }
}

/// Limit on damage, wear and attack rates under which a whole attack round stays within
/// the integer range.
pub const FIGHT_LIMIT: i64 = 0x1000_0000_0000_0000;

/// Attacker records that keep a round within the integer range.
pub open spec fn attacker_in_bounds(s: CombatStats) -> bool {
    &&& -FIGHT_LIMIT <= s.health <= FIGHT_LIMIT
    &&& 0 <= s.attack_rate <= 0x7fff_ffff
    &&& 0 <= s.base_damage <= FIGHT_LIMIT
    &&& s.cooldown >= -FIGHT_LIMIT
}

/// Defender records that keep a round within the integer range.
pub open spec fn defender_in_bounds(s: CombatStats) -> bool {
    -2 * FIGHT_LIMIT <= s.health <= FIGHT_LIMIT
}

/// One attack round: each attacker in turn acts on its primary target among `defenders`,
/// as `attack_turn` says; an attacker whose attack lands wears down by `wear`. Returns the
/// identities of the attackers whose attack landed, in order.
pub fn resolve_attacks(attackers: &mut Vec<Combatant>, defenders: &mut Vec<Combatant>, dt_ms: u32, wear: i64) -> (struck: Vec<u64>)
    requires
        0 <= wear <= FIGHT_LIMIT,
        forall|i: int| 0 <= i < old(attackers)@.len() ==> attacker_in_bounds(#[trigger] old(attackers)@[i].stats),
        forall|i: int| 0 <= i < old(defenders)@.len() ==> defender_in_bounds(#[trigger] old(defenders)@[i].stats),
    ensures
        (final(attackers)@, final(defenders)@) == attack_round(
            old(attackers)@,
            old(defenders)@,
            old(attackers)@.len(),
            dt_ms as int,
            wear as int,
        ),
        struck@ == landed(old(attackers)@, old(defenders)@, old(attackers)@.len(), dt_ms as int, wear as int),
{
    let ghost att0 = attackers@;
    let ghost def0 = defenders@;
    let mut struck: Vec<u64> = Vec::new();
    let mut i: usize = 0;
    while i < attackers.len()
        invariant
            0 <= wear <= FIGHT_LIMIT,
            i <= attackers@.len() == att0.len(),
            defenders@.len() == def0.len(),
            (attackers@, defenders@) == attack_round(att0, def0, i as nat, dt_ms as int, wear as int),
            forall|k: int| i <= k < att0.len() ==> #[trigger] attackers@[k] == att0[k],
            forall|k: int| 0 <= k < att0.len() ==> attacker_in_bounds(#[trigger] att0[k].stats),
            forall|k: int| 0 <= k < defenders@.len() ==> defender_in_bounds(#[trigger] defenders@[k].stats),
            struck@ == landed(att0, def0, i as nat, dt_ms as int, wear as int),
        decreases att0.len() - i,
    {
        let ghost before_att = attackers@;
        let ghost before_def = defenders@;
        assert(attackers@[i as int] == att0[i as int]);
        assert(attacker_in_bounds(att0[i as int].stats));
        if attackers[i].stats.target_list.len() > 0 {
            let primary = attackers[i].stats.target_list[0];
            match find_combatant(defenders, primary) {
                Some(j) => {
                    let mut a = attackers.remove(i);
                    let mut t = defenders.remove(j);
                    assert(defender_in_bounds(before_def[j as int].stats));
                    assert(a == before_att[i as int]);
                    assert(t == before_def[j as int]);
                    assert(0 <= a.stats.attack_rate * dt_ms <= i64::MAX) by (nonlinear_arith)
                        requires
                            0 <= a.stats.attack_rate <= 0x7fff_ffff,
                            0 <= dt_ms <= 0xffff_ffff,
                    ;
                    let ghost a0 = a;
                    let ghost t0 = t;
                    let hit = attack_target(&mut a.stats, a.position, &mut t.stats, t.position, dt_ms, wear);
                    let id = a.id;
                    attackers.insert(i, a);
                    defenders.insert(j, t);
                    proof {
                        assert(attackers@ =~= before_att.update(i as int, attackers@[i as int]));
                        assert(defenders@ =~= before_def.update(j as int, defenders@[j as int]));
                        assert(index_of(before_def, primary) == Some(j as int));
                        if hit {
                            assert(attackers@[i as int] == (Combatant { stats: strike(a0.stats, t0.stats, dt_ms as int, wear as int).0, ..a0 }));
                            assert(defenders@[j as int] == (Combatant { stats: strike(a0.stats, t0.stats, dt_ms as int, wear as int).1, ..t0 }));
                        } else {
                            assert(attackers@[i as int] == (Combatant { stats: hold(a0.stats, dt_ms as int), ..a0 }));
                            assert(defenders@ =~= before_def);
                        }
                        assert forall|k: int| 0 <= k < defenders@.len() implies defender_in_bounds(#[trigger] defenders@[k].stats) by {
                            if k != j {
                                assert(defenders@[k] == before_def[k]);
                            }
                        }
                        assert forall|k: int| i < k < att0.len() implies #[trigger] attackers@[k] == att0[k] by {
                            assert(attackers@[k] == before_att[k]);
                        }
                    }
                    if hit {
                        struck.push(id);
                    }
                },
                None => {},
            }
        }
        i += 1;
    }
    struck
}

/// How each combatant sees another: its identity and position, in order.
pub fn marks_of(s: &Vec<Combatant>) -> (r: Vec<Mark>)
    ensures
        r@.len() == s@.len(),
        forall|i: int|
            0 <= i < s@.len() ==> (#[trigger] r@[i]).id == s@[i].id && r@[i].position == s@[i].position,
{
    let mut r: Vec<Mark> = Vec::new();
    let mut i: usize = 0;
    while i < s.len()
        invariant
            i <= s@.len(),
            r@.len() == i,
            forall|k: int| 0 <= k < i ==> (#[trigger] r@[k]).id == s@[k].id && r@[k].position == s@[k].position,
        decreases s@.len() - i,
    {
        r.push(Mark { id: s[i].id, position: s[i].position });
        i += 1;
    }
    r
}

/// `new` is `old` after one tick of target acquisition against `seen` with the given
/// priority target, as `maintain_target_list` states it.
pub open spec fn acquisition_step(old: Combatant, new: Combatant, seen: Seq<Mark>, priority: Option<u64>) -> bool {
    let want = acquired(old.stats.target_list@, old.id, old.position, old.stats.aggro_radius as int, seen);
    &&& new.id == old.id
    &&& new.position == old.position
    &&& same_but_targets(new.stats, old.stats)
    &&& new.stats.target_list@.to_multiset() == want.to_multiset()
    &&& in_priority_order(new.stats.target_list@, old.position, seen, priority)
    &&& (forall|p: u64| priority == Some(p) && want.contains(p) ==> new.stats.target_list@[0] == p)
    &&& (valid_targets(old.stats.target_list@, old.id) ==> valid_targets(new.stats.target_list@, new.id))
    &&& (forall|k: int| #[trigger] keyed(new.stats.target_list@, k, old.position, seen, priority)
        == keyed(want, k, old.position, seen, priority))
}

/// One tick of target acquisition for every combatant of `fighters`, in place.
pub fn acquire_all(fighters: &mut Vec<Combatant>, seen: &Vec<Mark>, priority: Option<u64>)
    ensures
        final(fighters)@.len() == old(fighters)@.len(),
        forall|i: int|
            0 <= i < old(fighters)@.len() ==> acquisition_step(
                old(fighters)@[i],
                #[trigger] final(fighters)@[i],
                seen@,
                priority,
            ),
{
    let ghost start = fighters@;
    let mut i: usize = 0;
    while i < fighters.len()
        invariant
            i <= fighters@.len() == start.len(),
            forall|k: int| 0 <= k < i ==> acquisition_step(start[k], #[trigger] fighters@[k], seen@, priority),
            forall|k: int| i <= k < start.len() ==> #[trigger] fighters@[k] == start[k],
        decreases start.len() - i,
    {
        let ghost before = fighters@;
        let mut c = fighters.remove(i);
        maintain_target_list(&mut c.stats, c.id, c.position, seen, priority);
        fighters.insert(i, c);
        proof {
            assert forall|k: int| 0 <= k < i implies acquisition_step(start[k], #[trigger] fighters@[k], seen@, priority) by {
                assert(fighters@[k] == before[k]);
            }
            assert forall|k: int| i < k < start.len() implies #[trigger] fighters@[k] == start[k] by {
                assert(fighters@[k] == before[k]);
            }
        }
        i += 1;
    }
}

/// One tick of target acquisition for every enemy against the player's side, with the
/// player as priority target. Without a player nothing happens this tick.
pub fn enemy_target_step(enemies: &mut Vec<Combatant>, friendlies: &Vec<Combatant>, player: Option<u64>)
    ensures
        player.is_none() ==> final(enemies)@ == old(enemies)@,
        player.is_some() ==> final(enemies)@.len() == old(enemies)@.len(),
        player.is_some() ==> forall|i: int|
            0 <= i < old(enemies)@.len() ==> acquisition_step(
                old(enemies)@[i],
                #[trigger] final(enemies)@[i],
                friendlies@.map_values(|c: Combatant| Mark { id: c.id, position: c.position }),
                player,
            ),
{
    if player.is_none() {
        return;
    }
    let seen = marks_of(friendlies);
    assert(seen@ =~= friendlies@.map_values(|c: Combatant| Mark { id: c.id, position: c.position }));
    acquire_all(enemies, &seen, player);
}

} // verus!

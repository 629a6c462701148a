use vstd::prelude::*;

use crate::geometry::{closer_than, dist2, distance_squared, is_closer_than, lemma_dist2_bounds, Point};

verus! {

broadcast use {vstd::seq_lib::group_to_multiset_ensures, vstd::multiset::group_multiset_axioms};

/// Sort key of a target whose position can no longer be looked up; above every squared
/// distance.
pub const STALE_KEY: i128 = 0x10_0000_0000_0000_0000;

/// Per-combatant fighting record. Distances are in thousandths of a world unit, times in
/// milliseconds and health in tenths of a hit point.
pub struct CombatStats {
    /// Any opponent closer than this is added to the target list.
    pub aggro_radius: i64,
    /// Largest distance, centre to centre, at which an attack lands.
    pub attack_range: i64,
    /// Factor by which the tick's elapsed time re-arms the cooldown after an attack.
    pub attack_rate: i64,
    pub base_damage: i64,
    /// An attack can be made once this is at most zero.
    pub cooldown: i64,
    pub debris_despawn_timer: i64,
    pub health: i64,
    /// Every target acquired so far; the first entry is the primary target.
    pub target_list: Vec<u64>,
}

/// A combatant as another one sees it: its identity and where it stands.
#[derive(Clone, Copy, Debug, PartialEq, Eq, Structural)]
pub struct Mark {
    pub id: u64,
    pub position: Point,
}

/// `a` and `b` agree on everything but the target list.
pub open spec fn same_but_targets(a: CombatStats, b: CombatStats) -> bool {
    &&& a.aggro_radius == b.aggro_radius
    &&& a.attack_range == b.attack_range
    &&& a.attack_rate == b.attack_rate
    &&& a.base_damage == b.base_damage
    &&& a.cooldown == b.cooldown
    &&& a.debris_despawn_timer == b.debris_despawn_timer
    &&& a.health == b.health
}

/// A well-formed target list holds each entity at most once and never its owner.
pub open spec fn valid_targets(list: Seq<u64>, own_id: u64) -> bool {
    list.no_duplicates() && !list.contains(own_id)
}

/// `list` after scanning `seen` in order: each opponent closer than `aggro` that is not
/// the owner and not yet listed is appended.
pub open spec fn acquired(list: Seq<u64>, own_id: u64, own: Point, aggro: int, seen: Seq<Mark>) -> Seq<u64>
    decreases seen.len(),
{
    if seen.len() == 0 {
        list
    } else {
        let prev = acquired(list, own_id, own, aggro, seen.drop_last());
        let m = seen.last();
        if m.id != own_id && closer_than(own, m.position, aggro) && !prev.contains(m.id) {
            prev.push(m.id)
        } else {
            prev
        }
    }
}

/// Position of the first entry of `seen` with identity `id`, if any.
pub open spec fn lookup(seen: Seq<Mark>, id: u64) -> Option<Point>
    decreases seen.len(),
{
    if seen.len() == 0 {
        None
    } else if seen[0].id == id {
        Some(seen[0].position)
    } else {
        lookup(seen.drop_first(), id)
    }
}

/// Sort key of a target: the priority target comes first, then targets by squared distance
/// from `own`, then targets that can no longer be looked up.
pub open spec fn target_key(id: u64, own: Point, seen: Seq<Mark>, priority: Option<u64>) -> int {
    if priority == Some(id) {
        -1
    } else {
        match lookup(seen, id) {
            Some(p) => dist2(own, p),
            None => STALE_KEY as int,
        }
    }
}

/// The list is in order of non-decreasing sort key.
pub open spec fn in_priority_order(list: Seq<u64>, own: Point, seen: Seq<Mark>, priority: Option<u64>) -> bool {
    forall|i: int, j: int|
        0 <= i < j < list.len() ==> #[trigger] target_key(list[i], own, seen, priority)
            <= #[trigger] target_key(list[j], own, seen, priority)
}

/// Position of the first entry of `seen` with identity `id`.
pub fn find_mark(seen: &Vec<Mark>, id: u64) -> (r: Option<Point>)
    ensures
        r == lookup(seen@, id),
{
    let mut i: usize = 0;
    assert(seen@.subrange(0, seen@.len() as int) =~= seen@);
    while i < seen.len()
        invariant
            i <= seen@.len(),
            lookup(seen@, id) == lookup(seen@.subrange(i as int, seen@.len() as int), id),
        decreases seen@.len() - i,
    {
        let ghost rest = seen@.subrange(i as int, seen@.len() as int);
        assert(rest.drop_first() =~= seen@.subrange(i + 1, seen@.len() as int));
        if seen[i].id == id {
            return Some(seen[i].position);
        }
        i += 1;
    }
    None
}

/// Appends to the target list every opponent of `seen` closer than the aggro radius that
/// is not yet on it, in the order of `seen`. Entries are never removed.
pub fn acquire_targets(stats: &mut CombatStats, own_id: u64, own: Point, seen: &Vec<Mark>)
    ensures
        same_but_targets(*final(stats), *old(stats)),
        final(stats).target_list@ == acquired(
            old(stats).target_list@,
            own_id,
            own,
            old(stats).aggro_radius as int,
            seen@,
        ),
{
    let ghost start = stats.target_list@;
    let mut i: usize = 0;
    while i < seen.len()
        invariant
            i <= seen@.len(),
            same_but_targets(*stats, *old(stats)),
            start == old(stats).target_list@,
            stats.target_list@ == acquired(
                start,
                own_id,
                own,
                stats.aggro_radius as int,
                seen@.take(i as int),
            ),
        decreases seen@.len() - i,
    {
        let m = seen[i];
        assert(seen@.take(i + 1).drop_last() =~= seen@.take(i as int));
        if m.id != own_id && is_closer_than(own, m.position, stats.aggro_radius) && !crate::collision::contains_id(&stats.target_list, m.id) {
            stats.target_list.push(m.id);
        }
        i += 1;
    }
    assert(seen@.take(seen@.len() as int) =~= seen@);
}

/// Acquisition keeps a list well formed.
pub proof fn lemma_acquired_valid(list: Seq<u64>, own_id: u64, own: Point, aggro: int, seen: Seq<Mark>)
    requires
        valid_targets(list, own_id),
    ensures
        valid_targets(acquired(list, own_id, own, aggro, seen), own_id),
        forall|x: u64| list.contains(x) ==> acquired(list, own_id, own, aggro, seen).contains(x),
    decreases seen.len(),
{
    if seen.len() > 0 {
        lemma_acquired_valid(list, own_id, own, aggro, seen.drop_last());
        let prev = acquired(list, own_id, own, aggro, seen.drop_last());
        let m = seen.last();
        if m.id != own_id && closer_than(own, m.position, aggro) && !prev.contains(m.id) {
            assert forall|x: u64| prev.contains(x) implies prev.push(m.id).contains(x) by {
                let k = choose|k: int| 0 <= k < prev.len() && prev[k] == x;
                assert(prev.push(m.id)[k] == x);
            }
            assert forall|x: u64| #[trigger] prev.push(m.id).contains(x) implies prev.contains(x) || x == m.id by {
                let k = choose|k: int| 0 <= k < prev.push(m.id).len() && prev.push(m.id)[k] == x;
                if k < prev.len() {
                    assert(prev[k] == x);
                }
            }
        }
    }
}

/// Sort key of one target.
pub fn priority_key(id: u64, own: Point, seen: &Vec<Mark>, priority: Option<u64>) -> (k: i128)
    ensures
        k == target_key(id, own, seen@, priority),
{
    if priority == Some(id) {
        return -1;
    }
    match find_mark(seen, id) {
        Some(p) => distance_squared(own, p),
        None => STALE_KEY,
    }
}

/// Only the priority target has a negative sort key.
pub proof fn lemma_key_sign(id: u64, own: Point, seen: Seq<Mark>, priority: Option<u64>)
    ensures
        target_key(id, own, seen, priority) < 0 <==> priority == Some(id),
{
    match lookup(seen, id) {
        Some(p) => lemma_dist2_bounds(own, p),
        None => {},
    }
}

/// The entries of `list` whose sort key is `k`, in their order.
pub open spec fn keyed(list: Seq<u64>, k: int, own: Point, seen: Seq<Mark>, priority: Option<u64>) -> Seq<u64>
    decreases list.len(),
{
    if list.len() == 0 {
        Seq::empty()
    } else {
        let prev = keyed(list.drop_last(), k, own, seen, priority);
        if target_key(list.last(), own, seen, priority) == k {
            prev.push(list.last())
        } else {
            prev
        }
    }
}

proof fn lemma_keyed_concat(a: Seq<u64>, b: Seq<u64>, k: int, own: Point, seen: Seq<Mark>, priority: Option<u64>)
    ensures
        keyed(a + b, k, own, seen, priority) == keyed(a, k, own, seen, priority) + keyed(b, k, own, seen, priority),
    decreases b.len(),
{
    if b.len() == 0 {
        assert(a + b =~= a);
        assert(keyed(a, k, own, seen, priority) + keyed(b, k, own, seen, priority) =~= keyed(a, k, own, seen, priority));
    } else {
        assert((a + b).drop_last() =~= a + b.drop_last());
        assert((a + b).last() == b.last());
        lemma_keyed_concat(a, b.drop_last(), k, own, seen, priority);
        let ka = keyed(a, k, own, seen, priority);
        let kb = keyed(b.drop_last(), k, own, seen, priority);
        assert((ka + kb).push(b.last()) =~= ka + kb.push(b.last()));
    }
}

proof fn lemma_keyed_none(a: Seq<u64>, k: int, own: Point, seen: Seq<Mark>, priority: Option<u64>)
    requires
        forall|i: int| 0 <= i < a.len() ==> target_key(#[trigger] a[i], own, seen, priority) != k,
    ensures
        keyed(a, k, own, seen, priority) == Seq::<u64>::empty(),
    decreases a.len(),
{
    if a.len() > 0 {
        assert(a.last() == a[a.len() - 1]);
        lemma_keyed_none(a.drop_last(), k, own, seen, priority);
    }
}

/// Reorders the target list: the priority target, if listed, first; then the targets that
/// can be looked up in `seen`, nearest first; then those that cannot. Targets that can no
/// longer be looked up are put last on purpose, so that they never delay a live one.
/// Entries with equal keys keep their order, and the entries themselves are unchanged.
pub fn prioritize_targets(stats: &mut CombatStats, own: Point, seen: &Vec<Mark>, priority: Option<u64>)
    ensures
        same_but_targets(*final(stats), *old(stats)),
        final(stats).target_list@.to_multiset() == old(stats).target_list@.to_multiset(),
        in_priority_order(final(stats).target_list@, own, seen@, priority),
        forall|p: u64|
            priority == Some(p) && old(stats).target_list@.contains(p)
                ==> final(stats).target_list@[0] == p,
        forall|k: int|
            #[trigger] keyed(final(stats).target_list@, k, own, seen@, priority) == keyed(
                old(stats).target_list@,
                k,
                own,
                seen@,
                priority,
            ),
{
    let mut rest: Vec<u64> = Vec::new();
    std::mem::swap(&mut rest, &mut stats.target_list);
    let ghost start = rest@;
    let mut keys: Vec<i128> = Vec::new();
    let mut i: usize = 0;
    while i < rest.len()
        invariant
            i <= rest@.len(),
            keys@.len() == i,
            forall|k: int| 0 <= k < i ==> keys@[k] == target_key(rest@[k], own, seen@, priority),
        decreases rest@.len() - i,
    {
        let k = priority_key(rest[i], own, seen, priority);
        keys.push(k);
        i += 1;
    }
    let mut out: Vec<u64> = Vec::new();
    while rest.len() > 0
        invariant
            keys@.len() == rest@.len(),
            forall|k: int| 0 <= k < rest@.len() ==> keys@[k] == target_key(rest@[k], own, seen@, priority),
            out@.to_multiset().add(rest@.to_multiset()) == start.to_multiset(),
            in_priority_order(out@, own, seen@, priority),
            forall|a: int, b: int|
                0 <= a < out@.len() && 0 <= b < rest@.len() ==> #[trigger] target_key(out@[a], own, seen@, priority)
                    <= #[trigger] target_key(rest@[b], own, seen@, priority),
            same_but_targets(*stats, *old(stats)),
            start == old(stats).target_list@,
            forall|k: int|
                keyed(out@, k, own, seen@, priority) + keyed(rest@, k, own, seen@, priority) == #[trigger] keyed(
                    start,
                    k,
                    own,
                    seen@,
                    priority,
                ),
        decreases rest@.len(),
    {
        let mut m: usize = 0;
        let mut j: usize = 1;
        while j < keys.len()
            invariant
                0 < keys@.len(),
                m < keys@.len(),
                1 <= j <= keys@.len(),
                forall|k: int| 0 <= k < j ==> keys@[m as int] <= keys@[k],
                forall|k: int| 0 <= k < m ==> keys@[m as int] < keys@[k],
            decreases keys@.len() - j,
        {
            if keys[j] < keys[m] {
                m = j;
            }
            j += 1;
        }
        let ghost old_rest = rest@;
        let ghost old_out = out@;
        let ghost old_keys = keys@;
        let id = rest.remove(m);
        keys.remove(m);
        out.push(id);
        proof {
            let front = old_rest.take(m as int);
            let back = old_rest.skip(m + 1);
            assert(old_rest =~= front + seq![id] + back);
            assert(rest@ =~= front + back);
            assert(seq![id].drop_last() =~= Seq::<u64>::empty());
            assert(out@.drop_last() =~= old_out);
            assert forall|k: int|
                keyed(out@, k, own, seen@, priority) + keyed(rest@, k, own, seen@, priority) == #[trigger] keyed(
                    start,
                    k,
                    own,
                    seen@,
                    priority,
                ) by {
                let kf = keyed(front, k, own, seen@, priority);
                let ki = keyed(seq![id], k, own, seen@, priority);
                let kb = keyed(back, k, own, seen@, priority);
                let ko = keyed(old_out, k, own, seen@, priority);
                lemma_keyed_concat(front + seq![id], back, k, own, seen@, priority);
                lemma_keyed_concat(front, seq![id], k, own, seen@, priority);
                lemma_keyed_concat(front, back, k, own, seen@, priority);
                lemma_keyed_concat(old_out, seq![id], k, own, seen@, priority);
                assert(out@ =~= old_out + seq![id]);
                assert(ko + (kf + ki + kb) == keyed(start, k, own, seen@, priority));
                if target_key(id, own, seen@, priority) == k {
                    assert forall|i: int| 0 <= i < front.len() implies target_key(#[trigger] front[i], own, seen@, priority) != k by {
                        assert(front[i] == old_rest[i]);
                        assert(old_keys[m as int] < old_keys[i]);
                    }
                    lemma_keyed_none(front, k, own, seen@, priority);
                    assert(kf =~= Seq::<u64>::empty());
                    assert(ko + ki + (kf + kb) =~= ko + (kf + ki + kb));
                } else {
                    assert(ki =~= Seq::<u64>::empty());
                    assert(ko + ki + (kf + kb) =~= ko + (kf + ki + kb));
                }
            }
            assert(old_rest.to_multiset().count(id) > 0);
            assert(out@.to_multiset().add(rest@.to_multiset()) =~= old_out.to_multiset().add(
                old_rest.to_multiset(),
            ));
            assert forall|b: int| 0 <= b < rest@.len() implies target_key(id, own, seen@, priority)
                <= #[trigger] target_key(rest@[b], own, seen@, priority) by {
                if b < m {
                    assert(rest@[b] == old_rest[b]);
                    assert(old_keys[m as int] <= old_keys[b]);
                } else {
                    assert(rest@[b] == old_rest[b + 1]);
                    assert(old_keys[m as int] <= old_keys[b + 1]);
                }
            }
            assert forall|a: int, b: int|
                0 <= a < out@.len() && 0 <= b < rest@.len() implies #[trigger] target_key(out@[a], own, seen@, priority)
                    <= #[trigger] target_key(rest@[b], own, seen@, priority) by {
                if b < m {
                    assert(rest@[b] == old_rest[b]);
                } else {
                    assert(rest@[b] == old_rest[b + 1]);
                }
                if a < old_out.len() {
                    assert(out@[a] == old_out[a]);
                }
            }
            assert forall|a: int, b: int|
                0 <= a < b < out@.len() implies #[trigger] target_key(out@[a], own, seen@, priority)
                    <= #[trigger] target_key(out@[b], own, seen@, priority) by {
                if b < old_out.len() {
                    assert(out@[a] == old_out[a]);
                    assert(out@[b] == old_out[b]);
                } else {
                    assert(out@[a] == old_out[a]);
                    assert(old_rest[m as int] == id);
                }
            }
        }
    }
    proof {
        assert(out@.to_multiset().add(rest@.to_multiset()) =~= out@.to_multiset());
        assert forall|k: int| #[trigger] keyed(out@, k, own, seen@, priority) == keyed(start, k, own, seen@, priority) by {
            assert(keyed(rest@, k, own, seen@, priority) =~= Seq::<u64>::empty());
            assert(keyed(out@, k, own, seen@, priority) + keyed(rest@, k, own, seen@, priority) =~= keyed(out@, k, own, seen@, priority));
        }
        match priority {
            Some(p) => {
                if start.contains(p) {
                    assert(start.to_multiset().count(p) > 0);
                    assert(out@.contains(p));
                    let k = choose|k: int| 0 <= k < out@.len() && out@[k] == p;
                    lemma_key_sign(p, own, seen@, priority);
                    lemma_key_sign(out@[0], own, seen@, priority);
                    if k > 0 {
                        assert(target_key(out@[0], own, seen@, priority) <= target_key(out@[k], own, seen@, priority));
                    }
                }
            },
            None => {},
        }
    }
    stats.target_list = out;
}

/// One tick of target acquisition: scan `seen`, then reorder by priority. A well-formed
/// list stays well formed: no entity twice, never the owner.
pub fn maintain_target_list(
    stats: &mut CombatStats,
    own_id: u64,
    own: Point,
    seen: &Vec<Mark>,
    priority: Option<u64>,
)
    ensures
        same_but_targets(*final(stats), *old(stats)),
        final(stats).target_list@.to_multiset() == acquired(
            old(stats).target_list@,
            own_id,
            own,
            old(stats).aggro_radius as int,
            seen@,
        ).to_multiset(),
        in_priority_order(final(stats).target_list@, own, seen@, priority),
        forall|p: u64|
            priority == Some(p) && acquired(
                old(stats).target_list@,
                own_id,
                own,
                old(stats).aggro_radius as int,
                seen@,
            ).contains(p) ==> final(stats).target_list@[0] == p,
        valid_targets(old(stats).target_list@, own_id) ==> valid_targets(
            final(stats).target_list@,
            own_id,
        ),
        forall|k: int|
            #[trigger] keyed(final(stats).target_list@, k, own, seen@, priority) == keyed(
                acquired(old(stats).target_list@, own_id, own, old(stats).aggro_radius as int, seen@),
                k,
                own,
                seen@,
                priority,
            ),
{
    acquire_targets(stats, own_id, own, seen);
    let ghost mid = stats.target_list@;
    prioritize_targets(stats, own, seen, priority);
    proof {
        if valid_targets(old(stats).target_list@, own_id) {
            lemma_acquired_valid(old(stats).target_list@, own_id, own, old(stats).aggro_radius as int, seen@);
            mid.lemma_multiset_has_no_duplicates();
            stats.target_list@.lemma_multiset_has_no_duplicates_conv();
            assert(mid.to_multiset().count(own_id) == 0);
        }
    }
}

/// An attack of `attacker` at `attacker_pos` on `target` at `target_pos` lands: the
/// cooldown has run out, the target is alive and within range.
pub open spec fn attack_lands(attacker: CombatStats, attacker_pos: Point, target: CombatStats, target_pos: Point) -> bool {
    attacker.cooldown <= 0 && target.health > 0 && closer_than(
        attacker_pos,
        target_pos,
        attacker.attack_range as int,
    )
}

/// The results of one attack step stay within the integer range.
pub open spec fn attack_fits(attacker: CombatStats, target: CombatStats, dt_ms: int, wear: int) -> bool {
    &&& i64::MIN <= target.health - attacker.base_damage <= i64::MAX
    &&& i64::MIN <= attacker.attack_rate * dt_ms <= i64::MAX
    &&& i64::MIN <= attacker.cooldown - dt_ms
    &&& i64::MIN <= attacker.health - wear <= i64::MAX
}

/// Records after an attack lands: the target loses the attacker's damage, the attacker's
/// cooldown is re-armed to `attack_rate * dt_ms` and it wears down by `wear`.
pub open spec fn strike(a: CombatStats, t: CombatStats, dt_ms: int, wear: int) -> (CombatStats, CombatStats) {
    (
        CombatStats { cooldown: (a.attack_rate * dt_ms) as i64, health: (a.health - wear) as i64, ..a },
        CombatStats { health: (t.health - a.base_damage) as i64, ..t },
    )
}

/// Attacker's record after a step in which its attack did not land: the cooldown runs down
/// by `dt_ms`, never clamped.
pub open spec fn hold(a: CombatStats, dt_ms: int) -> CombatStats {
    CombatStats { cooldown: (a.cooldown - dt_ms) as i64, ..a }
}

/// One attack step of `attacker` against its primary target: `strike` when the attack
/// lands, else `hold`. Returns whether the attack landed.
pub fn attack_target(
    attacker: &mut CombatStats,
    attacker_pos: Point,
    target: &mut CombatStats,
    target_pos: Point,
    dt_ms: u32,
    wear: i64,
) -> (struck: bool)
    requires
        attack_fits(*old(attacker), *old(target), dt_ms as int, wear as int),
    ensures
        struck == attack_lands(*old(attacker), attacker_pos, *old(target), target_pos),
        struck ==> (*final(attacker), *final(target)) == strike(*old(attacker), *old(target), dt_ms as int, wear as int),
        !struck ==> *final(attacker) == hold(*old(attacker), dt_ms as int),
        !struck ==> *final(target) == *old(target),
{
    if attacker.cooldown <= 0 && target.health > 0 && is_closer_than(
        attacker_pos,
        target_pos,
        attacker.attack_range,
    ) {
        target.health = target.health - attacker.base_damage;
        attacker.cooldown = attacker.attack_rate * dt_ms as i64;
        attacker.health = attacker.health - wear;
        true
    } else {
        attacker.cooldown = attacker.cooldown - dt_ms as i64;
        false
    }
}

/// A combatant placed in the world.
pub struct Combatant {
    pub id: u64,
    pub position: Point,
    pub stats: CombatStats,
}

} // verus!

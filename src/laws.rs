//! Properties that hold across the simulation's operations, proved from their
//! contracts.

use vstd::prelude::*;
use crate::combat::{alive, at_cell, fallen, hurt_by, is_sword, off_cell, strike, strikes};
use crate::entities::{damaged, fresh, Enemy, EnemyAction, Item, ItemKind, DP};
use crate::geometry::{dist, orth_adjacent, Pos};
use crate::level::{near_core, LevelMap};
use crate::logic::{action_target, day_accepts, day_step, expand_step, spawn_cells, spawned};
use crate::model::{Action, Model, State, TURNS_PER_DAY};
use crate::night::{night_open, night_result, occupied, taken_before};

verus! {

/// No two enemies of `s` share a cell, and none stands on `player`.
pub open spec fn apart(s: Seq<Enemy>, player: Pos) -> bool {
    &&& forall|i: int, j: int|
        0 <= i < s.len() && 0 <= j < s.len() && i != j ==> (#[trigger] s[i]).pos != (#[trigger] s[j]).pos
    &&& forall|i: int| 0 <= i < s.len() ==> (#[trigger] s[i]).pos != player
}

/// After a night pass every enemy stands where it stood or on one of the
/// four cells next to it; where no two enemies shared a cell and none stood
/// on the player before, the same holds after.
pub proof fn lemma_night_bounded(lm: LevelMap, player: Pos, before: Seq<Enemy>, after: Seq<Enemy>)
    requires
        night_result(lm, player, before, after),
    ensures
        forall|i: int|
            0 <= i < after.len() ==> (#[trigger] after[i]).pos == before[i].pos || orth_adjacent(
                before[i].pos,
                after[i].pos,
            ),
        apart(before, player) ==> apart(after, player),
{
    if apart(before, player) {
        assert forall|i: int, j: int|
            0 <= i < after.len() && 0 <= j < after.len() && i != j implies (#[trigger] after[i]).pos
            != (#[trigger] after[j]).pos by {
            let (a, b) = if i < j {
                (i, j)
            } else {
                (j, i)
            };
            if after[b].pos != before[b].pos {
                if after[a].pos == after[b].pos {
                    assert(taken_before(after, b, after[b].pos));
                }
            } else if after[a].pos != before[a].pos {
                assert(night_open(lm, player, before, after[a].pos));
                if after[a].pos == after[b].pos {
                    assert(occupied(before, after[a].pos)) by {
                        assert(before[b].pos == after[a].pos);
                    }
                }
            } else {
                assert(before[a].pos != before[b].pos);
            }
        }
        assert forall|i: int| 0 <= i < after.len() implies (#[trigger] after[i]).pos != player by {
            assert(before[i].pos != player);
        }
    }
}

/// One weapon swing splits the live enemies by their health afterwards:
/// those still alive stay live and flinch, the others join the dying, after
/// those already dying, and die; nobody else changes.
pub proof fn lemma_lethal_split(live: Seq<Enemy>, dying: Seq<Enemy>, damage: DP)
    ensures
        ({
            let (l, d) = strike(live, dying, damage);
            &&& forall|k: int|
                0 <= k < l.len() ==> (#[trigger] l[k]).health > 0 && l[k].state == fresh(
                    EnemyAction::TakeDamage,
                )
            &&& d.len() >= dying.len()
            &&& d.take(dying.len() as int) == dying
            &&& forall|k: int|
                dying.len() <= k < d.len() ==> (#[trigger] d[k]).health <= 0 && d[k].state == fresh(
                    EnemyAction::Die,
                )
            &&& forall|i: int|
                0 <= i < live.len() ==> if damaged(#[trigger] live[i], damage).health > 0 {
                    l.contains(damaged(live[i], damage))
                } else {
                    d.contains(damaged(live[i], damage))
                }
        }),
{
    broadcast use vstd::seq_lib::group_filter_ensures;

    let hurt = live.map_values(hurt_by(damage));
    let (l, d) = strike(live, dying, damage);
    let dead = hurt.filter(fallen());
    assert(d == dying + dead);
    assert(d.take(dying.len() as int) =~= dying);
    assert forall|k: int| 0 <= k < l.len() implies (#[trigger] l[k]).health > 0 && l[k].state
        == fresh(EnemyAction::TakeDamage) by {
        assert(alive()(l[k]));
        assert(hurt.filter(alive()).contains(l[k]));
        hurt.lemma_filter_contains_rev(alive(), l[k]);
        let m = choose|m: int| 0 <= m < hurt.len() && hurt[m] == l[k];
        assert(hurt.len() == live.len());
        assert(hurt[m] == hurt_by(damage)(live[m]));
        assert(hurt[m] == damaged(live[m], damage));
    }
    assert forall|k: int| dying.len() <= k < d.len() implies (#[trigger] d[k]).health <= 0
        && d[k].state == fresh(EnemyAction::Die) by {
        let k2 = k - dying.len();
        assert(d[k] == dead[k2]);
        assert(fallen()(dead[k2]));
        assert(dead.contains(dead[k2]));
        hurt.lemma_filter_contains_rev(fallen(), dead[k2]);
        let m = choose|m: int| 0 <= m < hurt.len() && hurt[m] == dead[k2];
        assert(hurt.len() == live.len());
        assert(hurt[m] == hurt_by(damage)(live[m]));
        assert(hurt[m] == damaged(live[m], damage));
    }
    assert forall|i: int| 0 <= i < live.len() implies if damaged(#[trigger] live[i], damage).health
        > 0 {
        l.contains(damaged(live[i], damage))
    } else {
        d.contains(damaged(live[i], damage))
    } by {
        assert(hurt[i] == damaged(live[i], damage));
        if damaged(live[i], damage).health <= 0 {
            assert(dead.contains(hurt[i]));
            let m = choose|m: int| 0 <= m < dead.len() && dead[m] == hurt[i];
            assert(d[dying.len() + m] == hurt[i]);
        }
    }
}

/// A step in one of the four directions moves the player onto the cell it
/// names when that cell is explored and no live enemy stands there; otherwise
/// the player stays where they were.
pub proof fn lemma_move_legality(m: Model, action: Action, n: Model)
    requires
        day_step(m, action, n),
        !(action is MoveTo),
    ensures
        match action_target(m.player.pos, action) {
            Some(t) => if m.level_map.inside_spec(t) && !m.level_map.enemy_at_spec(t) {
                n.player.pos == t
            } else {
                n.player.pos == m.player.pos
            },
            None => n.player.pos == m.player.pos,
        },
{
}

proof fn lemma_filter_empty<A>(p: spec_fn(A) -> bool)
    ensures
        Seq::<A>::empty().filter(p) == Seq::<A>::empty(),
{
    reveal(Seq::filter);
    assert(Seq::<A>::empty().filter(p) =~= Seq::<A>::empty());
}

proof fn lemma_filter_single<A>(x: A, p: spec_fn(A) -> bool)
    ensures
        seq![x].filter(p) == if p(x) {
            seq![x]
        } else {
            Seq::<A>::empty()
        },
{
    lemma_filter_empty(p);
    Seq::<A>::empty().lemma_filter_push(x, p);
    assert(Seq::<A>::empty().push(x) =~= seq![x]);
}

proof fn lemma_filter_commute<A>(s: Seq<A>, p: spec_fn(A) -> bool, q: spec_fn(A) -> bool)
    ensures
        s.filter(p).filter(q) == s.filter(q).filter(p),
    decreases s.len(),
{
    if s.len() == 0 {
        lemma_filter_empty(p);
        lemma_filter_empty(q);
        assert(s =~= Seq::<A>::empty());
    } else {
        let r = s.drop_last();
        let x = s.last();
        lemma_filter_commute(r, p, q);
        assert(s =~= r.push(x));
        r.lemma_filter_push(x, p);
        r.lemma_filter_push(x, q);
        r.filter(p).lemma_filter_push(x, q);
        r.filter(q).lemma_filter_push(x, p);
    }
}

/// A move that picks up the map's only weapon leaves it on the map: the
/// item list still holds exactly that weapon, with its damage, on the
/// player's new cell.
pub proof fn lemma_weapon_kept(m: Model, action: Action, n: Model, w: Item)
    requires
        day_step(m, action, n),
        day_accepts(m, action),
        m.level_map.items@.filter(is_sword()) == seq![w],
        action_target(m.player.pos, action) == Some(w.pos),
    ensures
        n.level_map.items@.filter(is_sword()) == seq![w],
        w.pos == n.player.pos,
{
    let t = w.pos;
    let a = m.level_map.items@;
    assert(w.kind is Sword) by {
        assert(seq![w].contains(w)) by {
            assert(seq![w][0] == w);
        }
        a.lemma_filter_pred(is_sword(), 0);
    }
    lemma_filter_commute(a, off_cell(t), is_sword());
    lemma_filter_commute(a, at_cell(t), is_sword());
    lemma_filter_single(w, off_cell(t));
    lemma_filter_single(w, at_cell(t));
    lemma_filter_single(w, is_sword());
    Seq::filter_distributes_over_add(
        a.filter(off_cell(t)),
        a.filter(at_cell(t)).filter(is_sword()),
        is_sword(),
    );
    assert(Seq::<Item>::empty() + seq![w] =~= seq![w]);
}

/// With one live enemy left, a move onto a lone weapon that deals it lethal
/// damage clears the map of live enemies and opens the expansion phase.
pub proof fn lemma_clearing_expands(m: Model, action: Action, n: Model, e: Enemy, damage: DP)
    requires
        m.state == State::Day,
        day_step(m, action, n),
        day_accepts(m, action),
        m.level_map.enemies@ == seq![e],
        m.level_map.items@.filter(at_cell(action_target(m.player.pos, action)->Some_0)) == seq![
            Item { pos: action_target(m.player.pos, action)->Some_0, kind: ItemKind::Sword { damage } },
        ],
        damaged(e, damage).health <= 0,
    ensures
        n.state == State::ExpandMap,
        n.level_map.enemies@.len() == 0,
        n.level_map.dead_enemies@ == m.level_map.dead_enemies@.push(damaged(e, damage)),
{
    let t = action_target(m.player.pos, action)->Some_0;
    let w = Item { pos: t, kind: ItemKind::Sword { damage } };
    let live = m.level_map.enemies@;
    let dying = m.level_map.dead_enemies@;
    assert(seq![w].drop_last() =~= Seq::<Item>::empty());
    assert(strikes(live, dying, Seq::<Item>::empty()) == (live, dying));
    assert(seq![w].last() == w);
    assert(strikes(live, dying, seq![w]) == strike(live, dying, damage));
    let hurt = live.map_values(hurt_by(damage));
    assert(hurt =~= seq![damaged(e, damage)]);
    lemma_filter_single(damaged(e, damage), alive());
    lemma_filter_single(damaged(e, damage), fallen());
    assert(dying + seq![damaged(e, damage)] =~= dying.push(damaged(e, damage)));
}

/// On the last turn of a day, an accepted move that leaves some enemy alive
/// brings the night, and the night hands over to a new day with a full turn
/// budget.
pub proof fn lemma_last_turn_brings_night(m: Model, action: Action, n: Model)
    requires
        m.state == State::Day,
        m.player.turns_remaining == 1,
        day_step(m, action, n),
        day_accepts(m, action),
        n.level_map.enemies@.len() > 0,
    ensures
        n.state == State::Day,
        n.player.turns_remaining == TURNS_PER_DAY,
        night_result(
            n.level_map,
            n.player.pos,
            strikes(
                m.level_map.enemies@,
                m.level_map.dead_enemies@,
                m.level_map.items@.filter(at_cell(n.player.pos)),
            ).0,
            n.level_map.enemies@,
        ),
{
}

/// How far `v` lies outside `[0, hi)`.
pub open spec fn gap(v: int, hi: int) -> int {
    if v < 0 {
        -v
    } else if v >= hi {
        v - hi + 1
    } else {
        0
    }
}

/// The Manhattan distance from `p` to the core rectangle.
pub open spec fn core_dist(size: Pos, p: Pos) -> int {
    gap(p.x as int, size.x as int) + gap(p.y as int, size.y as int)
}

/// A proposed expansion cell two steps from the core rectangle and at least
/// two steps from every expansion cell is refused: nothing changes.
pub proof fn lemma_far_cell_refused(m: Model, p: Pos, n: Model)
    requires
        expand_step(m, Action::MoveTo(p), n),
        core_dist(m.level_map.size, p) == 2,
        forall|i: int|
            0 <= i < m.level_map.expansion_cells@.len() ==> dist(
                #[trigger] m.level_map.expansion_cells@[i],
                p,
            ) >= 2,
    ensures
        n == m,
{
    assert(!near_core(m.level_map.size, p));
    assert(!m.level_map.next_to_expansion(p));
}

/// An unexplored cell that touches the core rectangle along an edge is
/// accepted: it joins the expansion cells and a new day begins.
pub proof fn lemma_touching_cell_accepted(m: Model, p: Pos, n: Model)
    requires
        expand_step(m, Action::MoveTo(p), n),
        near_core(m.level_map.size, p),
        !m.level_map.inside_spec(p),
    ensures
        n.level_map.expansion_cells@ == m.level_map.expansion_cells@.push(p),
        n.state == State::Day,
        n.player.turns_remaining == TURNS_PER_DAY,
{
    let (mid, cell) = choose|mid: Model, cell: Option<Pos>|
        {
            &&& mid.level_map.expansion_cells@ == m.level_map.expansion_cells@.push(p)
            &&& mid.level_map.size == m.level_map.size
            &&& mid.level_map.items == m.level_map.items
            &&& mid.level_map.enemies == m.level_map.enemies
            &&& mid.level_map.dead_enemies == m.level_map.dead_enemies
            &&& mid.state == State::Day
            &&& mid.player.turns_remaining == TURNS_PER_DAY
            &&& mid.player.pos == m.player.pos
            &&& mid.player.health == m.player.health
            &&& mid.player.backpack == m.player.backpack
            &&& mid.camera_center == m.camera_center
            &&& mid.effects@ == m.effects@
            &&& (cell is None <==> spawn_cells(mid).len() == 0)
            &&& (cell matches Some(c) ==> spawn_cells(mid).contains(c))
            &&& #[trigger] spawned(mid, cell, n)
        };
}

} // verus!

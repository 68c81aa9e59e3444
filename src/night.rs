//! The night pass: every live enemy tries one step to a random free neighbour.

use vstd::prelude::*;
use crate::calls::choose_cell;
use crate::entities::Enemy;
use crate::geometry::{offset, orth_adjacent, Pos};
use crate::level::LevelMap;
use crate::model::{Model, State, TURNS_PER_DAY};

verus! {

/// Whether some enemy of `s` stood at `q`.
pub open spec fn occupied(s: Seq<Enemy>, q: Pos) -> bool {
    exists|k: int| 0 <= k < s.len() && (#[trigger] s[k]).pos == q
}

/// A cell an enemy may step into at night, judged against the positions
/// `before` the pass: explored, not the player's, no enemy, no item.
pub open spec fn night_open(lm: LevelMap, player: Pos, before: Seq<Enemy>, q: Pos) -> bool {
    lm.inside_spec(q) && q != player && !occupied(before, q) && !lm.item_at_spec(q)
}

/// Whether one of the first `i` enemies of `s` stands at `q`.
pub open spec fn taken_before(s: Seq<Enemy>, i: int, q: Pos) -> bool {
    exists|j: int| 0 <= j < i && (#[trigger] s[j]).pos == q
}

/// What a night pass may do to the live enemies, taken in order: each one
/// keeps all but its position; one that moves takes a single step into a cell
/// that was open before the pass and that none of the enemies before it took;
/// one that stays had no such cell next to it.
pub open spec fn night_result(lm: LevelMap, player: Pos, before: Seq<Enemy>, after: Seq<Enemy>) -> bool {
    &&& after.len() == before.len()
    &&& forall|i: int|
        0 <= i < after.len() ==> #[trigger] after[i] == (Enemy { pos: after[i].pos, ..before[i] })
    &&& forall|i: int|
        0 <= i < after.len() && (#[trigger] after[i]).pos != before[i].pos ==> {
            &&& orth_adjacent(before[i].pos, after[i].pos)
            &&& night_open(lm, player, before, after[i].pos)
            &&& !taken_before(after, i, after[i].pos)
        }
    &&& forall|i: int, q: Pos|
        0 <= i < after.len() && (#[trigger] after[i]).pos == before[i].pos && #[trigger] orth_adjacent(
            before[i].pos,
            q,
        ) ==> !night_open(lm, player, before, q) || taken_before(after, i, q)
}

impl Model {
    /// The free cells next to enemy `i`: explored, not the player's, with no
    /// enemy now nor before the pass (`snapshot`), and no item.
    fn night_candidates(&self, snapshot: &Vec<Pos>, i: usize) -> (r: Vec<Pos>)
        requires
            i < self.level_map.enemies@.len(),
        ensures
            forall|q: Pos|
                #[trigger] r@.contains(q) <==> {
                    &&& orth_adjacent(self.level_map.enemies@[i as int].pos, q)
                    &&& self.level_map.inside_spec(q)
                    &&& q != self.player.pos
                    &&& !snapshot@.contains(q)
                    &&& !self.level_map.enemy_at_spec(q)
                    &&& !self.level_map.item_at_spec(q)
                },
    {
        let p = self.level_map.enemies[i].pos;
        let mut out: Vec<Pos> = Vec::new();
        self.push_if_free(&mut out, snapshot, p, -1, 0);
        self.push_if_free(&mut out, snapshot, p, 0, -1);
        self.push_if_free(&mut out, snapshot, p, 1, 0);
        self.push_if_free(&mut out, snapshot, p, 0, 1);
        proof {
            assert forall|q: Pos| #[trigger] out@.contains(q) implies orth_adjacent(p, q) by {}
        }
        out
    }

    fn push_if_free(&self, out: &mut Vec<Pos>, snapshot: &Vec<Pos>, p: Pos, dx: i64, dy: i64)
        requires
            (dx == 0 && (dy == 1 || dy == -1)) || (dy == 0 && (dx == 1 || dx == -1)),
            forall|q: Pos| #[trigger] old(out)@.contains(q) ==> orth_adjacent(p, q) && self.free_at_night(snapshot@, q),
        ensures
            forall|q: Pos|
                #[trigger] final(out)@.contains(q) <==> (old(out)@.contains(q) || (q.x == p.x + dx
                    && q.y == p.y + dy && self.free_at_night(snapshot@, q))),
            forall|q: Pos| #[trigger] final(out)@.contains(q) ==> orth_adjacent(p, q) && self.free_at_night(snapshot@, q),
    {
        let ghost before = out@;
        match offset(p, dx, dy) {
            Some(q) => {
                if self.level_map.inside(q) && q != self.player.pos && !contains_pos(snapshot, q)
                    && !self.level_map.enemy_at(q) && !self.level_map.item_at(q) {
                    out.push(q);
                    proof {
                        assert forall|c: Pos| #[trigger] out@.contains(c) <==> (before.contains(c) || c == q) by {
                            if out@.contains(c) {
                                let j = choose|j: int| 0 <= j < out@.len() && out@[j] == c;
                                if j < before.len() {
                                    assert(before[j] == c);
                                }
                            }
                            if before.contains(c) {
                                let j = choose|j: int| 0 <= j < before.len() && before[j] == c;
                                assert(out@[j] == c);
                            }
                            if c == q {
                                assert(out@[before.len() as int] == c);
                            }
                        }
                    }
                }
            },
            None => {},
        }
    }

    /// Starts a new day with a full turn budget.
    pub fn phase_day(&mut self)
        ensures
            final(self).state == State::Day,
            final(self).player.turns_remaining == TURNS_PER_DAY,
            final(self).player.pos == old(self).player.pos,
            final(self).player.health == old(self).player.health,
            final(self).player.backpack == old(self).player.backpack,
            final(self).level_map == old(self).level_map,
            final(self).camera_center == old(self).camera_center,
            final(self).effects@ == old(self).effects@,
    {
        self.state = State::Day;
        self.player.turns_remaining = TURNS_PER_DAY;
    }

    /// The night: each live enemy in turn steps to a uniformly chosen free
    /// neighbour, if it has one (see `night_result`); then a new day begins.
    pub fn phase_night(&mut self)
        ensures
            night_result(
                old(self).level_map,
                old(self).player.pos,
                old(self).level_map.enemies@,
                final(self).level_map.enemies@,
            ),
            final(self).state == State::Day,
            final(self).player.turns_remaining == TURNS_PER_DAY,
            final(self).player.pos == old(self).player.pos,
            final(self).player.health == old(self).player.health,
            final(self).player.backpack == old(self).player.backpack,
            final(self).level_map.size == old(self).level_map.size,
            final(self).level_map.items == old(self).level_map.items,
            final(self).level_map.dead_enemies == old(self).level_map.dead_enemies,
            final(self).level_map.expansion_cells == old(self).level_map.expansion_cells,
            final(self).camera_center == old(self).camera_center,
            final(self).effects@ == old(self).effects@,
    {
        self.state = State::Night;
        let ghost lm0 = self.level_map;
        let ghost before = self.level_map.enemies@;
        let player = self.player.pos;
        let n = self.level_map.enemies.len();
        let mut snapshot: Vec<Pos> = Vec::new();
        let mut k: usize = 0;
        while k < n
            invariant
                n == before.len(),
                before == self.level_map.enemies@,
                0 <= k <= n,
                snapshot@.len() == k,
                forall|j: int| 0 <= j < k ==> #[trigger] snapshot@[j] == before[j].pos,
            decreases n - k,
        {
            snapshot.push(self.level_map.enemies[k].pos);
            k += 1;
        }
        assert forall|q: Pos| #[trigger] snapshot@.contains(q) <==> occupied(before, q) by {
            if snapshot@.contains(q) {
                let j = choose|j: int| 0 <= j < snapshot@.len() && snapshot@[j] == q;
                assert(before[j].pos == q);
            }
            if occupied(before, q) {
                let j = choose|j: int| 0 <= j < before.len() && (#[trigger] before[j]).pos == q;
                assert(snapshot@[j] == q);
            }
        }
        let mut i: usize = 0;
        while i < n
            invariant
                n == before.len() == self.level_map.enemies@.len(),
                0 <= i <= n,
                lm0 == old(self).level_map,
                before == old(self).level_map.enemies@,
                player == self.player.pos,
                forall|q: Pos| #[trigger] snapshot@.contains(q) <==> occupied(before, q),
                forall|j: int|
                    0 <= j < n ==> #[trigger] self.level_map.enemies@[j] == (Enemy {
                        pos: self.level_map.enemies@[j].pos,
                        ..before[j]
                    }),
                forall|j: int| i <= j < n ==> #[trigger] self.level_map.enemies@[j].pos == before[j].pos,
                forall|j: int|
                    0 <= j < i && (#[trigger] self.level_map.enemies@[j]).pos != before[j].pos ==> {
                        &&& orth_adjacent(before[j].pos, self.level_map.enemies@[j].pos)
                        &&& night_open(lm0, player, before, self.level_map.enemies@[j].pos)
                        &&& !taken_before(self.level_map.enemies@, j, self.level_map.enemies@[j].pos)
                    },
                forall|j: int, q: Pos|
                    0 <= j < i && (#[trigger] self.level_map.enemies@[j]).pos == before[j].pos
                        && #[trigger] orth_adjacent(before[j].pos, q) ==> !night_open(
                        lm0,
                        player,
                        before,
                        q,
                    ) || taken_before(self.level_map.enemies@, j, q),
                self.state == State::Night,
                self.player == old(self).player,
                self.level_map.size == lm0.size,
                self.level_map.items == lm0.items,
                self.level_map.dead_enemies == lm0.dead_enemies,
                self.level_map.expansion_cells == lm0.expansion_cells,
                self.camera_center == old(self).camera_center,
                self.effects@ == old(self).effects@,
            decreases n - i,
        {
            let ghost cur = self.level_map.enemies@;
            let ghost cur_map = self.level_map;
            let candidates = self.night_candidates(&snapshot, i);
            let choice = choose_cell(&candidates);
            match choice {
                Some(target) => {
                    self.level_map.enemies[i].pos = target;
                },
                None => {},
            }
            proof {
                let now = self.level_map.enemies@;
                assert forall|j: int, q: Pos| 0 <= j <= i implies taken_before(now, j, q)
                    == taken_before(cur, j, q) by {
                    if taken_before(now, j, q) {
                        let m = choose|m: int| 0 <= m < j && (#[trigger] now[m]).pos == q;
                        assert(cur[m].pos == q);
                    }
                    if taken_before(cur, j, q) {
                        let m = choose|m: int| 0 <= m < j && (#[trigger] cur[m]).pos == q;
                        assert(now[m].pos == q);
                    }
                }
                assert forall|q: Pos|
                    night_open(lm0, player, before, q) && !taken_before(cur, i as int, q)
                        implies !occupied(cur, q) by {
                    if occupied(cur, q) {
                        let m = choose|m: int| 0 <= m < cur.len() && (#[trigger] cur[m]).pos == q;
                        if m >= i {
                            assert(before[m].pos == q);
                        }
                    }
                }
                assert forall|q: Pos| occupied(cur, q) && night_open(lm0, player, before, q)
                    implies taken_before(cur, i as int, q) by {
                    let m = choose|m: int| 0 <= m < cur.len() && (#[trigger] cur[m]).pos == q;
                    if m >= i {
                        assert(before[m].pos == q);
                    }
                }
                if now[i as int].pos == before[i as int].pos {
                    assert(choice is None);
                    assert forall|q: Pos| #[trigger] orth_adjacent(before[i as int].pos, q)
                        implies !night_open(lm0, player, before, q) || taken_before(now, i as int, q) by {
                        if night_open(lm0, player, before, q) {
                            assert(!candidates@.contains(q));
                            assert(cur_map.enemy_at_spec(q));
                            let m = choose|m: int| 0 <= m < cur.len() && (#[trigger] cur[m]).pos == q;
                            assert(occupied(cur, q));
                        }
                    }
                }
            }
            i += 1;
        }
        self.phase_day();
    }

    pub open spec fn free_at_night(&self, snapshot: Seq<Pos>, q: Pos) -> bool {
        &&& self.level_map.inside_spec(q)
        &&& q != self.player.pos
        &&& !snapshot.contains(q)
        &&& !self.level_map.enemy_at_spec(q)
        &&& !self.level_map.item_at_spec(q)
    }
}

fn contains_pos(v: &Vec<Pos>, p: Pos) -> (r: bool)
    ensures
        r == v@.contains(p),
{
    let mut i: usize = 0;
    while i < v.len()
        invariant
            0 <= i <= v@.len(),
            forall|j: int| 0 <= j < i ==> v@[j] != p,
        decreases v@.len() - i,
    {
        if v[i] == p {
            return true;
        }
        i += 1;
    }
    false
}

} // verus!

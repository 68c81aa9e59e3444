//! Entering a cell: picking up what lies there and swinging any weapon found.

use vstd::prelude::*;
use crate::entities::{damaged, Enemy, Ingredient, Item, ItemKind, DP};
use crate::geometry::Pos;
use crate::model::Model;

verus! {

pub open spec fn at_cell(t: Pos) -> spec_fn(Item) -> bool {
    |i: Item| i.pos == t
}

pub open spec fn off_cell(t: Pos) -> spec_fn(Item) -> bool {
    |i: Item| i.pos != t
}

pub open spec fn is_sword() -> spec_fn(Item) -> bool {
    |i: Item| i.kind is Sword
}

pub open spec fn alive() -> spec_fn(Enemy) -> bool {
    |e: Enemy| e.health > 0
}

pub open spec fn fallen() -> spec_fn(Enemy) -> bool {
    |e: Enemy| e.health <= 0
}

pub open spec fn hurt_by(damage: DP) -> spec_fn(Enemy) -> Enemy {
    |e: Enemy| damaged(e, damage)
}

/// The ingredients among `s`, in order.
pub open spec fn picked(s: Seq<Item>) -> Seq<Ingredient>
    decreases s.len(),
{
    if s.len() == 0 {
        Seq::empty()
    } else {
        let r = picked(s.drop_last());
        match s.last().kind {
            ItemKind::Ingredient(g) => r.push(g),
            _ => r,
        }
    }
}

/// One weapon swing against every live enemy: the live and the dying
/// enemies afterwards. Those left without health join the dying, in order.
pub open spec fn strike(live: Seq<Enemy>, dying: Seq<Enemy>, damage: DP) -> (Seq<Enemy>, Seq<Enemy>) {
    let hurt = live.map_values(hurt_by(damage));
    (hurt.filter(alive()), dying + hurt.filter(fallen()))
}

/// The live and dying enemies after the weapons among `s` were swung in turn.
pub open spec fn strikes(live: Seq<Enemy>, dying: Seq<Enemy>, s: Seq<Item>) -> (Seq<Enemy>, Seq<Enemy>)
    decreases s.len(),
{
    if s.len() == 0 {
        (live, dying)
    } else {
        let (l, d) = strikes(live, dying, s.drop_last());
        match s.last().kind {
            ItemKind::Sword { damage } => strike(l, d, damage),
            _ => (l, d),
        }
    }
}

pub open spec fn has_sword(s: Seq<Item>) -> bool {
    exists|k: int| 0 <= k < s.len() && (#[trigger] s[k]).kind is Sword
}

impl Model {
    /// Swings a weapon of `damage` at every live enemy. Returns whether any
    /// enemy was hit.
    fn strike_enemies(&mut self, damage: DP) -> (r: bool)
        ensures
            (final(self).level_map.enemies@, final(self).level_map.dead_enemies@) == strike(
                old(self).level_map.enemies@,
                old(self).level_map.dead_enemies@,
                damage,
            ),
            r == (old(self).level_map.enemies@.len() > 0),
            final(self).level_map.items@ == old(self).level_map.items@,
            final(self).level_map.size == old(self).level_map.size,
            final(self).level_map.expansion_cells@ == old(self).level_map.expansion_cells@,
            final(self).player == old(self).player,
            final(self).camera_center == old(self).camera_center,
            final(self).effects@ == old(self).effects@,
            final(self).state == old(self).state,
    {
        let ghost live0 = self.level_map.enemies@;
        let ghost dying0 = self.level_map.dead_enemies@;
        let mut live: Vec<Enemy> = Vec::new();
        let mut i: usize = 0;
        while i < self.level_map.enemies.len()
            invariant
                live0 == self.level_map.enemies@,
                0 <= i <= live0.len(),
                live@ == live0.take(i as int).map_values(hurt_by(damage)).filter(alive()),
                self.level_map.dead_enemies@ == dying0 + live0.take(i as int).map_values(
                    hurt_by(damage),
                ).filter(fallen()),
                self.level_map.items@ == old(self).level_map.items@,
                self.level_map.size == old(self).level_map.size,
                self.level_map.expansion_cells@ == old(self).level_map.expansion_cells@,
                self.player == old(self).player,
                self.camera_center == old(self).camera_center,
                self.effects@ == old(self).effects@,
                self.state == old(self).state,
                live0 == old(self).level_map.enemies@,
                dying0 == old(self).level_map.dead_enemies@,
            decreases live0.len() - i,
        {
            let mut e = self.level_map.enemies[i];
            e.take_damage(damage);
            let ghost pre = live0.take(i as int).map_values(hurt_by(damage));
            assert(live0.take(i + 1).map_values(hurt_by(damage)) =~= pre.push(e));
            proof {
                pre.lemma_filter_push(e, alive());
                pre.lemma_filter_push(e, fallen());
            }
            if e.health > 0 {
                live.push(e);
            } else {
                self.level_map.dead_enemies.push(e);
                assert(self.level_map.dead_enemies@ =~= dying0 + pre.push(e).filter(fallen()));
            }
            i += 1;
        }
        assert(live0.take(i as int) =~= live0);
        let hit = self.level_map.enemies.len() > 0;
        self.level_map.enemies = live;
        hit
    }

    /// Resolves the player's entry into `target`: the items lying there are
    /// taken off the list; each weapon among them, in order, is swung at every
    /// live enemy and put back at `target`; each ingredient goes to the
    /// backpack. Returns whether an enemy was hit.
    pub fn resolve_entry(&mut self, target: Pos) -> (hit: bool)
        ensures
            final(self).level_map.items@ == old(self).level_map.items@.filter(off_cell(target))
                + old(self).level_map.items@.filter(at_cell(target)).filter(is_sword()),
            final(self).player.backpack.ingredients@ == old(self).player.backpack.ingredients@
                + picked(old(self).level_map.items@.filter(at_cell(target))),
            (final(self).level_map.enemies@, final(self).level_map.dead_enemies@) == strikes(
                old(self).level_map.enemies@,
                old(self).level_map.dead_enemies@,
                old(self).level_map.items@.filter(at_cell(target)),
            ),
            hit == (old(self).level_map.enemies@.len() > 0 && has_sword(
                old(self).level_map.items@.filter(at_cell(target)),
            )),
            final(self).level_map.size == old(self).level_map.size,
            final(self).level_map.expansion_cells@ == old(self).level_map.expansion_cells@,
            final(self).player.pos == old(self).player.pos,
            final(self).player.health == old(self).player.health,
            final(self).player.turns_remaining == old(self).player.turns_remaining,
            final(self).player.backpack.coins == old(self).player.backpack.coins,
            final(self).camera_center == old(self).camera_center,
            final(self).effects@ == old(self).effects@,
            final(self).state == old(self).state,
    {
        let ghost items0 = self.level_map.items@;
        let ghost ing0 = self.player.backpack.ingredients@;
        let ghost live0 = self.level_map.enemies@;
        let ghost dying0 = self.level_map.dead_enemies@;
        let mut here: Vec<Item> = Vec::new();
        let mut others: Vec<Item> = Vec::new();
        let mut i: usize = 0;
        while i < self.level_map.items.len()
            invariant
                items0 == self.level_map.items@,
                0 <= i <= items0.len(),
                here@ == items0.take(i as int).filter(at_cell(target)),
                others@ == items0.take(i as int).filter(off_cell(target)),
            decreases items0.len() - i,
        {
            let it = self.level_map.items[i];
            assert(items0.take(i + 1) =~= items0.take(i as int).push(it));
            proof {
                items0.take(i as int).lemma_filter_push(it, at_cell(target));
                items0.take(i as int).lemma_filter_push(it, off_cell(target));
            }
            if it.pos == target {
                here.push(it);
            } else {
                others.push(it);
            }
            i += 1;
        }
        assert(items0.take(i as int) =~= items0);
        self.level_map.items = others;
        let ghost at = here@;
        let mut did_hit = false;
        let mut k: usize = 0;
        while k < here.len()
            invariant
                at == here@,
                at == items0.filter(at_cell(target)),
                0 <= k <= at.len(),
                self.level_map.items@ == items0.filter(off_cell(target)) + at.take(k as int).filter(
                    is_sword(),
                ),
                self.player.backpack.ingredients@ == ing0 + picked(at.take(k as int)),
                (self.level_map.enemies@, self.level_map.dead_enemies@) == strikes(
                    live0,
                    dying0,
                    at.take(k as int),
                ),
                has_sword(at.take(k as int)) ==> did_hit == (live0.len() > 0),
                !has_sword(at.take(k as int)) ==> !did_hit && self.level_map.enemies@ == live0,
                live0.len() == 0 ==> self.level_map.enemies@.len() == 0,
                live0 == old(self).level_map.enemies@,
                dying0 == old(self).level_map.dead_enemies@,
                items0 == old(self).level_map.items@,
                ing0 == old(self).player.backpack.ingredients@,
                self.level_map.size == old(self).level_map.size,
                self.level_map.expansion_cells@ == old(self).level_map.expansion_cells@,
                self.player.pos == old(self).player.pos,
                self.player.health == old(self).player.health,
                self.player.turns_remaining == old(self).player.turns_remaining,
                self.player.backpack.coins == old(self).player.backpack.coins,
                self.camera_center == old(self).camera_center,
                self.effects@ == old(self).effects@,
                self.state == old(self).state,
            decreases at.len() - k,
        {
            let mut it = here[k];
            let ghost pre = at.take(k as int);
            assert(at.take(k + 1) =~= pre.push(it));
            assert(at.take(k + 1).drop_last() =~= pre);
            proof {
                pre.lemma_filter_push(it, is_sword());
                assert(at.contains(it)) by {
                    assert(at[k as int] == it);
                }
                items0.lemma_filter_pred(at_cell(target), k as int);
            }
            match it.kind {
                ItemKind::Sword { damage } => {
                    let struck = self.strike_enemies(damage);
                    did_hit = did_hit || struck;
                    it.pos = target;
                    self.level_map.items.push(it);
                    assert(self.level_map.items@ =~= items0.filter(off_cell(target)) + pre.push(
                        it,
                    ).filter(is_sword()));
                    proof {
                        assert(pre.push(it)[k as int].kind is Sword);
                        if live0.len() == 0 {
                            assert(self.level_map.enemies@.len() == 0);
                        }
                    }
                },
                ItemKind::Ingredient(g) => {
                    self.player.backpack.ingredients.push(g);
                    assert(self.player.backpack.ingredients@ =~= ing0 + picked(pre.push(it)));
                    proof {
                        if has_sword(pre.push(it)) {
                            let j = choose|j: int|
                                0 <= j < pre.push(it).len() && (#[trigger] pre.push(it)[j]).kind is Sword;
                            assert(pre[j] == pre.push(it)[j]);
                        }
                    }
                },
            }
            proof {
                if has_sword(pre) {
                    let j = choose|j: int| 0 <= j < pre.len() && (#[trigger] pre[j]).kind is Sword;
                    assert(pre.push(it)[j] == pre[j]);
                }
            }
            k += 1;
        }
        assert(at.take(k as int) =~= at);
        did_hit
    }
}

} // verus!

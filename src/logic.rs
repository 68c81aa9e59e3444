//! How the model changes: player input for each phase, the night pass and
//! the clock that runs enemy actions down.

use vstd::prelude::*;
use crate::calls::choose_cell;
use crate::combat::{at_cell, has_sword, is_sword, off_cell, picked, strikes};
use crate::entities::{advanced, death_done, Enemy, EnemyAction, EnemyState, Time};
use crate::geometry::{offset, orth_adjacent, shifted, unit_apart, Pos};
use crate::level::{core_cells, LevelMap};
use crate::model::{Action, Effect, Model, SoundKind, State, Unsupported, TURNS_PER_DAY};
use crate::night::night_result;

verus! {

/// The dying enemies once `dt` has passed: those whose dying ran out are gone,
/// the others are advanced, in their order.
pub open spec fn after_dying(s: Seq<Enemy>, dt: Time) -> Seq<Enemy>
    decreases s.len(),
{
    if s.len() == 0 {
        s
    } else {
        let r = after_dying(s.drop_last(), dt);
        if death_done(s.last(), dt) {
            r
        } else {
            r.push(advanced(s.last(), dt))
        }
    }
}

/// The cell an action asks the player to enter, where it can be represented.
pub open spec fn action_target(pos: Pos, action: Action) -> Option<Pos> {
    match action {
        Action::MoveTo(t) => Some(t),
        Action::MoveUp => shifted(pos, 0, 1),
        Action::MoveDown => shifted(pos, 0, -1),
        Action::MoveLeft => shifted(pos, -1, 0),
        Action::MoveRight => shifted(pos, 1, 0),
    }
}

/// Whether a day move is accepted: a single orthogonal step into an explored
/// cell where no live enemy stands.
pub open spec fn day_accepts(m: Model, action: Action) -> bool {
    match action_target(m.player.pos, action) {
        Some(t) => orth_adjacent(t, m.player.pos) && m.level_map.inside_spec(t)
            && !m.level_map.enemy_at_spec(t),
        None => false,
    }
}

/// What an accepted day move into `t` does, from `m` to `n`.
pub open spec fn day_move(m: Model, t: Pos, n: Model) -> bool {
    let at = m.level_map.items@.filter(at_cell(t));
    let struck = strikes(m.level_map.enemies@, m.level_map.dead_enemies@, at);
    let hit = m.level_map.enemies@.len() > 0 && has_sword(at);
    &&& n.player.pos == t
    &&& n.camera_center == t
    &&& n.player.health == m.player.health
    &&& n.player.backpack.coins == m.player.backpack.coins
    &&& n.player.backpack.ingredients@ == m.player.backpack.ingredients@ + picked(at)
    &&& n.level_map.items@ == m.level_map.items@.filter(off_cell(t)) + at.filter(is_sword())
    &&& n.level_map.size == m.level_map.size
    &&& n.level_map.expansion_cells@ == m.level_map.expansion_cells@
    &&& n.level_map.dead_enemies@ == struck.1
    &&& n.effects@ == if hit {
        m.effects@.push(Effect::PlaySound(SoundKind::TwoSteps)).push(
            Effect::PlaySound(SoundKind::MetalHit),
        )
    } else {
        m.effects@.push(Effect::PlaySound(SoundKind::TwoSteps))
    }
    &&& struck.0.len() == 0 ==> {
        &&& n.state == State::ExpandMap
        &&& n.player.turns_remaining == m.player.turns_remaining
        &&& n.level_map.enemies@ == struck.0
    }
    &&& struck.0.len() > 0 && m.player.turns_remaining > 1 ==> {
        &&& n.state == m.state
        &&& n.player.turns_remaining == m.player.turns_remaining - 1
        &&& n.level_map.enemies@ == struck.0
    }
    &&& struck.0.len() > 0 && m.player.turns_remaining <= 1 ==> {
        &&& n.state == State::Day
        &&& n.player.turns_remaining == TURNS_PER_DAY
        &&& night_result(n.level_map, t, struck.0, n.level_map.enemies@)
    }
}

/// What a day input does, from `m` to `n`.
pub open spec fn day_step(m: Model, action: Action, n: Model) -> bool {
    if day_accepts(m, action) {
        day_move(m, action_target(m.player.pos, action)->Some_0, n)
    } else {
        n == m
    }
}

/// Cells where a new enemy may appear: not the player's and free of items.
pub open spec fn spawn_ok(lm: LevelMap, player: Pos) -> spec_fn(Pos) -> bool {
    |c: Pos| c != player && !lm.item_at_spec(c)
}

/// The explored cells where a new enemy may appear, in the order of `cells_iter`.
pub open spec fn spawn_cells(m: Model) -> Seq<Pos> {
    (core_cells(m.level_map.size) + m.level_map.expansion_cells@).filter(
        spawn_ok(m.level_map, m.player.pos),
    )
}

/// What spawning on `cell` does, from `m` to `n`: nothing where no cell was
/// picked; else a new enemy appears there and a robot sound is queued.
pub open spec fn spawned(m: Model, cell: Option<Pos>, n: Model) -> bool {
    match cell {
        None => n == m,
        Some(c) => {
            &&& n.level_map.enemies@ == m.level_map.enemies@.push(Enemy::new_spec(c))
            &&& n.effects@ == m.effects@.push(Effect::PlaySound(SoundKind::RobotMove))
            &&& n.level_map.size == m.level_map.size
            &&& n.level_map.items == m.level_map.items
            &&& n.level_map.dead_enemies == m.level_map.dead_enemies
            &&& n.level_map.expansion_cells == m.level_map.expansion_cells
            &&& n.player == m.player
            &&& n.camera_center == m.camera_center
            &&& n.state == m.state
        },
    }
}

/// What an input in the expansion phase does, from `m` to `n`: only a
/// `MoveTo` onto a cell that may be added to the explored region counts; the
/// cell is added, a new day begins, and an enemy appears on a random free
/// explored cell, if there is one.
pub open spec fn expand_step(m: Model, action: Action, n: Model) -> bool {
    match action {
        Action::MoveTo(p) => if m.level_map.adjacent_spec(p) {
            exists|mid: Model, cell: Option<Pos>|
                {
                    &&& mid.level_map.expansion_cells@ == m.level_map.expansion_cells@.push(p)
                    &&& mid.level_map.size == m.level_map.size
                    &&& mid.level_map.items == m.level_map.items
                    &&& mid.level_map.enemies == m.level_map.enemies
                    &&& mid.level_map.dead_enemies == m.level_map.dead_enemies
                    &&& mid.state == State::Day
                    &&& mid.player.turns_remaining == TURNS_PER_DAY
                    &&& mid.player.pos == m.player.pos
                    &&& mid.player.health == m.player.health
                    &&& mid.player.backpack == m.player.backpack
                    &&& mid.camera_center == m.camera_center
                    &&& mid.effects@ == m.effects@
                    &&& (cell is None <==> spawn_cells(mid).len() == 0)
                    &&& (cell matches Some(c) ==> spawn_cells(mid).contains(c))
                    &&& #[trigger] spawned(mid, cell, n)
                }
        } else {
            n == m
        },
        _ => n == m,
    }
}

impl Model {
    /// The explored cells where a new enemy may appear.
    fn spawn_candidates(&self) -> (r: Vec<Pos>)
        ensures
            r@ == spawn_cells(*self),
    {
        let cells = self.level_map.cells_iter();
        let ghost all = cells@;
        let mut out: Vec<Pos> = Vec::new();
        let mut i: usize = 0;
        while i < cells.len()
            invariant
                all == cells@,
                all == core_cells(self.level_map.size) + self.level_map.expansion_cells@,
                0 <= i <= all.len(),
                out@ == all.take(i as int).filter(spawn_ok(self.level_map, self.player.pos)),
            decreases all.len() - i,
        {
            let c = cells[i];
            assert(all.take(i + 1) =~= all.take(i as int).push(c));
            proof {
                all.take(i as int).lemma_filter_push(c, spawn_ok(self.level_map, self.player.pos));
            }
            if !(c == self.player.pos || self.level_map.item_at(c)) {
                out.push(c);
            }
            i += 1;
        }
        assert(all.take(i as int) =~= all);
        out
    }

    /// Brings a new enemy onto `cell`, where one was picked.
    pub fn spawn_enemy(&mut self, cell: Option<Pos>)
        ensures
            spawned(*old(self), cell, *final(self)),
    {
        match cell {
            Some(c) => {
                self.level_map.enemies.push(Enemy::new(c));
                self.effects.push(Effect::PlaySound(SoundKind::RobotMove));
            },
            None => {},
        }
    }

    /// Hands one player input to the handler of the current phase. By night
    /// nothing happens; in the shop, whose rules are not settled, the input is
    /// refused as unsupported and nothing changes.
    pub fn player_input(&mut self, action: Action) -> (r: Result<(), Unsupported>)
        ensures
            r is Err <==> old(self).state == State::Shop,
            old(self).state == State::Day ==> day_step(*old(self), action, *final(self)),
            old(self).state == State::ExpandMap ==> expand_step(*old(self), action, *final(self)),
            old(self).state == State::Night ==> *final(self) == *old(self),
            old(self).state == State::Shop ==> *final(self) == *old(self),
    {
        match self.state {
            State::Day => self.player_input_day(action),
            State::ExpandMap => self.player_input_expand_map(action),
            State::Shop => {
                return Err(Unsupported);
            },
            State::Night => self.player_input_night(action),
        }
        Ok(())
    }

    /// An input while the map is being expanded (see `expand_step`).
    pub fn player_input_expand_map(&mut self, action: Action)
        ensures
            expand_step(*old(self), action, *final(self)),
    {
        match action {
            Action::MoveTo(pos) => {
                if !self.level_map.adjacent(pos) {
                    return;
                }
                self.level_map.expansion_cells.push(pos);
                self.phase_day();
                let ghost mid = *self;
                let candidates = self.spawn_candidates();
                let cell = choose_cell(&candidates);
                self.spawn_enemy(cell);
                assert(spawned(mid, cell, *self));

            },
            Action::MoveUp => {},
            Action::MoveDown => {},
            Action::MoveLeft => {},
            Action::MoveRight => {},
        }
    }

    /// Input by night changes nothing: the night runs as it begins.
    pub fn player_input_night(&mut self, _action: Action)
        ensures
            *final(self) == *old(self),
    {
    }

    /// The cell an action asks the player to enter.
    fn target_of(&self, action: Action) -> (r: Option<Pos>)
        ensures
            r == action_target(self.player.pos, action),
    {
        match action {
            Action::MoveDown => offset(self.player.pos, 0, -1),
            Action::MoveUp => offset(self.player.pos, 0, 1),
            Action::MoveLeft => offset(self.player.pos, -1, 0),
            Action::MoveRight => offset(self.player.pos, 1, 0),
            Action::MoveTo(pos) => Some(pos),
        }
    }

    /// A move by day. A move that is not one orthogonal step into an explored
    /// cell free of live enemies changes nothing. Otherwise the player enters
    /// the cell (see `resolve_entry`), the camera follows, a footstep sounds
    /// (and a hit, if an enemy was struck); with no live enemy left the map
    /// may be expanded, else a turn is spent and the last turn brings the night.
    pub fn player_input_day(&mut self, action: Action)
        ensures
            day_step(*old(self), action, *final(self)),
    {
        let target = self.target_of(action);
        let t = match target {
            Some(t) => t,
            None => {
                return;
            },
        };
        if !unit_apart(t, self.player.pos) {
            return;
        }
        if !self.level_map.inside(t) {
            return;
        }
        if self.level_map.enemy_at(t) {
            return;
        }
        let hit = self.resolve_entry(t);
        self.player.pos = t;
        self.camera_center = t;
        self.effects.push(Effect::PlaySound(SoundKind::TwoSteps));
        if hit {
            self.effects.push(Effect::PlaySound(SoundKind::MetalHit));
        }
        if self.level_map.enemies.len() == 0 {
            self.state = State::ExpandMap;
        } else {
            if self.player.turns_remaining > 0 {
                self.player.turns_remaining = self.player.turns_remaining - 1;
            }
            if self.player.turns_remaining == 0 {
                self.phase_night();
            }
        }
    }

    /// Lets `delta_time` pass: every enemy's clock runs on and its action
    /// counts down; live enemies whose action ran out turn idle, dying
    /// enemies whose dying ran out are removed. Nothing else changes.
    pub fn update(&mut self, delta_time: Time)
        ensures
            final(self).level_map.enemies@.len() == old(self).level_map.enemies@.len(),
            forall|i: int|
                0 <= i < old(self).level_map.enemies@.len()
                    ==> #[trigger] final(self).level_map.enemies@[i]
                    == advanced(old(self).level_map.enemies@[i], delta_time),
            final(self).level_map.dead_enemies@ == after_dying(
                old(self).level_map.dead_enemies@,
                delta_time,
            ),
            final(self).level_map.size == old(self).level_map.size,
            final(self).level_map.items@ == old(self).level_map.items@,
            final(self).level_map.expansion_cells@ == old(self).level_map.expansion_cells@,
            final(self).player == old(self).player,
            final(self).camera_center == old(self).camera_center,
            final(self).effects@ == old(self).effects@,
            final(self).state == old(self).state,
    {
        let n = self.level_map.enemies.len();
        let mut i: usize = 0;
        while i < n
            invariant
                n == old(self).level_map.enemies@.len() == self.level_map.enemies@.len(),
                0 <= i <= n,
                forall|j: int|
                    0 <= j < i ==> #[trigger] self.level_map.enemies@[j] == advanced(
                        old(self).level_map.enemies@[j],
                        delta_time,
                    ),
                forall|j: int|
                    i <= j < n ==> #[trigger] self.level_map.enemies@[j]
                        == old(self).level_map.enemies@[j],
                self.level_map.size == old(self).level_map.size,
                self.level_map.items@ == old(self).level_map.items@,
                self.level_map.expansion_cells@ == old(self).level_map.expansion_cells@,
                self.level_map.dead_enemies@ == old(self).level_map.dead_enemies@,
                self.player == old(self).player,
                self.camera_center == old(self).camera_center,
                self.effects@ == old(self).effects@,
                self.state == old(self).state,
            decreases n - i,
        {
            self.level_map.enemies[i].advance(delta_time);
            i += 1;
        }
        let ghost dying = self.level_map.dead_enemies@;
        let mut kept: Vec<Enemy> = Vec::new();
        let mut k: usize = 0;
        while k < self.level_map.dead_enemies.len()
            invariant
                dying == self.level_map.dead_enemies@,
                0 <= k <= dying.len(),
                kept@ == after_dying(dying.take(k as int), delta_time),
            decreases dying.len() - k,
        {
            let mut e = self.level_map.dead_enemies[k];
            assert(dying.take(k + 1).drop_last() =~= dying.take(k as int));
            let gone = match e.state {
                EnemyState::Idle => false,
                EnemyState::Action(c) => c.action == EnemyAction::Die && c.leftover <= delta_time,
            };
            if !gone {
                e.advance(delta_time);
                kept.push(e);
            }
            k += 1;
        }
        assert(dying.take(k as int) =~= dying);
        self.level_map.dead_enemies = kept;
    }
}

} // verus!

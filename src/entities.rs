//! What stands on the map: items and the robots the player fights.

use vstd::prelude::*;
use crate::geometry::Pos;

verus! {

/// Time, counted in microseconds.
pub type Time = u64;

/// Health points.
pub type HP = i64;

/// Damage points.
pub type DP = i64;

/// Coins in the player's backpack.
pub type Coins = i64;

/// How long every enemy action lasts: half a second.
pub const ACTION_TIME: Time = 500_000;

/// The health a newly spawned enemy starts with.
pub const ENEMY_HEALTH: HP = 3;

#[derive(Clone, Copy, Debug, PartialEq, Eq, Hash, Structural)]
pub enum Ingredient {
    Leaf,
    Ice,
    Branch,
    Banana,
    Cherry,
    Blueberry,
    Strawberry,
}

#[derive(Clone, Copy, Debug, PartialEq, Eq, Structural)]
pub enum ItemKind {
    Sword { damage: DP },
    Ingredient(Ingredient),
}

#[derive(Clone, Copy, Debug, PartialEq, Eq, Structural)]
pub struct Item {
    pub pos: Pos,
    pub kind: ItemKind,
}

#[derive(Clone, Copy, Debug, PartialEq, Eq, Structural)]
pub enum EnemyAction {
    TakeDamage,
    Attack,
    Die,
    Spawn,
}

/// An action under way: which one, the time it still runs and its full length.
#[derive(Clone, Copy, Debug, PartialEq, Eq, Structural)]
pub struct Cooldown<T> {
    pub action: T,
    pub leftover: Time,
    pub total: Time,
}

impl<T> Cooldown<T> {
    pub open spec fn wf(&self) -> bool {
        self.leftover <= self.total
    }

    /// An action that has just begun.
    pub fn new(action: T, total: Time) -> (r: Self)
        ensures
            r.action == action,
            r.leftover == total,
            r.total == total,
            r.wf(),
    {
        Cooldown { action, total, leftover: total }
    }
}

#[derive(Clone, Copy, Debug, PartialEq, Eq, Structural)]
pub enum EnemyState {
    Idle,
    Action(Cooldown<EnemyAction>),
}

#[derive(Clone, Copy, Debug, PartialEq, Eq, Structural)]
pub enum EnemyMode {
    Normal,
    Damaged,
}

#[derive(Clone, Copy, Debug, PartialEq, Eq, Structural)]
pub struct Enemy {
    pub pos: Pos,
    pub health: HP,
    pub damage: DP,
    pub state: EnemyState,
    pub mode: EnemyMode,
    pub animation_clock: Time,
}

/// `v` held to the range of `i64`.
pub open spec fn clamp_i64(v: int) -> i64 {
    if v < i64::MIN {
        i64::MIN
    } else if v > i64::MAX {
        i64::MAX
    } else {
        v as i64
    }
}

/// `v` held to the range of `u64`.
pub open spec fn clamp_u64(v: int) -> u64 {
    if v > u64::MAX {
        u64::MAX
    } else {
        v as u64
    }
}

/// An enemy state that is a given action, just begun.
pub open spec fn fresh(action: EnemyAction) -> EnemyState {
    EnemyState::Action(Cooldown { action, leftover: ACTION_TIME, total: ACTION_TIME })
}

/// The enemy after it took `damage`: its health is lowered, and it starts
/// either to flinch or, where its health is gone, to die.
pub open spec fn damaged(e: Enemy, damage: DP) -> Enemy {
    let health = clamp_i64(e.health - damage);
    Enemy {
        health,
        state: if health > 0 {
            fresh(EnemyAction::TakeDamage)
        } else {
            fresh(EnemyAction::Die)
        },
        animation_clock: 0,
        mode: EnemyMode::Damaged,
        ..e
    }
}

/// Whether the enemy's current action runs out within `dt`.
pub open spec fn expires(e: Enemy, dt: Time) -> bool {
    match e.state {
        EnemyState::Idle => false,
        EnemyState::Action(c) => c.leftover <= dt,
    }
}

/// Whether the enemy is dying and its dying runs out within `dt`.
pub open spec fn death_done(e: Enemy, dt: Time) -> bool {
    match e.state {
        EnemyState::Idle => false,
        EnemyState::Action(c) => c.action == EnemyAction::Die && c.leftover <= dt,
    }
}

/// The enemy once `dt` has passed: its clock runs on and its action counts
/// down; an action that runs out leaves the enemy idle with its clock at zero.
pub open spec fn advanced(e: Enemy, dt: Time) -> Enemy {
    match e.state {
        EnemyState::Idle => Enemy { animation_clock: clamp_u64(e.animation_clock + dt), ..e },
        EnemyState::Action(c) => if c.leftover <= dt {
            Enemy { state: EnemyState::Idle, animation_clock: 0, ..e }
        } else {
            Enemy {
                state: EnemyState::Action(Cooldown { leftover: (c.leftover - dt) as u64, ..c }),
                animation_clock: clamp_u64(e.animation_clock + dt),
                ..e
            }
        },
    }
}

impl Enemy {
    /// A newly spawned enemy: full health, no contact damage, spawning.
    pub open spec fn new_spec(pos: Pos) -> Enemy {
        Enemy {
            pos,
            health: ENEMY_HEALTH,
            damage: 0,
            state: fresh(EnemyAction::Spawn),
            mode: EnemyMode::Normal,
            animation_clock: 0,
        }
    }

    /// An enemy that has just appeared at `pos`.
    pub fn new(pos: Pos) -> (r: Self)
        ensures
            r == Enemy::new_spec(pos),
    {
        Enemy {
            pos,
            health: ENEMY_HEALTH,
            damage: 0,
            state: EnemyState::Action(Cooldown::new(EnemyAction::Spawn, ACTION_TIME)),
            mode: EnemyMode::Normal,
            animation_clock: 0,
        }
    }

    /// Lowers the health by `damage` (held to the range of `i64`) and starts
    /// the flinch, or the dying where no health is left.
    pub fn take_damage(&mut self, damage: DP)
        ensures
            *final(self) == damaged(*old(self), damage),
    {
        let h: i128 = self.health as i128 - damage as i128;
        self.health = if h < i64::MIN as i128 {
            i64::MIN
        } else if h > i64::MAX as i128 {
            i64::MAX
        } else {
            h as i64
        };
        if self.health > 0 {
            self.state = EnemyState::Action(Cooldown::new(EnemyAction::TakeDamage, ACTION_TIME));
        } else {
            self.state = EnemyState::Action(Cooldown::new(EnemyAction::Die, ACTION_TIME));
        }
        self.animation_clock = 0;
        self.mode = EnemyMode::Damaged;
    }

    /// Lets `dt` pass for this enemy.
    pub fn advance(&mut self, dt: Time)
        ensures
            *final(self) == advanced(*old(self), dt),
    {
        self.animation_clock = self.animation_clock.saturating_add(dt);
        match self.state {
            EnemyState::Idle => {},
            EnemyState::Action(c) => {
                if c.leftover <= dt {
                    self.state = EnemyState::Idle;
                    self.animation_clock = 0;
                } else {
                    self.state = EnemyState::Action(Cooldown { leftover: c.leftover - dt, ..c });
                }
            },
        }
    }
}

} // verus!

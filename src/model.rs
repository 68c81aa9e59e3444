//! The world model: the player, the map, the phase and the outgoing effects.

use vstd::prelude::*;
use crate::entities::{Coins, Enemy, Ingredient, Item, ItemKind, HP};
use crate::geometry::Pos;
use crate::level::LevelMap;

verus! {

/// How many moves a day lasts.
pub const TURNS_PER_DAY: usize = 3;

/// One input of the player.
#[derive(Clone, Copy, Debug, PartialEq, Eq, Structural)]
pub enum Action {
    MoveUp,
    MoveDown,
    MoveLeft,
    MoveRight,
    MoveTo(Pos),
}

pub struct Backpack {
    pub ingredients: Vec<Ingredient>,
    pub coins: Coins,
}

pub struct Player {
    pub pos: Pos,
    pub health: HP,
    pub backpack: Backpack,
    pub turns_remaining: usize,
}

#[derive(Clone, Copy, Debug, PartialEq, Eq, Structural)]
pub enum SoundKind {
    TwoSteps,
    MetalHit,
    PourWater,
    RobotMove,
}

/// A signal for the world outside: a sound to play.
#[derive(Clone, Copy, Debug, PartialEq, Eq, Structural)]
pub enum Effect {
    PlaySound(SoundKind),
}

/// The phase of the turn cycle.
#[derive(Clone, Copy, Debug, PartialEq, Eq, Structural)]
pub enum State {
    Day,
    ExpandMap,
    Shop,
    Night,
}

/// An input in a phase whose rules are not settled yet (the shop).
#[derive(Clone, Copy, Debug, PartialEq, Eq, Structural)]
pub struct Unsupported;

/// The whole simulation. `camera_center` is the cell the view is centred on.
pub struct Model {
    pub camera_center: Pos,
    pub player: Player,
    pub level_map: LevelMap,
    pub effects: Vec<Effect>,
    pub state: State,
}

impl Model {
    /// The starting layout: a 3×3 map, the player at (2, 1), a sword of
    /// damage 2 at (2, 0), a leaf at (1, 2), one enemy at (0, 1).
    pub fn new() -> (r: Self)
        ensures
            r.camera_center == r.player.pos,
            r.player.pos == (Pos { x: 2, y: 1 }),
            r.player.health == 100,
            r.player.backpack.ingredients@ == Seq::<Ingredient>::empty(),
            r.player.backpack.coins == 10,
            r.player.turns_remaining == TURNS_PER_DAY,
            r.level_map.size == (Pos { x: 3, y: 3 }),
            r.level_map.items@ == seq![
                Item { pos: Pos { x: 2, y: 0 }, kind: ItemKind::Sword { damage: 2 } },
                Item { pos: Pos { x: 1, y: 2 }, kind: ItemKind::Ingredient(Ingredient::Leaf) },
            ],
            r.level_map.enemies@.len() == 1,
            r.level_map.enemies@[0] == Enemy::new_spec(Pos { x: 0, y: 1 }),
            r.level_map.dead_enemies@ == Seq::<Enemy>::empty(),
            r.level_map.expansion_cells@ == Seq::<Pos>::empty(),
            r.effects@ == Seq::<Effect>::empty(),
            r.state == State::Day,
    {
        let mut items: Vec<Item> = Vec::new();
        items.push(Item { pos: Pos { x: 2, y: 0 }, kind: ItemKind::Sword { damage: 2 } });
        items.push(
            Item { pos: Pos { x: 1, y: 2 }, kind: ItemKind::Ingredient(Ingredient::Leaf) },
        );
        let mut enemies: Vec<Enemy> = Vec::new();
        enemies.push(Enemy::new(Pos { x: 0, y: 1 }));
        let mut model = Model {
            camera_center: Pos { x: 0, y: 0 },
            player: Player {
                pos: Pos { x: 2, y: 1 },
                health: 100,
                backpack: Backpack { ingredients: Vec::new(), coins: 10 },
                turns_remaining: TURNS_PER_DAY,
            },
            level_map: LevelMap {
                size: Pos { x: 3, y: 3 },
                items,
                enemies,
                dead_enemies: Vec::new(),
                expansion_cells: Vec::new(),
            },
            effects: Vec::new(),
            state: State::Day,
        };
        model.camera_center = model.player.pos;
        assert(model.level_map.items@ =~= seq![
            Item { pos: Pos { x: 2, y: 0 }, kind: ItemKind::Sword { damage: 2 } },
            Item { pos: Pos { x: 1, y: 2 }, kind: ItemKind::Ingredient(Ingredient::Leaf) },
        ]);
        model
    }
}

} // verus!

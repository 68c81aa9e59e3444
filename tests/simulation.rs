use botfarm::entities::{
    Cooldown, Enemy, EnemyAction, EnemyMode, EnemyState, Ingredient, Item, ItemKind,
    ACTION_TIME, ENEMY_HEALTH,
};
use botfarm::geometry::{manhattan_dist, Pos};
use botfarm::model::{Action, Effect, Model, SoundKind, State, Unsupported, TURNS_PER_DAY};

fn pos(x: i64, y: i64) -> Pos {
    Pos { x, y }
}

fn enemy_with(p: Pos, health: i64) -> Enemy {
    let mut e = Enemy::new(p);
    e.health = health;
    e.state = EnemyState::Idle;
    e
}

fn orth(a: Pos, b: Pos) -> bool {
    (a.x - b.x).abs() + (a.y - b.y).abs() == 1
}

#[test]
fn initial_layout() {
    let m = Model::new();
    assert_eq!(m.player.pos, pos(2, 1));
    assert_eq!(m.camera_center, pos(2, 1));
    assert_eq!(m.player.turns_remaining, TURNS_PER_DAY);
    assert_eq!(m.player.backpack.coins, 10);
    assert_eq!(m.level_map.size, pos(3, 3));
    assert_eq!(m.level_map.items.len(), 2);
    assert_eq!(m.level_map.enemies.len(), 1);
    assert_eq!(m.level_map.enemies[0].pos, pos(0, 1));
    assert_eq!(m.level_map.enemies[0].health, ENEMY_HEALTH);
    assert_eq!(m.state, State::Day);
}

#[test]
fn move_into_free_explored_cell() {
    let mut m = Model::new();
    assert_eq!(m.player_input(Action::MoveLeft), Ok(()));
    assert_eq!(m.player.pos, pos(1, 1));
    assert_eq!(m.camera_center, pos(1, 1));
    assert_eq!(m.player.turns_remaining, 2);
    assert_eq!(m.effects, vec![Effect::PlaySound(SoundKind::TwoSteps)]);
}

#[test]
fn move_into_unexplored_cell_is_ignored() {
    let mut m = Model::new();
    m.player_input_day(Action::MoveRight);
    assert_eq!(m.player.pos, pos(2, 1));
    assert_eq!(m.player.turns_remaining, TURNS_PER_DAY);
    assert!(m.effects.is_empty());
}

#[test]
fn move_onto_live_enemy_is_ignored() {
    let mut m = Model::new();
    m.player.pos = pos(1, 1);
    m.player_input_day(Action::MoveLeft);
    assert_eq!(m.player.pos, pos(1, 1));
    assert!(m.effects.is_empty());
}

#[test]
fn non_unit_moves_are_ignored() {
    let mut m = Model::new();
    m.player_input_day(Action::MoveTo(pos(1, 0)));
    assert_eq!(m.player.pos, pos(2, 1));
    m.player_input_day(Action::MoveTo(pos(0, 1)));
    assert_eq!(m.player.pos, pos(2, 1));
    m.player_input_day(Action::MoveTo(pos(2, 1)));
    assert_eq!(m.player.pos, pos(2, 1));
    m.player_input_day(Action::MoveTo(pos(2, 2)));
    assert_eq!(m.player.pos, pos(2, 2));
}

#[test]
fn all_four_directions_from_the_centre() {
    let targets = [
        (Action::MoveUp, pos(1, 2)),
        (Action::MoveDown, pos(1, 0)),
        (Action::MoveLeft, pos(0, 1)),
        (Action::MoveRight, pos(2, 1)),
    ];
    for (action, target) in targets {
        let mut m = Model::new();
        m.level_map.items.clear();
        m.level_map.enemies = vec![enemy_with(pos(5, 5), 3)];
        m.player.pos = pos(1, 1);
        m.player_input_day(action);
        assert_eq!(m.player.pos, target);
    }
}

#[test]
fn weapon_stays_on_the_map() {
    let mut m = Model::new();
    m.player_input_day(Action::MoveDown);
    assert_eq!(m.player.pos, pos(2, 0));
    let swords: Vec<&Item> = m
        .level_map
        .items
        .iter()
        .filter(|i| matches!(i.kind, ItemKind::Sword { .. }))
        .collect();
    assert_eq!(swords.len(), 1);
    assert_eq!(swords[0].pos, pos(2, 0));
    assert_eq!(swords[0].kind, ItemKind::Sword { damage: 2 });
    assert_eq!(m.level_map.enemies.len(), 1);
    assert_eq!(m.level_map.enemies[0].health, 1);
    assert_eq!(
        m.effects,
        vec![
            Effect::PlaySound(SoundKind::TwoSteps),
            Effect::PlaySound(SoundKind::MetalHit)
        ]
    );
}

#[test]
fn ingredient_goes_to_backpack() {
    let mut m = Model::new();
    m.player.pos = pos(1, 1);
    m.player_input_day(Action::MoveUp);
    assert_eq!(m.player.pos, pos(1, 2));
    assert_eq!(m.player.backpack.ingredients, vec![Ingredient::Leaf]);
    assert_eq!(m.level_map.items.len(), 1);
    assert!(m.level_map.items.iter().all(|i| i.pos != pos(1, 2)));
}

#[test]
fn lethal_split() {
    let mut m = Model::new();
    m.level_map.enemies = vec![
        enemy_with(pos(0, 0), 1),
        enemy_with(pos(0, 2), 5),
        enemy_with(pos(1, 0), 2),
    ];
    m.player_input_day(Action::MoveDown);
    assert_eq!(m.level_map.enemies.len(), 1);
    let live = m.level_map.enemies[0];
    assert_eq!(live.pos, pos(0, 2));
    assert_eq!(live.health, 3);
    assert_eq!(live.mode, EnemyMode::Damaged);
    assert_eq!(
        live.state,
        EnemyState::Action(Cooldown { action: EnemyAction::TakeDamage, leftover: ACTION_TIME, total: ACTION_TIME })
    );
    assert_eq!(m.level_map.dead_enemies.len(), 2);
    assert_eq!(m.level_map.dead_enemies[0].pos, pos(0, 0));
    assert_eq!(m.level_map.dead_enemies[0].health, -1);
    assert_eq!(m.level_map.dead_enemies[1].pos, pos(1, 0));
    assert_eq!(m.level_map.dead_enemies[1].health, 0);
    for e in &m.level_map.dead_enemies {
        assert_eq!(
            e.state,
            EnemyState::Action(Cooldown { action: EnemyAction::Die, leftover: ACTION_TIME, total: ACTION_TIME })
        );
    }
}

#[test]
fn dying_enemies_are_appended() {
    let mut m = Model::new();
    let old = Enemy::new(pos(9, 9));
    m.level_map.dead_enemies = vec![old];
    m.level_map.enemies = vec![enemy_with(pos(0, 0), 2)];
    m.player_input_day(Action::MoveDown);
    assert_eq!(m.level_map.dead_enemies.len(), 2);
    assert_eq!(m.level_map.dead_enemies[0], old);
    assert_eq!(m.level_map.dead_enemies[1].pos, pos(0, 0));
}

#[test]
fn clearing_the_map_opens_expansion() {
    let mut m = Model::new();
    m.level_map.enemies = vec![enemy_with(pos(0, 1), 2)];
    m.player_input_day(Action::MoveDown);
    assert_eq!(m.state, State::ExpandMap);
    assert!(m.level_map.enemies.is_empty());
    assert_eq!(m.player.turns_remaining, TURNS_PER_DAY);
}

#[test]
fn last_turn_brings_night_then_day() {
    let mut m = Model::new();
    m.player.turns_remaining = 1;
    m.player_input_day(Action::MoveLeft);
    assert_eq!(m.player.pos, pos(1, 1));
    assert_eq!(m.state, State::Day);
    assert_eq!(m.player.turns_remaining, TURNS_PER_DAY);
    assert_eq!(m.level_map.enemies.len(), 1);
    let e = m.level_map.enemies[0].pos;
    assert!(e == pos(0, 0) || e == pos(0, 2));
}

#[test]
fn turns_count_down() {
    let mut m = Model::new();
    m.player_input_day(Action::MoveLeft);
    m.player_input_day(Action::MoveRight);
    assert_eq!(m.player.turns_remaining, 1);
    assert_eq!(m.state, State::Day);
}

fn expansion_model() -> Model {
    let mut m = Model::new();
    m.level_map.enemies.clear();
    m.state = State::ExpandMap;
    m
}

#[test]
fn far_expansion_cell_is_refused() {
    for p in [pos(-2, 1), pos(-1, -1), pos(3, 3), pos(1, 5)] {
        let mut m = expansion_model();
        m.player_input_expand_map(Action::MoveTo(p));
        assert_eq!(m.state, State::ExpandMap);
        assert!(m.level_map.expansion_cells.is_empty());
        assert!(m.level_map.enemies.is_empty());
        assert!(m.effects.is_empty());
    }
}

#[test]
fn touching_expansion_cell_is_accepted() {
    let mut m = expansion_model();
    m.player.turns_remaining = 0;
    assert_eq!(m.player_input(Action::MoveTo(pos(-1, 1))), Ok(()));
    assert_eq!(m.state, State::Day);
    assert_eq!(m.player.turns_remaining, TURNS_PER_DAY);
    assert_eq!(m.level_map.expansion_cells, vec![pos(-1, 1)]);
    assert_eq!(m.level_map.enemies.len(), 1);
    let e = m.level_map.enemies[0];
    assert!(m.level_map.inside(e.pos));
    assert!(e.pos != m.player.pos);
    assert!(m.level_map.items.iter().all(|i| i.pos != e.pos));
    assert_eq!(e.health, ENEMY_HEALTH);
    assert_eq!(
        e.state,
        EnemyState::Action(Cooldown { action: EnemyAction::Spawn, leftover: ACTION_TIME, total: ACTION_TIME })
    );
    assert_eq!(m.effects, vec![Effect::PlaySound(SoundKind::RobotMove)]);
}

#[test]
fn expansion_next_to_expansion_cell() {
    let mut m = expansion_model();
    m.level_map.expansion_cells = vec![pos(-1, 1)];
    m.player_input_expand_map(Action::MoveTo(pos(-2, 1)));
    assert_eq!(m.level_map.expansion_cells, vec![pos(-1, 1), pos(-2, 1)]);
    assert_eq!(m.state, State::Day);
}

#[test]
fn directional_input_ignored_while_expanding() {
    let mut m = expansion_model();
    m.player_input_expand_map(Action::MoveLeft);
    assert_eq!(m.state, State::ExpandMap);
    assert_eq!(m.player.pos, pos(2, 1));
}

#[test]
fn no_spawn_without_free_cell() {
    let mut m = expansion_model();
    m.level_map.size = pos(1, 1);
    m.level_map.items = vec![Item { pos: pos(1, 0), kind: ItemKind::Ingredient(Ingredient::Ice) }];
    m.player.pos = pos(0, 0);
    m.player_input_expand_map(Action::MoveTo(pos(1, 0)));
    assert_eq!(m.level_map.expansion_cells, vec![pos(1, 0)]);
    assert_eq!(m.state, State::Day);
    assert!(m.level_map.enemies.is_empty());
    assert!(m.effects.is_empty());
}

#[test]
fn cooldown_expires_to_idle() {
    let mut m = Model::new();
    let mut e = Enemy::new(pos(0, 1));
    e.state = EnemyState::Action(Cooldown { action: EnemyAction::TakeDamage, leftover: 500_000, total: 500_000 });
    e.animation_clock = 120_000;
    m.level_map.enemies = vec![e];
    m.update(500_000);
    assert_eq!(m.level_map.enemies[0].state, EnemyState::Idle);
    assert_eq!(m.level_map.enemies[0].animation_clock, 0);
}

#[test]
fn finished_dying_enemy_is_removed() {
    let mut m = Model::new();
    let mut e = Enemy::new(pos(0, 1));
    e.health = 0;
    e.state = EnemyState::Action(Cooldown { action: EnemyAction::Die, leftover: 200_000, total: 500_000 });
    m.level_map.dead_enemies = vec![e];
    m.update(300_000);
    assert!(m.level_map.dead_enemies.is_empty());
}

#[test]
fn cooldown_counts_down() {
    let mut m = Model::new();
    let mut dying = Enemy::new(pos(1, 1));
    dying.health = -1;
    dying.state = EnemyState::Action(Cooldown { action: EnemyAction::Die, leftover: 400_000, total: 500_000 });
    m.level_map.dead_enemies = vec![dying];
    m.update(100_000);
    let e = m.level_map.enemies[0];
    assert_eq!(e.animation_clock, 100_000);
    assert_eq!(
        e.state,
        EnemyState::Action(Cooldown { action: EnemyAction::Spawn, leftover: 400_000, total: 500_000 })
    );
    assert_eq!(m.level_map.dead_enemies.len(), 1);
    assert_eq!(
        m.level_map.dead_enemies[0].state,
        EnemyState::Action(Cooldown { action: EnemyAction::Die, leftover: 300_000, total: 500_000 })
    );
    assert_eq!(m.level_map.dead_enemies[0].animation_clock, 100_000);
}

#[test]
fn idle_enemy_clock_runs() {
    let mut m = Model::new();
    m.level_map.enemies = vec![enemy_with(pos(0, 0), 3)];
    m.update(16_000);
    m.update(16_000);
    assert_eq!(m.level_map.enemies[0].state, EnemyState::Idle);
    assert_eq!(m.level_map.enemies[0].animation_clock, 32_000);
}

#[test]
fn night_moves_stay_bounded() {
    for _ in 0..50 {
        let mut m = Model::new();
        m.level_map.size = pos(4, 4);
        let before = vec![
            enemy_with(pos(0, 0), 3),
            enemy_with(pos(1, 0), 3),
            enemy_with(pos(0, 1), 3),
            enemy_with(pos(3, 3), 3),
            enemy_with(pos(2, 2), 3),
        ];
        m.level_map.enemies = before.clone();
        m.player.pos = pos(3, 0);
        m.state = State::Night;
        m.phase_night();
        assert_eq!(m.state, State::Day);
        assert_eq!(m.player.turns_remaining, TURNS_PER_DAY);
        let after = &m.level_map.enemies;
        assert_eq!(after.len(), before.len());
        for (a, b) in after.iter().zip(before.iter()) {
            assert!(a.pos == b.pos || orth(a.pos, b.pos));
            assert!(m.level_map.inside(a.pos));
            assert_ne!(a.pos, m.player.pos);
            assert_eq!(a.health, b.health);
        }
        for i in 0..after.len() {
            for j in 0..after.len() {
                if i != j {
                    assert_ne!(after[i].pos, after[j].pos);
                }
            }
        }
        assert_eq!(after[0].pos, pos(0, 0));
    }
}

#[test]
fn boxed_in_enemy_stays() {
    let mut m = Model::new();
    m.level_map.size = pos(1, 1);
    m.level_map.items.clear();
    m.level_map.enemies = vec![enemy_with(pos(0, 0), 3)];
    m.player.pos = pos(5, 5);
    m.phase_night();
    assert_eq!(m.level_map.enemies[0].pos, pos(0, 0));
}

#[test]
fn night_input_does_nothing() {
    let mut m = Model::new();
    m.state = State::Night;
    assert_eq!(m.player_input(Action::MoveLeft), Ok(()));
    assert_eq!(m.player.pos, pos(2, 1));
    assert_eq!(m.state, State::Night);
}

#[test]
fn shop_input_is_unsupported() {
    let mut m = Model::new();
    m.state = State::Shop;
    assert_eq!(m.player_input(Action::MoveLeft), Err(Unsupported));
    assert_eq!(m.player.pos, pos(2, 1));
    assert_eq!(m.state, State::Shop);
}

#[test]
fn take_damage_saturates() {
    let mut e = Enemy::new(pos(0, 0));
    e.health = i64::MIN + 1;
    e.take_damage(5);
    assert_eq!(e.health, i64::MIN);
    assert_eq!(e.animation_clock, 0);
    let mut f = Enemy::new(pos(0, 0));
    f.take_damage(-4);
    assert_eq!(f.health, 7);
    assert_eq!(f.mode, EnemyMode::Damaged);
}

#[test]
fn manhattan_distance_values() {
    assert_eq!(manhattan_dist(pos(0, 0), pos(3, -4)), 7);
    assert_eq!(manhattan_dist(pos(-2, 5), pos(-2, 5)), 0);
}

#[test]
fn move_to_far_negative_cell_is_ignored() {
    let mut m = Model::new();
    m.player_input_day(Action::MoveTo(pos(i64::MIN, i64::MAX)));
    assert_eq!(m.player.pos, pos(2, 1));
}

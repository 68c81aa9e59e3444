use botfarm::entities::{Item, ItemKind};
use botfarm::geometry::Pos;
use botfarm::level::LevelMap;

fn pos(x: i64, y: i64) -> Pos {
    Pos { x, y }
}

fn map3() -> LevelMap {
    LevelMap {
        size: pos(3, 3),
        items: vec![Item { pos: pos(0, 0), kind: ItemKind::Sword { damage: 1 } }],
        enemies: vec![],
        dead_enemies: vec![],
        expansion_cells: vec![],
    }
}

#[test]
fn inside_core_and_expansion() {
    let mut m = map3();
    assert!(m.inside(pos(0, 0)));
    assert!(m.inside(pos(2, 2)));
    assert!(!m.inside(pos(3, 0)));
    assert!(!m.inside(pos(-1, 1)));
    m.expansion_cells.push(pos(-1, 1));
    assert!(m.inside(pos(-1, 1)));
}

#[test]
fn adjacency_rules() {
    let mut m = map3();
    assert!(m.adjacent(pos(-1, 0)));
    assert!(m.adjacent(pos(3, 2)));
    assert!(m.adjacent(pos(1, 3)));
    assert!(!m.adjacent(pos(-1, -1)));
    assert!(!m.adjacent(pos(1, 1)));
    assert!(!m.adjacent(pos(-2, 0)));
    m.expansion_cells.push(pos(-1, 1));
    assert!(!m.adjacent(pos(-1, 1)));
    assert!(m.adjacent(pos(-2, 1)));
    assert!(!m.adjacent(pos(-2, 0)));
}

#[test]
fn cells_in_order() {
    let mut m = LevelMap {
        size: pos(2, 3),
        items: vec![],
        enemies: vec![],
        dead_enemies: vec![],
        expansion_cells: vec![],
    };
    m.expansion_cells.push(pos(5, 5));
    assert_eq!(
        m.cells_iter(),
        vec![pos(0, 0), pos(0, 1), pos(0, 2), pos(1, 0), pos(1, 1), pos(1, 2), pos(5, 5)]
    );
}

#[test]
fn cells_of_empty_core() {
    let m = LevelMap {
        size: pos(0, 4),
        items: vec![],
        enemies: vec![],
        dead_enemies: vec![],
        expansion_cells: vec![pos(1, 1)],
    };
    assert_eq!(m.cells_iter(), vec![pos(1, 1)]);
}

#[test]
fn adjacent_cells_of_core() {
    let m = map3();
    let cells = m.adjacent_cells_iter();
    assert_eq!(cells.len(), 12);
    for c in &cells {
        assert!(m.adjacent(*c));
    }
    assert!(cells.contains(&pos(-1, 0)));
    assert!(!cells.contains(&pos(-1, -1)));
}

#[test]
fn adjacent_cells_without_duplicates() {
    let mut m = map3();
    m.expansion_cells = vec![pos(-1, 1), pos(-1, 2)];
    let cells = m.adjacent_cells_iter();
    let mut sorted: Vec<(i64, i64)> = cells.iter().map(|p| (p.x, p.y)).collect();
    sorted.sort();
    sorted.dedup();
    assert_eq!(sorted.len(), cells.len());
    assert_eq!(cells.len(), 13);
    assert!(cells.contains(&pos(-2, 1)));
    assert!(cells.contains(&pos(-2, 2)));
    assert!(cells.contains(&pos(-1, 3)));
    assert!(cells.contains(&pos(-1, 0)));
    assert_eq!(cells.iter().filter(|p| **p == pos(-1, 0)).count(), 1);
}

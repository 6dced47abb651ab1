use riverraid::render::render;
use riverraid::render::PaintCmd;
use riverraid::world::Bullet;
use riverraid::world::Enemy;
use riverraid::world::PlayerStatus;
use riverraid::world::World;

fn tiny_world() -> World {
    World {
        player_c: 5,
        player_l: 1,
        map: vec![(3, 8), (4, 9)],
        maxc: 16,
        maxl: 2,
        status: PlayerStatus::Alive,
        next_right: 8,
        next_left: 3,
        ship: 'P',
        enemy: Vec::new(),
        bullet: Vec::new(),
    }
}

#[test]
fn frame_paints_banks_then_entities_then_player() {
    let mut w = tiny_world();
    w.enemy.push(Enemy { c: 4, l: 0 });
    w.bullet.push(Bullet::new(6, 1, 3));
    let cmds = render(&w);
    assert_eq!(
        cmds,
        vec![
            PaintCmd::Bank { row: 0, col: 0, count: 3 },
            PaintCmd::Bank { row: 0, col: 8, count: 8 },
            PaintCmd::Bank { row: 1, col: 0, count: 4 },
            PaintCmd::Bank { row: 1, col: 9, count: 7 },
            PaintCmd::Glyph { row: 0, col: 4, glyph: 'E' },
            PaintCmd::Glyph { row: 1, col: 6, glyph: '|' },
            PaintCmd::Glyph { row: 0, col: 6, glyph: '^' },
            PaintCmd::Glyph { row: 1, col: 5, glyph: 'P' },
        ]
    );
}

#[test]
fn bank_beyond_screen_edge_paints_nothing() {
    let mut w = tiny_world();
    w.map[0] = (3, 16);
    w.map[1] = (3, 17);
    let cmds = render(&w);
    assert_eq!(cmds[1], PaintCmd::Bank { row: 0, col: 16, count: 0 });
    assert_eq!(cmds[3], PaintCmd::Bank { row: 1, col: 17, count: 0 });
}

#[test]
fn frame_of_a_fresh_world_covers_every_row() {
    let w = World::new(30, 10);
    let cmds = render(&w);
    // two bank segments per row, no entities, one player glyph
    assert_eq!(cmds.len(), 21);
    for (i, cmd) in cmds.iter().take(20).enumerate() {
        match cmd {
            PaintCmd::Bank { row, col, count } => {
                assert_eq!(*row as usize, i / 2);
                if i % 2 == 0 {
                    assert_eq!((*col, *count), (0, 10));
                } else {
                    assert_eq!((*col, *count), (20, 10));
                }
            }
            PaintCmd::Glyph { .. } => panic!("bank expected"),
        }
    }
    assert_eq!(cmds[20], PaintCmd::Glyph { row: 9, col: 15, glyph: 'P' });
}

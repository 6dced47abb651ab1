//! The renderer: turns the world into a flat list of paint commands.
//!
//! The renderer is a pure function of the world. One frame is: both bank
//! segments of every row, one glyph per enemy, two stacked glyphs per bullet
//! (body and tip), and the player's ship glyph. The terminal driver clears
//! the screen, executes the commands in order, and flushes.

use vstd::prelude::*;

use crate::world::World;
use crate::world::Enemy;
use crate::world::Bullet;

verus! {

/// One paint command on the character grid.
#[derive(Clone, Copy, PartialEq, Eq, Structural, Debug)]
pub enum PaintCmd {
    /// `count` bank glyphs, drawn from `(col, row)` rightward.
    Bank { row: u16, col: u16, count: u16 },
    /// A single glyph at `(col, row)`.
    Glyph { row: u16, col: u16, glyph: char },
}

/// The two bank segments of one row: the left bank fills `[0, left)`, the
/// right bank fills `[right, maxc)` — empty when the bound is already at or
/// beyond the screen edge.
pub open spec fn row_bank_cmds(row: int, bounds: (u16, u16), maxc: u16) -> Seq<PaintCmd> {
    seq![
        PaintCmd::Bank { row: row as u16, col: 0, count: bounds.0 },
        PaintCmd::Bank {
            row: row as u16,
            col: bounds.1,
            count: (if bounds.1 <= maxc {
                (maxc - bounds.1) as u16
            } else {
                0u16
            }),
        },
    ]
}

/// The bank segments of all rows, top row first.
pub open spec fn bank_cmds(map: Seq<(u16, u16)>, maxc: u16) -> Seq<PaintCmd>
    decreases map.len(),
{
    if map.len() == 0 {
        Seq::empty()
    } else {
        bank_cmds(map.drop_last(), maxc) + row_bank_cmds(map.len() - 1, map.last(), maxc)
    }
}

/// One `E` glyph per enemy, in store order.
pub open spec fn enemy_cmds(s: Seq<Enemy>) -> Seq<PaintCmd>
    decreases s.len(),
{
    if s.len() == 0 {
        Seq::empty()
    } else {
        enemy_cmds(s.drop_last()).push(
            PaintCmd::Glyph { row: s.last().l, col: s.last().c, glyph: 'E' },
        )
    }
}

/// Two stacked glyphs per bullet: the body at its row, the tip one row above.
pub open spec fn bullet_cmds(s: Seq<Bullet>) -> Seq<PaintCmd>
    decreases s.len(),
{
    if s.len() == 0 {
        Seq::empty()
    } else {
        bullet_cmds(s.drop_last()) + seq![
            PaintCmd::Glyph { row: s.last().l, col: s.last().c, glyph: '|' },
            PaintCmd::Glyph { row: (s.last().l - 1) as u16, col: s.last().c, glyph: '^' },
        ]
    }
}

/// The whole frame: banks, then enemies, then bullets, then the player.
pub open spec fn render_spec(w: World) -> Seq<PaintCmd> {
    bank_cmds(w.map@, w.maxc) + enemy_cmds(w.enemy@) + bullet_cmds(w.bullet@) + seq![
        PaintCmd::Glyph { row: w.player_l, col: w.player_c, glyph: w.ship },
    ]
}

/// Paint one frame of the world, as the exact command list `render_spec`
/// gives. Bullets must sit at row 1 or below so the tip has a row to stand
/// on; the simulation leaves bullets that way after every tick.
pub fn render(w: &World) -> (cmds: Vec<PaintCmd>)
    requires
        forall|i: int| 0 <= i < w.bullet@.len() ==> (#[trigger] w.bullet@[i]).l >= 1,
    ensures
        cmds@ == render_spec(*w),
{
    let mut cmds: Vec<PaintCmd> = Vec::new();
    let mut i: usize = 0;
    while i < w.map.len()
        invariant
            i <= w.map@.len(),
            cmds@ == bank_cmds(w.map@.take(i as int), w.maxc),
        decreases w.map@.len() - i,
    {
        let row = w.map[i];
        cmds.push(PaintCmd::Bank { row: i as u16, col: 0, count: row.0 });
        let right_count: u16 = if row.1 <= w.maxc {
            w.maxc - row.1
        } else {
            0
        };
        cmds.push(PaintCmd::Bank { row: i as u16, col: row.1, count: right_count });
        proof {
            assert(w.map@.take(i as int + 1).drop_last() =~= w.map@.take(i as int));
            assert(w.map@.take(i as int + 1).last() == w.map@[i as int]);
        }
        i = i + 1;
    }
    proof {
        assert(w.map@.take(w.map@.len() as int) =~= w.map@);
    }
    let ghost banks: Seq<PaintCmd> = cmds@;
    let mut j: usize = 0;
    while j < w.enemy.len()
        invariant
            j <= w.enemy@.len(),
            cmds@ == banks + enemy_cmds(w.enemy@.take(j as int)),
            banks == bank_cmds(w.map@, w.maxc),
        decreases w.enemy@.len() - j,
    {
        let e = w.enemy[j];
        cmds.push(PaintCmd::Glyph { row: e.l, col: e.c, glyph: 'E' });
        proof {
            assert(w.enemy@.take(j as int + 1).drop_last() =~= w.enemy@.take(j as int));
            assert(w.enemy@.take(j as int + 1).last() == w.enemy@[j as int]);
        }
        j = j + 1;
    }
    proof {
        assert(w.enemy@.take(w.enemy@.len() as int) =~= w.enemy@);
    }
    let ghost with_enemies: Seq<PaintCmd> = cmds@;
    let mut k: usize = 0;
    while k < w.bullet.len()
        invariant
            k <= w.bullet@.len(),
            cmds@ == with_enemies + bullet_cmds(w.bullet@.take(k as int)),
            with_enemies == bank_cmds(w.map@, w.maxc) + enemy_cmds(w.enemy@),
            forall|i: int| 0 <= i < w.bullet@.len() ==> (#[trigger] w.bullet@[i]).l >= 1,
        decreases w.bullet@.len() - k,
    {
        let b = w.bullet[k];
        cmds.push(PaintCmd::Glyph { row: b.l, col: b.c, glyph: '|' });
        cmds.push(PaintCmd::Glyph { row: b.l - 1, col: b.c, glyph: '^' });
        proof {
            assert(w.bullet@.take(k as int + 1).drop_last() =~= w.bullet@.take(k as int));
            assert(w.bullet@.take(k as int + 1).last() == w.bullet@[k as int]);
        }
        k = k + 1;
    }
    proof {
        assert(w.bullet@.take(w.bullet@.len() as int) =~= w.bullet@);
    }
    cmds.push(PaintCmd::Glyph { row: w.player_l, col: w.player_c, glyph: w.ship });
    cmds
}

} // verus!

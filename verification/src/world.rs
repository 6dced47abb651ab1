//! Core game state: the world, its entities, and the player intents.
//!
//! The world is a scrolling river: one `(left, right)` pair of bank bounds per
//! screen row, a player ship, transient enemies, and at most one live bullet.

use vstd::prelude::*;

verus! {

/// The coarse game-state classification of the player.
///
/// `Dead` is the only terminal state the current rules reach; `Paused` and
/// `Animation` stay representable for future rules but no logic produces them.
#[derive(Clone, Copy, PartialEq, Eq, Structural, Debug)]
pub enum PlayerStatus {
    Dead,
    Alive,
    Animation,
    Paused,
}

/// A player action for one tick, as mapped from a raw key event.
#[derive(Clone, Copy, PartialEq, Eq, Structural, Debug)]
pub enum Intent {
    MoveUp,
    MoveDown,
    MoveLeft,
    MoveRight,
    Fire,
    Quit,
    Other,
}

/// A hostile entity drifting down the river.
#[derive(Clone, Copy, PartialEq, Eq, Structural, Debug)]
pub struct Enemy {
    /// Column on screen.
    pub c: u16,
    /// Row (line) on screen; row 0 is the top.
    pub l: u16,
}

/// A projectile fired by the player. It climbs two rows per tick and burns
/// one unit of energy per tick.
#[derive(Clone, Copy, PartialEq, Eq, Structural, Debug)]
pub struct Bullet {
    /// Column on screen.
    pub c: u16,
    /// Row (line) on screen; row 0 is the top.
    pub l: u16,
    /// Remaining lifetime, in ticks.
    pub energy: u16,
}

impl Bullet {
    /// Builds a bullet at the given position with the given energy.
    pub fn new(column: u16, line: u16, energy: u16) -> (b: Bullet)
        ensures
            b == (Bullet { c: column, l: line, energy }),
    {
        Bullet { c: column, l: line, energy }
    }
}

/// Decrement clamped at 1: the player never reaches the literal edge index 0.
pub open spec fn dec_clamped(v: u16) -> u16 {
    if v > 1 {
        (v - 1) as u16
    } else {
        v
    }
}

/// Increment clamped at `max - 1`: the player never reaches the outer wall.
pub open spec fn inc_clamped(v: u16, max: u16) -> u16 {
    if v + 1 < max {
        (v + 1) as u16
    } else {
        v
    }
}

/// The bullet sequence after a fire intent: a new bullet one row above the
/// player, unless a bullet is already live, in which case nothing changes.
pub open spec fn fire_result(w: World) -> Seq<Bullet> {
    if w.bullet@.len() > 0 {
        w.bullet@
    } else {
        w.bullet@.push(Bullet { c: w.player_c, l: (w.player_l - 1) as u16, energy: w.maxl / 4 })
    }
}

/// The aggregate state of one game session.
pub struct World {
    /// Player column.
    pub player_c: u16,
    /// Player row.
    pub player_l: u16,
    /// One `(left, right)` pair of bank bounds per screen row; the passable
    /// channel at row `i` is the half-open interval `[left, right)`.
    pub map: Vec<(u16, u16)>,
    /// Screen width, fixed at session start.
    pub maxc: u16,
    /// Screen height, fixed at session start.
    pub maxl: u16,
    /// Player status; the simulation only ever moves it to `Dead`.
    pub status: PlayerStatus,
    /// The value the newest row's right bound drifts toward.
    pub next_right: u16,
    /// The value the newest row's left bound drifts toward.
    pub next_left: u16,
    /// The glyph the player ship is drawn with.
    pub ship: char,
    /// Live enemies.
    pub enemy: Vec<Enemy>,
    /// Live bullets; the rules keep at most one.
    pub bullet: Vec<Bullet>,
}

impl World {
    /// Well-formedness of a world: screen bounds large enough for the initial
    /// geometry and small enough that bank arithmetic stays in `u16`, one map
    /// row per screen line, targets and player inside the screen, at most one
    /// bullet, and every enemy above the bottom edge.
    pub open spec fn wf(self) -> bool {
        &&& 16 <= self.maxc <= 65500
        &&& 2 <= self.maxl
        &&& self.map@.len() == self.maxl
        &&& 1 <= self.next_left <= self.maxc - 1
        &&& self.next_right <= self.maxc + 4
        &&& 1 <= self.player_c <= self.maxc - 1
        &&& 1 <= self.player_l <= self.maxl - 1
        &&& self.bullet@.len() <= 1
        &&& forall|i: int| 0 <= i < self.enemy@.len() ==> (#[trigger] self.enemy@[i]).l < self.maxl
    }

    /// A fresh session on a `maxc` by `maxl` screen: the player centered on
    /// the bottom playable row, a straight channel of width 10, and targets
    /// 7 columns either side of the center.
    ///
    /// The lower bounds keep the initial geometry inside the screen; the upper
    /// bound on `maxc` is a machine limit that keeps later bank arithmetic
    /// within `u16`.
    pub fn new(maxc: u16, maxl: u16) -> (w: World)
        requires
            16 <= maxc <= 65500,
            2 <= maxl,
        ensures
            w.wf(),
            w.player_c == maxc / 2,
            w.player_l == maxl - 1,
            w.maxc == maxc,
            w.maxl == maxl,
            w.status == PlayerStatus::Alive,
            w.next_left == maxc / 2 - 7,
            w.next_right == maxc / 2 + 7,
            w.ship == 'P',
            w.map@.len() == maxl,
            forall|i: int| 0 <= i < maxl ==> w.map@[i] == (((maxc / 2 - 5) as u16, (maxc / 2 + 5) as u16)),
            w.enemy@.len() == 0,
            w.bullet@.len() == 0,
    {
        let mut map: Vec<(u16, u16)> = Vec::new();
        let mut i: u16 = 0;
        while i < maxl
            invariant
                i <= maxl,
                16 <= maxc,
                map@.len() == i,
                forall|j: int|
                    0 <= j < i ==> map@[j] == (((maxc / 2 - 5) as u16, (maxc / 2 + 5) as u16)),
            decreases maxl - i,
        {
            map.push((maxc / 2 - 5, maxc / 2 + 5));
            i = i + 1;
        }
        World {
            player_c: maxc / 2,
            player_l: maxl - 1,
            map,
            maxc,
            maxl,
            status: PlayerStatus::Alive,
            next_left: maxc / 2 - 7,
            next_right: maxc / 2 + 7,
            ship: 'P',
            enemy: Vec::new(),
            bullet: Vec::new(),
        }
    }

    /// True while the session should keep ticking.
    pub fn is_alive(&self) -> (r: bool)
        ensures
            r == (self.status == PlayerStatus::Alive),
    {
        match self.status {
            PlayerStatus::Alive => true,
            _ => false,
        }
    }

    /// Runtime check of `wf`, for callers outside verified code.
    pub fn is_well_formed(&self) -> (r: bool)
        ensures
            r == self.wf(),
    {
        let mut enemies_ok: bool = true;
        let mut i: usize = 0;
        while i < self.enemy.len()
            invariant
                i <= self.enemy@.len(),
                enemies_ok == forall|j: int|
                    0 <= j < i ==> (#[trigger] self.enemy@[j]).l < self.maxl,
            decreases self.enemy@.len() - i,
        {
            if self.enemy[i].l >= self.maxl {
                enemies_ok = false;
            }
            i = i + 1;
        }
        16 <= self.maxc && self.maxc <= 65500 && 2 <= self.maxl && self.map.len() == self.maxl
            as usize && 1 <= self.next_left && self.next_left <= self.maxc - 1 && self.next_right
            <= self.maxc + 4 && 1 <= self.player_c && self.player_c <= self.maxc - 1 && 1
            <= self.player_l && self.player_l <= self.maxl - 1 && self.bullet.len() <= 1
            && enemies_ok
    }

    /// Move the player one row up, clamped at row 1.
    pub fn move_up(&mut self)
        requires
            old(self).wf(),
        ensures
            final(self).wf(),
            *final(self) == (World { player_l: dec_clamped(old(self).player_l), ..*old(self) }),
    {
        if self.player_l > 1 {
            self.player_l = self.player_l - 1;
        }
    }

    /// Move the player one row down, clamped at row `maxl - 1`.
    pub fn move_down(&mut self)
        requires
            old(self).wf(),
        ensures
            final(self).wf(),
            *final(self) == (World {
                player_l: inc_clamped(old(self).player_l, old(self).maxl),
                ..*old(self)
            }),
    {
        if self.player_l < self.maxl - 1 {
            self.player_l = self.player_l + 1;
        }
    }

    /// Move the player one column left, clamped at column 1.
    pub fn move_left(&mut self)
        requires
            old(self).wf(),
        ensures
            final(self).wf(),
            *final(self) == (World { player_c: dec_clamped(old(self).player_c), ..*old(self) }),
    {
        if self.player_c > 1 {
            self.player_c = self.player_c - 1;
        }
    }

    /// Move the player one column right, clamped at column `maxc - 1`.
    pub fn move_right(&mut self)
        requires
            old(self).wf(),
        ensures
            final(self).wf(),
            *final(self) == (World {
                player_c: inc_clamped(old(self).player_c, old(self).maxc),
                ..*old(self)
            }),
    {
        if self.player_c < self.maxc - 1 {
            self.player_c = self.player_c + 1;
        }
    }

    /// Fire a bullet one row above the player with energy `maxl / 4` — unless
    /// a bullet is already live, in which case the intent is ignored and the
    /// live bullet is unaffected.
    pub fn fire(&mut self)
        requires
            old(self).wf(),
        ensures
            final(self).wf(),
            final(self).bullet@ == fire_result(*old(self)),
            *final(self) == (World { bullet: final(self).bullet, ..*old(self) }),
    {
        if self.bullet.len() == 0 {
            let b = Bullet::new(self.player_c, self.player_l - 1, self.maxl / 4);
            self.bullet.push(b);
        }
    }

    /// Apply at most one player intent for this tick: the four clamped moves,
    /// fire, or nothing (`Quit` ends the loop outside the simulation and
    /// leaves the world unchanged, as does any unmapped key).
    pub fn apply_intent(&mut self, intent: Intent)
        requires
            old(self).wf(),
        ensures
            final(self).wf(),
            intent == Intent::MoveUp ==> *final(self) == (World {
                player_l: dec_clamped(old(self).player_l),
                ..*old(self)
            }),
            intent == Intent::MoveDown ==> *final(self) == (World {
                player_l: inc_clamped(old(self).player_l, old(self).maxl),
                ..*old(self)
            }),
            intent == Intent::MoveLeft ==> *final(self) == (World {
                player_c: dec_clamped(old(self).player_c),
                ..*old(self)
            }),
            intent == Intent::MoveRight ==> *final(self) == (World {
                player_c: inc_clamped(old(self).player_c, old(self).maxc),
                ..*old(self)
            }),
            intent == Intent::Fire ==> final(self).bullet@ == fire_result(*old(self))
                && *final(self) == (World { bullet: final(self).bullet, ..*old(self) }),
            intent == Intent::Quit || intent == Intent::Other ==> *final(self) == *old(self),
    {
        match intent {
            Intent::MoveUp => self.move_up(),
            Intent::MoveDown => self.move_down(),
            Intent::MoveLeft => self.move_left(),
            Intent::MoveRight => self.move_right(),
            Intent::Fire => self.fire(),
            Intent::Quit => (),
            Intent::Other => (),
        }
    }
}

} // verus!

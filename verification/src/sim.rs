//! The simulation engine: the authoritative per-tick update of the world.
//!
//! One tick runs, in this fixed order: bank collision, enemy–player
//! collision, enemy–bullet collision, river scroll, bank drift, retarget,
//! minimum-width widening, enemy spawn, enemy movement, bullet movement.
//! Collisions are checked before the river scrolls, so they use the
//! current-row ground truth.

use vstd::prelude::*;

use crate::rng::rand_range;
use crate::world::Bullet;
use crate::world::Enemy;
use crate::world::PlayerStatus;
use crate::world::World;

verus! {

/// `|a - b|` over the mathematical integers.
pub open spec fn abs_diff_spec(a: u16, b: u16) -> int {
    if a >= b {
        a - b
    } else {
        b - a
    }
}

/// One step of a bound toward its target: by one column per tick, at most.
pub open spec fn drift_toward(cur: u16, target: u16) -> u16 {
    if target > cur {
        (cur + 1) as u16
    } else if target < cur {
        (cur - 1) as u16
    } else {
        cur
    }
}

/// Whether one bullet removes one enemy: same column, vertical distance at
/// most one.
pub open spec fn hit_pair(e: Enemy, b: Bullet) -> bool {
    abs_diff_spec(e.l, b.l) <= 1 && e.c == b.c
}

/// Whether any live bullet removes this enemy.
pub open spec fn enemy_hit(e: Enemy, bs: Seq<Bullet>) -> bool {
    exists|j: int| 0 <= j < bs.len() && hit_pair(e, #[trigger] bs[j])
}

/// The enemies that survive the enemy–bullet collision step, in their
/// original order: each enemy of `s` is considered exactly once, and is
/// dropped precisely when a bullet hits it. One bullet may remove several
/// stacked enemies in the same tick.
pub open spec fn cull_enemies(s: Seq<Enemy>, bs: Seq<Bullet>) -> Seq<Enemy>
    decreases s.len(),
{
    if s.len() == 0 {
        Seq::empty()
    } else {
        let rest = cull_enemies(s.drop_last(), bs);
        if enemy_hit(s.last(), bs) {
            rest
        } else {
            rest.push(s.last())
        }
    }
}

/// The enemies after the movement step: every enemy one row further down, in
/// the original order, those reaching row `maxl` removed.
pub open spec fn advance_enemies(s: Seq<Enemy>, maxl: u16) -> Seq<Enemy>
    decreases s.len(),
{
    if s.len() == 0 {
        Seq::empty()
    } else {
        let rest = advance_enemies(s.drop_last(), maxl);
        let e = s.last();
        if e.l + 1 < maxl {
            rest.push(Enemy { c: e.c, l: (e.l + 1) as u16 })
        } else {
            rest
        }
    }
}

/// One movement tick of a single bullet: removed when its energy is spent or
/// it has reached the top rows, otherwise two rows up and one energy down.
pub open spec fn step_bullet(b: Bullet) -> Option<Bullet> {
    if b.energy == 0 || b.l <= 2 {
        None
    } else {
        Some(Bullet { c: b.c, l: (b.l - 2) as u16, energy: (b.energy - 1) as u16 })
    }
}

/// The bullets after the movement step, in the original order.
pub open spec fn step_bullets(s: Seq<Bullet>) -> Seq<Bullet>
    decreases s.len(),
{
    if s.len() == 0 {
        Seq::empty()
    } else {
        let rest = step_bullets(s.drop_last());
        match step_bullet(s.last()) {
            Some(b) => rest.push(b),
            None => rest,
        }
    }
}

/// The enemy list right after the spawn step: unchanged, or one new enemy at
/// the back.
pub open spec fn spawn_opt(s: Seq<Enemy>, sp: Option<Enemy>) -> Seq<Enemy> {
    match sp {
        None => s,
        Some(e) => s.push(e),
    }
}

/// A bullet's state after `k` movement ticks, `None` once it was removed.
pub open spec fn bullet_after(b: Bullet, k: nat) -> Option<Bullet>
    decreases k,
{
    if k == 0 {
        Some(b)
    } else {
        match bullet_after(b, (k - 1) as nat) {
            None => None,
            Some(b2) => step_bullet(b2),
        }
    }
}

/// Bullet lifecycle: a bullet with energy `E` fired at row `l` lives through
/// exactly `min(E, (l - 1) / 2)` movement ticks — it is removed when its
/// energy is spent, or earlier when it reaches row 2 or above — and while it
/// lives its row decreases by exactly 2 and its energy by exactly 1 per tick.
pub proof fn lemma_bullet_lifecycle(b: Bullet, k: nat)
    ensures
        bullet_after(b, k) is Some <==> (k <= b.energy && (k == 0 || b.l >= 2 * k + 1)),
        bullet_after(b, k) is Some ==> bullet_after(b, k)->Some_0 == (Bullet {
            c: b.c,
            l: (b.l - 2 * k) as u16,
            energy: (b.energy - k) as u16,
        }),
    decreases k,
{
    if k > 0 {
        lemma_bullet_lifecycle(b, (k - 1) as nat);
    }
}

/// Width invariant of the drift step: as long as both the current row-0
/// bounds and the targets are at least 3 apart (left below right), one tick
/// of drift keeps the row-0 bounds at least 3 apart, so the channel never
/// narrows below passable width.
pub proof fn lemma_drift_preserves_min_width(left: u16, right: u16, nl: u16, nr: u16)
    requires
        left + 3 <= right,
        nl + 3 <= nr,
    ensures
        drift_toward(left, nl) + 3 <= drift_toward(right, nr),
{
}

/// Enemy–bullet culling, membership form: an enemy is in the store after the
/// collision step exactly when it was there before and no live bullet hits
/// it — so one bullet removes every stacked enemy it reaches, and no other.
pub proof fn lemma_cull_membership(s: Seq<Enemy>, bs: Seq<Bullet>, e: Enemy)
    ensures
        cull_enemies(s, bs).contains(e) <==> (s.contains(e) && !enemy_hit(e, bs)),
    decreases s.len(),
{
    if s.len() > 0 {
        lemma_cull_membership(s.drop_last(), bs, e);
        let rest = cull_enemies(s.drop_last(), bs);
        let culled = cull_enemies(s, bs);
        if s.contains(e) {
            let i = choose|i: int| 0 <= i < s.len() && s[i] == e;
            if i < s.len() - 1 {
                assert(s.drop_last()[i] == e);
            }
        }
        if s.drop_last().contains(e) {
            let i = choose|i: int| 0 <= i < s.drop_last().len() && s.drop_last()[i] == e;
            assert(s[i] == e);
        }
        if s.last() == e {
            assert(s[s.len() - 1] == e);
        }
        if !enemy_hit(s.last(), bs) {
            if rest.contains(e) {
                let i = choose|i: int| 0 <= i < rest.len() && rest[i] == e;
                assert(culled[i] == e);
            }
            assert(culled[culled.len() - 1] == s.last());
            if culled.contains(e) && e != s.last() {
                let i = choose|i: int| 0 <= i < culled.len() && culled[i] == e;
                assert(rest[i] == e);
            }
        }
    }
}

/// Enemy movement, membership form: after the movement step the store holds
/// exactly the one-row-down images of the enemies that had not yet reached
/// the bottom row — an enemy on row `maxl - 1` has no image and is removed
/// after exactly one movement tick.
pub proof fn lemma_advance_membership(s: Seq<Enemy>, maxl: u16, e: Enemy)
    ensures
        advance_enemies(s, maxl).contains(e) <==> (1 <= e.l < maxl && s.contains(
            Enemy { c: e.c, l: (e.l - 1) as u16 },
        )),
    decreases s.len(),
{
    if s.len() > 0 {
        lemma_advance_membership(s.drop_last(), maxl, e);
        let prev = Enemy { c: e.c, l: (e.l - 1) as u16 };
        let rest = advance_enemies(s.drop_last(), maxl);
        let moved = advance_enemies(s, maxl);
        if s.contains(prev) {
            let i = choose|i: int| 0 <= i < s.len() && s[i] == prev;
            if i < s.len() - 1 {
                assert(s.drop_last()[i] == prev);
            }
        }
        if s.drop_last().contains(prev) {
            let i = choose|i: int| 0 <= i < s.drop_last().len() && s.drop_last()[i] == prev;
            assert(s[i] == prev);
        }
        if s.last() == prev {
            assert(s[s.len() - 1] == prev);
        }
        if s.last().l + 1 < maxl {
            let img = Enemy { c: s.last().c, l: (s.last().l + 1) as u16 };
            if rest.contains(e) {
                let i = choose|i: int| 0 <= i < rest.len() && rest[i] == e;
                assert(moved[i] == e);
            }
            assert(moved[moved.len() - 1] == img);
            if moved.contains(e) && e != img {
                let i = choose|i: int| 0 <= i < moved.len() && moved[i] == e;
                assert(rest[i] == e);
            }
        }
    }
}

impl World {
    /// The player's column is outside the passable channel of its row.
    pub open spec fn player_hit_ground(self) -> bool {
        self.player_c < self.map@[self.player_l as int].0 || self.player_c >= self.map@[
            self.player_l as int
        ].1
    }

    /// Some enemy shares the player's exact position.
    pub open spec fn enemy_on_player(self) -> bool {
        exists|i: int|
            0 <= i < self.enemy@.len() && (#[trigger] self.enemy@[i]).l == self.player_l
                && self.enemy@[i].c == self.player_c
    }

    /// Bank collision: the player dies when its column is outside its row's
    /// channel `[left, right)`.
    pub fn check_ground_collision(&mut self)
        requires
            old(self).wf(),
        ensures
            final(self).wf(),
            final(self).status == (if old(self).player_hit_ground() {
                PlayerStatus::Dead
            } else {
                old(self).status
            }),
            *final(self) == (World { status: final(self).status, ..*old(self) }),
    {
        let row = self.map[self.player_l as usize];
        if self.player_c < row.0 || self.player_c >= row.1 {
            self.status = PlayerStatus::Dead;
        }
    }

    /// Enemy–player collision: the player dies when any enemy shares its
    /// exact position.
    pub fn check_enemy_collision(&mut self)
        requires
            old(self).wf(),
        ensures
            final(self).wf(),
            final(self).status == (if old(self).enemy_on_player() {
                PlayerStatus::Dead
            } else {
                old(self).status
            }),
            *final(self) == (World { status: final(self).status, ..*old(self) }),
    {
        let mut i: usize = 0;
        let mut found: bool = false;
        while i < self.enemy.len()
            invariant
                i <= self.enemy@.len(),
                *self == *old(self),
                found == exists|j: int|
                    0 <= j < i && (#[trigger] self.enemy@[j]).l == self.player_l
                        && self.enemy@[j].c == self.player_c,
            decreases self.enemy@.len() - i,
        {
            let e = self.enemy[i];
            if e.l == self.player_l && e.c == self.player_c {
                found = true;
            }
            i = i + 1;
        }
        if found {
            self.status = PlayerStatus::Dead;
        }
    }

    /// Enemy–bullet collision: removes every enemy within vertical distance 1
    /// of a live bullet in the same column. Every enemy is considered exactly
    /// once; the survivors keep their order.
    pub fn remove_shot_enemies(&mut self)
        requires
            old(self).wf(),
        ensures
            final(self).wf(),
            final(self).enemy@ == cull_enemies(old(self).enemy@, old(self).bullet@),
            *final(self) == (World { enemy: final(self).enemy, ..*old(self) }),
    {
        let mut kept: Vec<Enemy> = Vec::new();
        let mut i: usize = 0;
        while i < self.enemy.len()
            invariant
                i <= self.enemy@.len(),
                *self == *old(self),
                old(self).wf(),
                kept@ == cull_enemies(self.enemy@.take(i as int), self.bullet@),
                forall|j: int| 0 <= j < kept@.len() ==> (#[trigger] kept@[j]).l < self.maxl,
            decreases self.enemy@.len() - i,
        {
            let e = self.enemy[i];
            if !bullet_hits(e, &self.bullet) {
                kept.push(e);
            }
            proof {
                assert(self.enemy@.take(i as int + 1).drop_last() =~= self.enemy@.take(i as int));
                assert(self.enemy@.take(i as int + 1).last() == self.enemy@[i as int]);
            }
            i = i + 1;
        }
        proof {
            assert(self.enemy@.take(self.enemy@.len() as int) =~= self.enemy@);
        }
        self.enemy = kept;
    }

    /// River scroll: every row takes the previous row's bounds, the bottom
    /// row is discarded, row 0 is left in place to be recomputed by drift.
    pub fn scroll(&mut self)
        requires
            old(self).wf(),
        ensures
            final(self).wf(),
            final(self).map@.len() == old(self).map@.len(),
            final(self).map@[0] == old(self).map@[0],
            forall|i: int|
                1 <= i < final(self).map@.len() ==> final(self).map@[i] == old(self).map@[i - 1],
            *final(self) == (World { map: final(self).map, ..*old(self) }),
    {
        let n = self.map.len();
        let mut k: usize = n;
        while k > 1
            invariant
                1 <= k <= n,
                n == old(self).map@.len(),
                self.map@.len() == n,
                forall|i: int| 0 <= i < k ==> self.map@[i] == old(self).map@[i],
                forall|i: int| k <= i < n ==> self.map@[i] == old(self).map@[i - 1],
                *self == (World { map: self.map, ..*old(self) }),
            decreases k,
        {
            k = k - 1;
            let v = self.map[k - 1];
            self.map.set(k, v);
        }
    }

    /// Bank drift: row 0's left bound moves one column toward `next_left`,
    /// its right bound one column toward `next_right` — at most one column
    /// per tick per side.
    pub fn advance_row0(&mut self)
        requires
            old(self).wf(),
        ensures
            final(self).wf(),
            final(self).map@.len() == old(self).map@.len(),
            final(self).map@[0].0 == drift_toward(old(self).map@[0].0, old(self).next_left),
            final(self).map@[0].1 == drift_toward(old(self).map@[0].1, old(self).next_right),
            abs_diff_spec(final(self).map@[0].0, old(self).map@[0].0) <= 1,
            abs_diff_spec(final(self).map@[0].1, old(self).map@[0].1) <= 1,
            forall|i: int|
                1 <= i < final(self).map@.len() ==> final(self).map@[i] == old(self).map@[i],
            *final(self) == (World { map: final(self).map, ..*old(self) }),
    {
        let row = self.map[0];
        let new_left: u16 = if self.next_left > row.0 {
            row.0 + 1
        } else if self.next_left < row.0 {
            row.0 - 1
        } else {
            row.0
        };
        let new_right: u16 = if self.next_right > row.1 {
            row.1 + 1
        } else if self.next_right < row.1 {
            row.1 - 1
        } else {
            row.1
        };
        self.map.set(0, (new_left, new_right));
    }

    /// Retarget: when a bound has reached its target, with probability 3/10
    /// pick a new target within 5 columns of the old one, clamped into the
    /// screen — the left target floors at 1, both cap at `maxc - 1`.
    pub fn maybe_retarget(&mut self)
        requires
            old(self).wf(),
        ensures
            final(self).wf(),
            final(self).next_left == old(self).next_left || (1 <= final(self).next_left <= final(self).maxc - 1 && old(self).next_left - 5 <= final(self).next_left <= old(self).next_left
                + 4),
            final(self).next_right == old(self).next_right || (final(self).next_right <= final(self).maxc - 1 && old(self).next_right - 5 <= final(self).next_right <= old(self).next_right + 4),
            old(self).next_left != old(self).map@[0].0 ==> final(self).next_left == old(self).next_left,
            old(self).next_right != old(self).map@[0].1 ==> final(self).next_right == old(self).next_right,
            *final(self) == (World {
                next_left: final(self).next_left,
                next_right: final(self).next_right,
                ..*old(self)
            }),
    {
        let row = self.map[0];
        if self.next_left == row.0 && rand_range(0, 10) >= 7 {
            let lo: u16 = if self.next_left > 5 {
                self.next_left - 5
            } else {
                0
            };
            let mut t: u16 = rand_range(lo, self.next_left + 5);
            if t == 0 {
                t = 1;
            }
            if t > self.maxc - 1 {
                t = self.maxc - 1;
            }
            self.next_left = t;
        }
        if self.next_right == row.1 && rand_range(0, 10) >= 7 {
            let lo: u16 = if self.next_right > 5 {
                self.next_right - 5
            } else {
                0
            };
            let mut t: u16 = rand_range(lo, self.next_right + 5);
            if t > self.maxc - 1 {
                t = self.maxc - 1;
            }
            self.next_right = t;
        }
    }

    /// Minimum-width widening: when the targets are fewer than 3 columns
    /// apart, the right target is pushed 3 columns out.
    pub fn enforce_minimum_width(&mut self)
        requires
            old(self).wf(),
        ensures
            final(self).wf(),
            final(self).next_right == (if abs_diff_spec(old(self).next_right, old(self).next_left)
                < 3 {
                (old(self).next_right + 3) as u16
            } else {
                old(self).next_right
            }),
            *final(self) == (World { next_right: final(self).next_right, ..*old(self) }),
    {
        let diff: u16 = if self.next_right >= self.next_left {
            self.next_right - self.next_left
        } else {
            self.next_left - self.next_right
        };
        if diff < 3 {
            self.next_right = self.next_right + 3;
        }
    }

    /// Enemy spawn: with probability 1/10, one new enemy appears at row 0 at
    /// a column drawn uniformly from the current row-0 channel. When the
    /// channel is empty there is no column to draw, and nothing spawns.
    pub fn maybe_spawn_enemy(&mut self)
        requires
            old(self).wf(),
        ensures
            final(self).wf(),
            final(self).enemy@.len() == old(self).enemy@.len() || final(self).enemy@.len() == old(self).enemy@.len() + 1,
            forall|i: int|
                0 <= i < old(self).enemy@.len() ==> final(self).enemy@[i] == old(self).enemy@[i],
            final(self).enemy@.len() == old(self).enemy@.len() ==> final(self).enemy@ == old(self).enemy@,
            final(self).enemy@.len() > old(self).enemy@.len() ==> final(self).enemy@.last().l == 0
                && old(self).map@[0].0 <= final(self).enemy@.last().c < old(self).map@[0].1,
            *final(self) == (World { enemy: final(self).enemy, ..*old(self) }),
    {
        if rand_range(0, 10) >= 9 {
            let row = self.map[0];
            if row.0 < row.1 {
                let c = rand_range(row.0, row.1);
                self.enemy.push(Enemy { c, l: 0 });
            }
        }
    }

    /// Enemy movement: every enemy moves one row down; any enemy reaching row
    /// `maxl` has left the screen and is removed.
    pub fn move_enemies(&mut self)
        requires
            old(self).wf(),
        ensures
            final(self).wf(),
            final(self).enemy@ == advance_enemies(old(self).enemy@, old(self).maxl),
            *final(self) == (World { enemy: final(self).enemy, ..*old(self) }),
    {
        let mut kept: Vec<Enemy> = Vec::new();
        let mut i: usize = 0;
        while i < self.enemy.len()
            invariant
                i <= self.enemy@.len(),
                *self == *old(self),
                old(self).wf(),
                kept@ == advance_enemies(self.enemy@.take(i as int), self.maxl),
                forall|j: int| 0 <= j < kept@.len() ==> (#[trigger] kept@[j]).l < self.maxl,
            decreases self.enemy@.len() - i,
        {
            let e = self.enemy[i];
            if e.l + 1 < self.maxl {
                kept.push(Enemy { c: e.c, l: e.l + 1 });
            }
            proof {
                assert(self.enemy@.take(i as int + 1).drop_last() =~= self.enemy@.take(i as int));
                assert(self.enemy@.take(i as int + 1).last() == self.enemy@[i as int]);
            }
            i = i + 1;
        }
        proof {
            assert(self.enemy@.take(self.enemy@.len() as int) =~= self.enemy@);
        }
        self.enemy = kept;
    }

    /// Bullet movement: a bullet whose energy is spent or which has reached
    /// the top rows is removed; otherwise it climbs two rows and burns one
    /// unit of energy.
    pub fn move_bullets(&mut self)
        requires
            old(self).wf(),
        ensures
            final(self).wf(),
            final(self).bullet@ == step_bullets(old(self).bullet@),
            final(self).bullet@.len() <= old(self).bullet@.len(),
            forall|i: int| 0 <= i < final(self).bullet@.len() ==> (#[trigger] final(self).bullet@[i]).l >= 1,
            *final(self) == (World { bullet: final(self).bullet, ..*old(self) }),
    {
        let mut kept: Vec<Bullet> = Vec::new();
        let mut i: usize = 0;
        while i < self.bullet.len()
            invariant
                i <= self.bullet@.len(),
                *self == *old(self),
                kept@ == step_bullets(self.bullet@.take(i as int)),
                kept@.len() <= i,
                forall|j: int| 0 <= j < kept@.len() ==> (#[trigger] kept@[j]).l >= 1,
            decreases self.bullet@.len() - i,
        {
            let b = self.bullet[i];
            if !(b.energy == 0 || b.l <= 2) {
                kept.push(Bullet { c: b.c, l: b.l - 2, energy: b.energy - 1 });
            }
            proof {
                assert(self.bullet@.take(i as int + 1).drop_last() =~= self.bullet@.take(i as int));
                assert(self.bullet@.take(i as int + 1).last() == self.bullet@[i as int]);
            }
            i = i + 1;
        }
        proof {
            assert(self.bullet@.take(self.bullet@.len() as int) =~= self.bullet@);
        }
        self.bullet = kept;
    }

    /// One full simulation tick, in the fixed order stated at the top of this
    /// module. Randomness decides only the retarget and spawn outcomes; every
    /// clause below holds whatever the generator returned.
    pub fn physics(&mut self)
        requires
            old(self).wf(),
        ensures
            final(self).wf(),
            // player and screen are untouched
            final(self).player_c == old(self).player_c,
            final(self).player_l == old(self).player_l,
            final(self).maxc == old(self).maxc,
            final(self).maxl == old(self).maxl,
            final(self).ship == old(self).ship,
            // death is decided on the pre-tick positions
            final(self).status == (if old(self).player_hit_ground() || old(self).enemy_on_player() {
                PlayerStatus::Dead
            } else {
                old(self).status
            }),
            // the river scrolled one row, and row 0 drifted at most one column per side
            final(self).map@.len() == old(self).map@.len(),
            forall|i: int|
                1 <= i < final(self).map@.len() ==> final(self).map@[i] == old(self).map@[i - 1],
            final(self).map@[0].0 == drift_toward(old(self).map@[0].0, old(self).next_left),
            final(self).map@[0].1 == drift_toward(old(self).map@[0].1, old(self).next_right),
            abs_diff_spec(final(self).map@[0].0, old(self).map@[0].0) <= 1,
            abs_diff_spec(final(self).map@[0].1, old(self).map@[0].1) <= 1,
            // a channel of passable width stays passable while the targets are sound
            old(self).next_left + 3 <= old(self).next_right && old(self).map@[0].0 + 3 <= old(self).map@[0].1 ==> final(self).map@[0].0 + 3 <= final(self).map@[0].1,
            // bullets step deterministically
            final(self).bullet@ == step_bullets(old(self).bullet@),
            forall|i: int| 0 <= i < final(self).bullet@.len() ==> (#[trigger] final(self).bullet@[i]).l >= 1,
            // enemies: culled by bullets, at most one spawned inside the
            // drifted row-0 channel, then all moved one row down
            exists|sp: Option<Enemy>|
                final(self).enemy@ == advance_enemies(
                    #[trigger] spawn_opt(cull_enemies(old(self).enemy@, old(self).bullet@), sp),
                    old(self).maxl,
                ) && (sp is Some ==> sp->Some_0.l == 0 && drift_toward(
                    old(self).map@[0].0,
                    old(self).next_left,
                ) <= sp->Some_0.c < drift_toward(old(self).map@[0].1, old(self).next_right)),
    {
        self.check_ground_collision();
        self.check_enemy_collision();
        self.remove_shot_enemies();
        let ghost culled: Seq<Enemy> = self.enemy@;
        self.scroll();
        self.advance_row0();
        self.maybe_retarget();
        self.enforce_minimum_width();
        self.maybe_spawn_enemy();
        let ghost spawned: Seq<Enemy> = self.enemy@;
        let ghost sp: Option<Enemy> = if spawned.len() > culled.len() {
            Some(spawned.last())
        } else {
            None
        };
        proof {
            if spawned.len() > culled.len() {
                assert(spawned =~= culled.push(spawned.last()));
            }
            assert(spawned == spawn_opt(culled, sp));
            if old(self).next_left + 3 <= old(self).next_right && old(self).map@[0].0 + 3 <= old(self).map@[0].1 {
                lemma_drift_preserves_min_width(
                    old(self).map@[0].0,
                    old(self).map@[0].1,
                    old(self).next_left,
                    old(self).next_right,
                );
            }
        }
        self.move_enemies();
        self.move_bullets();
        proof {
            assert(final(self).enemy@ == advance_enemies(
                spawn_opt(cull_enemies(old(self).enemy@, old(self).bullet@), sp),
                old(self).maxl,
            ));
        }
    }
}

/// Whether any bullet of `bs` hits the enemy `e`.
fn bullet_hits(e: Enemy, bs: &Vec<Bullet>) -> (r: bool)
    ensures
        r == enemy_hit(e, bs@),
{
    let mut i: usize = 0;
    let mut found: bool = false;
    while i < bs.len()
        invariant
            i <= bs@.len(),
            found == exists|j: int| 0 <= j < i && hit_pair(e, #[trigger] bs@[j]),
        decreases bs@.len() - i,
    {
        let b = bs[i];
        let near: bool = if e.l >= b.l {
            e.l - b.l <= 1
        } else {
            b.l - e.l <= 1
        };
        if near && e.c == b.c {
            found = true;
        }
        i = i + 1;
    }
    found
}

} // verus!

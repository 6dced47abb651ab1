use riverraid::world::Bullet;
use riverraid::world::Enemy;
use riverraid::world::Intent;
use riverraid::world::PlayerStatus;
use riverraid::world::World;

/// A small hand-built world: 40 columns, 20 rows, a straight channel
/// `[10, 20)` on every row, the player centered near the bottom.
fn small_world() -> World {
    World {
        player_c: 15,
        player_l: 19,
        map: vec![(10, 20); 20],
        maxc: 40,
        maxl: 20,
        status: PlayerStatus::Alive,
        next_right: 20,
        next_left: 10,
        ship: 'P',
        enemy: Vec::new(),
        bullet: Vec::new(),
    }
}

#[test]
fn world_new_initial_state() {
    let w = World::new(80, 24);
    assert_eq!(w.player_c, 40);
    assert_eq!(w.player_l, 23);
    assert_eq!(w.maxc, 80);
    assert_eq!(w.maxl, 24);
    assert_eq!(w.status, PlayerStatus::Alive);
    assert_eq!(w.next_left, 33);
    assert_eq!(w.next_right, 47);
    assert_eq!(w.ship, 'P');
    assert_eq!(w.map.len(), 24);
    for row in &w.map {
        assert_eq!(*row, (35, 45));
    }
    assert!(w.enemy.is_empty());
    assert!(w.bullet.is_empty());
}

#[test]
fn bullet_new_fields() {
    let b = Bullet::new(7, 11, 5);
    assert_eq!(b.c, 7);
    assert_eq!(b.l, 11);
    assert_eq!(b.energy, 5);
}

#[test]
fn player_clamps_at_low_edge() {
    let mut w = small_world();
    w.player_c = 1;
    w.player_l = 1;
    w.move_left();
    assert_eq!(w.player_c, 1);
    w.move_up();
    assert_eq!(w.player_l, 1);
}

#[test]
fn player_clamps_at_high_edge() {
    let mut w = small_world();
    w.player_c = 39;
    w.player_l = 19;
    w.move_right();
    assert_eq!(w.player_c, 39);
    w.move_down();
    assert_eq!(w.player_l, 19);
}

#[test]
fn player_moves_one_step_inside() {
    let mut w = small_world();
    w.move_left();
    assert_eq!(w.player_c, 14);
    w.move_right();
    assert_eq!(w.player_c, 15);
    w.move_up();
    assert_eq!(w.player_l, 18);
    w.move_down();
    assert_eq!(w.player_l, 19);
}

#[test]
fn intents_dispatch_to_moves() {
    let mut w = small_world();
    w.apply_intent(Intent::MoveLeft);
    assert_eq!(w.player_c, 14);
    w.apply_intent(Intent::MoveRight);
    assert_eq!(w.player_c, 15);
    w.apply_intent(Intent::MoveUp);
    assert_eq!(w.player_l, 18);
    w.apply_intent(Intent::MoveDown);
    assert_eq!(w.player_l, 19);
    w.apply_intent(Intent::Other);
    assert_eq!(w.player_c, 15);
    assert_eq!(w.player_l, 19);
    w.apply_intent(Intent::Quit);
    assert_eq!(w.player_c, 15);
    assert_eq!(w.player_l, 19);
}

#[test]
fn fire_creates_one_bullet_above_player() {
    let mut w = small_world();
    w.apply_intent(Intent::Fire);
    assert_eq!(w.bullet.len(), 1);
    assert_eq!(w.bullet[0].c, 15);
    assert_eq!(w.bullet[0].l, 18);
    assert_eq!(w.bullet[0].energy, 5);
}

#[test]
fn fire_while_bullet_lives_is_ignored() {
    let mut w = small_world();
    w.fire();
    let first = w.bullet[0];
    w.move_left();
    w.fire();
    assert_eq!(w.bullet.len(), 1);
    assert_eq!(w.bullet[0], first);
}

#[test]
fn scroll_copies_each_row_down() {
    let mut w = small_world();
    for i in 0..20u16 {
        w.map[i as usize] = (i, i + 25);
    }
    let before = w.map.clone();
    w.scroll();
    assert_eq!(w.map.len(), 20);
    assert_eq!(w.map[0], before[0]);
    for i in 1..20usize {
        assert_eq!(w.map[i], before[i - 1]);
    }
}

#[test]
fn drift_moves_each_bound_one_toward_target() {
    let mut w = small_world();
    w.map[0] = (13, 16);
    w.next_left = 10;
    w.next_right = 21;
    w.advance_row0();
    assert_eq!(w.map[0], (12, 17));

    w.map[0] = (8, 30);
    w.advance_row0();
    assert_eq!(w.map[0], (9, 29));

    w.map[0] = (10, 21);
    w.advance_row0();
    assert_eq!(w.map[0], (10, 21));
}

#[test]
fn retargets_stay_clamped_inside_screen() {
    let mut w = small_world();
    let mut changed = 0;
    for _ in 0..300 {
        // park both bounds on their targets so a retarget may trigger
        w.map[0] = (w.next_left, w.next_right);
        let (old_left, old_right) = (w.next_left, w.next_right);
        w.maybe_retarget();
        assert!(w.next_left >= 1);
        assert!(w.next_left <= w.maxc - 1);
        assert!(w.next_right <= w.maxc - 1 || w.next_right == old_right);
        let dl = w.next_left as i32 - old_left as i32;
        let dr = w.next_right as i32 - old_right as i32;
        assert!((-5..=4).contains(&dl));
        assert!((-5..=4).contains(&dr));
        if dl != 0 || dr != 0 {
            changed += 1;
        }
        w.enforce_minimum_width();
    }
    // each parked bound retargets with chance 3/10 per tick; 300 ticks with
    // no movement at all would be astronomically unlikely
    assert!(changed > 0);
}

#[test]
fn narrow_targets_are_widened() {
    let mut w = small_world();
    w.next_left = 10;
    w.next_right = 11;
    w.enforce_minimum_width();
    assert_eq!(w.next_right, 14);

    w.next_right = 20;
    w.enforce_minimum_width();
    assert_eq!(w.next_right, 20);
}

#[test]
fn passable_channel_stays_passable() {
    let mut w = small_world();
    w.map[0] = (10, 13);
    w.next_left = 12;
    w.next_right = 15;
    w.advance_row0();
    w.enforce_minimum_width();
    assert!(w.map[0].1 - w.map[0].0 >= 3);
}

#[test]
fn player_outside_banks_dies_in_one_tick() {
    let mut w = small_world();
    w.player_c = 5;
    w.physics();
    assert_eq!(w.status, PlayerStatus::Dead);
}

#[test]
fn player_on_right_bound_dies_in_one_tick() {
    let mut w = small_world();
    // the channel is [left, right): the right bound itself is bank
    w.player_c = 20;
    w.physics();
    assert_eq!(w.status, PlayerStatus::Dead);
}

#[test]
fn player_inside_banks_stays_alive() {
    let mut w = small_world();
    w.physics();
    assert_eq!(w.status, PlayerStatus::Alive);
    assert!(w.is_alive());
}

#[test]
fn enemy_on_player_kills() {
    let mut w = small_world();
    w.enemy.push(Enemy { c: 15, l: 19 });
    w.physics();
    assert_eq!(w.status, PlayerStatus::Dead);
}

#[test]
fn bullet_climbs_two_rows_per_tick_until_energy_spent() {
    let mut w = small_world();
    w.bullet.push(Bullet::new(12, 15, 3));
    w.move_bullets();
    assert_eq!(w.bullet[0], Bullet::new(12, 13, 2));
    w.move_bullets();
    assert_eq!(w.bullet[0], Bullet::new(12, 11, 1));
    w.move_bullets();
    assert_eq!(w.bullet[0], Bullet::new(12, 9, 0));
    w.move_bullets();
    assert!(w.bullet.is_empty());
}

#[test]
fn bullet_reaching_top_rows_is_removed() {
    let mut w = small_world();
    w.bullet.push(Bullet::new(12, 4, 9));
    w.move_bullets();
    assert_eq!(w.bullet[0], Bullet::new(12, 2, 8));
    w.move_bullets();
    assert!(w.bullet.is_empty());
}

#[test]
fn enemy_on_last_row_is_culled_after_one_movement() {
    let mut w = small_world();
    w.enemy.push(Enemy { c: 12, l: 19 });
    w.enemy.push(Enemy { c: 13, l: 18 });
    w.move_enemies();
    assert_eq!(w.enemy.len(), 1);
    assert_eq!(w.enemy[0], Enemy { c: 13, l: 19 });
    w.move_enemies();
    assert!(w.enemy.is_empty());
}

#[test]
fn bullet_removes_adjacent_enemy_before_scroll() {
    let mut w = small_world();
    w.enemy.push(Enemy { c: 5, l: 10 });
    w.bullet.push(Bullet::new(5, 11, 4));
    w.remove_shot_enemies();
    assert!(w.enemy.is_empty());
}

#[test]
fn bullet_hits_through_full_tick() {
    let mut w = small_world();
    w.enemy.push(Enemy { c: 5, l: 10 });
    w.bullet.push(Bullet::new(5, 11, 4));
    w.physics();
    // the shot enemy is gone; at most a freshly spawned enemy (row 1 after
    // its first movement) may be present
    for e in &w.enemy {
        assert!(e.l <= 1);
    }
}

#[test]
fn distant_or_offset_enemies_survive_the_bullet() {
    let mut w = small_world();
    w.enemy.push(Enemy { c: 5, l: 13 });
    w.enemy.push(Enemy { c: 6, l: 11 });
    w.bullet.push(Bullet::new(5, 11, 4));
    w.remove_shot_enemies();
    assert_eq!(w.enemy.len(), 2);
}

#[test]
fn one_bullet_removes_stacked_enemies() {
    let mut w = small_world();
    w.enemy.push(Enemy { c: 5, l: 10 });
    w.enemy.push(Enemy { c: 5, l: 11 });
    w.enemy.push(Enemy { c: 5, l: 12 });
    w.bullet.push(Bullet::new(5, 11, 4));
    w.remove_shot_enemies();
    assert!(w.enemy.is_empty());
}

#[test]
fn tick_scrolls_river_and_drifts_row0() {
    let mut w = small_world();
    for i in 0..20u16 {
        w.map[i as usize] = (10 + i % 3, 25 + i % 4);
    }
    w.next_left = 9;
    w.next_right = 30;
    let before = w.map.clone();
    w.physics();
    for i in 1..20usize {
        assert_eq!(w.map[i], before[i - 1]);
    }
    assert_eq!(w.map[0], (before[0].0 - 1, before[0].1 + 1));
}

#[test]
fn well_formedness_check_mirrors_the_invariant() {
    let mut w = small_world();
    assert!(w.is_well_formed());
    w.next_left = 0;
    assert!(!w.is_well_formed());
    w.next_left = 10;
    w.bullet.push(Bullet::new(5, 10, 3));
    w.bullet.push(Bullet::new(6, 10, 3));
    assert!(!w.is_well_formed());
}

#[test]
fn spawned_enemies_come_from_the_row0_channel() {
    let mut w = small_world();
    // a one-column channel pins the spawn column
    w.map[0] = (5, 6);
    w.next_left = 5;
    w.next_right = 6;
    let mut spawned = 0;
    for _ in 0..600 {
        let before = w.enemy.len();
        w.maybe_spawn_enemy();
        if w.enemy.len() > before {
            spawned += 1;
            assert_eq!(w.enemy.last().unwrap().l, 0);
            assert_eq!(w.enemy.last().unwrap().c, 5);
        }
    }
    // the spawn chance is 1/10 per call; 600 calls without one spawn would
    // be astronomically unlikely
    assert!(spawned > 0);
}

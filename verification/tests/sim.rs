use arena_core::attack::attack;
use arena_core::components::{
    AttackCooldown, Enemy, Player, Slot, TextureKey, Transform, ATTACK_PERIOD_US, PLAYER_SPEED,
    SPAWN_X_MAX, SPAWN_X_MIN, SPAWN_Y_MAX, SPAWN_Y_MIN,
};
use arena_core::reaper::despawn_enemy;
use arena_core::input::{map_input, InputSnapshot};
use arena_core::step::{render_list, step};
use arena_core::world::{setup, spawn_enemy_at, World};

fn empty() -> InputSnapshot {
    InputSnapshot::empty()
}

fn fire_only() -> InputSnapshot {
    InputSnapshot { up: false, down: false, left: false, right: false, fire: true }
}

fn live_enemies(w: &World) -> usize {
    w.slots.iter().filter(|s| s.alive && s.enemy.is_some()).count()
}

fn live_fireballs(w: &World) -> usize {
    w.slots.iter().filter(|s| s.alive && s.fireball.is_some()).count()
}

fn live_players(w: &World) -> usize {
    w.slots.iter().filter(|s| s.alive && s.player.is_some()).count()
}

/// The input mapper combines held keys into a movement vector in
/// {-1, 0, 1} on each axis and passes the fire edge through.
#[test]
fn input_mapper_vectors() {
    let snap = InputSnapshot { up: true, down: false, left: true, right: false, fire: true };
    assert_eq!(map_input(&snap), (-1, 1, true));
    let both = InputSnapshot { up: true, down: true, left: true, right: true, fire: false };
    assert_eq!(map_input(&both), (0, 0, false));
    assert_eq!(map_input(&InputSnapshot::empty()), (0, 0, false));
    let right = InputSnapshot { up: false, down: true, left: false, right: true, fire: false };
    assert_eq!(map_input(&right), (1, -1, false));
}

/// Shoot and kill: fire on the first of three 0.1 s ticks at an enemy
/// standing 100 units to the right. The projectile rests on its spawn
/// tick, covers 40 units on each following tick, hits at distance 20,
/// and the reaper scores the kill.
#[test]
fn three_ticks_shoot_and_kill() {
    let mut w = World::new();
    setup(&mut w);
    let enemy_id = spawn_enemy_at(&mut w, 100_000_000, 0);

    step(&mut w, 100_000, &fire_only());
    let proj_id = 3usize;
    assert!(w.slots[proj_id].alive);
    let f = w.slots[proj_id].fireball.unwrap();
    assert!(!f.facing_left);
    assert_eq!(w.slots[proj_id].transform.unwrap(), Transform { x: 0, y: 0 });
    assert_eq!(w.slots[1].cooldown.unwrap().remaining_us, 500_000);
    assert_eq!(w.slots[enemy_id].enemy.unwrap().health, 10);
    assert_eq!(w.score, 0);

    step(&mut w, 100_000, &empty());
    assert!(w.slots[proj_id].alive);
    assert_eq!(w.slots[proj_id].transform.unwrap(), Transform { x: 40_000_000, y: 0 });
    assert!(!w.slots[proj_id].fireball.unwrap().facing_left);
    assert_eq!(w.slots[enemy_id].enemy.unwrap().health, 10);
    assert_eq!(w.score, 0);

    step(&mut w, 100_000, &empty());
    assert_eq!(w.slots[proj_id].transform.unwrap(), Transform { x: 80_000_000, y: 0 });
    assert!(!w.slots[proj_id].alive);
    assert_eq!(w.slots[enemy_id].enemy.unwrap().health, 0);
    assert!(!w.slots[enemy_id].alive);
    assert_eq!(w.score, 1);
    assert_eq!(live_players(&w), 1);
    assert_eq!(w.slots[1].player.unwrap().health, 100);
}

/// Cooldown gate: a second fire edge on the next tick spawns nothing
/// and the cooldown keeps counting down; after a total of 0.5 s a new
/// fire edge spawns again. The cooldown stays inside [0, 0.5 s]
/// throughout.
#[test]
fn cooldown_gates_second_shot() {
    let mut w = World::new();
    setup(&mut w);

    step(&mut w, 100_000, &fire_only());
    assert_eq!(live_fireballs(&w), 1);
    assert_eq!(w.slots[1].cooldown.unwrap().remaining_us, 500_000);

    step(&mut w, 100_000, &fire_only());
    assert_eq!(live_fireballs(&w), 1);
    assert_eq!(w.slots[1].cooldown.unwrap().remaining_us, 400_000);

    for _ in 0..5 {
        step(&mut w, 100_000, &empty());
        let rem = w.slots[1].cooldown.unwrap().remaining_us;
        assert!(0 <= rem && rem <= ATTACK_PERIOD_US);
    }
    assert_eq!(w.slots[1].cooldown.unwrap().remaining_us, 0);

    step(&mut w, 100_000, &fire_only());
    assert_eq!(live_fireballs(&w), 2);
    assert_eq!(w.slots[1].cooldown.unwrap().remaining_us, 500_000);
}

/// A fire edge while the cooldown is still positive: the attack system
/// alone spawns nothing and only counts the cooldown down.
#[test]
fn fire_edge_with_cooldown_running_spawns_nothing() {
    let mut w = World::new();
    setup(&mut w);
    step(&mut w, 100_000, &fire_only());
    assert_eq!(live_fireballs(&w), 1);
    let len_before = w.slots.len();

    attack(&mut w, 0, true);
    assert_eq!(w.slots.len(), len_before);
    assert_eq!(live_fireballs(&w), 1);
    assert_eq!(w.slots[1].cooldown.unwrap().remaining_us, 500_000);
}

/// Diagonal speed: holding Up and Right for one second at 60 ticks per
/// second lands near (175/sqrt 2, 175/sqrt 2), and the per-second speed
/// never exceeds the configured 175 units.
#[test]
fn diagonal_speed_over_one_second() {
    let mut w = World::new();
    setup(&mut w);
    let held = InputSnapshot { up: true, down: false, left: false, right: true, fire: false };
    for _ in 0..60 {
        step(&mut w, 16_667, &held);
    }
    let t = w.slots[1].transform.unwrap();
    assert_eq!(t.x, t.y);
    let expected = 175.0f64 / 2.0f64.sqrt();
    let x_units = t.x as f64 / 1.0e6;
    assert!((x_units - expected).abs() < 1.0, "{} vs {}", x_units, expected);
    // Magnitude of the diagonal velocity: close to the speed and never
    // above it.
    let dist = (2.0f64).sqrt() * x_units;
    assert!(dist <= 175.1);
    assert!((dist - 175.0).abs() < 0.1);
    assert!(!w.slots[1].player.unwrap().facing_left);
}

/// Y clamp: a player just below the top who keeps moving up is clamped
/// to exactly 140 on the first tick that would pass it, and stays
/// there.
#[test]
fn y_clamp_from_below_top() {
    let mut w = World::new();
    w.spawn(Slot {
        alive: true,
        transform: Some(Transform { x: 0, y: 139_500_000 }),
        sprite: None,
        player: Some(Player { speed: PLAYER_SPEED, health: 100, facing_left: false }),
        enemy: None,
        fireball: None,
        cooldown: Some(AttackCooldown { remaining_us: 0, period_us: ATTACK_PERIOD_US }),
    });
    let held = InputSnapshot { up: true, down: false, left: false, right: false, fire: false };
    step(&mut w, 16_667, &held);
    assert_eq!(w.slots[0].transform.unwrap().y, 140_000_000);
    for _ in 0..59 {
        step(&mut w, 16_667, &held);
        assert_eq!(w.slots[0].transform.unwrap().y, 140_000_000);
    }
    assert_eq!(w.slots[0].transform.unwrap().x, 0);
}

/// Contact death: an enemy standing on the player drains 10 health per
/// 0.1 s tick; after ten ticks the player is despawned and the enemy
/// remains, unharmed and unscored.
#[test]
fn contact_damage_kills_player() {
    let mut w = World::new();
    setup(&mut w);
    let enemy_id = spawn_enemy_at(&mut w, 0, 0);
    for tick in 1..=9 {
        step(&mut w, 100_000, &empty());
        let p = w.slots[1].player.unwrap();
        assert_eq!(p.health, 100 - 10 * tick);
        assert!(p.health >= 1);
        assert!(w.slots[1].alive);
    }
    step(&mut w, 100_000, &empty());
    assert!(!w.slots[1].alive);
    assert_eq!(w.slots[1].player.unwrap().health, 0);
    assert!(w.slots[enemy_id].alive);
    assert_eq!(w.slots[enemy_id].enemy.unwrap().health, 10);
    assert_eq!(w.score, 0);
    assert_eq!(live_players(&w), 0);
}

/// Spawner cadence: ten seconds at 60 ticks per second crosses the
/// 2 s period exactly five times, and every spawned enemy lands inside
/// the configured ground ranges with the standard health and damage.
#[test]
fn spawner_cadence_five_enemies() {
    let mut w = World::new();
    for _ in 0..600 {
        step(&mut w, 16_667, &empty());
    }
    assert_eq!(live_enemies(&w), 5);
    for s in w.slots.iter() {
        if let Some(e) = s.enemy {
            assert_eq!(e.health, 10);
            assert_eq!(e.damage, 10);
            let t = s.transform.unwrap();
            assert!(SPAWN_X_MIN <= t.x && t.x < SPAWN_X_MAX);
            assert!(SPAWN_Y_MIN <= t.y && t.y < SPAWN_Y_MAX);
        }
    }
}

/// Despawning an entity twice, or despawning an unknown identifier,
/// changes nothing.
#[test]
fn despawn_twice_is_noop() {
    let mut w = World::new();
    setup(&mut w);
    let enemy_id = spawn_enemy_at(&mut w, 50_000_000, 0);
    w.despawn(enemy_id);
    assert!(!w.slots[enemy_id].alive);
    let snapshot = w.slots.clone();
    w.despawn(enemy_id);
    assert_eq!(w.slots, snapshot);
    w.despawn(9999);
    assert_eq!(w.slots, snapshot);
}

/// A tick of zero duration with no input leaves positions, cooldowns
/// and the spawn timer exactly as they were.
#[test]
fn zero_dt_step_is_noop() {
    let mut w = World::new();
    setup(&mut w);
    step(&mut w, 0, &fire_only());
    let positions: Vec<Option<Transform>> = w.slots.iter().map(|s| s.transform).collect();
    let cooldowns: Vec<Option<AttackCooldown>> = w.slots.iter().map(|s| s.cooldown).collect();
    let timer = w.spawn_elapsed_us;
    let len = w.slots.len();

    step(&mut w, 0, &empty());
    assert_eq!(w.slots.len(), len);
    for (i, s) in w.slots.iter().enumerate() {
        assert_eq!(s.transform, positions[i]);
        assert_eq!(s.cooldown, cooldowns[i]);
    }
    assert_eq!(w.spawn_elapsed_us, timer);
}

/// Negative deltas are clamped to zero and oversized ones to 0.25 s.
#[test]
fn dt_clamp_negative_and_large() {
    let mut w = World::new();
    setup(&mut w);
    let held = InputSnapshot { up: false, down: false, left: false, right: true, fire: false };
    step(&mut w, -50, &held);
    assert_eq!(w.slots[1].transform.unwrap(), Transform { x: 0, y: 0 });
    step(&mut w, 10_000_000, &held);
    assert_eq!(w.slots[1].transform.unwrap(), Transform { x: 43_750_000, y: 0 });
}

/// Facing is a remembered state: moving left turns the player and a
/// later projectile travels left; releasing the keys keeps the facing.
#[test]
fn facing_follows_last_horizontal_movement() {
    let mut w = World::new();
    setup(&mut w);
    let held_left =
        InputSnapshot { up: false, down: false, left: true, right: false, fire: false };
    step(&mut w, 100_000, &held_left);
    assert!(w.slots[1].player.unwrap().facing_left);
    step(&mut w, 100_000, &empty());
    assert!(w.slots[1].player.unwrap().facing_left);

    step(&mut w, 400_000, &fire_only());
    let proj = w.slots[2];
    assert!(proj.alive && proj.fireball.unwrap().facing_left);
    let x0 = proj.transform.unwrap().x;
    step(&mut w, 100_000, &empty());
    assert_eq!(w.slots[2].transform.unwrap().x, x0 - 40_000_000);
    assert!(w.slots[2].fireball.unwrap().facing_left);
}

/// The render enumeration after startup: the background then the
/// player, with the player flipped while facing Right.
#[test]
fn render_list_after_setup() {
    let mut w = World::new();
    setup(&mut w);
    let items = render_list(&w);
    assert_eq!(items.len(), 2);
    assert_eq!(items[0].id, 0);
    assert_eq!(items[0].texture, TextureKey::Wastelands);
    assert_eq!((items[0].w, items[0].h), (1_280_000_000, 720_000_000));
    assert!(!items[0].flip);
    assert_eq!(items[1].id, 1);
    assert_eq!(items[1].texture, TextureKey::BlackMage);
    assert!(items[1].flip);
    assert_eq!((items[1].x, items[1].y), (0, 0));

    let (items2, score) = step(&mut w, 16_667, &empty());
    assert_eq!(score, 0);
    assert_eq!(items2.len(), 2);
}

/// The reaper scores exactly one point per enemy it despawns this
/// tick, despawns the player at zero health without scoring, and
/// leaves healthy entities alone.
#[test]
fn reaper_scores_each_despawned_enemy() {
    let mut w = World::new();
    let enemy = |health: i64| Slot {
        alive: true,
        transform: Some(Transform { x: 0, y: 0 }),
        sprite: None,
        player: None,
        enemy: Some(Enemy { health, damage: 10 }),
        fireball: None,
        cooldown: None,
    };
    let a = w.spawn(enemy(0));
    let b = w.spawn(enemy(-3));
    let c = w.spawn(enemy(5));
    let p = w.spawn(Slot {
        alive: true,
        transform: Some(Transform { x: 0, y: 0 }),
        sprite: None,
        player: Some(Player { speed: PLAYER_SPEED, health: 0, facing_left: false }),
        enemy: None,
        fireball: None,
        cooldown: None,
    });
    despawn_enemy(&mut w);
    assert_eq!(w.score, 2);
    assert!(!w.slots[a].alive);
    assert!(!w.slots[b].alive);
    assert!(w.slots[c].alive);
    assert_eq!(w.slots[c].enemy.unwrap().health, 5);
    assert!(!w.slots[p].alive);
    despawn_enemy(&mut w);
    assert_eq!(w.score, 2);
}

/// Never more than one live player, and after any tick every live
/// entity with a health field has health at least one.
#[test]
fn one_player_and_positive_healths() {
    let mut w = World::new();
    setup(&mut w);
    spawn_enemy_at(&mut w, 30_000_000, 0);
    spawn_enemy_at(&mut w, 100_000_000, 0);
    for _ in 0..40 {
        step(&mut w, 100_000, &fire_only());
        assert!(live_players(&w) <= 1);
        for s in w.slots.iter() {
            if s.alive {
                if let Some(e) = s.enemy {
                    assert!(e.health >= 1);
                }
                if let Some(p) = s.player {
                    assert!(p.health >= 1);
                }
            }
        }
    }
}

use magnet_arena::fixed::SCALE;
use magnet_arena::gun::{ProjectileLifetime, ShootCooldown};
use magnet_arena::input::{ButtonInput, KeyCode};
use magnet_arena::body::BodyKind;
use magnet_arena::magnet::MagentAliveTime;
use magnet_arena::player::setup;
use magnet_arena::vec2::Vec2;
use magnet_arena::world::{fixed_update, World};

const TICK: u32 = 16_667;

fn keys(pressed: Vec<KeyCode>, just_pressed: Vec<KeyCode>) -> ButtonInput {
    ButtonInput { pressed_keys: pressed, just_pressed_keys: just_pressed }
}

fn identifiers(world: &World) -> Vec<u64> {
    let mut ids: Vec<u64> = world.bullets.iter().map(|bullet| bullet.id).collect();
    if let Some(magnet) = world.magnet {
        ids.push(magnet.id);
    }
    ids
}

#[test]
fn a_quiet_tick_only_moves_the_cooldowns_on() {
    let mut world = setup();
    fixed_update(&mut world, &ButtonInput::new(), None, TICK);
    assert_eq!(world.player.velocity, Vec2::zero());
    assert!(world.bullets.is_empty());
    assert!(world.magnet.is_none());
    assert_eq!(world.weapons[0].cooldown, ShootCooldown { remaining: 83_333, cooldown: 100_000 });
    assert_eq!(world.weapons[1].cooldown, ShootCooldown { remaining: 33_333, cooldown: 50_000 });
    assert_eq!(world.weapons[2].cooldown, ShootCooldown { remaining: 0, cooldown: 0 });
    assert_eq!(world.next_id, 0);
}

#[test]
fn a_tick_moves_the_player_and_fires() {
    let mut world = setup();
    let input = keys(vec![KeyCode::KeyD, KeyCode::ShiftLeft], vec![KeyCode::ShiftLeft]);
    fixed_update(&mut world, &input, Some(Vec2::new(0, 100 * SCALE)), TICK);
    assert_eq!(world.player.velocity, Vec2::new(46_667_600, 0));
    let magnet = world.magnet.expect("a magnet");
    assert_eq!(magnet.position, Vec2::new(0, 58 * SCALE));
    assert_eq!(magnet.velocity, Vec2::new(0, 500 * SCALE));
    assert_eq!(magnet.alive_time, Some(MagentAliveTime { max: 3_000_000, current: 0 }));
    assert_eq!(magnet.body, BodyKind::Dynamic);
}

#[test]
fn what_a_tick_launches_it_leaves_alone() {
    let mut world = setup();
    let input = keys(vec![], vec![KeyCode::Space, KeyCode::ShiftLeft]);
    fixed_update(&mut world, &input, Some(Vec2::new(0, 100 * SCALE)), 100_000);
    assert_eq!(world.bullets.len(), 1);
    let bullet = world.bullets[0];
    let magnet = world.magnet.expect("a magnet");
    assert_eq!(bullet.position, Vec2::new(0, 54 * SCALE));
    assert_eq!(bullet.velocity, Vec2::new(0, 1_000 * SCALE));
    assert_eq!(bullet.lifetime, ProjectileLifetime { remaining: 8_000_000, lifetime: 8_000_000 });
    assert_eq!(magnet.position, Vec2::new(0, 58 * SCALE));
    assert_eq!(magnet.velocity, Vec2::new(0, 500 * SCALE));
    assert_eq!(magnet.alive_time, Some(MagentAliveTime { max: 3_000_000, current: 0 }));
}

#[test]
fn the_tick_after_the_launch_pulls_ages_and_brakes() {
    let mut world = setup();
    let input = keys(vec![], vec![KeyCode::Space, KeyCode::ShiftLeft]);
    fixed_update(&mut world, &input, Some(Vec2::new(0, 100 * SCALE)), 100_000);
    fixed_update(&mut world, &ButtonInput::new(), None, TICK);
    let bullet = world.bullets[0];
    let magnet = world.magnet.expect("a magnet");
    assert_eq!(magnet.velocity, Vec2::new(0, 475 * SCALE));
    assert_eq!(magnet.alive_time, Some(MagentAliveTime { max: 3_000_000, current: 16_667 }));
    assert_eq!(bullet.lifetime, ProjectileLifetime { remaining: 8_000_000 - 16_667, lifetime: 8_000_000 });
    let ahead = 54 * SCALE + 33_334_000;
    assert_eq!(bullet.velocity, Vec2::new(0, 1_000 * SCALE + (58 * SCALE - ahead) * 9 / 10));
}

#[test]
fn a_bullet_launched_in_a_long_tick_is_not_swept_in_it() {
    let mut world = setup();
    let input = keys(vec![], vec![KeyCode::Space]);
    fixed_update(&mut world, &input, Some(Vec2::new(0, 100 * SCALE)), 9_000_000);
    assert_eq!(world.bullets.len(), 1);
    assert_eq!(world.bullets[0].lifetime.remaining, 8_000_000);
    fixed_update(&mut world, &ButtonInput::new(), None, 9_000_000);
    assert!(world.bullets.is_empty());
}

#[test]
fn identifiers_stay_distinct_and_cooldowns_in_bounds_over_many_ticks() {
    let mut world = setup();
    let mut tick: u32 = 0;
    while tick < 1_500 {
        let mut just_pressed = Vec::new();
        if tick % 2 == 0 {
            just_pressed.push(KeyCode::Space);
        }
        if tick % 3 == 0 {
            just_pressed.push(KeyCode::KeyC);
        }
        if tick % 50 == 0 {
            just_pressed.push(KeyCode::ShiftLeft);
        }
        let cursor = if tick % 7 == 0 { None } else { Some(Vec2::new(300 * SCALE, 40 * SCALE)) };
        let input = keys(vec![KeyCode::KeyW], just_pressed);
        fixed_update(&mut world, &input, cursor, 1 + (tick * 7_919) % 40_000);
        let mut ids = identifiers(&world);
        let count = ids.len();
        ids.sort();
        ids.dedup();
        assert_eq!(ids.len(), count);
        assert!(ids.iter().all(|id| *id < world.next_id));
        assert!(world.weapons.iter().all(|weapon| weapon.cooldown.remaining <= weapon.cooldown.cooldown));
        assert_eq!(world.weapons.len(), 3);
        assert_eq!(world.magnet.iter().count() <= 1, true);
        if tick >= 50 {
            assert!(world.magnet.is_some());
        }
        tick += 1;
    }
    assert!(world.next_id > 100);
    assert!(world.bullets.len() < world.next_id as usize);
}

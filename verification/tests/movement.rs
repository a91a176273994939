use magnet_arena::fixed::SCALE;
use magnet_arena::gun::{
    ActivationKeyCode, ProjectileFriction, ProjectileSpeed, ProjectileType, ShootCooldown,
};
use magnet_arena::input::{ButtonInput, KeyCode};
use magnet_arena::player::{
    accelerated, camera_follow, player_movement, setup, slowed, squish, watch_mouse, wish_dir,
    Player, FRICTION_FLOOR, PLAYER_RADIUS, SPEED, TILT_SPEED,
};
use magnet_arena::vec2::Vec2;
use magnet_arena::world::{frame_update, TerrainKind};

const TICK: u32 = 16_667;

fn held(keys: Vec<KeyCode>) -> ButtonInput {
    ButtonInput { pressed_keys: keys, just_pressed_keys: Vec::new() }
}

#[test]
fn constants_of_the_player() {
    assert_eq!(SPEED, 320 * SCALE);
    assert_eq!(FRICTION_FLOOR, 100 * SCALE);
    assert_eq!(PLAYER_RADIUS, 32 * SCALE);
    assert_eq!(TILT_SPEED, 500);
}

#[test]
fn the_keyboard_reports_what_is_down() {
    let keys = ButtonInput {
        pressed_keys: vec![KeyCode::KeyW, KeyCode::Space, KeyCode::KeyW],
        just_pressed_keys: vec![KeyCode::Space],
    };
    assert!(keys.pressed(KeyCode::KeyW));
    assert!(keys.pressed(KeyCode::Space));
    assert!(!keys.pressed(KeyCode::KeyA));
    assert!(keys.just_pressed(KeyCode::Space));
    assert!(!keys.just_pressed(KeyCode::KeyW));
    let none = ButtonInput::new();
    assert!(!none.pressed(KeyCode::KeyW));
    assert!(!none.just_pressed(KeyCode::Space));
}

#[test]
fn the_keys_give_a_direction_of_unit_length() {
    assert_eq!(wish_dir(&held(vec![])), Vec2::zero());
    assert_eq!(wish_dir(&held(vec![KeyCode::KeyD])), Vec2::new(SCALE, 0));
    assert_eq!(wish_dir(&held(vec![KeyCode::KeyA])), Vec2::new(-SCALE, 0));
    assert_eq!(wish_dir(&held(vec![KeyCode::KeyW])), Vec2::new(0, SCALE));
    assert_eq!(wish_dir(&held(vec![KeyCode::KeyS])), Vec2::new(0, -SCALE));
    assert_eq!(wish_dir(&held(vec![KeyCode::KeyW, KeyCode::KeyD])), Vec2::new(707_107, 707_107));
    assert_eq!(wish_dir(&held(vec![KeyCode::KeyS, KeyCode::KeyA])), Vec2::new(-707_107, -707_107));
    assert_eq!(wish_dir(&held(vec![KeyCode::KeyW, KeyCode::KeyA])), Vec2::new(-707_107, 707_107));
}

#[test]
fn opposing_keys_cancel() {
    assert_eq!(wish_dir(&held(vec![KeyCode::KeyW, KeyCode::KeyS])), Vec2::zero());
    assert_eq!(wish_dir(&held(vec![KeyCode::KeyA, KeyCode::KeyD])), Vec2::zero());
    assert_eq!(
        wish_dir(&held(vec![KeyCode::KeyA, KeyCode::KeyD, KeyCode::KeyW])),
        Vec2::new(0, SCALE)
    );
    assert_eq!(
        wish_dir(&held(vec![KeyCode::KeyA, KeyCode::KeyD, KeyCode::KeyW, KeyCode::KeyS])),
        Vec2::zero()
    );
    assert_eq!(wish_dir(&held(vec![KeyCode::Space, KeyCode::KeyC])), Vec2::zero());
}

#[test]
fn the_push_is_bounded_by_the_tick() {
    let right = Vec2::new(SCALE, 0);
    assert_eq!(accelerated(Vec2::zero(), right, TICK), Vec2::new(53_334_400, 0));
    assert_eq!(accelerated(Vec2::new(300 * SCALE, 0), right, TICK), Vec2::new(320 * SCALE, 0));
    assert_eq!(accelerated(Vec2::new(320 * SCALE, 0), right, TICK), Vec2::new(320 * SCALE, 0));
    assert_eq!(
        accelerated(Vec2::new(0, 40 * SCALE), right, TICK),
        Vec2::new(53_334_400, 40 * SCALE)
    );
    assert_eq!(accelerated(Vec2::new(7, -9), Vec2::zero(), TICK), Vec2::new(7, -9));
}

#[test]
fn a_player_faster_than_wished_is_held_back_to_the_wished_speed() {
    let right = Vec2::new(SCALE, 0);
    assert_eq!(accelerated(Vec2::new(400 * SCALE, 0), right, TICK), Vec2::new(320 * SCALE, 0));
}

#[test]
fn friction_has_a_floor() {
    assert_eq!(slowed(Vec2::new(50 * SCALE, 0), TICK), Vec2::new(43_333_200, 0));
    assert_eq!(slowed(Vec2::new(320 * SCALE, 0), TICK), Vec2::new(298_666_240, 0));
    assert_eq!(slowed(Vec2::new(5 * SCALE, 0), TICK), Vec2::zero());
    assert_eq!(slowed(Vec2::new(-50 * SCALE, 0), TICK), Vec2::new(-43_333_200, 0));
    assert_eq!(slowed(Vec2::new(0, 320 * SCALE), 250_000), Vec2::zero());
    assert_eq!(slowed(Vec2::new(0, 320 * SCALE), 0), Vec2::new(0, 320 * SCALE));
}

#[test]
fn friction_keeps_the_direction() {
    let slower = slowed(Vec2::new(300 * SCALE, -400 * SCALE), 25_000);
    assert_eq!(slower, Vec2::new(270 * SCALE, -360 * SCALE));
}

#[test]
fn a_player_at_rest_stays_at_rest() {
    assert_eq!(slowed(Vec2::zero(), TICK), Vec2::zero());
    let mut world = setup();
    player_movement(&mut world, &held(vec![]), TICK);
    assert_eq!(world.player.velocity, Vec2::zero());
    player_movement(&mut world, &held(vec![KeyCode::KeyA, KeyCode::KeyD]), TICK);
    assert_eq!(world.player.velocity, Vec2::zero());
}

#[test]
fn the_first_tick_from_rest() {
    let mut world = setup();
    player_movement(&mut world, &held(vec![KeyCode::KeyD]), TICK);
    assert_eq!(world.player.velocity, Vec2::new(46_667_600, 0));
    assert_eq!(world.player.position, Vec2::zero());
    let mut other = setup();
    player_movement(&mut other, &held(vec![KeyCode::KeyA]), TICK);
    assert_eq!(other.player.velocity, Vec2::new(-46_667_600, 0));
    let mut diagonal = setup();
    player_movement(&mut diagonal, &held(vec![KeyCode::KeyD, KeyCode::KeyW]), TICK);
    assert_eq!(diagonal.player.velocity, Vec2::new(32_998_998, 32_998_998));
}

#[test]
fn holding_right_speeds_the_player_up_to_its_speed_and_no_further() {
    let mut world = setup();
    let keys = held(vec![KeyCode::KeyD]);
    let mut speeds = Vec::new();
    let mut last = 0;
    let mut tick = 0;
    while tick < 300 {
        player_movement(&mut world, &keys, TICK);
        let now = world.player.velocity.x;
        assert!(now >= last);
        assert!(now - last <= 53_334_400);
        assert!(now <= SPEED);
        assert_eq!(world.player.velocity.y, 0);
        speeds.push(now);
        last = now;
        tick += 1;
    }
    assert_eq!(
        speeds[..8],
        [
            46_667_600,
            93_335_067,
            136_891_307,
            177_543_740,
            215_485_957,
            250_898_642,
            283_950_434,
            298_666_240
        ]
    );
    assert_eq!(last, 298_666_240);
}

#[test]
fn holding_right_never_slows_the_player_whatever_the_length_of_the_ticks() {
    for dt in [0u32, 1, 999, 16_667, 100_000, 249_999, 250_000, 250_001, 1_000_000, u32::MAX] {
        let mut world = setup();
        let keys = held(vec![KeyCode::KeyD, KeyCode::KeyW, KeyCode::KeyS]);
        let mut last = 0;
        let mut tick = 0;
        while tick < 200 {
            player_movement(&mut world, &keys, dt);
            let now = world.player.velocity.x;
            assert!(now >= last);
            assert!((now - last) as i128 <= 3_200 * dt as i128);
            assert!(now <= SPEED);
            last = now;
            tick += 1;
        }
    }
}

#[test]
fn letting_go_brings_the_player_to_rest() {
    let mut world = setup();
    world.player.velocity = Vec2::new(298_666_240, 0);
    let keys = held(vec![]);
    player_movement(&mut world, &keys, TICK);
    assert_eq!(world.player.velocity, Vec2::new(278_754_760, 0));
    let mut tick = 0;
    while tick < 60 {
        player_movement(&mut world, &keys, TICK);
        tick += 1;
    }
    assert_eq!(world.player.velocity, Vec2::zero());
}

#[test]
fn turning_round_brakes_first() {
    let mut world = setup();
    world.player.velocity = Vec2::new(320 * SCALE, 0);
    player_movement(&mut world, &held(vec![KeyCode::KeyA]), TICK);
    assert_eq!(world.player.velocity, Vec2::new(248_887_538, 0));
}

#[test]
fn the_player_turns_to_the_cursor() {
    let mut world = setup();
    assert_eq!(world.player.facing, Vec2::new(0, SCALE));
    watch_mouse(&mut world, Some(Vec2::new(100 * SCALE, 0)));
    assert_eq!(world.player.facing, Vec2::new(SCALE, 0));
    watch_mouse(&mut world, Some(Vec2::new(-30 * SCALE, -40 * SCALE)));
    assert_eq!(world.player.facing, Vec2::new(-600_000, -800_000));
    world.player.position = Vec2::new(-30 * SCALE, 0);
    watch_mouse(&mut world, Some(Vec2::new(-30 * SCALE, -40 * SCALE)));
    assert_eq!(world.player.facing, Vec2::new(0, -SCALE));
    assert_eq!(world.player.position, Vec2::new(-30 * SCALE, 0));
    assert_eq!(world.player.velocity, Vec2::zero());
}

#[test]
fn without_a_cursor_the_player_keeps_looking_where_it_looked() {
    let mut world = setup();
    watch_mouse(&mut world, Some(Vec2::new(-5, 0)));
    assert_eq!(world.player.facing, Vec2::new(-SCALE, 0));
    watch_mouse(&mut world, None);
    assert_eq!(world.player.facing, Vec2::new(-SCALE, 0));
}

#[test]
fn with_the_cursor_on_the_player_the_player_looks_along_x() {
    let mut world = setup();
    world.player.position = Vec2::new(3, 4);
    watch_mouse(&mut world, Some(Vec2::new(3, 4)));
    assert_eq!(world.player.facing, Vec2::new(SCALE, 0));
}

#[test]
fn the_camera_follows_the_player() {
    let mut world = setup();
    world.player.position = Vec2::new(12 * SCALE, -7 * SCALE);
    camera_follow(&mut world);
    assert_eq!(world.camera, Vec2::new(12 * SCALE, -7 * SCALE));
    assert_eq!(world.player.position, Vec2::new(12 * SCALE, -7 * SCALE));
}

#[test]
fn the_tilt_shows_the_speed() {
    assert_eq!(squish(Vec2::zero()), Vec2::zero());
    assert_eq!(squish(Vec2::new(250 * SCALE, 125 * SCALE)), Vec2::new(500_000, 250_000));
    assert_eq!(squish(Vec2::new(500 * SCALE, 320 * SCALE)), Vec2::new(SCALE, 640_000));
    assert_eq!(squish(Vec2::new(9_000 * SCALE, i64::MAX)), Vec2::new(SCALE, SCALE));
    assert_eq!(squish(Vec2::new(-250 * SCALE, -1)), Vec2::zero());
    assert_eq!(squish(Vec2::new(i64::MIN, 499)), Vec2::zero());
}

#[test]
fn the_world_at_the_start() {
    let world = setup();
    assert_eq!(
        world.player,
        Player { position: Vec2::zero(), velocity: Vec2::zero(), facing: Vec2::new(0, SCALE) }
    );
    assert_eq!(world.camera, Vec2::zero());
    assert!(world.bullets.is_empty());
    assert!(world.magnet.is_none());
    assert_eq!(world.next_id, 0);
    assert_eq!(world.weapons.len(), 3);
    let gun = world.weapons[0];
    assert_eq!(gun.cooldown, ShootCooldown::new(100_000));
    assert_eq!(gun.speed, ProjectileSpeed(1_000 * SCALE));
    assert_eq!(gun.projectile, ProjectileType::Bullet);
    assert_eq!(gun.key, ActivationKeyCode(KeyCode::Space));
    assert_eq!(gun.friction, ProjectileFriction(0));
    assert!(gun.equipped);
    assert_eq!(gun.offset, Vec2::new(0, 32 * SCALE));
    let weak_gun = world.weapons[1];
    assert_eq!(weak_gun.cooldown, ShootCooldown::new(50_000));
    assert_eq!(weak_gun.speed, ProjectileSpeed(2_000 * SCALE));
    assert_eq!(weak_gun.projectile, ProjectileType::WeakBullet);
    assert_eq!(weak_gun.key, ActivationKeyCode(KeyCode::KeyC));
    assert_eq!(weak_gun.friction, ProjectileFriction(0));
    assert!(weak_gun.equipped);
    let launcher = world.weapons[2];
    assert_eq!(launcher.cooldown, ShootCooldown::new(0));
    assert_eq!(launcher.speed, ProjectileSpeed(500 * SCALE));
    assert_eq!(launcher.projectile, ProjectileType::Magnet);
    assert_eq!(launcher.key, ActivationKeyCode(KeyCode::ShiftLeft));
    assert_eq!(launcher.friction, ProjectileFriction(50_000));
    assert!(launcher.equipped);
    assert_eq!(world.terrain.len(), 2);
    assert_eq!(world.terrain[0].kind, TerrainKind::MagnetPassthrough);
    assert_eq!(world.terrain[0].position, Vec2::new(0, 128 * SCALE));
    assert_eq!(world.terrain[0].size, Vec2::new(128 * SCALE, 16 * SCALE));
    assert_eq!(world.terrain[1].kind, TerrainKind::Wall);
    assert_eq!(world.terrain[1].position, Vec2::new(0, -128 * SCALE));
    assert_eq!(world.terrain[1].size, Vec2::new(128 * SCALE, 16 * SCALE));
}

#[test]
fn the_muzzle_is_the_weapon_seen_from_the_world() {
    let mut player = Player {
        position: Vec2::new(10 * SCALE, 20 * SCALE),
        velocity: Vec2::zero(),
        facing: Vec2::new(0, SCALE),
    };
    assert_eq!(player.muzzle(Vec2::new(0, 32 * SCALE)), Vec2::new(10 * SCALE, 52 * SCALE));
    player.facing = Vec2::new(600_000, 800_000);
    assert_eq!(player.muzzle(Vec2::new(0, 32 * SCALE)), Vec2::new(29_200_000, 45_600_000));
}

#[test]
fn a_frame_turns_the_player_and_moves_the_camera() {
    let mut world = setup();
    world.player.position = Vec2::new(5 * SCALE, 5 * SCALE);
    frame_update(&mut world, Some(Vec2::new(5 * SCALE, -20 * SCALE)));
    assert_eq!(world.player.facing, Vec2::new(0, -SCALE));
    assert_eq!(world.camera, Vec2::new(5 * SCALE, 5 * SCALE));
    frame_update(&mut world, None);
    assert_eq!(world.player.facing, Vec2::new(0, -SCALE));
    assert_eq!(world.camera, Vec2::new(5 * SCALE, 5 * SCALE));
}

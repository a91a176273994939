use magnet_arena::fixed::SCALE;
use magnet_arena::gun::{shoot_projectiles, Bullet, ProjectileFriction, ProjectileLifetime};
use magnet_arena::input::{ButtonInput, KeyCode};
use magnet_arena::body::BodyKind;
use magnet_arena::magnet::{
    age_magnet, attract_bullets, magnet_friction, MagentAliveTime, Magnet, MagnetStrength,
    AGING_FRICTION_STEP, SETTLE_SPEED,
};
use magnet_arena::player::setup;
use magnet_arena::vec2::Vec2;

const TICK: u32 = 16_667;

fn magnet_moving_at(velocity: Vec2) -> Magnet {
    Magnet {
        id: 7,
        position: Vec2::new(SCALE, 2 * SCALE),
        velocity,
        friction: ProjectileFriction(50_000),
        strength: MagnetStrength(900_000),
        alive_time: Some(MagentAliveTime::new(3_000_000)),
        body: BodyKind::Dynamic,
    }
}

fn bullet_at(id: u64, position: Vec2, velocity: Vec2) -> Bullet {
    Bullet {
        id,
        position,
        velocity,
        friction: ProjectileFriction(0),
        lifetime: ProjectileLifetime::new(8_000_000),
        weak: false,
    }
}

#[test]
fn constants_of_the_magnet() {
    assert_eq!(SETTLE_SPEED, 10 * SCALE);
    assert_eq!(AGING_FRICTION_STEP, 12_500);
}

#[test]
fn a_new_age_starts_at_nothing() {
    let age = MagentAliveTime::new(3_000_000);
    assert_eq!(age.max, 3_000_000);
    assert_eq!(age.current, 0);
}

#[test]
fn friction_takes_its_fraction_of_a_fast_magnet() {
    let mut magnet = magnet_moving_at(Vec2::new(500 * SCALE, -200 * SCALE));
    magnet.apply_friction();
    assert_eq!(magnet.velocity, Vec2::new(475 * SCALE, -190 * SCALE));
    assert_eq!(magnet.body, BodyKind::Dynamic);
    assert_eq!(magnet.alive_time, Some(MagentAliveTime::new(3_000_000)));
    assert_eq!(magnet.friction, ProjectileFriction(50_000));
    assert_eq!(magnet.position, Vec2::new(SCALE, 2 * SCALE));
}

#[test]
fn a_slow_magnet_settles() {
    let mut magnet = magnet_moving_at(Vec2::new(9_999_999, 0));
    magnet.apply_friction();
    assert_eq!(magnet.body, BodyKind::Static);
    assert_eq!(magnet.alive_time, None);
    assert_eq!(magnet.velocity, Vec2::new(9_999_999, 0));
    assert_eq!(magnet.friction, ProjectileFriction(50_000));
}

#[test]
fn a_magnet_at_the_threshold_does_not_settle_yet() {
    let mut magnet = magnet_moving_at(Vec2::new(6 * SCALE, 8 * SCALE));
    magnet.apply_friction();
    assert_eq!(magnet.body, BodyKind::Dynamic);
    assert_eq!(magnet.velocity, Vec2::new(5_700_000, 7_600_000));
    magnet.apply_friction();
    assert_eq!(magnet.body, BodyKind::Static);
    assert_eq!(magnet.alive_time, None);
    assert_eq!(magnet.velocity, Vec2::new(5_700_000, 7_600_000));
}

#[test]
fn the_planar_speed_decides_not_one_axis() {
    let mut magnet = magnet_moving_at(Vec2::new(6 * SCALE, 7_999_999));
    magnet.apply_friction();
    assert_eq!(magnet.body, BodyKind::Static);
    let mut other = magnet_moving_at(Vec2::new(-8 * SCALE, -8 * SCALE));
    other.apply_friction();
    assert_eq!(other.body, BodyKind::Dynamic);
}

#[test]
fn a_magnet_ages_and_then_its_friction_grows_every_tick() {
    let mut magnet = magnet_moving_at(Vec2::new(500 * SCALE, 0));
    magnet.age(1_000_000);
    magnet.age(1_000_000);
    magnet.age(1_000_000);
    assert_eq!(magnet.alive_time, Some(MagentAliveTime { max: 3_000_000, current: 3_000_000 }));
    assert_eq!(magnet.friction, ProjectileFriction(50_000));
    magnet.age(1);
    assert_eq!(magnet.alive_time, Some(MagentAliveTime { max: 3_000_000, current: 3_000_001 }));
    assert_eq!(magnet.friction, ProjectileFriction(62_500));
    magnet.age(0);
    assert_eq!(magnet.friction, ProjectileFriction(75_000));
    assert_eq!(magnet.velocity, Vec2::new(500 * SCALE, 0));
}

#[test]
fn age_and_friction_saturate() {
    let mut magnet = magnet_moving_at(Vec2::new(500 * SCALE, 0));
    magnet.alive_time = Some(MagentAliveTime { max: 3_000_000, current: u64::MAX - 5 });
    magnet.friction = ProjectileFriction(i64::MAX - 1);
    magnet.age(100);
    assert_eq!(magnet.alive_time, Some(MagentAliveTime { max: 3_000_000, current: u64::MAX }));
    assert_eq!(magnet.friction, ProjectileFriction(i64::MAX));
}

#[test]
fn a_magnet_with_friction_above_one_turns_round() {
    let mut magnet = magnet_moving_at(Vec2::new(100 * SCALE, 0));
    magnet.friction = ProjectileFriction(1_500_000);
    magnet.apply_friction();
    assert_eq!(magnet.velocity, Vec2::new(-50 * SCALE, 0));
}

#[test]
fn a_settled_magnet_stays_settled() {
    let mut magnet = magnet_moving_at(Vec2::new(SCALE, SCALE));
    magnet.apply_friction();
    assert_eq!(magnet.body, BodyKind::Static);
    assert_eq!(magnet.alive_time, None);
    let friction = magnet.friction;
    let mut tick = 0;
    while tick < 500 {
        magnet.velocity = Vec2::new((tick % 50) * SCALE, -(tick % 7) * SCALE);
        magnet.apply_friction();
        magnet.age(TICK);
        assert_eq!(magnet.body, BodyKind::Static);
        assert_eq!(magnet.alive_time, None);
        assert_eq!(magnet.friction, friction);
        tick += 1;
    }
}

#[test]
fn a_launched_magnet_slows_down_settles_and_never_moves_again() {
    let mut world = setup();
    let keys = ButtonInput {
        pressed_keys: vec![KeyCode::ShiftLeft],
        just_pressed_keys: vec![KeyCode::ShiftLeft],
    };
    shoot_projectiles(&mut world, &keys, Some(Vec2::new(0, 100 * SCALE)), TICK);
    let mut settled_at = None;
    let mut last_friction = world.magnet.expect("a magnet").friction.0;
    let mut tick = 0;
    while tick < 400 {
        magnet_friction(&mut world);
        age_magnet(&mut world, TICK);
        let magnet = world.magnet.expect("a magnet");
        assert!(magnet.friction.0 >= last_friction);
        last_friction = magnet.friction.0;
        if magnet.body == BodyKind::Static {
            assert_eq!(magnet.alive_time, None);
            if settled_at.is_none() {
                settled_at = Some((tick, magnet.friction));
            }
        } else {
            assert!(settled_at.is_none());
            assert!(magnet.alive_time.is_some());
        }
        if let Some((_, friction)) = settled_at {
            assert_eq!(magnet.body, BodyKind::Static);
            assert_eq!(magnet.friction, friction);
        }
        tick += 1;
    }
    let (at, _) = settled_at.expect("the magnet settles");
    assert_eq!(at, 77);
}

#[test]
fn the_magnet_pulls_a_bullet_toward_itself() {
    let mut world = setup();
    world.magnet = Some(Magnet {
        position: Vec2::zero(),
        velocity: Vec2::zero(),
        ..magnet_moving_at(Vec2::zero())
    });
    world.bullets.push(bullet_at(0, Vec2::new(100 * SCALE, 0), Vec2::new(-50 * SCALE, 0)));
    world.next_id = 8;
    attract_bullets(&mut world, TICK);
    let bullet = world.bullets[0];
    assert_eq!(bullet.velocity, Vec2::new(-138_499_970, 0));
    assert_eq!(bullet.position, Vec2::new(100 * SCALE, 0));
    let gained = (bullet.velocity.x - (-50 * SCALE)) as f64 / SCALE as f64;
    assert!((gained - (-88.5)).abs() < 0.01);
    let predicted = 100.0 + (-50.0) * 2.0 * (TICK as f64 / 1e6);
    assert!((predicted - 98.33).abs() < 0.01);
    assert!((gained - (0.0 - predicted) * 0.9).abs() < 0.001);
}

#[test]
fn the_pull_grows_with_the_distance() {
    let mut world = setup();
    world.magnet = Some(Magnet { position: Vec2::new(10 * SCALE, -10 * SCALE), ..magnet_moving_at(Vec2::zero()) });
    world.bullets.push(bullet_at(0, Vec2::new(20 * SCALE, -10 * SCALE), Vec2::zero()));
    world.bullets.push(bullet_at(1, Vec2::new(110 * SCALE, 90 * SCALE), Vec2::zero()));
    world.bullets.push(bullet_at(2, Vec2::new(10 * SCALE, -10 * SCALE), Vec2::zero()));
    world.next_id = 8;
    attract_bullets(&mut world, TICK);
    assert_eq!(world.bullets[0].velocity, Vec2::new(-9 * SCALE, 0));
    assert_eq!(world.bullets[1].velocity, Vec2::new(-90 * SCALE, -90 * SCALE));
    assert_eq!(world.bullets[2].velocity, Vec2::zero());
    assert_eq!(world.bullets.len(), 3);
    assert_eq!(world.bullets[1].id, 1);
}

#[test]
fn a_settled_magnet_still_pulls() {
    let mut world = setup();
    let mut magnet = magnet_moving_at(Vec2::zero());
    magnet.apply_friction();
    assert_eq!(magnet.body, BodyKind::Static);
    world.magnet = Some(magnet);
    world.bullets.push(bullet_at(0, Vec2::new(SCALE, 12 * SCALE), Vec2::zero()));
    attract_bullets(&mut world, TICK);
    assert_eq!(world.bullets[0].velocity, Vec2::new(0, -9 * SCALE));
}

#[test]
fn without_a_magnet_nothing_pulls_ages_or_brakes() {
    let mut world = setup();
    world.bullets.push(bullet_at(0, Vec2::new(100 * SCALE, 0), Vec2::new(-50 * SCALE, 0)));
    attract_bullets(&mut world, TICK);
    magnet_friction(&mut world);
    age_magnet(&mut world, TICK);
    assert!(world.magnet.is_none());
    assert_eq!(world.bullets[0], bullet_at(0, Vec2::new(100 * SCALE, 0), Vec2::new(-50 * SCALE, 0)));
}

#[test]
fn the_steps_of_the_world_act_on_its_magnet() {
    let mut world = setup();
    world.magnet = Some(magnet_moving_at(Vec2::new(500 * SCALE, 0)));
    magnet_friction(&mut world);
    assert_eq!(world.magnet.expect("a magnet").velocity, Vec2::new(475 * SCALE, 0));
    age_magnet(&mut world, 3_000_001);
    let magnet = world.magnet.expect("a magnet");
    assert_eq!(magnet.friction, ProjectileFriction(62_500));
    assert_eq!(magnet.alive_time, Some(MagentAliveTime { max: 3_000_000, current: 3_000_001 }));
    world.magnet = Some(magnet_moving_at(Vec2::new(SCALE, 0)));
    magnet_friction(&mut world);
    age_magnet(&mut world, TICK);
    let magnet = world.magnet.expect("a magnet");
    assert_eq!(magnet.body, BodyKind::Static);
    assert_eq!(magnet.alive_time, None);
    assert_eq!(magnet.friction, ProjectileFriction(50_000));
}

#[test]
fn twice_as_far_is_pulled_twice_as_hard_to_within_a_step() {
    let mut world = setup();
    world.magnet = Some(Magnet { position: Vec2::zero(), ..magnet_moving_at(Vec2::zero()) });
    for (id, x) in [1i64, 2, 3, 6, 1_111_111, 2_222_222, -7, -14, 50 * SCALE, 100 * SCALE]
        .into_iter()
        .enumerate()
    {
        world.bullets.push(bullet_at(id as u64, Vec2::new(x, 0), Vec2::zero()));
    }
    world.next_id = 20;
    attract_bullets(&mut world, TICK);
    let pulls: Vec<i64> = world.bullets.iter().map(|bullet| bullet.velocity.x).collect();
    assert_eq!(pulls, vec![0, -1, -2, -5, -999_999, -1_999_999, 6, 12, -45 * SCALE, -90 * SCALE]);
    let mut pair = 0;
    while pair < 5 {
        let near = pulls[2 * pair];
        let far = pulls[2 * pair + 1];
        assert!((far - 2 * near).abs() <= 1);
        pair += 1;
    }
}

#[test]
fn the_pull_points_at_the_magnet() {
    let mut world = setup();
    world.magnet = Some(Magnet { position: Vec2::new(5 * SCALE, -5 * SCALE), ..magnet_moving_at(Vec2::zero()) });
    world.bullets.push(bullet_at(0, Vec2::new(25 * SCALE, -45 * SCALE), Vec2::zero()));
    world.bullets.push(bullet_at(1, Vec2::new(-15 * SCALE, 35 * SCALE), Vec2::zero()));
    world.next_id = 20;
    attract_bullets(&mut world, TICK);
    assert_eq!(world.bullets[0].velocity, Vec2::new(-18 * SCALE, 36 * SCALE));
    assert_eq!(world.bullets[1].velocity, Vec2::new(18 * SCALE, -36 * SCALE));
}

use std::f32::consts::TAU;
use tank_game::{
    Angle, Bullet, BulletMotion, BulletUpdate, Collision, Drive, GameState, Idx, Input, Local,
    Motions, Player, Point, Probe, Tank, TankMotion, TankUpdate, Time, Turn, Vector, BULLET_DAMAGE,
    BULLET_LIFETIME, FIELD_LIMIT, FULL_HEALTH,
};

type Float2 = euclid::default::Vector2D<f32>;

fn radians(angle: Angle) -> euclid::Angle<f32> {
    euclid::Angle::radians(f32::from_bits(angle.bits))
}

fn angle_of(angle: euclid::Angle<f32>) -> Angle {
    Angle { bits: angle.radians.to_bits() }
}

fn vector(v: euclid::default::Vector2D<i64>) -> Vector {
    Vector::new(v.x, v.y)
}

fn turned(angle: Angle, turn: Option<Turn>) -> Angle {
    let rate = euclid::Angle::radians(TAU * (0.5 / 60.0));
    let by = match turn {
        Some(Turn::Left) => rate,
        Some(Turn::Right) => -rate,
        None => euclid::Angle::zero(),
    };
    angle_of((radians(angle) + by).positive())
}

fn tank_motion(tank: &Tank, input: &Input) -> TankMotion {
    let angle = turned(tank.angle, input.rotate);
    let turret_angle = turned(tank.turret_angle, input.turret);
    let ahead = Float2::from_angle_and_length(radians(angle), 280.0);
    TankMotion {
        angle,
        turret_angle,
        forward: vector((ahead * 10000.0).to_i64() / 60),
        reverse: vector((-ahead * 10000.0).to_i64() / 60),
        muzzle: vector(Float2::from_angle_and_length(radians(turret_angle), 40.0).to_i64() * 10000),
    }
}

fn bullet_motion(state: &GameState, bullet: &Bullet) -> BulletMotion {
    let step = vector((Float2::from_angle_and_length(radians(bullet.angle), 1000.0) * 10000.0).to_i64() / 60);
    let mut locals = Vec::new();
    if let Some(position) = bullet.position.checked_add(&step) {
        for probe in state.probes(&position) {
            let offset = euclid::default::Vector2D::new(probe.offset.x, probe.offset.y);
            let seen = euclid::default::Rotation2D::new(radians(probe.angle))
                .inverse()
                .transform_vector(offset.to_f32())
                .to_i64();
            locals.push(Local { tank: probe.tank, point: vector(seen) });
        }
    }
    BulletMotion { step, locals }
}

fn motions(state: &GameState) -> Motions {
    let mut tanks = Vec::new();
    for slot in 0..state.slots() {
        tanks.push(match state.tank(Idx::new(slot)) {
            Some(tank) => tank_motion(&tank, &state.input_of(tank.player).unwrap_or_default()),
            None => TankMotion::still(Angle::zero(), Angle::zero()),
        });
    }
    let mut bullets = Vec::new();
    for at in 0..state.bullet_count() {
        bullets.push(bullet_motion(state, &state.bullet(Idx::new(at))));
    }
    Motions { tanks, bullets }
}

fn advance(state: &GameState) -> GameState {
    state.try_tick(&motions(state)).unwrap()
}

fn player(name: &str, input: Input) -> Option<Player> {
    Some(Player { name: name.to_string(), input })
}

fn tank_at(owner: usize, x: i64, y: i64) -> Tank {
    Tank { position: Point::new(x, y), ..Tank::new(Idx::new(owner)) }
}

fn firing() -> Input {
    Input { fire: true, ..Input::default() }
}

fn bullet_at(x: i64, y: i64, birth: u64) -> Bullet {
    Bullet {
        position: Point::new(x, y),
        angle: Angle::zero(),
        damage: BULLET_DAMAGE,
        birth: Time(birth),
        player: Idx::new(0),
    }
}

/// Tank A in slot 0 at the origin and tank B in slot 1 just beyond A's
/// muzzle, both at full health.
fn duel(input_a: Input) -> GameState {
    GameState::restore(
        vec![player("a", input_a), player("b", Input::default())],
        vec![Some(tank_at(0, 0, 0)), Some(tank_at(1, 500_000, 0))],
        vec![None, None],
        vec![],
        Time(0),
    )
    .unwrap()
}

#[test]
fn new_world_is_empty() {
    let state = GameState::new();
    assert_eq!(state.slots(), 0);
    assert_eq!(state.bullet_count(), 0);
    assert_eq!(state.time(), Time(0));
    let next = advance(&state);
    assert_eq!(next.slots(), 0);
    assert_eq!(next.time(), Time(1));
}

#[test]
fn join_puts_player_and_tank_at_full_health_at_the_origin() {
    let mut state = GameState::new();
    let idx = state.join("pog".to_string());
    assert_eq!(idx.get(), 0);
    assert_eq!(state.slots(), 1);
    assert_eq!(
        state.player(idx),
        Some(&Player { name: "pog".to_string(), input: Input::default() })
    );
    let tank = state.tank(Idx::new(0)).unwrap();
    assert_eq!(tank.player, idx);
    assert_eq!(tank.position, Point::origin());
    assert_eq!(tank.angle, Angle::zero());
    assert_eq!(tank.turret_angle, Angle::zero());
    assert_eq!(tank.health, FULL_HEALTH);
    assert_eq!(state.mailbox(Idx::new(0)), vec![]);
    assert_eq!(state.candidates(&Point::origin()).len(), 1);
}

#[test]
fn join_reuses_vacant_slots_and_keeps_arenas_aligned() {
    let mut state = GameState::restore(
        vec![player("a", Input::default()), player("b", Input::default())],
        vec![Some(tank_at(0, 0, 0)), None],
        vec![None, Some(vec![bullet_at(0, 0, 0)])],
        vec![],
        Time(5),
    )
    .unwrap();
    let idx = state.join("c".to_string());
    assert_eq!(idx.get(), 2);
    assert_eq!(state.slots(), 3);
    assert_eq!(state.tank(Idx::new(1)), Some(Tank::new(Idx::new(2))));
    assert_eq!(state.tank(Idx::new(2)), None);
    assert_eq!(state.mailbox(Idx::new(1)), vec![]);
    assert_eq!(state.mailbox(Idx::new(2)), vec![]);
    assert_eq!(state.time(), Time(5));
}

#[test]
fn leave_empties_the_player_slot_only() {
    let mut state = duel(Input::default());
    state.leave(&Idx::new(1));
    assert_eq!(state.player(Idx::new(1)), None);
    assert!(state.player(Idx::new(0)).is_some());
    assert!(state.tank(Idx::new(1)).is_some());
    state.leave(&Idx::new(7));
    assert_eq!(state.slots(), 2);
}

#[test]
fn latch_replaces_the_input_of_a_present_player() {
    let mut state = duel(Input::default());
    let input = Input { drive: Some(Drive::Forward), seq: 4, ..Input::default() };
    state.latch(Idx::new(1), input);
    assert_eq!(state.input_of(Idx::new(1)), Some(input));
    assert_eq!(state.player(Idx::new(1)).unwrap().name, "b");
    assert_eq!(state.input_of(Idx::new(0)), Some(Input::default()));
    state.leave(&Idx::new(0));
    state.latch(Idx::new(0), input);
    assert_eq!(state.input_of(Idx::new(0)), None);
    state.latch(Idx::new(9), input);
    assert_eq!(state.slots(), 2);
}

#[test]
fn restore_refuses_worlds_that_are_not_well_formed() {
    let one = || vec![player("a", Input::default())];
    assert!(GameState::restore(one(), vec![Some(tank_at(0, 0, 0))], vec![None], vec![], Time(0)).is_some());
    assert!(GameState::restore(one(), vec![], vec![], vec![], Time(0)).is_none());
    assert!(GameState::restore(one(), vec![None], vec![], vec![], Time(0)).is_none());
    assert!(GameState::restore(one(), vec![Some(tank_at(1, 0, 0))], vec![None], vec![], Time(0)).is_none());
    assert!(GameState::restore(one(), vec![Some(tank_at(0, FIELD_LIMIT + 1, 0))], vec![None], vec![], Time(0)).is_none());
    assert!(GameState::restore(one(), vec![Some(tank_at(0, FIELD_LIMIT, -FIELD_LIMIT))], vec![None], vec![], Time(0)).is_some());
    let dead = Tank { health: 0, ..tank_at(0, 0, 0) };
    assert!(GameState::restore(one(), vec![Some(dead)], vec![None], vec![], Time(0)).is_none());
    let healing = Bullet { damage: -1, ..bullet_at(0, 0, 0) };
    assert!(GameState::restore(one(), vec![None], vec![None], vec![healing], Time(0)).is_none());
    assert!(GameState::restore(one(), vec![None], vec![Some(vec![healing])], vec![], Time(0)).is_none());
}

#[test]
fn idle_tank_stays_as_it_is() {
    let state = duel(Input::default());
    let next = advance(&state);
    assert_eq!(next.tank(Idx::new(0)), Some(tank_at(0, 0, 0)));
    assert_eq!(next.tank(Idx::new(1)), Some(tank_at(1, 500_000, 0)));
    assert_eq!(next.bullet_count(), 0);
    assert_eq!(next.time(), Time(1));
}

#[test]
fn driving_forward_moves_by_the_speed_over_the_tick_rate() {
    let state = duel(Input { drive: Some(Drive::Forward), ..Input::default() });
    let motion = tank_motion(&tank_at(0, 0, 0), &Input::default());
    assert_eq!(motion.forward, Vector::new(46_666, 0));
    assert_eq!(motion.reverse, Vector::new(-46_666, 0));
    assert_eq!(motion.muzzle, Vector::new(400_000, 0));
    let next = advance(&state);
    assert_eq!(next.tank(Idx::new(0)).unwrap().position, Point::new(46_666, 0));
    let back = duel(Input { drive: Some(Drive::Reverse), ..Input::default() });
    assert_eq!(advance(&back).tank(Idx::new(0)).unwrap().position, Point::new(-46_666, 0));
}

#[test]
fn turning_changes_the_angles_by_the_turn_rate() {
    let input = Input { rotate: Some(Turn::Left), turret: Some(Turn::Right), ..Input::default() };
    let next = advance(&duel(input));
    let tank = next.tank(Idx::new(0)).unwrap();
    let rate = TAU * (0.5 / 60.0);
    assert_eq!(f32::from_bits(tank.angle.bits), rate);
    assert_eq!(f32::from_bits(tank.turret_angle.bits), (-rate) % TAU + TAU);
    assert_eq!(tank.position, Point::origin());
}

#[test]
fn tank_tick_kills_by_the_first_bullet_that_uses_up_the_health() {
    let state = duel(Input::default());
    let tank = Tank { health: 25, ..tank_at(1, 500_000, 0) };
    let motion = tank_motion(&tank, &Input::default());
    let by = |owner: usize| Bullet { player: Idx::new(owner), ..bullet_at(0, 0, 0) };
    assert_eq!(
        tank.tick(&state, &[by(3), by(4)], &motion),
        TankUpdate::Alive(Tank { health: 5, ..tank })
    );
    assert_eq!(tank.tick(&state, &[by(3), by(4), by(5), by(6)], &motion), TankUpdate::Dead(Idx::new(5)));
    let exact = Tank { health: 20, ..tank };
    assert_eq!(exact.tick(&state, &[by(3), by(4)], &motion), TankUpdate::Dead(Idx::new(4)));
}

#[test]
fn tank_tick_fires_from_the_old_position_along_the_old_turret() {
    let input = Input {
        drive: Some(Drive::Forward),
        turret: Some(Turn::Left),
        fire: true,
        ..Input::default()
    };
    let state = duel(input);
    let tank = tank_at(0, 0, 0);
    let motion = tank_motion(&tank, &input);
    let update = tank.tick(&state, &[], &motion);
    let moved = Tank {
        position: Point::new(46_666, 0),
        turret_angle: motion.turret_angle,
        ..tank
    };
    let bullet = Bullet {
        position: Point::new(motion.muzzle.x, motion.muzzle.y),
        angle: Angle::zero(),
        damage: 10,
        birth: Time(0),
        player: Idx::new(0),
    };
    assert_eq!(update, TankUpdate::Fire(moved, bullet));
    assert!(tank.can_make(Some(input), &motion));
}

#[test]
fn motion_that_leaves_the_field_does_not_fit() {
    let state = GameState::restore(
        vec![player("a", Input { drive: Some(Drive::Forward), ..Input::default() })],
        vec![Some(tank_at(0, FIELD_LIMIT, 0))],
        vec![None],
        vec![],
        Time(0),
    )
    .unwrap();
    let given = motions(&state);
    assert!(!state.fits(&given));
    assert!(state.try_tick(&given).is_none());
    let short = Motions { tanks: vec![], bullets: vec![] };
    assert!(!state.fits(&short));
    let still = Motions {
        tanks: vec![TankMotion { forward: Vector::zero(), ..given.tanks[0] }],
        bullets: vec![],
    };
    assert!(state.fits(&still));
    assert!(state.try_tick(&still).is_some());
}

#[test]
fn bullet_flies_on_until_its_lifetime_is_over() {
    let at = |time: u64| {
        GameState::restore(vec![], vec![], vec![], vec![bullet_at(0, 0, 10)], Time(time)).unwrap()
    };
    let bullet = bullet_at(0, 0, 10);
    let young = at(10 + BULLET_LIFETIME);
    let motion = bullet_motion(&young, &bullet);
    assert_eq!(motion.step, Vector::new(166_666, 0));
    assert_eq!(
        bullet.tick(&young, &motion),
        BulletUpdate::Move(Bullet { position: Point::new(166_666, 0), ..bullet })
    );
    let old = at(11 + BULLET_LIFETIME);
    assert_eq!(bullet.tick(&old, &motion), BulletUpdate::Dead);
    let wrapped = at(5);
    assert_eq!(bullet.tick(&wrapped, &motion), BulletUpdate::Dead);
    let next = advance(&young);
    assert_eq!(next.bullet_count(), 1);
    assert_eq!(next.bullet(Idx::new(0)).position, Point::new(166_666, 0));
    assert_eq!(advance(&old).bullet_count(), 0);
}

#[test]
fn bullet_dies_when_it_leaves_the_field() {
    let edge = bullet_at(FIELD_LIMIT - 166_666, 0, 0);
    let state = GameState::restore(vec![], vec![], vec![], vec![edge], Time(0)).unwrap();
    let next = advance(&state);
    assert_eq!(next.bullet_count(), 1);
    assert_eq!(next.bullet(Idx::new(0)).position, Point::new(FIELD_LIMIT, 0));
    assert_eq!(advance(&next).bullet_count(), 0);
    let motion = BulletMotion { step: Vector::new(i64::MAX, 0), locals: vec![] };
    assert_eq!(bullet_at(1, 0, 0).tick(&state, &motion), BulletUpdate::Dead);
}

#[test]
fn collide_tells_tank_from_arena_from_nothing() {
    let state = duel(Input::default());
    let inside = Point::new(450_000, 10);
    let local = Local { tank: Idx::new(1), point: Vector::new(-50_000, 10) };
    assert_eq!(state.collide(&inside, &[local]), Some(Collision::Tank(Idx::new(1))));
    assert_eq!(state.collide(&inside, &[]), None);
    assert_eq!(state.collide(&Point::new(0, FIELD_LIMIT + 1), &[]), Some(Collision::Arena));
    assert_eq!(state.collide(&Point::new(0, FIELD_LIMIT), &[]), None);
    let found = state.candidates(&Point::new(250_000, 0));
    assert_eq!(found.len(), 2);
}

#[test]
fn probes_ask_about_every_tank_whose_envelope_holds_the_point() {
    let state = duel(Input::default());
    let between = Point::new(250_000, 7);
    let mut asked = state.probes(&between);
    asked.sort_by_key(|probe| probe.tank.get());
    assert_eq!(
        asked,
        vec![
            Probe { tank: Idx::new(0), angle: Angle::zero(), offset: Vector::new(250_000, 7) },
            Probe { tank: Idx::new(1), angle: Angle::zero(), offset: Vector::new(-250_000, 7) },
        ]
    );
    assert_eq!(state.probes(&Point::new(-282_842, 282_842)).len(), 1);
    assert!(state.probes(&Point::new(-282_843, 0)).is_empty());
}

#[test]
fn hit_is_queued_in_one_tick_and_counted_in_the_next() {
    let state = GameState::restore(
        vec![player("a", Input::default()), player("b", Input::default())],
        vec![Some(tank_at(0, 0, 0)), Some(tank_at(1, 500_000, 0))],
        vec![None, None],
        vec![bullet_at(400_000, 0, 0)],
        Time(1),
    )
    .unwrap();
    let registered = advance(&state);
    assert_eq!(registered.tank(Idx::new(1)).unwrap().health, FULL_HEALTH);
    assert_eq!(registered.mailbox(Idx::new(1)), vec![bullet_at(400_000, 0, 0)]);
    assert_eq!(registered.mailbox(Idx::new(0)), vec![]);
    assert_eq!(registered.bullet_count(), 0);
    let applied = advance(&registered);
    assert_eq!(applied.tank(Idx::new(1)).unwrap().health, FULL_HEALTH - BULLET_DAMAGE);
    assert_eq!(applied.tank(Idx::new(0)).unwrap().health, FULL_HEALTH);
    assert_eq!(applied.mailbox(Idx::new(1)), vec![]);
    let later = advance(&applied);
    assert_eq!(later.tank(Idx::new(1)).unwrap().health, FULL_HEALTH - BULLET_DAMAGE);
}

#[test]
fn scenario_point_blank_shot_costs_exactly_one_bullet_of_health() {
    let mut state = duel(firing());
    state = advance(&state);
    assert_eq!(state.bullet_count(), 1);
    assert_eq!(state.bullet(Idx::new(0)).position, Point::new(400_000, 0));
    assert_eq!(state.bullet(Idx::new(0)).birth, Time(0));
    state.latch(Idx::new(0), Input::default());
    state = advance(&state);
    assert_eq!(state.tank(Idx::new(1)).unwrap().health, FULL_HEALTH);
    assert_eq!(state.mailbox(Idx::new(1)).len(), 1);
    state = advance(&state);
    assert_eq!(state.tank(Idx::new(1)).unwrap().health, FULL_HEALTH - BULLET_DAMAGE);
    assert_eq!(state.tank(Idx::new(0)).unwrap().health, FULL_HEALTH);
    assert_eq!(state.bullet_count(), 0);
    assert_eq!(state.time(), Time(3));
}

#[test]
fn tank_dies_when_queued_damage_uses_up_its_health() {
    let weak = Tank { health: 10, ..tank_at(1, 500_000, 0) };
    let state = GameState::restore(
        vec![player("a", Input::default()), player("b", Input::default())],
        vec![Some(tank_at(0, 0, 0)), Some(weak)],
        vec![None, Some(vec![bullet_at(0, 0, 0)])],
        vec![],
        Time(1),
    )
    .unwrap();
    let next = advance(&state);
    assert_eq!(next.tank(Idx::new(1)), None);
    assert!(next.player(Idx::new(1)).is_some());
    assert!(next.candidates(&Point::new(500_000, 0)).is_empty());
    assert_eq!(next.slots(), 2);
}

#[test]
fn orphaned_tank_is_removed_by_the_next_tick() {
    let mut state = duel(Input::default());
    state.leave(&Idx::new(1));
    assert_eq!(state.player(Idx::new(1)), None);
    assert!(state.tank(Idx::new(1)).is_some());
    let next = advance(&state);
    assert_eq!(next.player(Idx::new(1)), None);
    assert_eq!(next.tank(Idx::new(1)), None);
    assert!(next.tank(Idx::new(0)).is_some());
    assert!(next.candidates(&Point::new(500_000, 0)).is_empty());
}

#[test]
fn index_follows_a_tank_that_moves() {
    let state = duel(Input { drive: Some(Drive::Reverse), ..Input::default() });
    let mut next = advance(&state);
    for _ in 0..10 {
        next = advance(&next);
    }
    let tank = next.tank(Idx::new(0)).unwrap();
    assert_eq!(tank.position, Point::new(-46_666 * 11, 0));
    assert!(next.candidates(&Point::new(250_000, 0)).iter().all(|h| h.tank_slot() == 1));
    let found = next.candidates(&tank.position);
    assert_eq!(found.len(), 1);
    assert_eq!(found[0].hitbox(), tank.hitbox());
}

#[test]
fn fired_bullets_come_before_those_that_fly_on() {
    let state = GameState::restore(
        vec![player("a", firing())],
        vec![Some(tank_at(0, 0, 0))],
        vec![None],
        vec![bullet_at(5_000_000, 0, 0)],
        Time(2),
    )
    .unwrap();
    let next = advance(&state);
    assert_eq!(next.bullet_count(), 2);
    assert_eq!(next.bullet(Idx::new(0)).position, Point::new(400_000, 0));
    assert_eq!(next.bullet(Idx::new(0)).birth, Time(2));
    assert_eq!(next.bullet(Idx::new(1)).position, Point::new(5_166_666, 0));
}

#[test]
fn tick_gives_the_same_world_every_time() {
    let mut state = duel(Input {
        drive: Some(Drive::Forward),
        rotate: Some(Turn::Left),
        turret: Some(Turn::Right),
        fire: true,
        seq: 1,
    });
    for _ in 0..5 {
        state = advance(&state);
    }
    let given = motions(&state);
    let first = state.tick(&given);
    let second = state.tick(&given);
    assert_eq!(first.slots(), second.slots());
    assert_eq!(first.time(), second.time());
    assert_eq!(first.bullet_count(), second.bullet_count());
    for slot in 0..first.slots() {
        assert_eq!(first.tank(Idx::new(slot)), second.tank(Idx::new(slot)));
        assert_eq!(first.player(Idx::new(slot)), second.player(Idx::new(slot)));
        assert_eq!(first.mailbox(Idx::new(slot)), second.mailbox(Idx::new(slot)));
    }
    for at in 0..first.bullet_count() {
        assert_eq!(first.bullet(Idx::new(at)), second.bullet(Idx::new(at)));
    }
}

#[test]
fn tick_count_wraps() {
    let state = GameState::restore(vec![], vec![], vec![], vec![], Time(u64::MAX)).unwrap();
    assert_eq!(advance(&state).time(), Time(0));
    assert_eq!(Time(3).elapsed(&Time(u64::MAX)), 4);
    assert_eq!(Time(u64::MAX).succ(), Time(0));
}

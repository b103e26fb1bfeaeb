use bw_adventures::collisions::{collides, Collisions};
use bw_adventures::fixed::UNIT;
use bw_adventures::level_serialization::{Level, LevelItem};
use bw_adventures::map::{LevelMap, Platform};
use bw_adventures::mechanics::{MovementState, PlayerSettings, PlayerState};
use bw_adventures::player::{Player, PlayerImage};

/// A small generator of numbers that look random and are the same in every
/// run.
struct Numbers(u64);

impl Numbers {
    fn next(&mut self) -> u64 {
        self.0 = self.0.wrapping_mul(6364136223846793005).wrapping_add(1442695040888963407);
        self.0 >> 33
    }

    /// A whole number from `low` to `high`.
    fn between(&mut self, low: i64, high: i64) -> i64 {
        low + (self.next() % (high - low + 1) as u64) as i64
    }
}

#[derive(Clone, Copy, Debug)]
struct Box64 {
    x: f64,
    y: f64,
    w: f64,
    h: f64,
}

#[derive(Clone, Copy, Debug, PartialEq)]
struct Found {
    north: Option<f64>,
    south: Option<f64>,
    east: Option<f64>,
    west: Option<f64>,
}

fn least(a: Option<f64>, b: f64) -> Option<f64> {
    Some(match a {
        Some(a) => a.min(b),
        None => b,
    })
}

fn most(a: Option<f64>, b: f64) -> Option<f64> {
    Some(match a {
        Some(a) => a.max(b),
        None => b,
    })
}

/// The resolution of one step, computed directly in floats.
fn resolve(me: Box64, nx: f64, ny: f64, blocks: &[Box64]) -> Found {
    let within = |start: f64, len: f64, v: f64| v <= start + len && v >= start;
    let overlap = |a: f64, al: f64, b: f64, bl: f64| a < b + bl && a + al > b;
    let mut found = Found { north: None, south: None, east: None, west: None };
    for b in blocks {
        if !(nx <= b.x + b.w && nx + me.w >= b.x && ny <= b.y + b.h && ny + me.h >= b.y) {
            continue;
        }
        if overlap(me.x, me.w, b.x, b.w) {
            let from_below =
                within(b.y, b.h, ny + me.h) || (ny + me.h > b.y && me.y + me.h <= b.y);
            let from_above = within(b.y, b.h, ny) || (ny < b.y + b.h && me.y >= b.y + b.h);
            if from_below && !from_above {
                found.north = least(found.north, b.y - me.h);
            } else if !from_below && from_above {
                found.south = most(found.south, b.y + b.h);
            }
        }
        if overlap(me.y, me.h, b.y, b.h) {
            let from_left = within(b.x, b.w, nx + me.w) || (nx + me.w > b.x && me.x + me.w <= b.x);
            let from_right = within(b.x, b.w, nx) || (nx < b.x + b.w && me.x >= b.x + b.w);
            if from_left && !from_right {
                found.east = least(found.east, b.x - me.w);
            } else if !from_left && from_right {
                found.west = most(found.west, b.x + b.w);
            }
        }
    }
    found
}

fn fixed(b: Box64) -> Platform {
    Platform::new_box(
        (b.x as i64) * UNIT,
        (b.y as i64) * UNIT,
        (b.w as i64) * UNIT,
        (b.h as i64) * UNIT,
    )
}

fn in_units(c: &Collisions) -> Found {
    let f = |v: Option<i64>| v.map(|v| v as f64 / UNIT as f64);
    Found { north: f(c.north), south: f(c.south), east: f(c.east), west: f(c.west) }
}

#[test]
fn resolver_agrees_with_a_direct_computation() {
    let mut numbers = Numbers(7);
    let mut blocked = [0usize; 4];
    for _ in 0..20_000 {
        let me = Box64 {
            x: numbers.between(-12, 12) as f64,
            y: numbers.between(-12, 12) as f64,
            w: numbers.between(0, 6) as f64,
            h: numbers.between(0, 6) as f64,
        };
        let nx = me.x + numbers.between(-5, 5) as f64;
        let ny = me.y + numbers.between(-5, 5) as f64;
        let count = numbers.between(0, 5) as usize;
        let mut blocks = Vec::new();
        for _ in 0..count {
            blocks.push(Box64 {
                x: numbers.between(-15, 15) as f64,
                y: numbers.between(-15, 15) as f64,
                w: numbers.between(0, 8) as f64,
                h: numbers.between(0, 8) as f64,
            });
        }
        let expected = resolve(me, nx, ny, &blocks);
        let platforms: Vec<Platform> = blocks.iter().map(|b| fixed(*b)).collect();
        let got = collides(&fixed(me), nx as i64 * UNIT, ny as i64 * UNIT, &platforms);
        assert_eq!(in_units(&got), expected, "{:?} to ({}, {}) among {:?}", me, nx, ny, blocks);
        blocked[0] += expected.north.is_some() as usize;
        blocked[1] += expected.south.is_some() as usize;
        blocked[2] += expected.east.is_some() as usize;
        blocked[3] += expected.west.is_some() as usize;
    }
    // The cases do reach every side.
    assert!(blocked.iter().all(|n| *n > 300), "{:?}", blocked);
}

/// The player's motion, computed directly in floats.
#[derive(Clone, Debug)]
struct Body {
    x: f64,
    y: f64,
    vx: f64,
    vy: f64,
    grounded: bool,
    left_wall: bool,
    right_wall: bool,
    left: bool,
    right: bool,
}

struct Tuning {
    weight: f64,
    input_force: f64,
    gravity_force: f64,
    drag_constant: f64,
    tick_constant: f64,
}

fn step(body: &mut Body, t: &Tuning, dt: f64, blocks: &[Box64]) {
    let mut force_x = 0.0;
    let mut force_y = 0.0;
    match (body.left, body.right) {
        (false, true) => force_x += t.input_force,
        (true, false) => force_x -= t.input_force,
        _ => (),
    }
    if !body.grounded {
        force_y -= t.gravity_force;
    }
    force_x -= t.drag_constant * body.vx * body.vx.abs();
    force_y -= t.drag_constant * body.vy * body.vy.abs();
    body.vx += force_x / t.weight * dt * t.tick_constant;
    body.vy += force_y / t.weight * dt * t.tick_constant;
    let new_x = body.x + body.vx * dt * t.tick_constant;
    let new_y = body.y + body.vy * dt * t.tick_constant;
    let me = Box64 { x: body.x, y: body.y, w: 10.0, h: 20.0 };
    let c = resolve(me, new_x, new_y, blocks);
    body.grounded = c.south.is_some();
    body.left_wall = c.west.is_some();
    body.right_wall = c.east.is_some();
    match (c.west, new_x <= body.x, c.east, new_x >= body.x) {
        (Some(w1), _, Some(w2), _) => body.x = (w1 + w2) / 2.0,
        (Some(wall), true, None, _) | (None, _, Some(wall), true) => body.x = wall,
        _ => body.x = new_x,
    }
    match (c.south, new_y <= body.y, c.north, new_y >= body.y) {
        (Some(floor), _, Some(_), _) => {
            body.y = floor;
            body.vy = 0.0;
        }
        (Some(wall), true, None, _) | (None, _, Some(wall), true) => {
            body.y = wall;
            body.vy = 0.0;
        }
        _ => body.y = new_y,
    }
}

fn close(fixed: i64, float: f64) -> bool {
    (fixed as f64 / UNIT as f64 - float).abs() < 0.01
}

#[test]
fn motion_agrees_with_floats() {
    // A room with a floor, two walls, a ceiling and a few platforms.
    let blocks = [
        Box64 { x: 0.0, y: 40.0, w: 60.0, h: 5.0 },
        Box64 { x: 90.0, y: 80.0, w: 60.0, h: 5.0 },
        Box64 { x: 200.0, y: 30.0, w: 20.0, h: 70.0 },
        Box64 { x: -50.0, y: 120.0, w: 120.0, h: 10.0 },
    ];
    let mut walls = vec![
        Box64 { x: -101.0, y: 0.0, w: 1.0, h: 300.0 },
        Box64 { x: -100.0, y: 300.0, w: 400.0, h: 1.0 },
        Box64 { x: -100.0, y: -1.0, w: 400.0, h: 1.0 },
        Box64 { x: 300.0, y: 0.0, w: 1.0, h: 300.0 },
    ];
    let level = Level {
        initial_x: 0,
        initial_y: 0,
        items: blocks
            .iter()
            .map(|b| LevelItem::Box {
                x: b.x as i64 * UNIT,
                y: b.y as i64 * UNIT,
                width: b.w as i64 * UNIT,
                height: b.h as i64 * UNIT,
            })
            .collect(),
        west_boundary: -100 * UNIT,
        south_boundary: 0,
        east_boundary: 300 * UNIT,
        north_boundary: 300 * UNIT,
    };
    assert!(level.is_valid());
    let map = LevelMap::from(&level);
    let mut all = blocks.to_vec();
    all.append(&mut walls);

    let tuning = Tuning {
        weight: 3.0,
        input_force: 367.0,
        gravity_force: 305.0,
        drag_constant: 0.08,
        tick_constant: 3.7,
    };
    let dt = 0.008;
    let mut numbers = Numbers(11);
    let mut grounded_steps = 0;
    let mut wall_steps = 0;
    for run in 0..40 {
        let x = numbers.between(-90, 280);
        let y = numbers.between(130, 270);
        let mut player = PlayerState::new(x * UNIT, y * UNIT);
        let mut body = Body {
            x: x as f64,
            y: y as f64,
            vx: 0.0,
            vy: 0.0,
            grounded: false,
            left_wall: false,
            right_wall: false,
            left: false,
            right: false,
        };
        for tick in 0..600 {
            if tick % 40 == 0 {
                let keys = numbers.between(0, 3);
                body.left = keys & 1 != 0;
                body.right = keys & 2 != 0;
                player.input_left = body.left;
                player.input_right = body.right;
            }
            if tick % 90 == 45 && body.grounded {
                player.jump();
                body.vy += 400.0;
            }
            step(&mut body, &tuning, dt, &all);
            player.tick(8_000, &map);
            let place = format!("run {} tick {}: {:?} against {:?}", run, tick, body, player.absolute_x);
            assert!(close(player.absolute_x, body.x), "{}", place);
            assert!(close(player.absolute_y, body.y), "{}", place);
            assert!(close(player.velocity_x, body.vx), "{}", place);
            assert!(close(player.velocity_y, body.vy), "{}", place);
            assert_eq!(player.grounded, body.grounded, "{}", place);
            assert_eq!(player.on_left_wall, body.left_wall, "{}", place);
            assert_eq!(player.on_right_wall, body.right_wall, "{}", place);
            grounded_steps += body.grounded as usize;
            wall_steps += (body.left_wall || body.right_wall) as usize;
        }
    }
    // The runs do spend time on the ground and at walls.
    assert!(grounded_steps > 1000, "{}", grounded_steps);
    assert!(wall_steps > 100, "{}", wall_steps);
}

#[test]
fn settings_are_those_of_the_floats() {
    let s = PlayerSettings::new();
    let float = |v: i64| v as f64 / UNIT as f64;
    assert_eq!(float(s.weight), 3.0);
    assert_eq!(float(s.input_force), 367.0);
    assert_eq!(float(s.jump_boost), 400.0);
    assert_eq!(float(s.wall_boost_y), 250.0);
    assert_eq!(float(s.wall_boost_x), 450.0);
    assert_eq!(float(s.gravity_force), 305.0);
    assert_eq!(float(s.drag_constant), 0.08);
    assert_eq!(float(s.tick_constant), 3.7);
    assert_eq!(float(s.jump_duration), 20.0);
}

#[test]
fn running_frames_agree_with_floats() {
    let mut numbers = Numbers(13);
    let mut p = Player::new(0, 0);
    p.state.grounded = true;
    for _ in 0..5_000 {
        let raw = numbers.between(-50 * UNIT, 500 * UNIT);
        let x = raw as f64 / UNIT as f64;
        let frame = x.ceil() as usize / 4 % 6;
        p.state.absolute_x = raw;
        p.state.last_movement = MovementState::MovingRight;
        assert_eq!(p.get_current_image(), PlayerImage::RunRight(frame), "{}", x);
        p.state.last_movement = MovementState::MovingLeft;
        assert_eq!(p.get_current_image(), PlayerImage::RunLeft(5 - frame), "{}", x);
    }
}

#[test]
fn camera_agrees_with_floats() {
    let mut numbers = Numbers(17);
    for _ in 0..5_000 {
        let x = numbers.between(-2000, 2000);
        let y = numbers.between(-2000, 2000);
        let last_x = numbers.between(-2000, 2000);
        let last_y = numbers.between(-2000, 2000);
        // Sizes that halve and fifth without a rest.
        let width = numbers.between(0, 200) * 10;
        let height = numbers.between(0, 200) * 10;
        let follow = |position: f64, last: f64, extent: f64| {
            let allowance = f64::max(extent / 5.0, 100.0);
            let half = extent / 2.0;
            if position > last + half - allowance {
                position - half + allowance
            } else if position < last + allowance - extent / 2.0 {
                position - allowance + extent / 2.0
            } else {
                last
            }
        };
        let expected_x = follow(x as f64, last_x as f64, width as f64);
        let expected_y = follow(y as f64, last_y as f64, height as f64);
        let mut p = Player::new(last_x * UNIT, last_y * UNIT);
        p.state.absolute_x = x * UNIT;
        p.state.absolute_y = y * UNIT;
        let (sx, sy) = p.calculate_scroll(width * UNIT, height * UNIT);
        assert_eq!(p.last_scroll_x as f64 / UNIT as f64, expected_x);
        assert_eq!(p.last_scroll_y as f64 / UNIT as f64, expected_y);
        assert_eq!(sx as f64 / UNIT as f64, expected_x.floor());
        assert_eq!(sy as f64 / UNIT as f64, expected_y.floor());
    }
}

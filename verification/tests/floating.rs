use particle_life::fixed::ONE;
use particle_life::force::{force_magnitude, pair_interaction};
use particle_life::preset::{Population, Preset, Seed};
use particle_life::seeding::{ParticleVariate, TypeVariates};
use particle_life::universe::Universe;

const WIDTH: f64 = 400.0;
const HEIGHT: f64 = 300.0;
const FRICTION: f64 = 0.01;

fn float(fixed: i64) -> f64 {
    fixed as f64 / ONE as f64
}

fn fixed(float: f64) -> i64 {
    (float * ONE as f64).round() as i64
}

fn magnitude(attract: f64, min_r: f64, max_r: f64, r: f64, flat: bool) -> f64 {
    if r > min_r {
        if flat {
            attract
        } else {
            attract * (1.0 - 2.0 * (r - 0.5 * (max_r + min_r)).abs() / (max_r - min_r))
        }
    } else {
        2.0 * min_r * (1.0 / (min_r + 2.0) - 1.0 / (r + 2.0))
    }
}

struct Body {
    x: f64,
    y: f64,
    vx: f64,
    vy: f64,
    kind: usize,
}

fn shortest(mut d: f64, extent: f64, wrap: bool) -> f64 {
    if wrap {
        if d > extent * 0.5 {
            d -= extent;
        } else if d < -extent * 0.5 {
            d += extent;
        }
    }
    d
}

fn advance(x: &mut f64, v: &mut f64, extent: f64, wrap: bool) {
    *x += *v;
    *v *= 1.0 - FRICTION;
    if wrap {
        if *x < 0.0 {
            *x += extent;
        } else if *x >= extent {
            *x -= extent;
        }
    } else if *x <= 10.0 {
        *v = -*v;
        *x = 10.0;
    } else if *x >= extent - 10.0 {
        *v = -*v;
        *x = extent - 10.0;
    }
}

fn step(bodies: &mut Vec<Body>, table: &[[(f64, f64, f64); 2]; 2], flat: bool, wrap: bool) {
    for i in 0..bodies.len() {
        for j in 0..bodies.len() {
            if i == j {
                continue;
            }
            let dx = shortest(bodies[j].x - bodies[i].x, WIDTH, wrap);
            let dy = shortest(bodies[j].y - bodies[i].y, HEIGHT, wrap);
            let (attract, min_r, max_r) = table[bodies[i].kind][bodies[j].kind];
            let r2 = dx * dx + dy * dy;
            if r2 > max_r * max_r || r2 < 0.01 {
                continue;
            }
            let r = r2.sqrt();
            let f = magnitude(attract, min_r, max_r, r, flat);
            bodies[i].vx += f * dx / r;
            bodies[i].vy += f * dy / r;
        }
    }
    for body in bodies.iter_mut() {
        advance(&mut body.x, &mut body.vx, WIDTH, wrap);
        advance(&mut body.y, &mut body.vy, HEIGHT, wrap);
    }
}

fn compare(flat: bool, wrap: bool, steps: usize, tolerance: f64) {
    let preset = Preset {
        population: Population { particle_types: 2, particles: 3 },
        seed: Seed {
            attract_mean: 0,
            attract_std: 0,
            min_r_lower: 0,
            min_r_upper: 0,
            max_r_lower: 0,
            max_r_upper: 0,
            friction: fixed(FRICTION),
            flat_force: flat,
        },
    };
    let types = TypeVariates {
        attract: vec![-20_000, 30_000, -10_000, -5_000],
        min_r: vec![0, 0, 12 * ONE, 0],
        max_r: vec![40 * ONE, 0, 60 * ONE, 0],
    };
    let variates = vec![
        ParticleVariate { particle_type: 0, x: 0, y: 0, vx: ONE, vy: -500_000 },
        ParticleVariate { particle_type: 1, x: 100_000, y: 50_000, vx: 0, vy: 0 },
        ParticleVariate { particle_type: 0, x: 150_000, y: 200_000, vx: -2 * ONE, vy: 3 * ONE },
    ];
    let mut universe = Universe::new(fixed(WIDTH), fixed(HEIGHT));
    universe.set_wrap(wrap);
    assert_eq!(universe.load_variates(&preset, &types, &variates), Ok(()));

    let table = [
        [(-0.02, 10.0, 40.0), (0.03, 12.0, 60.0)],
        [(-0.01, 12.0, 60.0), (-0.005, 10.0, 10.0)],
    ];
    let mut bodies: Vec<Body> = (0..3)
        .map(|k| {
            let p = universe.particle(k).unwrap();
            Body {
                x: float(p.x),
                y: float(p.y),
                vx: float(p.vx),
                vy: float(p.vy),
                kind: p.particle_type,
            }
        })
        .collect();

    for _ in 0..steps {
        universe.step();
        step(&mut bodies, &table, flat, wrap);
    }
    for (k, body) in bodies.iter().enumerate() {
        let p = universe.particle(k).unwrap();
        assert!((float(p.x) - body.x).abs() < tolerance);
        assert!((float(p.y) - body.y).abs() < tolerance);
        assert!((float(p.vx) - body.vx).abs() < tolerance);
        assert!((float(p.vy) - body.vy).abs() < tolerance);
    }
}

#[test]
fn the_force_law_agrees_with_floating_point() {
    for &(attract, min_r, max_r) in &[(0.02, 10.0, 30.0), (-0.37, 12.5, 77.25), (0.9, 10.0, 10.5)] {
        for flat in [false, true] {
            let mut r = 0.0;
            while r <= max_r {
                let exact = magnitude(attract, min_r, max_r, r, flat);
                let ours =
                    force_magnitude(fixed(attract), fixed(min_r), fixed(max_r), fixed(r), flat);
                assert!((float(ours) - exact).abs() < 0.0001);
                r += 0.125;
            }
        }
    }
}

#[test]
fn the_tent_vanishes_at_the_radii_within_tolerance() {
    let (attract, min_r, max_r) = (0.02, 10.0, 30.0);
    let at = |r: f64| {
        float(force_magnitude(fixed(attract), fixed(min_r), fixed(max_r), fixed(r), false))
    };
    assert!(at(min_r).abs() < 1e-6);
    assert!(at(max_r).abs() < 1e-6);
    assert!((at((min_r + max_r) / 2.0) - attract).abs() < 1e-6);
}

#[test]
fn the_interaction_agrees_with_floating_point() {
    for &(dx, dy) in &[(3.0, 4.0), (-12.0, 16.0), (0.1, 0.0), (25.0, -14.5), (0.05, 0.05)] {
        let (attract, min_r, max_r) = (0.02, 10.0, 30.0);
        let r2: f64 = dx * dx + dy * dy;
        let exact = if r2 > max_r * max_r || r2 < 0.01 {
            (0.0, 0.0)
        } else {
            let r = r2.sqrt();
            let f = magnitude(attract, min_r, max_r, r, false);
            (f * dx / r, f * dy / r)
        };
        let ours = pair_interaction(
            fixed(dx),
            fixed(dy),
            fixed(attract),
            fixed(min_r),
            fixed(max_r),
            false,
        );
        assert!((float(ours.0) - exact.0).abs() < 0.0001);
        assert!((float(ours.1) - exact.1).abs() < 0.0001);
    }
}

#[test]
fn a_run_between_walls_agrees_with_floating_point() {
    compare(false, false, 5, 0.0001);
    compare(false, false, 50, 0.01);
}

#[test]
fn a_run_on_a_torus_agrees_with_floating_point() {
    compare(true, true, 5, 0.0001);
    compare(true, true, 50, 0.01);
}

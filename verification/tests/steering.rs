use boids::boid::{bob, bob_angle, BoidBundle};
use boids::kinematics::{integrate, move_step, Velocity, MAX_ACCELERATION, MAX_VELOCITY};
use boids::target::{follow_target, seek, Target};
use boids::vec3::Vec3;

fn v(x: i64, y: i64, z: i64) -> Vec3 {
    Vec3::new(x, y, z)
}

fn agent(position: Vec3, target: Vec3) -> BoidBundle {
    let mut a = BoidBundle::at(Target { pos: target, dir: Vec3::zero() }, 0, 0, 0);
    a.position = position;
    a
}

#[test]
fn seek_from_rest_is_held_to_the_largest_acceleration() {
    let mut vel = Velocity::default();
    seek(v(0, 0, 0), v(10_000, 0, 0), &mut vel);
    assert_eq!(vel.a, v(5000, 0, 0));
    assert_eq!(vel.target_v, 9900);
    assert_eq!(vel.v, v(0, 0, 0));
    assert_eq!(vel.push, v(0, 0, 0));
}

#[test]
fn seek_close_to_the_target_is_gentle() {
    let mut vel = Velocity::default();
    seek(v(0, 0, 0), v(0, 0, -2000), &mut vel);
    assert_eq!(vel.a, v(0, 0, -2000));
    assert_eq!(vel.target_v, 1980);
}

#[test]
fn seek_brakes_an_agent_that_closes_too_fast() {
    let mut vel = Velocity::default();
    vel.v = v(12_000, 0, 0);
    seek(v(0, 0, 0), v(10_000, 0, 0), &mut vel);
    assert_eq!(vel.a, v(-2000, 0, 0));
    assert_eq!(vel.v, v(12_000, 0, 0));
}

#[test]
fn seek_turns_an_agent_that_moves_away() {
    let mut vel = Velocity::default();
    vel.v = v(-3000, 0, 0);
    seek(v(0, 0, 0), v(1000, 0, 0), &mut vel);
    assert_eq!(vel.a, v(4000, 0, 0));
}

#[test]
fn seek_counts_a_velocity_across_the_line_as_closing() {
    let mut vel = Velocity::default();
    vel.v = v(0, 0, 3000);
    seek(v(0, 0, 0), v(10_000, 0, 0), &mut vel);
    assert_eq!(vel.a, v(5000, 0, 0));
    vel.v = v(0, 0, 3000);
    seek(v(0, 0, 0), v(4000, 0, 0), &mut vel);
    assert_eq!(vel.a, v(1000, 0, 0));
}

#[test]
fn seek_along_a_diagonal() {
    let mut vel = Velocity::default();
    seek(v(0, 0, 0), v(3000, 0, 4000), &mut vel);
    assert_eq!(vel.a, v(3000, 0, 4000));
    seek(v(0, 0, 0), v(30_000, 0, 40_000), &mut vel);
    assert_eq!(vel.a, v(3000, 0, 4000));
    assert_eq!(vel.target_v, 19_800);
}

#[test]
fn speed_ceiling_stays_below_the_global_one() {
    let mut vel = Velocity::default();
    seek(v(0, 0, 0), v(500_000, 0, 0), &mut vel);
    assert_eq!(vel.target_v, 19_800);
    seek(v(0, 0, 0), v(20_000, 0, 0), &mut vel);
    assert_eq!(vel.target_v, 19_800);
    seek(v(0, 0, 0), v(19_999, 0, 0), &mut vel);
    assert_eq!(vel.target_v, 19_799);
}

#[test]
fn agent_at_rest_at_its_target_stays_at_rest() {
    let mut vel = Velocity::default();
    seek(v(7000, 500, -3000), v(7000, 500, -3000), &mut vel);
    assert_eq!(vel.a, v(0, 0, 0));
    assert_eq!(vel.target_v, 0);
    let mut position = v(7000, 500, -3000);
    integrate(&mut position, &mut vel, 100);
    assert_eq!(position, v(7000, 500, -3000));
    assert_eq!(vel.v, v(0, 0, 0));
}

#[test]
fn agent_at_its_target_gets_no_acceleration_whatever_its_velocity() {
    let mut vel = Velocity::default();
    vel.v = v(100, 0, -50);
    seek(v(1, 2, 3), v(1, 2, 3), &mut vel);
    assert_eq!(vel.a, v(0, 0, 0));
    assert_eq!(vel.target_v, 0);
}

#[test]
fn acceleration_never_exceeds_the_largest() {
    let positions = [v(0, 0, 0), v(123_456, -7, 99), v(-5000, 500, 5000), v(1, 1, 1)];
    let targets = [v(0, 0, 0), v(10_000, 0, 0), v(-77_777, 3, 12_345), v(2, 2, 2)];
    let velocities = [v(0, 0, 0), v(20_000, 0, 0), v(-11_000, 0, 11_000), v(1, -1, 1)];
    for p in positions {
        for t in targets {
            for w in velocities {
                let mut vel = Velocity::default();
                vel.v = w;
                seek(p, t, &mut vel);
                let limit = (MAX_ACCELERATION as i128) * (MAX_ACCELERATION as i128);
                assert!(vel.a.length_squared() <= limit);
                assert!(0 <= vel.target_v && vel.target_v <= MAX_VELOCITY);
            }
        }
    }
}

#[test]
fn integrate_one_step() {
    let mut vel = Velocity { v: v(1000, 0, 0), a: v(5000, 0, 0), push: v(0, 0, 0), target_v: 9900 };
    let mut position = v(0, 500, 0);
    integrate(&mut position, &mut vel, 100);
    assert_eq!(vel.v, v(1500, 0, 0));
    assert_eq!(position, v(150, 500, 0));
    assert_eq!(vel.a, v(5000, 0, 0));
    assert_eq!(vel.target_v, 9900);
}

#[test]
fn integrate_holds_the_velocity_to_the_agents_own_ceiling() {
    let mut vel =
        Velocity { v: v(19_990, 0, 0), a: v(5000, 0, 0), push: v(0, 0, 0), target_v: 19_800 };
    let mut position = v(0, 0, 0);
    integrate(&mut position, &mut vel, 100);
    assert_eq!(vel.v, v(19_820, 0, 0));
    assert_eq!(position, v(1982, 0, 0));
}

#[test]
fn integrate_leaves_a_stalled_agent_its_slack() {
    let mut vel = Velocity { v: v(0, 0, 0), a: v(0, 0, 5000), push: v(0, 0, 0), target_v: 0 };
    let mut position = v(0, 0, 0);
    integrate(&mut position, &mut vel, 1000);
    assert_eq!(vel.v, v(0, 0, 20));
    assert_eq!(position, v(0, 0, 20));
}

#[test]
fn integrate_holds_a_pushed_agent_to_the_global_ceiling() {
    let mut vel =
        Velocity { v: v(20_000, 0, 0), a: v(0, 0, 0), push: v(10_000, 0, 0), target_v: 20_000 };
    let mut position = v(0, 0, 0);
    integrate(&mut position, &mut vel, 1000);
    assert_eq!(vel.v, v(20_000, 0, 0));
    assert_eq!(position, v(20_000, 0, 0));
    assert_eq!(vel.push, v(10_000, 0, 0));
}

#[test]
fn integrate_applies_the_push_after_the_first_clamp() {
    let mut vel = Velocity { v: v(0, 0, 0), a: v(0, 0, 0), push: v(0, 3000, 0), target_v: 0 };
    let mut position = v(0, 0, 0);
    integrate(&mut position, &mut vel, 500);
    assert_eq!(vel.v, v(0, 1500, 0));
    assert_eq!(position, v(0, 750, 0));
}

#[test]
fn integrate_over_no_time_moves_nothing() {
    let mut vel = Velocity { v: v(300, 0, 0), a: v(5000, 0, 0), push: v(0, 0, 0), target_v: 9900 };
    let mut position = v(1, 2, 3);
    integrate(&mut position, &mut vel, 0);
    assert_eq!(vel.v, v(300, 0, 0));
    assert_eq!(position, v(1, 2, 3));
}

#[test]
fn velocity_never_exceeds_the_ceiling_after_a_step() {
    let limit = 1_000_000_000_000i64;
    let vs = [v(0, 0, 0), v(limit, 0, 0), v(-20_000, 20_000, 1), v(11_547, 11_547, 11_547)];
    let accs = [v(0, 0, 0), v(0, -limit, 0), v(5000, 0, 0)];
    let pushes = [v(0, 0, 0), v(0, 0, limit), v(-2500, 2500, 0)];
    for w in vs {
        for a in accs {
            for p in pushes {
                for tv in [0i64, 19_800, 20_000] {
                    for dt in [0i64, 1, 16, 100, 1_000_000] {
                        let mut vel = Velocity { v: w, a, push: p, target_v: tv };
                        let mut position = v(0, 0, 0);
                        integrate(&mut position, &mut vel, dt);
                        let ceiling = (MAX_VELOCITY as i128) * (MAX_VELOCITY as i128);
                        assert!(vel.v.length_squared() <= ceiling);
                    }
                }
            }
        }
    }
}

#[test]
fn agent_reaches_its_target_in_fifty_steps() {
    let mut agents = vec![agent(v(0, 0, 0), v(10_000, 0, 0))];
    for _ in 0..50 {
        follow_target(&mut agents);
        move_step(&mut agents, 100);
    }
    let left = v(10_000, 0, 0).minus(agents[0].position);
    assert!(left.length() <= 500);
    assert!(agents[0].vel.v.length() <= 500);
    assert_eq!(agents[0].position, v(9892, 0, 0));
    assert_eq!(agents[0].vel.v, v(139, 0, 0));
}

#[test]
fn agent_from_rest_closes_in_steadily() {
    let starts = [(v(0, 0, 0), v(10_000, 0, 0)), (v(1000, 500, -2000), v(-7000, 0, 4000))];
    for (start, target) in starts {
        let mut agents = vec![agent(start, target)];
        let mut distance = target.minus(start).length();
        for tick in 0..200 {
            follow_target(&mut agents);
            move_step(&mut agents, 100);
            let now = target.minus(agents[0].position).length();
            if tick >= 20 {
                assert!(now <= distance + 5);
            }
            distance = now;
        }
        assert!(distance <= 100);
    }
}

#[test]
fn systems_leave_the_rest_of_an_agent_alone() {
    let mut a = agent(v(0, 500, 0), v(3000, 0, 4000));
    a.bob.offset = 77;
    a.vel.push = v(1, 2, 3);
    let mut agents = vec![a, agent(v(5, 5, 5), v(5, 5, 5))];
    follow_target(&mut agents);
    assert_eq!(agents.len(), 2);
    assert_eq!(agents[0].position, v(0, 500, 0));
    assert_eq!(agents[0].bob.offset, 77);
    assert_eq!(agents[0].vel.push, v(1, 2, 3));
    assert_eq!(agents[0].target.pos, v(3000, 0, 4000));
    assert_eq!(agents[1].vel.a, v(0, 0, 0));
    move_step(&mut agents, 100);
    assert_eq!(agents[0].target.pos, v(3000, 0, 4000));
    assert_eq!(agents[0].bob.offset, 77);
    assert_eq!(agents[1].position, v(5, 5, 5));
}

#[test]
fn systems_accept_no_agents() {
    let mut agents: Vec<BoidBundle> = Vec::new();
    follow_target(&mut agents);
    move_step(&mut agents, 16);
    assert!(agents.is_empty());
    assert!(bob(&agents, 1000).is_empty());
}

#[test]
fn bobbing_is_slowest_at_rest() {
    assert_eq!(bob_angle(v(0, 0, 0), 2000, 8000), 500);
    assert_eq!(bob_angle(v(100, 0, 0), 2000, 8000), 500);
}

#[test]
fn bobbing_quickens_with_speed() {
    assert_eq!(bob_angle(v(1000, 0, 0), 2000, 8000), 1800);
    assert_eq!(bob_angle(v(0, 0, -1000), -2000, 8000), 1080);
}

#[test]
fn bobbing_is_at_most_four_times_the_slowest() {
    assert_eq!(bob_angle(v(20_000, 0, 0), 2000, 8000), 2000);
    assert_eq!(bob_angle(v(1112, 0, 0), 0, 1000), 200);
}

#[test]
fn bobbing_before_the_offset_runs_backwards() {
    assert_eq!(bob_angle(v(0, 0, 0), -8000, 2000), -300);
    assert_eq!(bob_angle(v(0, 0, 0), i64::MIN, i64::MIN), -922_337_203_685_477_580);
}

#[test]
fn bob_gives_one_angle_for_each_agent() {
    let mut a = agent(v(0, 0, 0), v(0, 0, 0));
    a.bob.offset = 2000;
    a.vel.v = v(1000, 0, 0);
    let mut b = agent(v(0, 0, 0), v(0, 0, 0));
    b.bob.offset = -1000;
    let angles = bob(&vec![a, b], 8000);
    assert_eq!(angles, vec![1800, 350]);
}

#[test]
fn well_formed_agents_are_told_apart() {
    let mut a = agent(v(0, 0, 0), v(10_000, 0, 0));
    assert!(a.is_wf());
    a.vel.target_v = 20_001;
    assert!(!a.is_wf());
    a.vel.target_v = -1;
    assert!(!a.is_wf());
    a.vel.target_v = 20_000;
    assert!(a.is_wf());
    a.position = v(1_000_000_000_001, 0, 0);
    assert!(!a.is_wf());
}

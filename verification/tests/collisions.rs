use boids::boid::{
    hard_collisions, nearest_neighbour, repel, slide_along, soft_collisions, BoidBundle,
};
use boids::kinematics::Velocity;
use boids::target::Target;
use boids::terrain::{Obstacle, ObstacleBundle};
use boids::vec3::Vec3;

fn v(x: i64, y: i64, z: i64) -> Vec3 {
    Vec3::new(x, y, z)
}

fn agent(position: Vec3, velocity: Vec3, acceleration: Vec3) -> BoidBundle {
    let mut a = BoidBundle::at(Target { pos: Vec3::zero(), dir: Vec3::zero() }, 0, 0, 0);
    a.position = position;
    a.vel.v = velocity;
    a.vel.a = acceleration;
    a
}

fn steering(a: Vec3) -> Velocity {
    Velocity { v: Vec3::zero(), a, push: Vec3::zero(), target_v: 0 }
}

#[test]
fn push_is_capped_by_the_agents_own_effort() {
    let mut vel = steering(v(5000, 0, 0));
    repel(v(0, 0, 0), Some(v(1000, 0, 0)), &mut vel);
    assert_eq!(vel.a, v(4750, 0, 0));
}

#[test]
fn push_falls_off_with_distance() {
    let mut vel = steering(v(5000, 0, 0));
    repel(v(0, 0, 0), Some(v(0, 0, 100_000)), &mut vel);
    assert_eq!(vel.a, v(5000, 0, -10));
    let mut far = steering(v(5000, 0, 0));
    repel(v(0, 0, 0), Some(v(0, 0, 2_000_000)), &mut far);
    assert_eq!(far.a, v(5000, 0, 0));
}

#[test]
fn push_is_capped_by_the_largest_push() {
    let mut vel = steering(v(100_000, 0, 0));
    repel(v(0, 0, 0), Some(v(0, 100, 0)), &mut vel);
    assert_eq!(vel.a, v(100_000, -2500, 0));
}

#[test]
fn push_below_the_least_separation_is_no_stronger() {
    let mut near = steering(v(1_000_000, 0, 0));
    repel(v(0, 0, 0), Some(v(0, 0, 10)), &mut near);
    let mut nearer = steering(v(1_000_000, 0, 0));
    repel(v(0, 0, 0), Some(v(0, 0, 1)), &mut nearer);
    assert_eq!(near.a, v(1_000_000, 0, -2500));
    assert_eq!(nearer.a, v(1_000_000, 0, -2500));
}

#[test]
fn push_along_a_diagonal() {
    let mut vel = steering(v(0, 0, 4000));
    repel(v(3000, 0, 4000), Some(v(0, 0, 0)), &mut vel);
    assert_eq!(vel.a, v(120, 0, 4160));
}

#[test]
fn no_neighbour_no_push() {
    let mut vel = steering(v(5000, 0, 0));
    repel(v(0, 0, 0), None, &mut vel);
    assert_eq!(vel.a, v(5000, 0, 0));
}

#[test]
fn neighbour_at_the_same_place_gives_no_push() {
    let mut vel = steering(v(5000, 0, 0));
    repel(v(40, 50, 60), Some(v(40, 50, 60)), &mut vel);
    assert_eq!(vel.a, v(5000, 0, 0));
}

#[test]
fn agent_without_effort_is_not_pushed() {
    let mut vel = steering(v(0, 0, 0));
    repel(v(0, 0, 0), Some(v(100, 0, 0)), &mut vel);
    assert_eq!(vel.a, v(0, 0, 0));
}

#[test]
fn two_close_agents_are_pushed_apart() {
    let mut left = steering(v(0, 0, 5000));
    let mut right = steering(v(0, 0, 5000));
    repel(v(0, 0, 0), Some(v(100, 0, 0)), &mut left);
    repel(v(100, 0, 0), Some(v(0, 0, 0)), &mut right);
    assert_eq!(left.a, v(-250, 0, 5000));
    assert_eq!(right.a, v(250, 0, 5000));
}

#[test]
fn two_agents_one_step_apart_are_pushed_apart() {
    let mut left = steering(v(0, 0, 5000));
    let mut right = steering(v(0, 0, 5000));
    repel(v(0, 0, 0), Some(v(1, 0, 0)), &mut left);
    repel(v(1, 0, 0), Some(v(0, 0, 0)), &mut right);
    assert_eq!(left.a, v(-250, 0, 5000));
    assert_eq!(right.a, v(250, 0, 5000));
}

#[test]
fn nearest_neighbour_is_the_first_found() {
    let found = vec![(v(1, 0, 0), Some(4)), (v(2, 0, 0), Some(5))];
    assert_eq!(nearest_neighbour(0, &found), Some(v(1, 0, 0)));
    assert_eq!(nearest_neighbour(5, &found), Some(v(1, 0, 0)));
}

#[test]
fn nearest_neighbour_is_not_the_agent_itself() {
    let found = vec![(v(1, 0, 0), Some(4)), (v(2, 0, 0), Some(5))];
    assert_eq!(nearest_neighbour(4, &found), Some(v(2, 0, 0)));
    let twice = vec![(v(1, 0, 0), Some(4)), (v(1, 0, 0), Some(4)), (v(3, 0, 0), None)];
    assert_eq!(nearest_neighbour(4, &twice), Some(v(3, 0, 0)));
}

#[test]
fn nearest_neighbour_may_be_no_agent() {
    let found = vec![(v(9, 9, 9), None), (v(2, 0, 0), Some(5))];
    assert_eq!(nearest_neighbour(5, &found), Some(v(9, 9, 9)));
}

#[test]
fn agent_alone_has_no_neighbour() {
    assert_eq!(nearest_neighbour(0, &Vec::new()), None);
    assert_eq!(nearest_neighbour(0, &vec![(v(1, 0, 0), Some(0))]), None);
}

#[test]
fn soft_collisions_push_each_agent_from_its_own_neighbour() {
    let a = agent(v(0, 0, 0), v(0, 0, 0), v(5000, 0, 0));
    let b = agent(v(1000, 0, 0), v(0, 0, 0), v(5000, 0, 0));
    let c = agent(v(0, 0, 9000), v(0, 0, 0), v(5000, 0, 0));
    let mut agents = vec![a, b, c];
    let found = vec![
        vec![(v(0, 0, 0), Some(0)), (v(1000, 0, 0), Some(1))],
        vec![(v(1000, 0, 0), Some(1)), (v(0, 0, 0), Some(0))],
        vec![(v(0, 0, 9000), Some(2))],
    ];
    soft_collisions(&mut agents, &found);
    assert_eq!(agents[0].vel.a, v(4750, 0, 0));
    assert_eq!(agents[1].vel.a, v(5250, 0, 0));
    assert_eq!(agents[2].vel.a, v(5000, 0, 0));
    assert_eq!(agents[0].position, v(0, 0, 0));
    assert_eq!(agents[1].position, v(1000, 0, 0));
}

#[test]
fn soft_collisions_read_a_stale_index() {
    let mut agents = vec![agent(v(0, 0, 0), v(0, 0, 0), v(5000, 0, 0))];
    let found = vec![vec![(v(700, 0, 0), Some(0)), (v(-1000, 0, 0), None)]];
    soft_collisions(&mut agents, &found);
    assert_eq!(agents[0].vel.a, v(5250, 0, 0));
}

#[test]
fn soft_collisions_do_not_depend_on_the_order_of_agents() {
    let a = agent(v(0, 0, 0), v(0, 0, 0), v(5000, 0, 0));
    let b = agent(v(300, 0, 400), v(0, 0, 0), v(0, 0, -1000));
    let mut forward = vec![a, b];
    soft_collisions(
        &mut forward,
        &vec![vec![(v(300, 0, 400), Some(1))], vec![(v(0, 0, 0), Some(0))]],
    );
    let mut backward = vec![b, a];
    soft_collisions(
        &mut backward,
        &vec![vec![(v(0, 0, 0), Some(1))], vec![(v(300, 0, 400), Some(0))]],
    );
    assert_eq!(forward[0], backward[1]);
    assert_eq!(forward[1], backward[0]);
}

#[test]
fn wall_stops_an_agent_that_runs_straight_at_it() {
    let mut vel = Velocity { v: v(-3500, 0, 0), a: v(0, 0, 0), push: v(0, 0, 0), target_v: 0 };
    slide_along(v(1000, 0, 0), &mut vel);
    assert_eq!(vel.v, v(0, 0, 0));
    let mut slanted = Velocity { v: v(-3, 0, -4), a: v(0, 0, 0), push: v(0, 0, 0), target_v: 0 };
    slide_along(v(600, 0, 800), &mut slanted);
    assert_eq!(slanted.v, v(0, 0, 0));
    let mut leaving = Velocity { v: v(1501, 0, 0), a: v(0, 0, 0), push: v(0, 0, 0), target_v: 0 };
    slide_along(v(7, 0, 0), &mut leaving);
    assert_eq!(leaving.v, v(0, 0, 0));
}

#[test]
fn wall_at_an_angle_keeps_what_runs_along_it() {
    let mut vel = Velocity { v: v(-3 + 40, 7, -4 - 30), a: v(0, 0, 0), push: v(0, 0, 0), target_v: 0 };
    slide_along(v(600, 0, 800), &mut vel);
    assert_eq!(vel.v, v(40, 7, -30));
    assert_eq!(vel.v.dot(v(600, 0, 800)), 0);
}

#[test]
fn wall_stops_an_agent_that_runs_into_it() {
    let mut vel = Velocity { v: v(-3000, 0, 0), a: v(0, 0, 0), push: v(0, 0, 0), target_v: 0 };
    slide_along(v(1000, 0, 0), &mut vel);
    assert_eq!(vel.v, v(0, 0, 0));
    assert_eq!(vel.v.dot(v(1000, 0, 0)), 0);
}

#[test]
fn wall_keeps_the_velocity_along_it() {
    let mut vel = Velocity { v: v(-3000, 700, 2000), a: v(0, 0, 0), push: v(0, 0, 0), target_v: 0 };
    slide_along(v(1000, 0, 0), &mut vel);
    assert_eq!(vel.v, v(0, 700, 2000));
}

#[test]
fn wall_turns_the_acceleration_and_keeps_its_length() {
    let mut vel = Velocity { v: v(0, 0, 0), a: v(3000, 0, 4000), push: v(0, 0, 0), target_v: 0 };
    slide_along(v(1000, 0, 0), &mut vel);
    assert_eq!(vel.a, v(0, 0, 5000));
}

#[test]
fn wall_leaves_no_acceleration_where_none_runs_along_it() {
    let mut vel = Velocity { v: v(0, 0, 0), a: v(5000, 0, 0), push: v(0, 0, 0), target_v: 0 };
    slide_along(v(1000, 0, 0), &mut vel);
    assert_eq!(vel.a, v(0, 0, 0));
}

#[test]
fn wall_at_an_angle() {
    let mut vel = Velocity { v: v(1000, 0, 0), a: v(1000, 0, 0), push: v(7, 8, 9), target_v: 33 };
    slide_along(v(1000, 1000, 0), &mut vel);
    assert_eq!(vel.v, v(500, -500, 0));
    assert_eq!(vel.a, v(706, -706, 0));
    assert_eq!(vel.push, v(7, 8, 9));
    assert_eq!(vel.target_v, 33);
}

#[test]
fn wall_of_any_length_of_normal() {
    let mut short = Velocity { v: v(-3000, 0, 2000), a: v(0, 0, 0), push: v(0, 0, 0), target_v: 0 };
    slide_along(v(1, 0, 0), &mut short);
    let mut long = Velocity { v: v(-3000, 0, 2000), a: v(0, 0, 0), push: v(0, 0, 0), target_v: 0 };
    slide_along(v(-123_456, 0, 0), &mut long);
    assert_eq!(short.v, v(0, 0, 2000));
    assert_eq!(long.v, v(0, 0, 2000));
}

#[test]
fn wall_never_speeds_an_agent_up() {
    let normals = [v(1000, 0, 0), v(577, 577, 577), v(1, 2, 3), v(-600, 0, 800)];
    let vs = [v(20_000, 0, 0), v(1, 1, 1), v(-12_345, 6789, 1011), v(0, 0, 0), v(3, -2, 1)];
    for n in normals {
        for w in vs {
            let mut vel = Velocity { v: w, a: w, push: v(0, 0, 0), target_v: 0 };
            slide_along(n, &mut vel);
            assert!(vel.v.length() <= w.length());
            assert!(vel.a.length() <= w.length());
        }
    }
}

#[test]
fn agent_near_a_wall_does_not_pass_it() {
    let wall = ObstacleBundle::new(v(1000, 0, 0), v(5000, 0, 0));
    let mut agents = vec![agent(v(4800, 0, 0), v(-3000, 0, 0), v(-5000, 0, 1000))];
    hard_collisions(&mut agents, &vec![wall], &vec![vec![0]]);
    assert_eq!(agents[0].vel.v.x, 0);
    assert_eq!(agents[0].vel.v, v(0, 0, 0));
    assert_eq!(agents[0].vel.a, v(0, 0, 5100));
    assert_eq!(agents[0].position, v(4800, 0, 0));
}

#[test]
fn hard_collisions_touch_only_the_agents_found() {
    let wall = ObstacleBundle::new(v(1000, 0, 0), v(5000, 0, 0));
    let near = agent(v(4800, 0, 0), v(3000, 0, 1000), v(0, 0, 0));
    let far = agent(v(0, 0, 0), v(3000, 0, 1000), v(0, 0, 0));
    let mut agents = vec![far, near];
    hard_collisions(&mut agents, &vec![wall], &vec![vec![1]]);
    assert_eq!(agents[0], far);
    assert_eq!(agents[1].vel.v, v(0, 0, 1000));
}

#[test]
fn hard_collisions_pass_over_entities_that_are_no_agents() {
    let wall = ObstacleBundle::new(v(1000, 0, 0), v(5000, 0, 0));
    let a = agent(v(4800, 0, 0), v(3000, 0, 1000), v(0, 0, 0));
    let mut agents = vec![a];
    hard_collisions(&mut agents, &vec![wall], &vec![vec![1, 99, usize::MAX]]);
    assert_eq!(agents[0], a);
}

#[test]
fn hard_collisions_resolve_against_every_wall_in_turn() {
    let first = ObstacleBundle::new(v(1000, 0, 0), v(5000, 0, 0));
    let second = ObstacleBundle::new(v(0, 0, 1000), v(5000, 0, 200));
    let mut agents = vec![agent(v(4800, 0, 0), v(3000, 400, 1000), v(3000, 0, 4000))];
    hard_collisions(&mut agents, &vec![first, second], &vec![vec![0], vec![0]]);
    assert_eq!(agents[0].vel.v, v(0, 400, 0));
    assert_eq!(agents[0].vel.a, v(0, 0, 0));
}

#[test]
fn hard_collisions_with_nothing_found() {
    let wall = ObstacleBundle::new(v(1000, 0, 0), v(5000, 0, 0));
    let a = agent(v(4800, 0, 0), v(3000, 0, 1000), v(1, 2, 3));
    let mut agents = vec![a];
    hard_collisions(&mut agents, &vec![wall], &vec![vec![]]);
    assert_eq!(agents[0], a);
    let none: Vec<ObstacleBundle> = Vec::new();
    hard_collisions(&mut agents, &none, &Vec::new());
    assert_eq!(agents[0], a);
}

#[test]
fn wall_is_the_last_word_after_the_push() {
    let wall = ObstacleBundle::new(v(1000, 0, 0), v(5000, 0, 0));
    let mut agents = vec![agent(v(4800, 0, 0), v(0, 0, 0), v(0, 0, 5000))];
    soft_collisions(&mut agents, &vec![vec![(v(4700, 0, 0), None)]]);
    assert_eq!(agents[0].vel.a, v(250, 0, 5000));
    hard_collisions(&mut agents, &vec![wall], &vec![vec![0]]);
    assert_eq!(agents[0].vel.a.x, 0);
    assert_eq!(agents[0].vel.a, v(0, 0, 5007));
}

#[test]
fn obstacles_are_told_apart() {
    assert!(Obstacle { normal: v(1000, 0, 0) }.is_wf());
    assert!(Obstacle { normal: v(0, -1, 0) }.is_wf());
    assert!(!Obstacle { normal: v(0, 0, 0) }.is_wf());
    assert!(!Obstacle { normal: v(1_000_000_000_001, 0, 0) }.is_wf());
    let wall = ObstacleBundle::new(v(1000, 0, 0), v(5000, 1000, -3));
    assert_eq!(wall.obstacle.normal, v(1000, 0, 0));
    assert_eq!(wall.position, v(5000, 1000, -3));
}

use socha::cube_dir::CubeDir;
use socha::cube_vec::CubeVec;

#[test]
fn test_turn_counts() {
    assert_eq!(CubeDir::Right.turn_count_to(CubeDir::Right), 0);
    assert_eq!(CubeDir::Right.turn_count_to(CubeDir::DownRight), 1);
    assert_eq!(CubeDir::Right.turn_count_to(CubeDir::DownLeft), 2);
    assert_eq!(CubeDir::Right.turn_count_to(CubeDir::Left), -3);
    assert_eq!(CubeDir::Right.turn_count_to(CubeDir::UpLeft), -2);
    assert_eq!(CubeDir::Right.turn_count_to(CubeDir::UpRight), -1);

    assert_eq!(CubeDir::DownRight.turn_count_to(CubeDir::Right), -1);
    assert_eq!(CubeDir::DownRight.turn_count_to(CubeDir::DownRight), 0);
    assert_eq!(CubeDir::DownRight.turn_count_to(CubeDir::DownLeft), 1);
    assert_eq!(CubeDir::DownRight.turn_count_to(CubeDir::Left), 2);
    assert_eq!(CubeDir::DownRight.turn_count_to(CubeDir::UpLeft), -3);
    assert_eq!(CubeDir::DownRight.turn_count_to(CubeDir::UpRight), -2);
}

#[test]
fn turn_counts_stay_in_range() {
    for a in CubeDir::all() {
        assert_eq!(a.turn_count_to(a), 0);
        for b in CubeDir::all() {
            let t = a.turn_count_to(b);
            assert!((-3..3).contains(&t));
        }
    }
}

#[test]
fn opposite_direction_is_three_left_turns() {
    let all = CubeDir::all();
    for i in 0..6 {
        assert_eq!(all[i].turn_count_to(all[(i + 3) % 6]), -3);
    }
}

#[test]
fn ordinals_follow_clockwise_order() {
    let all = CubeDir::all();
    for (i, d) in all.iter().enumerate() {
        assert_eq!(d.turns(), i as i32);
    }
    assert_eq!(CubeDir::default(), CubeDir::Right);
}

#[test]
fn rotation_round_trips() {
    let v = CubeVec::new(2, -5, 3);
    for n in -7..8 {
        assert_eq!(v.rotated_by(n).rotated_by(-n), v);
        let w = v.rotated_by(n);
        assert_eq!(w.r() + w.q() + w.s(), 0);
    }
    assert_eq!(v.rotated_by(6), v);
}

#[test]
fn rotation_values() {
    let v = CubeVec::new(1, 2, -3);
    assert_eq!(v.rotated_by(0), CubeVec::new(1, 2, -3));
    assert_eq!(v.rotated_by(1), CubeVec::new(-2, 3, -1));
    assert_eq!(v.rotated_by(2), CubeVec::new(-3, 1, 2));
    assert_eq!(v.rotated_by(3), CubeVec::new(-1, -2, 3));
    assert_eq!(v.rotated_by(-1), CubeVec::new(3, -1, -2));
    assert_eq!(CubeVec::from_dir(CubeDir::Right).rotated_by(1), CubeVec::from_dir(CubeDir::DownRight));
}

#[test]
fn zero_neighbors_are_unit_vectors() {
    let n = CubeVec::zero().hex_neighbors();
    let all = CubeDir::all();
    for i in 0..6 {
        assert_eq!(n[i], CubeVec::from_dir(all[i]));
    }
    assert_eq!(n[0], CubeVec::new(1, 0, -1));
    assert_eq!(n[3], CubeVec::new(-1, 0, 1));
}

#[test]
fn neighbors_of_a_position() {
    let n = CubeVec::new(2, -1, -1).hex_neighbors();
    assert_eq!(n[1], CubeVec::new(2, 0, -2));
    assert_eq!(n[5], CubeVec::new(3, -2, -1));
}

#[test]
fn components_and_constructors() {
    let v = CubeVec::rq(3, -5);
    assert_eq!((v.r(), v.q(), v.s()), (3, -5, 2));
    assert_eq!(v.components(), [3, -5, 2]);
    assert_eq!(CubeVec::default(), CubeVec::new(0, 0, 0));
    assert_eq!(v.squared_length(), 38);
}

#[test]
fn arithmetic() {
    let a = CubeVec::new(1, 2, -3);
    let b = CubeVec::new(-4, 1, 3);
    assert_eq!(a.plus(b), CubeVec::new(-3, 3, 0));
    assert_eq!(a.minus(b), CubeVec::new(5, 1, -6));
    assert_eq!(a.times(3), CubeVec::new(3, 6, -9));
    assert_eq!(CubeVec::new(-6, 4, 2).div_by(2), CubeVec::new(-3, 2, 1));
    assert_eq!(a.negated(), CubeVec::new(-1, -2, 3));
    assert_eq!(a.plus_dir(CubeDir::Left), CubeVec::new(0, 2, -2));
    assert_eq!(a.minus_dir(CubeDir::Left), CubeVec::new(2, 2, -4));
    let mut c = a;
    c.plus_assign(b);
    c.minus_dir_assign(CubeDir::UpLeft);
    c.times_assign(2);
    c.div_by_assign(2);
    c.minus_assign(b);
    c.plus_dir_assign(CubeDir::UpLeft);
    assert_eq!(c, a);
}

#[test]
fn offset_coordinates_to_cube() {
    let v = CubeVec::from_offset(1, 2);
    assert_eq!(v, CubeVec::new(0, 0, 0));
    let w = CubeVec::from_offset(3, 0);
    assert_eq!(w, CubeVec::new(-2, 4, -2));
    let u = CubeVec::from_offset(0, 5);
    assert_eq!(u, CubeVec::new(3, -1, -2));
}

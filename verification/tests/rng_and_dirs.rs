use alife::coord::shift;
use alife::rng::PPM;
use alife::{sample_direction, Coord, Dir, Rng};

const ALL_DIRS: [Dir; 9] = [
    Dir::North,
    Dir::NorthEast,
    Dir::East,
    Dir::SouthEast,
    Dir::South,
    Dir::SouthWest,
    Dir::West,
    Dir::NorthWest,
    Dir::Here,
];

#[test]
fn rng_first_outputs_from_seed_zero() {
    let mut rng = Rng::new(0);
    assert_eq!(rng.next_u64(), 0xE220_A839_7B1D_CDAF);
    assert_eq!(rng.next_u64(), 0x6E78_9E6A_A1B9_65F4);
    assert_eq!(rng.next_u64(), 0x06C4_5D18_8009_454F);
}

#[test]
fn rng_first_outputs_from_another_seed() {
    let mut rng = Rng::new(1234567);
    assert_eq!(rng.next_u64(), 6457827717110365317);
    assert_eq!(rng.next_u64(), 3203168211198807973);
    assert_eq!(rng.next_u64(), 9817491932198370423);
}

#[test]
fn rng_state_grows_by_gamma() {
    let mut rng = Rng::new(5);
    rng.next_u64();
    assert_eq!(rng.state, 5u64.wrapping_add(0x9E37_79B9_7F4A_7C15));
    let mut wrapped = Rng::new(u64::MAX);
    wrapped.next_u64();
    assert_eq!(wrapped.state, 0x9E37_79B9_7F4A_7C14);
}

#[test]
fn rng_same_seed_same_sequence() {
    let mut a = Rng::new(99);
    let mut b = Rng::new(99);
    for _ in 0..100 {
        assert_eq!(a.next_u64(), b.next_u64());
    }
}

#[test]
fn rng_below_is_remainder_of_output() {
    let mut rng = Rng::new(0);
    assert_eq!(rng.below(9), 7);
    assert_eq!(rng.below(9), 0);
    assert_eq!(rng.below(9), 1);
    let mut one = Rng::new(77);
    for _ in 0..20 {
        assert_eq!(one.below(1), 0);
    }
    let mut many = Rng::new(3);
    for _ in 0..1000 {
        assert!(many.below(17) < 17);
    }
}

#[test]
fn rng_chance_compares_roll_with_probability() {
    // The first roll from seed 0 is 607535 parts per million.
    assert!(!Rng::new(0).chance(607_535));
    assert!(Rng::new(0).chance(607_536));
    // The first roll from seed 42 is 275413.
    assert!(!Rng::new(42).chance(275_413));
    assert!(Rng::new(42).chance(275_414));
}

#[test]
fn rng_chance_zero_never_and_one_always() {
    let mut rng = Rng::new(2024);
    for _ in 0..1000 {
        assert!(!rng.chance(0));
        assert!(rng.chance(PPM));
        assert!(rng.chance(u32::MAX));
    }
}

#[test]
fn rng_chance_advances_state_once() {
    let mut a = Rng::new(8);
    let mut b = Rng::new(8);
    a.chance(0);
    b.next_u64();
    assert_eq!(a, b);
}

#[test]
fn dir_deltas() {
    assert_eq!(Dir::North.delta(), Coord::new(0, 1));
    assert_eq!(Dir::NorthEast.delta(), Coord::new(1, 1));
    assert_eq!(Dir::East.delta(), Coord::new(1, 0));
    assert_eq!(Dir::SouthEast.delta(), Coord::new(1, -1));
    assert_eq!(Dir::South.delta(), Coord::new(0, -1));
    assert_eq!(Dir::SouthWest.delta(), Coord::new(-1, -1));
    assert_eq!(Dir::West.delta(), Coord::new(-1, 0));
    assert_eq!(Dir::NorthWest.delta(), Coord::new(-1, 1));
    assert_eq!(Dir::Here.delta(), Coord::new(0, 0));
}

#[test]
fn dir_deltas_are_distinct_units() {
    for (i, a) in ALL_DIRS.iter().enumerate() {
        let d = a.delta();
        assert!(-1 <= d.x && d.x <= 1 && -1 <= d.y && d.y <= 1);
        for (j, b) in ALL_DIRS.iter().enumerate() {
            if i != j {
                assert_ne!(a.delta(), b.delta());
            }
        }
    }
}

#[test]
fn dir_from_delta_inverts_delta() {
    for d in ALL_DIRS.iter() {
        assert_eq!(Dir::from_delta(d.delta()), Some(*d));
    }
    assert_eq!(Dir::from_delta(Coord::new(2, 0)), None);
    assert_eq!(Dir::from_delta(Coord::new(0, -2)), None);
    assert_eq!(Dir::from_delta(Coord::new(-128, 127)), None);
}

#[test]
fn dir_index_round_trip() {
    for (i, d) in ALL_DIRS.iter().enumerate() {
        assert_eq!(d.index() as usize, i);
        assert_eq!(Dir::from_index(i as u64), *d);
        assert_eq!(Dir::from_index(i as u64 + 9), *d);
    }
    assert_eq!(Dir::from_index(u64::MAX), Dir::from_index(u64::MAX % 9));
}

#[test]
fn sample_direction_follows_the_generator() {
    let mut rng = Rng::new(0);
    assert_eq!(sample_direction(&mut rng), Dir::NorthWest);
    assert_eq!(sample_direction(&mut rng), Dir::North);
    assert_eq!(sample_direction(&mut rng), Dir::NorthEast);
}

#[test]
fn sample_direction_reaches_every_direction() {
    let mut rng = Rng::new(11);
    let mut seen = [false; 9];
    for _ in 0..1000 {
        seen[sample_direction(&mut rng).index() as usize] = true;
    }
    assert!(seen.iter().all(|s| *s));
}

#[test]
fn shift_adds_small_signed_numbers() {
    assert_eq!(shift(5, 1), Some(6));
    assert_eq!(shift(5, -1), Some(4));
    assert_eq!(shift(5, 0), Some(5));
    assert_eq!(shift(0, -1), None);
    assert_eq!(shift(200, -128), Some(72));
    assert_eq!(shift(127, -128), None);
    assert_eq!(shift(usize::MAX, 1), None);
    assert_eq!(shift(usize::MAX - 127, 127), Some(usize::MAX));
}

#[test]
fn coord_step_inside_the_grid() {
    let c: Coord<usize> = Coord::new(5, 5);
    assert_eq!(c.step(Dir::North.delta(), 10, 10), Some(Coord::new(5, 6)));
    assert_eq!(c.step(Dir::SouthWest.delta(), 10, 10), Some(Coord::new(4, 4)));
    assert_eq!(c.step(Dir::Here.delta(), 10, 10), Some(Coord::new(5, 5)));
}

#[test]
fn coord_step_off_the_grid() {
    let corner: Coord<usize> = Coord::new(0, 0);
    assert_eq!(corner.step(Dir::South.delta(), 10, 10), None);
    assert_eq!(corner.step(Dir::West.delta(), 10, 10), None);
    assert_eq!(corner.step(Dir::NorthEast.delta(), 10, 10), Some(Coord::new(1, 1)));
    let far: Coord<usize> = Coord::new(9, 9);
    assert_eq!(far.step(Dir::North.delta(), 10, 10), None);
    assert_eq!(far.step(Dir::East.delta(), 10, 10), None);
    assert_eq!(far.step(Dir::East.delta(), 11, 10), Some(Coord::new(10, 9)));
    assert_eq!(far.step(Dir::Here.delta(), 5, 5), None);
    assert_eq!(corner.step(Dir::Here.delta(), 0, 0), None);
}

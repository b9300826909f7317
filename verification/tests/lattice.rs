use schmising::MagnetizedMaterial;
use schmising::Spin;
use schmising::HALF_Q32;
use schmising::MICRO;

#[test]
fn test_new_halfhalf() {
    let mat = MagnetizedMaterial::new_halfhalf(4, 4, MICRO).unwrap();
    for r in 0..4 {
        for c in 0..2 {
            assert_eq!(mat.cells[r][c], Spin::Up);
        }
        for c in 2..4 {
            assert_eq!(mat.cells[r][c], Spin::Down);
        }
    }
}

#[test]
fn test_get_cell() {
    let mat = MagnetizedMaterial::new_halfhalf(4, 4, MICRO).unwrap();
    assert_eq!(mat.get_cell(0, 0), Spin::Up);
    assert_eq!(mat.get_cell(0, 3), Spin::Down);
    assert_eq!(mat.get_cell(-1, 0), Spin::OOB);
    assert_eq!(mat.get_cell(0, 4), Spin::OOB);
}

#[test]
fn test_up_likelihood() {
    let mat = MagnetizedMaterial::new_halfhalf(4, 4, MICRO).unwrap();
    println!("up_likelihood(0, 0) = {}", mat.up_likelihood(0, 0));
    assert!(mat.up_likelihood(0, 0) > HALF_Q32); // should be high because all neighbors are up
}

#[test]
fn odd_width_splits_below_midpoint() {
    // width 5: midpoint 2, so columns 0 and 1 are Up, 2..5 are Down
    let mat = MagnetizedMaterial::new_halfhalf(5, 3, MICRO).unwrap();
    for r in 0..3 {
        for c in 0..2 {
            assert_eq!(mat.get_cell(r, c), Spin::Up);
        }
        for c in 2..5 {
            assert_eq!(mat.get_cell(r, c), Spin::Down);
        }
    }
}

#[test]
fn construction_rejects_degenerate_parameters() {
    assert!(MagnetizedMaterial::new_halfhalf(0, 4, MICRO).is_none());
    assert!(MagnetizedMaterial::new_halfhalf(4, 0, MICRO).is_none());
    assert!(MagnetizedMaterial::new_halfhalf(4, 4, 0).is_none());
    assert!(MagnetizedMaterial::new_halfhalf(1, 1, 1).is_some());
}

#[test]
fn query_is_idempotent_without_updates() {
    let mat = MagnetizedMaterial::new_halfhalf(6, 4, MICRO).unwrap();
    for r in -1..5 {
        for c in -1..7 {
            let first = mat.get_cell(r, c);
            let second = mat.get_cell(r, c);
            assert_eq!(first, second);
        }
    }
}

#[test]
fn set_temperature_clamps_zero() {
    let mut mat = MagnetizedMaterial::new_halfhalf(4, 4, MICRO).unwrap();
    mat.set_temperature_micro(250_000);
    assert_eq!(mat.temperature_micro, 250_000);
    mat.set_temperature_micro(0);
    assert_eq!(mat.temperature_micro, 1);
}

#[test]
fn apply_spin_reports_actual_change() {
    let mut mat = MagnetizedMaterial::new_halfhalf(4, 4, MICRO).unwrap();
    // (0, 0) starts Up: forcing Down flips it, forcing Down again does not
    assert!(mat.apply_spin(0, 0, false));
    assert_eq!(mat.get_cell(0, 0), Spin::Down);
    assert!(!mat.apply_spin(0, 0, false));
    assert!(mat.apply_spin(0, 0, true));
    assert_eq!(mat.get_cell(0, 0), Spin::Up);
    assert!(!mat.apply_spin(0, 0, true));
}

#[test]
fn apply_spin_touches_only_its_site() {
    let mut mat = MagnetizedMaterial::new_halfhalf(5, 5, MICRO).unwrap();
    let before = mat.cells.clone();
    mat.apply_spin(2, 1, false);
    for r in 0..5 {
        for c in 0..5 {
            if (r, c) != (2, 1) {
                assert_eq!(mat.cells[r][c], before[r][c]);
            }
        }
    }
    assert_eq!(mat.cells[2][1], Spin::Down);
}

#[test]
fn step_mutates_at_most_one_cell_and_reports_it() {
    let mut mat = MagnetizedMaterial::new_halfhalf(8, 8, MICRO).unwrap();
    for _ in 0..200 {
        let before = mat.cells.clone();
        let flipped = mat.step();
        let mut diffs = 0;
        for r in 0..8 {
            for c in 0..8 {
                if mat.cells[r][c] != before[r][c] {
                    diffs += 1;
                }
            }
        }
        assert!(diffs <= 1);
        assert_eq!(flipped, diffs == 1);
    }
}

#[test]
fn frozen_uniform_lattice_never_flips() {
    // At the minimal temperature the clamped flip probability of a site
    // whose in-bounds neighbors are all Up is exactly one, so every update
    // of an all-Up lattice must rewrite Up: no flip can ever be reported.
    let mut mat = MagnetizedMaterial::new_halfhalf(4, 4, MICRO).unwrap();
    for r in 0..4 {
        for c in 0..4 {
            mat.apply_spin(r, c, true);
        }
    }
    mat.set_temperature_micro(1);
    for _ in 0..500 {
        assert!(!mat.step());
    }
    for r in 0..4 {
        for c in 0..4 {
            assert_eq!(mat.get_cell(r, c), Spin::Up);
        }
    }
}

#[test]
fn step_works_on_a_single_cell() {
    // no in-bounds neighbors at all: every update is a fair redraw of the
    // one cell, and the report still matches the actual change
    let mut mat = MagnetizedMaterial::new_halfhalf(1, 1, MICRO).unwrap();
    for _ in 0..50 {
        let before = mat.get_cell(0, 0);
        let flipped = mat.step();
        let after = mat.get_cell(0, 0);
        assert!(after == Spin::Up || after == Spin::Down);
        assert_eq!(flipped, before != after);
    }
}

#[test]
fn cold_lattice_keeps_its_domains() {
    // Low temperature: majority-following updates keep the regions far
    // from the Up/Down interface overwhelmingly in their original state.
    let mut mat = MagnetizedMaterial::new_halfhalf(32, 32, MICRO / 10).unwrap();
    for _ in 0..100_000 {
        mat.step();
    }
    let mut left_up = 0;
    let mut right_down = 0;
    for r in 0..32 {
        for c in 0..8 {
            if mat.cells[r][c] == Spin::Up {
                left_up += 1;
            }
        }
        for c in 24..32 {
            if mat.cells[r][c] == Spin::Down {
                right_down += 1;
            }
        }
    }
    // 256 cells on each side; demand at least 95% stability
    assert!(left_up >= 244, "left region decayed: {left_up}/256");
    assert!(right_down >= 244, "right region decayed: {right_down}/256");
}

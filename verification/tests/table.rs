use tiersolve::build;
use tiersolve::fixed::activation;
use tiersolve::fixed::exp2_fx;
use tiersolve::FX_MAX;
use tiersolve::SCALE;

#[test]
fn build_excludes_the_diagonal() {
    let t = build(
        None,
        vec!["a".to_string(), "b".to_string(), "c".to_string()],
        vec![
            vec![999, 600, 500],
            vec![400, 999, 700],
            vec![500, 300, 999],
        ],
    );
    for i in 0..3 {
        assert_eq!(t.rates[i][i], None);
    }
    assert_eq!(t.rates[0][1], Some(600));
    assert_eq!(t.rates[1][2], Some(700));
    assert_eq!(t.rates[2][0], Some(500));
}

#[test]
fn build_leaves_missing_pairings_absent() {
    let t = build(
        None,
        vec!["a".to_string(), "b".to_string(), "c".to_string()],
        vec![vec![0, 600], vec![400]],
    );
    assert_eq!(t.rates.len(), 3);
    for row in &t.rates {
        assert_eq!(row.len(), 3);
    }
    assert_eq!(t.rates[0][1], Some(600));
    assert_eq!(t.rates[0][2], None);
    assert_eq!(t.rates[1][0], Some(400));
    assert_eq!(t.rates[1][2], None);
    assert_eq!(t.rates[2][0], None);
    assert_eq!(t.rates[2][1], None);
}

#[test]
fn build_keeps_label_and_entities() {
    let t = build(
        Some("season one".to_string()),
        vec!["a".to_string(), "b".to_string()],
        vec![vec![0, 550], vec![450, 0]],
    );
    assert_eq!(t.label, Some("season one".to_string()));
    assert_eq!(t.entities, vec!["a".to_string(), "b".to_string()]);
    assert_eq!(t.entity_count(), 2);
    assert_eq!(t.entity(0), "a");
    assert_eq!(t.entity(1), "b");
    assert_eq!(t.rate(0, 1), Some(550));
    assert_eq!(t.rate(1, 0), Some(450));
    assert_eq!(t.rate(0, 0), None);
    assert_eq!(t.index_of(&"b".to_string()), Some(1));
    assert_eq!(t.index_of(&"z".to_string()), None);
}

#[test]
fn activation_stays_strictly_between_zero_and_cap() {
    let caps: [i128; 4] = [2, 1000, SCALE, 30 * SCALE];
    let xs: [i128; 7] = [-FX_MAX, -5 * SCALE, -SCALE, 0, SCALE / 2, 37 * SCALE, FX_MAX];
    for &cap in caps.iter() {
        for &x in xs.iter() {
            let a = activation(cap, x);
            assert!(0 < a);
            assert!(a < cap);
        }
    }
}

#[test]
fn activation_midpoint_for_unit_cap() {
    assert_eq!(activation(SCALE, 0), SCALE / 2);
    assert_eq!(activation(SCALE, 0), 536870912);
}

#[test]
fn activation_at_zero_for_cap_thirty() {
    let a = activation(30 * SCALE, 0);
    assert_eq!(a, 1039104990);
    assert_ne!(a, 15 * SCALE);
}

#[test]
fn exp2_is_exact_at_integer_exponents() {
    assert_eq!(exp2_fx(0), SCALE);
    assert_eq!(exp2_fx(SCALE), 2 * SCALE);
    assert_eq!(exp2_fx(-SCALE), SCALE / 2);
    assert_eq!(exp2_fx(SCALE / 2), 1610612736);
    assert_eq!(exp2_fx(FX_MAX), FX_MAX);
    assert_eq!(exp2_fx(-FX_MAX), 0);
}

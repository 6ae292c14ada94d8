use flame::chaos::{
    choose_action, downsampled_size, num_actions, past_burn_in, rotation_order, supersampled_size,
};
use flame::{Action, RunConfig, Variation, VariationDiscriminant, BURN_IN, VARIATION_COUNT};

fn all_kinds() -> Vec<VariationDiscriminant> {
    (0..VARIATION_COUNT).map(|i| VariationDiscriminant::from_index(i).unwrap()).collect()
}

#[test]
fn catalogue_has_every_kind_once() {
    let kinds = all_kinds();
    assert_eq!(kinds.len(), 25);
    for (i, a) in kinds.iter().enumerate() {
        for b in &kinds[i + 1..] {
            assert_ne!(a, b);
        }
    }
    assert_eq!(VariationDiscriminant::from_index(VARIATION_COUNT), None);
}

#[test]
fn build_needs_exactly_the_declared_parameters() {
    let stream: Vec<f32> = vec![0.5, 1.5, 2.5, 3.5, 4.5, 5.5];
    for d in all_kinds() {
        let n = d.num_parameters();
        for len in 0..stream.len() {
            let built = Variation::build(d, &stream[..len]);
            assert_eq!(built.is_some(), len == n, "{:?} with {} parameters", d, len);
            if let Some(v) = built {
                assert_eq!(v.discriminant(), d);
                assert_eq!(v.parameters(), stream[..len].to_vec());
            }
        }
    }
}

#[test]
fn build_arities() {
    assert_eq!(VariationDiscriminant::Id.num_parameters(), 0);
    assert_eq!(VariationDiscriminant::Swirl.num_parameters(), 0);
    assert_eq!(VariationDiscriminant::Blob.num_parameters(), 3);
    assert_eq!(VariationDiscriminant::PDJ.num_parameters(), 4);
    assert_eq!(
        Variation::build(VariationDiscriminant::Blob, &[1.0f32, 0.5, 6.0]),
        Some(Variation::Blob(1.0, 0.5, 6.0))
    );
    assert_eq!(
        Variation::build(VariationDiscriminant::PDJ, &[1.0f32, 2.0, 3.0, 4.0]),
        Some(Variation::PDJ(1.0, 2.0, 3.0, 4.0))
    );
    assert_eq!(Variation::build(VariationDiscriminant::PDJ, &[1.0f32, 2.0, 3.0]), None);
    assert_eq!(Variation::build(VariationDiscriminant::Id, &[1.0f32]), None);
    assert_eq!(Variation::<f32>::build(VariationDiscriminant::Id, &[]), Some(Variation::Id));
}

#[test]
fn build_round_trips() {
    let vs: Vec<Variation<f32>> =
        vec![Variation::Id, Variation::Ex, Variation::Blob(1.0, 2.0, 3.0), Variation::PDJ(4.0, 3.0, 2.0, 1.0)];
    for v in vs {
        assert_eq!(Variation::build(v.discriminant(), &v.parameters()), Some(v));
    }
}

#[test]
fn actions_per_symmetry() {
    assert_eq!(num_actions(0), 1);
    assert_eq!(num_actions(1), 1);
    assert_eq!(num_actions(4), 2);
    assert_eq!(num_actions(-1), 2);
    assert_eq!(num_actions(-3), 3);
    assert_eq!(num_actions(i8::MIN), 3);
    assert_eq!(choose_action(1, 0), Action::Step);
    assert_eq!(choose_action(4, 1), Action::Rotate);
    assert_eq!(choose_action(-1, 1), Action::Reflect);
    assert_eq!(choose_action(-3, 0), Action::Step);
    assert_eq!(choose_action(-3, 1), Action::Rotate);
    assert_eq!(choose_action(-3, 2), Action::Reflect);
}

#[test]
fn reflection_frequency_for_negative_three() {
    // A small linear congruential generator stands in for the worker's random source.
    let mut state: u64 = 0x2545_f491_4f6c_dd1d;
    let n = num_actions(-3) as u64;
    let rounds = 300_000;
    let mut reflections = 0u64;
    for _ in 0..rounds {
        state = state.wrapping_mul(6364136223846793005).wrapping_add(1442695040888963407);
        let draw = ((state >> 33) % n) as u8;
        if choose_action(-3, draw) == Action::Reflect {
            reflections += 1;
        }
    }
    let share = reflections as f64 / rounds as f64;
    assert!((share - 1.0 / 3.0).abs() < 0.01, "share {}", share);
}

#[test]
fn rotation_orders() {
    assert_eq!(rotation_order(5), 5);
    assert_eq!(rotation_order(-3), 3);
    assert_eq!(rotation_order(i8::MIN), 128);
    assert_eq!(rotation_order(0), 0);
}

#[test]
fn burn_in_skips_the_first_iterations() {
    assert_eq!(BURN_IN, 20);
    assert!(!past_burn_in(0));
    assert!(!past_burn_in(19));
    assert!(past_burn_in(20));
    assert_eq!((0..100).filter(|&i| past_burn_in(i)).count(), 80);
}

#[test]
fn worker_shares() {
    let one = RunConfig { width: 10, height: 10, iters: 1003, threads: 1 };
    assert_eq!(one.worker_iters(), 1003);
    for threads in 1..=16usize {
        let cfg = RunConfig { threads, ..one };
        let total = cfg.worker_iters() * threads;
        assert!(total <= 1003);
        assert!(1003 - total <= threads - 1);
    }
    let cfg = RunConfig { threads: 4, ..one };
    assert_eq!(cfg.worker_iters(), 250);
}

#[test]
fn supersample_sizes() {
    assert_eq!(supersampled_size(10, 0), Some(10));
    assert_eq!(supersampled_size(10, 1), Some(32));
    assert_eq!(supersampled_size(500, 2), Some(2504));
    assert_eq!(supersampled_size(usize::MAX / 2, 1), None);
    assert_eq!(supersampled_size(1, usize::MAX / 2), None);
    assert_eq!(downsampled_size(32, 1), 10);
    assert_eq!(downsampled_size(2504, 2), 500);
    for s in 0..4 {
        for n in 1..50 {
            assert_eq!(downsampled_size(supersampled_size(n, s).unwrap(), s), n);
        }
    }
}

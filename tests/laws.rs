use rats::augmenters::{
    fitting_window, splice, warp_window, AugmentationPipeline, Augmenter, Crop, FrequencyMask,
    Permutate, Repeat, Resize, Reverse,
};
use rats::quality_benchmarking::dtw::{backtrack, choose_step, DynamicTimeWarpAugmenter, Step};
use rats::{AugmentError, Dataset, Operation, Probability};

fn ramp(n: usize) -> Vec<f64> {
    (0..n).map(|i| i as f64).collect()
}

#[test]
fn reverse_twice_gives_back_the_series() {
    let x = vec![3.5, -1.0, 2.0, 8.25, 0.0];
    let aug = Reverse::new();
    let once = aug.augment_one(&x).unwrap();
    let twice = aug.augment_one(&once).unwrap();
    assert_eq!(once, vec![0.0, 8.25, 2.0, -1.0, 3.5]);
    assert_eq!(twice, x);
}

#[test]
fn reverse_keeps_an_empty_series() {
    let x: Vec<f64> = Vec::new();
    assert_eq!(Reverse::new().augment_one(&x).unwrap(), x);
}

#[test]
fn crop_of_a_constant_series() {
    let x = vec![1.0; 100];
    let r = Crop::new(20).augment_one(&x).unwrap();
    assert_eq!(r, vec![1.0; 20]);
}

#[test]
fn crop_takes_consecutive_values() {
    let x = ramp(100);
    for _ in 0..20 {
        let r = Crop::new(20).augment_one(&x).unwrap();
        assert_eq!(r.len(), 20);
        let start = r[0] as usize;
        assert!(start <= 80);
        assert_eq!(r, x[start..start + 20].to_vec());
    }
}

#[test]
fn crop_at_gives_the_window() {
    let x = ramp(10);
    assert_eq!(Crop::new(3).crop_at(&x, 4), vec![4.0, 5.0, 6.0]);
    assert_eq!(Crop::new(30).crop_at(&x, 0), x);
}

#[test]
fn crop_refuses_a_probability() {
    let mut crop = Crop::new(3);
    let r = Augmenter::<f64>::set_probability(&mut crop, Probability::new(1, 2).unwrap());
    assert!(matches!(
        r,
        Err(AugmentError::Unsupported { operation: Operation::SetProbability, .. })
    ));
}

#[test]
fn frequency_mask_zeroes_four_bins() {
    let x: Vec<f64> = (1..=32).map(|i| i as f64).collect();
    let r = FrequencyMask::new(4).augment_one(&x).unwrap();
    assert_eq!(r.len(), 32);
    let zeroed: Vec<usize> = (0..16).filter(|&b| r[2 * b] == 0.0 && r[2 * b + 1] == 0.0).collect();
    assert_eq!(zeroed.len(), 4);
    assert_eq!(zeroed[3] - zeroed[0], 3);
    for i in 0..32 {
        if !zeroed.contains(&(i / 2)) {
            assert_eq!(r[i], x[i]);
        }
    }
}

#[test]
fn frequency_mask_too_wide_leaves_the_spectrum() {
    let x: Vec<f64> = (1..=32).map(|i| i as f64).collect();
    assert_eq!(FrequencyMask::new(20).augment_one(&x).unwrap(), x);
    assert_eq!(FrequencyMask::new(16).augment_one(&x).unwrap(), x);
}

#[test]
fn frequency_mask_bins_exact() {
    let x = vec![1.0; 8];
    let r = FrequencyMask::mask_bins(&x, 1, 2, 0.0);
    assert_eq!(r, vec![1.0, 1.0, 0.0, 0.0, 0.0, 0.0, 1.0, 1.0]);
}

#[test]
fn repeat_one_row_twice() {
    let mut set = Dataset { features: vec![vec![1.0, 2.0]], labels: vec![String::from("x")] };
    Repeat::new(2).augment_batch(&mut set, false).unwrap();
    assert_eq!(set.features, vec![vec![1.0, 2.0], vec![1.0, 2.0]]);
    assert_eq!(set.labels, vec![String::from("x"), String::from("x")]);
}

#[test]
fn repeat_keeps_labels_with_rows() {
    let mut set = Dataset {
        features: vec![vec![1.0], vec![2.0]],
        labels: vec![String::from("a"), String::from("b")],
    };
    Repeat::new(3).augment_batch(&mut set, false).unwrap();
    assert_eq!(set.features.len(), 6);
    for i in 0..6 {
        let expected = if i % 2 == 0 { (1.0, "a") } else { (2.0, "b") };
        assert_eq!(set.features[i], vec![expected.0]);
        assert_eq!(set.labels[i], expected.1);
    }
}

#[test]
fn repeat_refuses_a_single_series() {
    let r = Augmenter::<f64>::augment_one(&Repeat::new(2), &[1.0, 2.0]);
    assert!(matches!(r, Err(AugmentError::Unsupported { operation: Operation::AugmentOne, .. })));
}

#[test]
fn resize_of_an_empty_series_is_refused() {
    let x: Vec<f64> = Vec::new();
    let r = Resize::new(3).augment_one(&x);
    assert!(matches!(r, Err(AugmentError::SeriesTooShort { .. })));
    assert_eq!(Resize::new(0).augment_one(&x).unwrap(), x);
}

#[test]
fn permutate_keeps_windows_and_values() {
    let x = ramp(10);
    let r = Permutate::new(4, 1).augment_one(&x).unwrap();
    assert_eq!(r.len(), 10);
    for w in 0..3 {
        let lo = 4 * w;
        let hi = (lo + 4).min(10);
        let mut part = r[lo..hi].to_vec();
        part.sort_by(|a, b| a.partial_cmp(b).unwrap());
        assert_eq!(part, x[lo..hi].to_vec());
    }
}

#[test]
fn permutate_with_empty_segments_is_refused() {
    let r = Permutate::new(0, 2).augment_one(&[1.0, 2.0]);
    assert!(matches!(r, Err(AugmentError::InvalidParameters { .. })));
}

#[test]
fn probability_out_of_range_is_refused() {
    assert!(matches!(Probability::new(3, 2), Err(AugmentError::InvalidProbability)));
    assert!(matches!(Probability::new(1, 0), Err(AugmentError::InvalidProbability)));
    let p = Probability::new(2, 3).unwrap();
    assert_eq!((p.numerator(), p.denominator()), (2, 3));
}

#[test]
fn probability_draws_at_the_ends() {
    let never = Probability::new(0, 5).unwrap();
    let always = Probability::always();
    for _ in 0..100 {
        assert!(!never.draw());
        assert!(always.draw());
    }
}

#[test]
fn zero_probability_leaves_the_batch() {
    let mut aug = Reverse::new();
    Augmenter::<f64>::set_probability(&mut aug, Probability::new(0, 1).unwrap()).unwrap();
    let mut set = Dataset { features: vec![vec![1.0, 2.0, 3.0]; 10], labels: vec![String::from("l"); 10] };
    aug.augment_batch(&mut set, false).unwrap();
    assert_eq!(set.features, vec![vec![1.0, 2.0, 3.0]; 10]);
}

#[test]
fn half_probability_transforms_some_samples() {
    let mut aug = Reverse::new();
    Augmenter::<f64>::set_probability(&mut aug, Probability::new(1, 2).unwrap()).unwrap();
    let mut set = Dataset { features: vec![vec![1.0, 2.0]; 200], labels: vec![String::from("l"); 200] };
    aug.augment_batch(&mut set, false).unwrap();
    let flipped = set.features.iter().filter(|r| **r == vec![2.0, 1.0]).count();
    let kept = set.features.iter().filter(|r| **r == vec![1.0, 2.0]).count();
    assert_eq!(flipped + kept, 200);
    assert!(flipped > 0 && kept > 0);
}

#[test]
fn per_sample_mode_rejects_a_batch_only_augmenter() {
    let mut set = Dataset { features: vec![vec![1.0; 10]; 3], labels: vec![String::from("a"); 3] };
    let pipeline = AugmentationPipeline::new() + Crop::new(5) + Repeat::new(2);
    let r = pipeline.augment_batch(&mut set, true);
    match r {
        Err(AugmentError::IncompatibleInPipeline { augmenter }) => assert_eq!(augmenter, "Repeat"),
        other => panic!("unexpected {:?}", other),
    }
    assert_eq!(set.features, vec![vec![1.0; 10]; 3]);
    assert_eq!(pipeline.check_per_sample().is_err(), true);
}

#[test]
fn per_sample_mode_chains_each_sample() {
    let mut set = Dataset {
        features: vec![ramp(10), vec![1.0; 10], vec![3.0; 10]],
        labels: vec!["a".into(), "b".into(), "c".into()],
    };
    let pipeline = AugmentationPipeline::new() + Reverse::new() + Crop::new(5);
    pipeline.augment_batch(&mut set, true).unwrap();
    assert_eq!(set.features.len(), 3);
    assert_eq!(set.features[1], vec![1.0; 5]);
    assert_eq!(set.features[2], vec![3.0; 5]);
    let r = &set.features[0];
    assert_eq!(r.len(), 5);
    for k in 0..4 {
        assert_eq!(r[k] - r[k + 1], 1.0);
    }
    assert_eq!(set.labels, vec![String::from("a"), String::from("b"), String::from("c")]);
}

#[test]
fn batch_mode_equals_calls_in_turn() {
    let start = Dataset { features: vec![ramp(6), vec![5.0, 1.0]], labels: vec!["a".into(), "b".into()] };
    let mut by_pipeline = Dataset { features: start.features.clone(), labels: start.labels.clone() };
    let mut by_hand = Dataset { features: start.features.clone(), labels: start.labels.clone() };
    let pipeline = AugmentationPipeline::new() + Reverse::new() + Resize::new(3);
    pipeline.augment_batch(&mut by_pipeline, false).unwrap();
    Reverse::new().augment_batch(&mut by_hand, false).unwrap();
    Resize::new(3).augment_batch(&mut by_hand, false).unwrap();
    assert_eq!(by_pipeline.features, by_hand.features);
    assert_eq!(by_pipeline.features, vec![vec![5.0, 3.0, 1.0], vec![1.0, 1.0, 5.0]]);
    assert_eq!(by_pipeline.labels, by_hand.labels);
}

#[test]
fn pipeline_augment_one_chains_in_order() {
    let pipeline = AugmentationPipeline::new() + Resize::new(3) + Reverse::new();
    assert_eq!(pipeline.augment_one(&ramp(6)).unwrap(), vec![4.0, 2.0, 0.0]);
    let failing = AugmentationPipeline::new() + Reverse::new() + Repeat::new(2);
    assert!(failing.augment_one(&ramp(6)).is_err());
}

#[test]
fn pipeline_add_appends() {
    let mut pipeline = AugmentationPipeline::new();
    pipeline.add(Reverse::new());
    pipeline.add(Reverse::new());
    assert_eq!(pipeline.augment_one(&ramp(4)).unwrap(), ramp(4));
}

#[test]
fn dtw_diagonal_moves_give_the_identity_path() {
    let moves = vec![vec![Step::Diagonal; 5]; 5];
    assert_eq!(backtrack(&moves, 4, 4), vec![(0, 0), (1, 1), (2, 2), (3, 3)]);
}

#[test]
fn dtw_path_runs_along_the_border() {
    let moves = vec![vec![Step::Left; 5]; 4];
    let path = backtrack(&moves, 3, 4);
    assert_eq!(path, vec![(0, 0), (1, 0), (2, 0), (2, 1), (2, 2), (2, 3)]);
    assert_eq!(path.len(), 3 + 4 - 1);
}

#[test]
fn dtw_path_of_an_empty_series_is_empty() {
    let moves = vec![vec![Step::Diagonal; 4]; 1];
    assert!(backtrack(&moves, 0, 3).is_empty());
}

#[test]
fn dtw_tie_break_prefers_the_diagonal() {
    assert_eq!(choose_step(true, true, true), Step::Diagonal);
    assert_eq!(choose_step(true, true, false), Step::Diagonal);
    assert_eq!(choose_step(false, true, true), Step::Up);
    assert_eq!(choose_step(true, false, false), Step::Left);
}

#[test]
fn dtw_augmenter_windows_and_pairs() {
    let aug = DynamicTimeWarpAugmenter::new(2);
    assert_eq!(aug.window_count(5).unwrap(), 4);
    assert!(matches!(aug.window_count(1), Err(AugmentError::InvalidParameters { .. })));
    assert!(DynamicTimeWarpAugmenter::new(1).window_count(5).is_err());
    for _ in 0..50 {
        let (i, j) = aug.pick_pair(3);
        assert!(i != j && (3..5).contains(&i) && (3..5).contains(&j));
    }
    let buckets = DynamicTimeWarpAugmenter::bucket_by_target(&[(0, 0), (1, 0), (2, 1)], &[1.0, 2.0, 3.0], 3);
    assert_eq!(buckets, vec![vec![1.0, 2.0], vec![3.0], vec![]]);
}

#[test]
fn time_warp_windows() {
    assert_eq!(warp_window(4, 0), (0, 3));
    assert_eq!(warp_window(4, 4), (0, 3));
    for _ in 0..20 {
        let (s, e) = warp_window(10, 3);
        assert_eq!(e, s + 3);
        assert!(e < 10);
        let (s, w) = fitting_window(10, 4);
        assert_eq!(w, 4);
        assert!(s + w <= 10);
    }
    assert_eq!(fitting_window(3, 5), (0, 3));
}

#[test]
fn splice_keeps_prefix_and_suffix() {
    let series = ramp(6);
    assert_eq!(splice(&series, 2, &[9.0, 8.0]), vec![0.0, 1.0, 9.0, 8.0, 4.0, 5.0]);
}

fn dtw_path(a: &[f64], b: &[f64]) -> (f64, Vec<(usize, usize)>) {
    let (n, m) = (a.len(), b.len());
    let mut cost = vec![vec![f64::INFINITY; m + 1]; n + 1];
    cost[0][0] = 0.0;
    for i in 1..=n {
        for j in 1..=m {
            let best = cost[i - 1][j].min(cost[i][j - 1]).min(cost[i - 1][j - 1]);
            cost[i][j] = (a[i - 1] - b[j - 1]).abs() + best;
        }
    }
    let mut moves = vec![vec![Step::Diagonal; m + 1]; n + 1];
    for i in 2..=n {
        for j in 2..=m {
            let (d, u, l) = (cost[i - 1][j - 1], cost[i - 1][j], cost[i][j - 1]);
            moves[i][j] = choose_step(d <= u, d <= l, u < l);
        }
    }
    (cost[n][m], backtrack(&moves, n, m))
}

#[test]
fn dtw_of_a_series_with_itself() {
    let a = vec![0.5, 3.0, -1.0, 2.0, 2.0];
    let (distance, path) = dtw_path(&a, &a);
    assert_eq!(distance, 0.0);
    assert_eq!(path, vec![(0, 0), (1, 1), (2, 2), (3, 3), (4, 4)]);
}

#[test]
fn dtw_path_is_symmetric() {
    let a = vec![0.0, 1.0, 2.0, 3.0];
    let b = vec![0.0, 0.5, 3.0];
    let (d_ab, p_ab) = dtw_path(&a, &b);
    let (d_ba, p_ba) = dtw_path(&b, &a);
    assert_eq!(d_ab, d_ba);
    let swapped: Vec<(usize, usize)> = p_ab.iter().map(|&(i, j)| (j, i)).collect();
    assert_eq!(p_ba, swapped);
    assert_eq!(p_ab[0], (0, 0));
    assert_eq!(*p_ab.last().unwrap(), (3, 2));
    assert!(p_ab.len() >= 4 && p_ab.len() <= 6);
}

#[test]
fn drop_with_a_given_default() {
    let drop = rats::augmenters::Drop::new(Probability::always(), Some(-7.5));
    assert_eq!(drop.augment_one(&[1.0, 2.0]).unwrap(), vec![-7.5, -7.5]);
    let half = rats::augmenters::Drop::new(Probability::new(1, 2).unwrap(), Some(-7.5));
    let r = half.augment_one(&ramp(50)).unwrap();
    assert_eq!(r.len(), 50);
    for (i, v) in r.iter().enumerate() {
        assert!(*v == i as f64 || *v == -7.5);
    }
}

#[test]
fn crop_starts_vary() {
    let x = ramp(100);
    let starts: Vec<f64> = (0..60).map(|_| Crop::new(20).augment_one(&x).unwrap()[0]).collect();
    assert!(starts.iter().any(|&s| s != starts[0]));
}

#[test]
fn permutate_reorders_segments() {
    let x = ramp(8);
    let mut moved = false;
    for _ in 0..40 {
        let r = Permutate::new(8, 1).augment_one(&x).unwrap();
        let mut sorted = r.clone();
        sorted.sort_by(|a, b| a.partial_cmp(b).unwrap());
        assert_eq!(sorted, x);
        moved |= r != x;
    }
    assert!(moved);
}

#[test]
fn dtw_augmenter_pairs_vary() {
    let aug = DynamicTimeWarpAugmenter::new(5);
    let pairs: Vec<(usize, usize)> = (0..60).map(|_| aug.pick_pair(10)).collect();
    assert!(pairs.iter().any(|&p| p != pairs[0]));
    assert!(pairs.iter().all(|&(i, j)| i != j && (10..15).contains(&i) && (10..15).contains(&j)));
}

#[test]
fn dtw_augmenter_appends_labelled_rows() {
    let mut set = Dataset { features: vec![vec![1.0], vec![2.0]], labels: vec!["a".into(), "b".into()] };
    DynamicTimeWarpAugmenter::append_warped(&mut set, &vec![vec![9.0], vec![8.0]], &vec![1, 0]);
    assert_eq!(set.features, vec![vec![1.0], vec![2.0], vec![9.0], vec![8.0]]);
    assert_eq!(set.labels, vec![String::from("a"), "b".into(), "b".into(), "a".into()]);
    assert_eq!(DynamicTimeWarpAugmenter::new(3).name, "DynamicTimeWarpAugmenter");
}

#[test]
fn gated_sample_at_the_ends() {
    let mut rev = Reverse::new();
    assert_eq!(rats::augmenters::gated_sample(&rev, &[1.0, 2.0]).unwrap(), vec![2.0, 1.0]);
    Augmenter::<f64>::set_probability(&mut rev, Probability::new(0, 1).unwrap()).unwrap();
    assert_eq!(rats::augmenters::gated_sample(&rev, &[1.0, 2.0]).unwrap(), vec![1.0, 2.0]);
}

#[test]
fn repeat_refuses_a_probability() {
    let mut repeat = Repeat::new(2);
    let r = Augmenter::<f64>::set_probability(&mut repeat, Probability::new(1, 2).unwrap());
    match r {
        Err(AugmentError::Unsupported { augmenter, operation: Operation::SetProbability }) => assert_eq!(augmenter, "Repeat"),
        other => panic!("unexpected {:?}", other),
    }
}

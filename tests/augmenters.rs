use rats::augmenters::{Augmenter, Crop, FrequencyMask, Repeat, Resize, Reverse};
use rats::Dataset;

#[test]
fn augmenters_crop_larger() {
    let series = vec![1.0; 100];
    let mut set = Dataset {
        features: vec![series],
        labels: vec![String::from("1")],
    };

    let augmenter = Crop::new(200);
    augmenter.augment_batch(&mut set, false).unwrap();

    assert_eq!(set.features[0], vec![1.0; 100]);
}

#[test]
fn augmenters_crop_smaller() {
    let series = vec![1.0; 100];
    let mut set = Dataset {
        features: vec![series],
        labels: vec![String::from("1")],
    };

    let augmenter = Crop::new(50);
    augmenter.augment_batch(&mut set, false).unwrap();

    assert_eq!(set.features[0], vec![1.0; 50]);
}

#[test]
fn augmenters_test_frequency_mask_dataset() {
    let mut data = Dataset {
        features: vec![vec![1.0, 2.0].repeat(16), vec![2.0, 3.0].repeat(16)],
        labels: vec!["a".to_string(), "b".to_string()],
    };
    let mask = FrequencyMask::new(4);
    mask.augment_batch(&mut data, false).unwrap();
    for sample in data.features {
        let mut zeroed_bins = 0;
        for bin in 0..(sample.len() / 2) {
            if sample[2 * bin] == 0.0 && sample[2 * bin + 1] == 0.0 {
                zeroed_bins += 1;
            }
        }
        assert!(zeroed_bins >= 4, "Expected at least 4 zeroed bins, got {}", zeroed_bins);
    }
}

#[test]
fn augmenters_repeat_2() {
    let series = vec![1.0; 100];
    let mut set = Dataset {
        features: vec![series],
        labels: vec![String::from("1")],
    };

    let augmenter = Repeat::new(2);
    augmenter.augment_batch(&mut set, false).unwrap();

    assert_eq!(set.features[0], vec![1.0; 100]);
    assert_eq!(set.features[1], vec![1.0; 100]);
    assert_eq!(set.features.len(), 2);
    assert_eq!(set.labels, vec![String::from("1"); 2]);
}

#[test]
fn augmenters_resize_smaller() {
    let series = vec![1.0; 90].iter().enumerate().map(|(i, _)| i as f64).collect::<Vec<_>>();

    let aug = Resize::new(10);
    let series = aug.augment_one(&series).unwrap();

    assert_eq!(series, vec![0.0, 9.0, 18.0, 27.0, 36.0, 45.0, 54.0, 63.0, 72.0, 81.0]);
}

#[test]
fn augmenters_resize_larger() {
    let series = vec![1.0; 5].iter().enumerate().map(|(i, _)| i as f64).collect::<Vec<_>>();

    let aug = Resize::new(12);
    let series = aug.augment_one(&series).unwrap();

    assert_eq!(series, vec![0.0, 0.0, 0.0, 1.0, 1.0, 2.0, 2.0, 2.0, 3.0, 3.0, 4.0, 4.0]);
}

#[test]
fn augmenters_reverse() {
    let series = vec![1.0, 2.0, 3.0, 4.0];

    let aug = Reverse::new();
    let series = aug.augment_one(&series).unwrap();

    assert_eq!(series, vec![4.0, 3.0, 2.0, 1.0]);
}

#[test]
fn augmenters_permutate() {
    let series = vec![1.0, 2.0, 3.0, 4.0];

    let aug = rats::augmenters::Permutate::new(2, 2);
    let series = aug.augment_one(&series).unwrap();

    assert!(series == vec![3.0, 4.0, 1.0, 2.0] || series == vec![1.0, 2.0, 3.0, 4.0]);
}

#[test]
fn augmenters_drop_all() {
    let series = vec![1.0; 100];

    let drop = rats::augmenters::Drop::new(rats::Probability::always(), None);
    let series = drop.augment_one(&series).unwrap();

    assert_eq!(series, vec![0.0; 100]);
}

#[test]
fn augmenters_drop_none() {
    let series = vec![1.0; 100];

    let drop = rats::augmenters::Drop::new(rats::Probability::new(0, 1).unwrap(), None);
    let series = drop.augment_one(&series).unwrap();

    assert_eq!(series, vec![1.0; 100]);
}

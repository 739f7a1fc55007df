use rats::augmenters::{AugmentationPipeline, Augmenter, Crop, Repeat};
use rats::Dataset;

#[test]
fn pipeline_combine_two_augmenters() {
    let series = vec![1.0; 100];
    let mut set = Dataset {
        features: vec![series],
        labels: vec![String::from("1")],
    };

    let pipeline = AugmentationPipeline::new() + Repeat::new(5) + Crop::new(20);
    pipeline.augment_batch(&mut set, false).unwrap();

    assert_eq!(set.features.len(), 5);
    assert_eq!(set.features[3].len(), 20);
}

#[test]
fn pipeline_conditional_augmenter() {
    let series = vec![1.0; 100];
    let mut set = Dataset {
        features: vec![series; 100],
        labels: vec![String::from("1")],
    };

    let mut augmenter = rats::augmenters::Drop::new(rats::Probability::always(), None);
    augmenter.set_probability(rats::Probability::new(1, 2).unwrap()).unwrap();
    augmenter.augment_batch(&mut set, false).unwrap();

    assert_eq!(set.features.len(), 100);
    let mut dropped = 0;
    set.features.iter().for_each(|row| {
        if row.clone() == vec![0.0; 100] {
            dropped += 1;
        } else {
            assert_eq!(row.clone(), vec![1.0; 100]);
        }
    });
    assert!(dropped > 0 && dropped < 100);
}

struct Doubling;

impl rats::augmenters::Transform<f64> for Doubling {
    fn name(&self) -> String {
        String::from("Doubling")
    }

    fn supports_per_sample(&self) -> bool {
        true
    }

    fn transform_one(&self, x: &[f64]) -> Result<Vec<f64>, rats::AugmentError> {
        Ok(x.iter().map(|v| v * 2.0).collect())
    }

    fn transform_batch(&self, data: &mut Dataset<f64>, p: rats::Probability) -> Result<(), rats::AugmentError> {
        rats::augmenters::gated_transform(self, data, p)
    }
}

struct WholeBatch;

impl rats::augmenters::Transform<f64> for WholeBatch {
    fn name(&self) -> String {
        String::from("WholeBatch")
    }

    fn supports_per_sample(&self) -> bool {
        false
    }

    fn transform_one(&self, x: &[f64]) -> Result<Vec<f64>, rats::AugmentError> {
        Ok(x.to_vec())
    }

    fn has_own_batch(&self) -> bool {
        true
    }

    fn transform_batch(&self, data: &mut Dataset<f64>, _p: rats::Probability) -> Result<(), rats::AugmentError> {
        data.features.push(vec![0.0]);
        data.labels.push(String::from("extra"));
        Ok(())
    }
}

#[test]
fn per_sample_mode_with_a_custom_transform() {
    let mut set = Dataset {
        features: vec![vec![1.0; 10], vec![2.0; 10], vec![3.0; 10]],
        labels: vec!["a".into(), "b".into(), "c".into()],
    };
    let pipeline = AugmentationPipeline::new() + rats::augmenters::Custom::new(Doubling) + Crop::new(5);
    pipeline.augment_batch(&mut set, true).unwrap();
    assert_eq!(set.features.len(), 3);
    for (i, row) in set.features.iter().enumerate() {
        assert_eq!(row, &vec![(i as f64 + 1.0) * 2.0; 5]);
    }
}

#[test]
fn per_sample_mode_names_a_custom_batch_transform() {
    let mut set = Dataset { features: vec![vec![1.0; 4]], labels: vec!["a".into()] };
    let pipeline = AugmentationPipeline::new() + Crop::new(2) + rats::augmenters::Custom::new(WholeBatch);
    match pipeline.augment_batch(&mut set, true) {
        Err(rats::AugmentError::IncompatibleInPipeline { augmenter }) => assert_eq!(augmenter, "WholeBatch"),
        other => panic!("unexpected {:?}", other),
    }
    assert_eq!(set.features, vec![vec![1.0; 4]]);
    pipeline.augment_batch(&mut set, false).unwrap();
    assert_eq!(set.features, vec![vec![1.0; 2], vec![0.0]]);
}

#[test]
fn custom_transform_with_zero_probability_changes_nothing() {
    let mut set = Dataset { features: vec![vec![1.0, 2.0]; 4], labels: vec!["a".into(); 4] };
    let mut doubling = rats::augmenters::Custom::new(Doubling);
    doubling.set_probability(rats::Probability::new(0, 3).unwrap()).unwrap();
    doubling.augment_batch(&mut set, false).unwrap();
    assert_eq!(set.features, vec![vec![1.0, 2.0]; 4]);
    doubling.set_probability(rats::Probability::always()).unwrap();
    doubling.augment_batch(&mut set, false).unwrap();
    assert_eq!(set.features, vec![vec![2.0, 4.0]; 4]);
    assert_eq!(set.labels, vec![String::from("a"); 4]);
}

use toolpath::{AdditiveConfig, ConfigError, SubtractiveConfig};

#[test]
fn additive_unit_layers_over_ten() {
    let cfg = AdditiveConfig { layer_height: 1, min_z: 0, max_z: 10 };
    assert_eq!(cfg.layer_heights().unwrap(), vec![0, 1, 2, 3, 4, 5, 6, 7, 8, 9, 10]);
}

#[test]
fn subtractive_step_two_over_ten() {
    let cfg = SubtractiveConfig { step_down: 2, min_z: 0, max_z: 10 };
    assert_eq!(cfg.pass_heights().unwrap(), vec![10, 8, 6, 4, 2, 0]);
}

#[test]
fn additive_range_not_a_multiple_of_the_layer() {
    let cfg = AdditiveConfig { layer_height: 3, min_z: 0, max_z: 10 };
    let hs = cfg.layer_heights().unwrap();
    assert_eq!(hs, vec![0, 3, 6, 9]);
    assert_eq!(hs.len() as i64, (10 - 0) / 3 + 1);
}

#[test]
fn subtractive_range_not_a_multiple_of_the_step() {
    let cfg = SubtractiveConfig { step_down: 4, min_z: -3, max_z: 7 };
    assert_eq!(cfg.pass_heights().unwrap(), vec![7, 3, -1]);
}

#[test]
fn single_sample_when_bounds_meet() {
    let a = AdditiveConfig { layer_height: 5, min_z: 4, max_z: 4 };
    assert_eq!(a.layer_heights().unwrap(), vec![4]);
    let s = SubtractiveConfig { step_down: 5, min_z: 4, max_z: 4 };
    assert_eq!(s.pass_heights().unwrap(), vec![4]);
}

#[test]
fn empty_plan_when_min_above_max() {
    let a = AdditiveConfig { layer_height: 1, min_z: 5, max_z: 4 };
    assert!(a.layer_heights().unwrap().is_empty());
    let s = SubtractiveConfig { step_down: 1, min_z: 5, max_z: 4 };
    assert!(s.pass_heights().unwrap().is_empty());
}

#[test]
fn extreme_bounds_do_not_overflow() {
    let a = AdditiveConfig { layer_height: i64::MAX, min_z: i64::MIN, max_z: i64::MAX };
    assert_eq!(a.layer_heights().unwrap(), vec![i64::MIN, -1, i64::MAX - 1]);
    let s = SubtractiveConfig { step_down: i64::MAX, min_z: i64::MIN, max_z: i64::MAX };
    assert_eq!(s.pass_heights().unwrap(), vec![i64::MAX, 0, i64::MIN + 1]);
}

#[test]
fn zero_layer_height_is_refused() {
    let cfg = AdditiveConfig { layer_height: 0, min_z: 0, max_z: 10 };
    assert_eq!(cfg.layer_heights(), Err(ConfigError::NonPositiveLayerHeight));
}

#[test]
fn negative_step_down_is_refused() {
    let cfg = SubtractiveConfig { step_down: -2, min_z: 0, max_z: 10 };
    assert_eq!(cfg.pass_heights(), Err(ConfigError::NonPositiveStepDown));
}

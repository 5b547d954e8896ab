use lumen::settings::{cycle_quality, quality_label, Quality};

#[test]
fn quality_cycles_without_wrapping() {
    assert_eq!(cycle_quality(Quality::High, 1), Quality::High);
    assert_eq!(cycle_quality(Quality::High, -1), Quality::Medium);
    assert_eq!(cycle_quality(Quality::Medium, -1), Quality::Low);
    assert_eq!(cycle_quality(Quality::Low, -1), Quality::Low);
    assert_eq!(cycle_quality(Quality::Low, 1), Quality::Medium);
}

#[test]
fn quality_large_steps_clamp_at_the_ends() {
    assert_eq!(cycle_quality(Quality::Low, 5), Quality::High);
    assert_eq!(cycle_quality(Quality::High, i32::MIN), Quality::Low);
    assert_eq!(cycle_quality(Quality::Low, i32::MAX), Quality::High);
    assert_eq!(cycle_quality(Quality::Medium, 0), Quality::Medium);
}

#[test]
fn default_quality_is_high() {
    assert_eq!(Quality::default(), Quality::High);
}

#[test]
fn quality_labels_name_each_preset() {
    assert_eq!(quality_label(Quality::Low), "Low");
    assert_eq!(quality_label(Quality::Medium), "Medium");
    assert_eq!(quality_label(Quality::High), "High");
}

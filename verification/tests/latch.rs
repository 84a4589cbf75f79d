use adi2edi::utils::FoundCaptured;

#[test]
fn fresh_latch_has_seen_nothing() {
    let latch = FoundCaptured::default();
    assert!(!latch.found);
    assert!(!latch.captured);
    assert_eq!(latch.length, None);
}

#[test]
fn value_is_taken_once_after_the_name() {
    let mut latch = FoundCaptured::default();
    assert!(!latch.is_found());
    latch.set_found();
    assert!(latch.is_found());
    assert!(!latch.is_found());
    assert!(!latch.is_found());
}

#[test]
fn name_seen_again_does_not_rearm_the_latch() {
    let mut latch = FoundCaptured::default();
    latch.set_found();
    latch.set_found();
    assert!(latch.is_found());
    latch.set_found();
    assert!(!latch.is_found());
    assert!(latch.found);
    assert!(latch.captured);
}

#[test]
fn length_is_stored_between_name_and_value_only() {
    let mut latch = FoundCaptured::default();
    latch.set_length(8);
    assert_eq!(latch.length, None);
    latch.set_found();
    latch.set_length(8);
    assert_eq!(latch.length, Some(8));
    latch.set_length(5);
    assert_eq!(latch.length, Some(5));
    assert!(latch.is_found());
    latch.set_length(3);
    assert_eq!(latch.length, Some(5));
}

#[test]
fn value_without_name_is_not_taken() {
    let mut latch = FoundCaptured::default();
    assert!(!latch.is_found());
    assert!(!latch.captured);
    latch.set_found();
    assert!(latch.is_found());
}

use grandmaster_recall::srs::Sm2Engine;

#[test]
fn test_calculate_quality() {
    // Fast solve without hints -> 5
    assert_eq!(Sm2Engine::calculate_quality(true, 0, 3500), 5);
    // Moderate solve without hints -> 4
    assert_eq!(Sm2Engine::calculate_quality(true, 0, 12000), 4);
    // Slow solve without hints -> 3
    assert_eq!(Sm2Engine::calculate_quality(true, 0, 25000), 3);
    // Solved with 1 hint -> 3
    assert_eq!(Sm2Engine::calculate_quality(true, 1, 4000), 3);
    // Solved with 2 hints -> 2
    assert_eq!(Sm2Engine::calculate_quality(true, 2, 4000), 2);
    // Failed without hints -> 1
    assert_eq!(Sm2Engine::calculate_quality(false, 0, 10000), 1);
    // Failed with multiple hints -> 0
    assert_eq!(Sm2Engine::calculate_quality(false, 2, 10000), 0);
}

#[test]
fn schedule_first_success_gives_one_day() {
    // A new puzzle (no repetitions yet) solved well: first repetition, one day.
    let step = Sm2Engine::schedule_repetition(0, 0, 5, 0);
    assert_eq!(step.new_repetition_number, 1);
    assert_eq!(step.new_interval_days, 1);
    assert!(!step.is_mastered);
}

#[test]
fn schedule_second_success_gives_three_days() {
    let step = Sm2Engine::schedule_repetition(1, 1, 4, 0);
    assert_eq!(step.new_repetition_number, 2);
    assert_eq!(step.new_interval_days, 3);
    assert!(!step.is_mastered);
}

#[test]
fn schedule_later_successes_take_the_scaled_interval() {
    // interval 3 scaled by an easiness of 2.6 rounds to 8
    let step = Sm2Engine::schedule_repetition(3, 2, 5, 8);
    assert_eq!(step.new_repetition_number, 3);
    assert_eq!(step.new_interval_days, 8);
    assert!(!step.is_mastered);
    // interval 8 scaled by 2.7 rounds to 22: mastered
    let step = Sm2Engine::schedule_repetition(8, 3, 5, 22);
    assert_eq!(step.new_repetition_number, 4);
    assert_eq!(step.new_interval_days, 22);
    assert!(step.is_mastered);
}

#[test]
fn schedule_interval_always_grows_after_the_second_success() {
    // A scaled interval that would not grow is raised to one day more.
    let step = Sm2Engine::schedule_repetition(10, 4, 3, 10);
    assert_eq!(step.new_interval_days, 11);
    let step = Sm2Engine::schedule_repetition(10, 4, 3, 2);
    assert_eq!(step.new_interval_days, 11);
}

#[test]
fn schedule_failure_resets_streak() {
    let step = Sm2Engine::schedule_repetition(21, 5, 1, 50);
    assert_eq!(step.new_repetition_number, 0);
    assert_eq!(step.new_interval_days, 1);
    assert!(!step.is_mastered);
    // A grade of 2 still counts as a failure.
    let step = Sm2Engine::schedule_repetition(30, 7, 2, 80);
    assert_eq!(step.new_repetition_number, 0);
    assert_eq!(step.new_interval_days, 1);
}

#[test]
fn quality_boundaries() {
    assert_eq!(Sm2Engine::calculate_quality(true, 0, 5999), 5);
    assert_eq!(Sm2Engine::calculate_quality(true, 0, 6000), 4);
    assert_eq!(Sm2Engine::calculate_quality(true, 0, 19999), 4);
    assert_eq!(Sm2Engine::calculate_quality(true, 0, 20000), 3);
    assert_eq!(Sm2Engine::calculate_quality(true, 5, 1000), 2);
    assert_eq!(Sm2Engine::calculate_quality(false, 1, 1000), 1);
    assert_eq!(Sm2Engine::calculate_quality(false, -1, 1000), 1);
    assert_eq!(Sm2Engine::calculate_quality(true, -1, 1000), 2);
}

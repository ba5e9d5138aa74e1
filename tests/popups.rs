use rst::popup::{PopupEvent, PopupState};

#[test]
fn popups_start_closed() {
    let popups = PopupState::default();
    assert!(!popups.add_workout_open());
    assert!(!popups.add_exercise_open());
    assert!(!popups.add_set_open());
}

#[test]
fn setters_and_mutable_getters_reach_the_flags() {
    let mut popups = PopupState::default();
    popups.mut_add_workout(true);
    popups.mut_add_exercise(true);
    popups.mut_add_set(true);
    assert!(popups.add_workout_open() && popups.add_exercise_open() && popups.add_set_open());
    *popups.get_mut_add_workout() = false;
    *popups.get_mut_add_exercise() = false;
    *popups.get_mut_add_set() = false;
    assert!(!popups.add_workout_open() && !popups.add_exercise_open() && !popups.add_set_open());
}

#[test]
fn exercise_title_is_edited_in_place() {
    let mut popups = PopupState::default();
    assert_eq!(popups.get_mut_exercise_title().as_str(), "");
    popups.get_mut_exercise_title().push_str("deadlift");
    assert_eq!(popups.get_mut_exercise_title().as_str(), "deadlift");
}

#[test]
fn nested_popups_open_and_close() {
    let mut popups = PopupState::default();
    popups.mut_add_workout(true);
    popups.on_event(PopupEvent::AddExercise);
    assert!(popups.add_workout_open() && popups.add_exercise_open());
    popups.on_event(PopupEvent::AddSet);
    assert!(popups.add_set_open());
    popups.on_event(PopupEvent::SaveSet);
    assert!(!popups.add_set_open() && popups.add_exercise_open());
    popups.on_event(PopupEvent::CancelExercise);
    assert!(!popups.add_exercise_open() && popups.add_workout_open());
    popups.on_event(PopupEvent::SaveWorkout);
    assert!(!popups.add_workout_open());
}

#[test]
fn buttons_of_closed_popups_do_nothing() {
    let mut popups = PopupState::default();
    popups.on_event(PopupEvent::AddExercise);
    popups.on_event(PopupEvent::AddSet);
    assert!(!popups.add_exercise_open() && !popups.add_set_open());
    popups.mut_add_set(true);
    popups.on_event(PopupEvent::CancelWorkout);
    popups.on_event(PopupEvent::SaveExercise);
    assert!(popups.add_set_open());
    popups.on_event(PopupEvent::CancelSet);
    assert!(!popups.add_set_open());
}

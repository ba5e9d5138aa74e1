use rst::workout::{Exercise, ExerciseSet, Workout};

#[test]
fn set_new_keeps_its_measures() {
    let set = ExerciseSet::new(Some(10), Some(5.5f64.to_bits()), None);
    assert_eq!(set.reps, Some(10));
    assert_eq!(set.wght.map(f64::from_bits), Some(5.5));
    assert_eq!(set.dist, None);
}

#[test]
fn default_set_is_blank() {
    let set = ExerciseSet::default();
    assert_eq!(set, ExerciseSet::new(None, None, None));
}

#[test]
fn exercise_keeps_sets_in_order_with_duplicates() {
    let mut exercise = Exercise::new("squat");
    let a = ExerciseSet::new(Some(5), Some(100.0f64.to_bits()), None);
    let b = ExerciseSet::new(Some(3), None, None);
    exercise.push_set(a);
    exercise.push_set(b);
    exercise.push_set(a);
    assert_eq!(exercise.kind(), "squat");
    assert_eq!(exercise.sets(), &[a, b, a][..]);
}

#[test]
fn workout_with_timestamp_starts_empty() {
    let workout = Workout::with_timestamp(1234);
    assert_eq!(workout.timestamp(), 1234);
    assert!(workout.exercises().is_empty());
}

#[test]
fn push_exercise_appends_and_keeps_timestamp() {
    let mut workout = Workout::with_timestamp(77);
    workout.push_exercise(Exercise::new("row"));
    workout.push_exercise(Exercise::new("run"));
    assert_eq!(workout.timestamp(), 77);
    let kinds: Vec<&str> = workout.exercises().iter().map(|e| e.kind()).collect();
    assert_eq!(kinds, vec!["row", "run"]);
}

#[test]
fn new_workout_is_stamped_with_the_clock() {
    let workout = Workout::new();
    // 2020-09-13 in milliseconds since the epoch.
    assert!(workout.timestamp() > 1_600_000_000_000);
    assert!(workout.exercises().is_empty());
}

use rst::app::App;
use rst::store::WorkoutStore;
use rst::workout::{Exercise, ExerciseSet, Workout};

fn workout(timestamp: u128, kind: &str) -> Workout {
    let mut w = Workout::with_timestamp(timestamp);
    w.push_exercise(Exercise::new(kind));
    w
}

fn timestamps(list: &[&Workout]) -> Vec<u128> {
    list.iter().map(|w| w.timestamp()).collect()
}

fn one_set_workout(timestamp: u128) -> Workout {
    let mut exercise = Exercise::new("press");
    exercise.push_set(ExerciseSet::new(Some(10), Some(5.5f64.to_bits()), None));
    let mut w = Workout::with_timestamp(timestamp);
    w.push_exercise(exercise);
    w
}

#[test]
fn empty_store_lists_nothing() {
    let store = WorkoutStore::new();
    assert_eq!(store.len(), 0);
    assert!(store.iter_ascending().is_empty());
    assert!(store.iter_descending().is_empty());
}

#[test]
fn second_push_with_same_timestamp_replaces_first() {
    let mut store = WorkoutStore::new();
    store.push(Workout::with_timestamp(500));
    let second = workout(500, "different");
    store.push(second.clone());
    assert_eq!(store.len(), 1);
    let listed = store.iter_ascending();
    assert_eq!(listed.len(), 1);
    assert_eq!(*listed[0], second);
}

#[test]
fn ascending_is_increasing_and_descending_is_its_reverse() {
    let mut store = WorkoutStore::new();
    for ts in [30u128, 10, 50, 20, 40, 10] {
        store.push(workout(ts, "x"));
    }
    let asc = timestamps(&store.iter_ascending());
    assert_eq!(asc, vec![10, 20, 30, 40, 50]);
    let mut desc = timestamps(&store.iter_descending());
    assert_eq!(desc, vec![50, 40, 30, 20, 10]);
    desc.reverse();
    assert_eq!(desc, asc);
}

#[test]
fn from_records_keeps_the_later_duplicate() {
    let records = vec![workout(7, "first"), workout(3, "other"), workout(7, "last")];
    let store = WorkoutStore::from_records(records);
    let listed = store.iter_ascending();
    assert_eq!(timestamps(&listed), vec![3, 7]);
    assert_eq!(listed[1].exercises()[0].kind(), "last");
}

#[test]
fn two_workouts_listed_saved_and_reloaded() {
    let mut store = WorkoutStore::new();
    store.push(one_set_workout(2000));
    store.push(one_set_workout(1000));
    let asc: Vec<Workout> = store.iter_ascending().into_iter().cloned().collect();
    assert_eq!(asc.iter().map(|w| w.timestamp()).collect::<Vec<_>>(), vec![1000, 2000]);
    let reloaded = WorkoutStore::from_records(asc.clone());
    let again: Vec<Workout> = reloaded.iter_ascending().into_iter().cloned().collect();
    assert_eq!(again, asc);
    assert_eq!(timestamps(&reloaded.iter_descending()), vec![2000, 1000]);
    let set = reloaded.iter_ascending()[0].exercises()[0].sets()[0];
    assert_eq!(set.reps, Some(10));
    assert_eq!(set.wght.map(f64::from_bits), Some(5.5));
    assert_eq!(set.dist, None);
}

#[test]
fn app_push_replaces_on_equal_timestamp() {
    let mut app = App::new(Ok(Vec::new()));
    app.push(Workout::with_timestamp(500));
    app.push(workout(500, "kept"));
    let listed = app.workouts().iter_descending();
    assert_eq!(listed.len(), 1);
    assert_eq!(listed[0].exercises()[0].kind(), "kept");
}

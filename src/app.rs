use vstd::prelude::*;

use crate::persist::deserialize_workouts;
use crate::popup::{PopupState, PopupView};
use crate::store::{records_to_map, WorkoutStore};
use crate::workout::Workout;

verus! {

/// The application's state: the workouts, and the popups for adding one.
///
/// Two workouts made in the same millisecond share a timestamp, and the
/// store keeps only the one added last.
pub struct App {
    workouts: WorkoutStore,
    popup_state: PopupState,
}

impl App {
    /// The stored workouts, by timestamp.
    pub closed spec fn spec_workouts(&self) -> Map<u128, Workout> {
        self.workouts@
    }

    /// The popup state.
    pub closed spec fn spec_popups(&self) -> PopupView {
        self.popup_state@
    }

    /// The state at startup, given what parsing the data file produced: the
    /// workouts read, a later one replacing an earlier one with the same
    /// timestamp; none if the file could not be parsed. All popups closed.
    pub fn new(parsed: Result<Vec<Workout>, serde_json::Error>) -> (r: Self)
        ensures
            parsed matches Ok(records) ==> r.spec_workouts() == records_to_map(records@),
            parsed is Err ==> r.spec_workouts() == Map::<u128, Workout>::empty(),
            r.spec_popups() == (PopupView {
                add_workout: false,
                add_exercise: false,
                add_set: false,
                exercise_title: Seq::empty(),
                reps: false,
                weight: false,
                dist: false,
            }),
    {
        let records = deserialize_workouts(parsed);
        proof {
            if parsed is Err {
                assert(records@.len() == 0);
                assert(records_to_map(records@) == Map::<u128, Workout>::empty());
            }
        }
        App { workouts: WorkoutStore::from_records(records), popup_state: PopupState::default() }
    }

    /// Adds a workout, replacing one with the same timestamp. Nothing is
    /// saved.
    pub fn push(&mut self, workout: Workout)
        ensures
            final(self).spec_workouts() == old(self).spec_workouts().insert(
                workout.spec_timestamp(),
                workout,
            ),
            final(self).spec_popups() == old(self).spec_popups(),
    {
        self.workouts.push(workout);
    }

    /// The stored workouts.
    pub fn workouts(&self) -> (r: &WorkoutStore)
        ensures
            r@ == self.spec_workouts(),
    {
        &self.workouts
    }

    /// The popup state, for the interface to update.
    pub fn popup_state(&mut self) -> (r: &mut PopupState)
        ensures
            r@ == old(self).spec_popups(),
            final(self).spec_workouts() == old(self).spec_workouts(),
            final(self).spec_popups() == final(r)@,
    {
        &mut self.popup_state
    }
}

} // verus!

use vstd::prelude::*;

verus! {

/// What the popup state holds, as plain values.
pub struct PopupView {
    pub add_workout: bool,
    pub add_exercise: bool,
    pub add_set: bool,
    pub exercise_title: Seq<char>,
    pub reps: bool,
    pub weight: bool,
    pub dist: bool,
}

/// A button pressed in one of the popups.
#[derive(Debug, Clone, Copy, PartialEq, Eq, Structural)]
pub enum PopupEvent {
    /// "Add exercise" in the add-workout popup.
    AddExercise,
    /// "Save" in the add-workout popup.
    SaveWorkout,
    /// "Cancel" in the add-workout popup.
    CancelWorkout,
    /// "Add set" in the add-exercise popup.
    AddSet,
    /// "Save" in the add-exercise popup.
    SaveExercise,
    /// "Cancel" in the add-exercise popup.
    CancelExercise,
    /// "Save" in the add-set popup.
    SaveSet,
    /// "Cancel" in the add-set popup.
    CancelSet,
}

/// The popup state after `event`. A button acts only while its popup is
/// open: opening a nested popup leaves the outer one open, and save or
/// cancel closes the popup they belong to.
pub open spec fn on_event_spec(v: PopupView, event: PopupEvent) -> PopupView {
    match event {
        PopupEvent::AddExercise => if v.add_workout { PopupView { add_exercise: true, ..v } } else { v },
        PopupEvent::SaveWorkout | PopupEvent::CancelWorkout => if v.add_workout {
            PopupView { add_workout: false, ..v }
        } else {
            v
        },
        PopupEvent::AddSet => if v.add_exercise { PopupView { add_set: true, ..v } } else { v },
        PopupEvent::SaveExercise | PopupEvent::CancelExercise => if v.add_exercise {
            PopupView { add_exercise: false, ..v }
        } else {
            v
        },
        PopupEvent::SaveSet | PopupEvent::CancelSet => if v.add_set {
            PopupView { add_set: false, ..v }
        } else {
            v
        },
    }
}

/// Which popups are open, and what has been entered in them.
#[derive(Debug)]
pub struct PopupState {
    /// The add-workout popup is open.
    add_workout: bool,
    /// The add-exercise popup is open.
    add_exercise: bool,
    /// The add-set popup is open.
    add_set: bool,
    /// The title entered for the exercise.
    exercise_title: String,
    /// The set being entered records reps.
    reps: bool,
    /// The set being entered records a weight.
    weight: bool,
    /// The set being entered records a distance.
    dist: bool,
}

impl View for PopupState {
    type V = PopupView;

    closed spec fn view(&self) -> PopupView {
        PopupView {
            add_workout: self.add_workout,
            add_exercise: self.add_exercise,
            add_set: self.add_set,
            exercise_title: self.exercise_title@,
            reps: self.reps,
            weight: self.weight,
            dist: self.dist,
        }
    }
}

impl Default for PopupState {
    /// All popups closed, an empty title, no measure chosen.
    fn default() -> (r: Self)
        ensures
            r@ == (PopupView {
                add_workout: false,
                add_exercise: false,
                add_set: false,
                exercise_title: Seq::empty(),
                reps: false,
                weight: false,
                dist: false,
            }),
    {
        PopupState {
            add_workout: false,
            add_exercise: false,
            add_set: false,
            exercise_title: String::new(),
            reps: false,
            weight: false,
            dist: false,
        }
    }
}

impl PopupState {
    /// The exercise title, for editing in place.
    pub fn get_mut_exercise_title(&mut self) -> (r: &mut String)
        ensures
            r@ == old(self)@.exercise_title,
            final(self)@ == (PopupView { exercise_title: final(r)@, ..old(self)@ }),
    {
        &mut self.exercise_title
    }

    /// Whether the add-workout popup is open, for editing in place.
    pub fn get_mut_add_workout(&mut self) -> (r: &mut bool)
        ensures
            *r == old(self)@.add_workout,
            final(self)@ == (PopupView { add_workout: *final(r), ..old(self)@ }),
    {
        &mut self.add_workout
    }

    /// Whether the add-exercise popup is open, for editing in place.
    pub fn get_mut_add_exercise(&mut self) -> (r: &mut bool)
        ensures
            *r == old(self)@.add_exercise,
            final(self)@ == (PopupView { add_exercise: *final(r), ..old(self)@ }),
    {
        &mut self.add_exercise
    }

    /// Whether the add-set popup is open, for editing in place.
    pub fn get_mut_add_set(&mut self) -> (r: &mut bool)
        ensures
            *r == old(self)@.add_set,
            final(self)@ == (PopupView { add_set: *final(r), ..old(self)@ }),
    {
        &mut self.add_set
    }

    /// Opens or closes the add-workout popup.
    pub fn mut_add_workout(&mut self, value: bool)
        ensures
            final(self)@ == (PopupView { add_workout: value, ..old(self)@ }),
    {
        self.add_workout = value;
    }

    /// Opens or closes the add-exercise popup.
    pub fn mut_add_exercise(&mut self, value: bool)
        ensures
            final(self)@ == (PopupView { add_exercise: value, ..old(self)@ }),
    {
        self.add_exercise = value;
    }

    /// Opens or closes the add-set popup.
    pub fn mut_add_set(&mut self, value: bool)
        ensures
            final(self)@ == (PopupView { add_set: value, ..old(self)@ }),
    {
        self.add_set = value;
    }

    /// Whether the add-workout popup is open.
    pub fn add_workout_open(&self) -> (r: bool)
        ensures
            r == self@.add_workout,
    {
        self.add_workout
    }

    /// Whether the add-exercise popup is open.
    pub fn add_exercise_open(&self) -> (r: bool)
        ensures
            r == self@.add_exercise,
    {
        self.add_exercise
    }

    /// Whether the add-set popup is open.
    pub fn add_set_open(&self) -> (r: bool)
        ensures
            r == self@.add_set,
    {
        self.add_set
    }

    /// Applies a button press from one of the popups.
    pub fn on_event(&mut self, event: PopupEvent)
        ensures
            final(self)@ == on_event_spec(old(self)@, event),
    {
        match event {
            PopupEvent::AddExercise => if self.add_workout {
                self.add_exercise = true;
            },
            PopupEvent::SaveWorkout | PopupEvent::CancelWorkout => if self.add_workout {
                self.add_workout = false;
            },
            PopupEvent::AddSet => if self.add_exercise {
                self.add_set = true;
            },
            PopupEvent::SaveExercise | PopupEvent::CancelExercise => if self.add_exercise {
                self.add_exercise = false;
            },
            PopupEvent::SaveSet | PopupEvent::CancelSet => if self.add_set {
                self.add_set = false;
            },
        }
    }
}

} // verus!

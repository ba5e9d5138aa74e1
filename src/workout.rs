use vstd::prelude::*;

verus! {

/// A single recorded attempt at a movement.
///
/// Weight (kilograms) and distance (meters) are floating-point quantities;
/// they are held here as the bit pattern of an IEEE-754 binary64 value, which
/// keeps every value exactly and leaves arithmetic on them to the caller.
#[derive(Debug, Clone, Copy, PartialEq, Eq, Structural)]
pub struct ExerciseSet {
    /// The number of repetitions.
    pub reps: Option<usize>,
    /// The weight used, as the bits of a binary64 number of kilograms.
    pub wght: Option<u64>,
    /// The distance covered, as the bits of a binary64 number of meters.
    pub dist: Option<u64>,
}

impl ExerciseSet {
    /// Builds a set from its three optional measures.
    pub fn new(reps: Option<usize>, wght: Option<u64>, dist: Option<u64>) -> (r: Self)
        ensures
            r == (ExerciseSet { reps, wght, dist }),
    {
        ExerciseSet { reps, wght, dist }
    }
}

impl Default for ExerciseSet {
    /// A blank set: no reps, no weight, no distance.
    fn default() -> (r: Self)
        ensures
            r == (ExerciseSet { reps: None, wght: None, dist: None }),
    {
        ExerciseSet::new(None, None, None)
    }
}

/// A named sequence of sets, kept in the order they were added.
#[derive(Debug, Clone, PartialEq, Eq)]
pub struct Exercise {
    kind: String,
    sets: Vec<ExerciseSet>,
}

impl Exercise {
    /// The name of the movement.
    pub closed spec fn spec_kind(&self) -> Seq<char> {
        self.kind@
    }

    /// The sets, in insertion order.
    pub closed spec fn spec_sets(&self) -> Seq<ExerciseSet> {
        self.sets@
    }

    /// An exercise named `kind`, with no sets yet.
    pub fn new(kind: &str) -> (r: Self)
        ensures
            r.spec_kind() == kind@,
            r.spec_sets() == Seq::<ExerciseSet>::empty(),
    {
        Exercise { kind: kind.to_owned(), sets: Vec::new() }
    }

    /// Appends a set; duplicates are kept.
    pub fn push_set(&mut self, set: ExerciseSet)
        ensures
            final(self).spec_kind() == old(self).spec_kind(),
            final(self).spec_sets() == old(self).spec_sets().push(set),
    {
        self.sets.push(set);
    }

    /// The name of the movement.
    pub fn kind(&self) -> (r: &str)
        ensures
            r@ == self.spec_kind(),
    {
        self.kind.as_str()
    }

    /// The sets, in insertion order.
    pub fn sets(&self) -> (r: &[ExerciseSet])
        ensures
            r@ == self.spec_sets(),
    {
        self.sets.as_slice()
    }
}

/// A training session: exercises recorded under one timestamp, which is the
/// workout's identity in a store.
#[derive(Debug, Clone, PartialEq, Eq)]
pub struct Workout {
    exercises: Vec<Exercise>,
    timestamp: u128,
}

/// Relies on `std::time::SystemTime::now`: the wall-clock time as whole
/// milliseconds since the Unix epoch (0 for a clock set before the epoch).
/// Nothing is known of the value.
#[verifier::external_body]
fn unix_millis_now() -> (r: u128) {
    std::time::SystemTime::now().duration_since(std::time::UNIX_EPOCH).unwrap_or_default().as_millis()
}

impl Workout {
    /// Milliseconds since the Unix epoch; the workout's identity.
    pub closed spec fn spec_timestamp(&self) -> u128 {
        self.timestamp
    }

    /// The exercises, in insertion order.
    pub closed spec fn spec_exercises(&self) -> Seq<Exercise> {
        self.exercises@
    }

    /// An empty workout stamped with the current wall-clock time.
    pub fn new() -> (r: Self)
        ensures
            r.spec_exercises() == Seq::<Exercise>::empty(),
    {
        Workout::with_timestamp(unix_millis_now())
    }

    /// An empty workout with the given timestamp.
    pub fn with_timestamp(timestamp: u128) -> (r: Self)
        ensures
            r.spec_timestamp() == timestamp,
            r.spec_exercises() == Seq::<Exercise>::empty(),
    {
        Workout { exercises: Vec::new(), timestamp }
    }

    /// Appends an exercise; the timestamp is unchanged.
    pub fn push_exercise(&mut self, exercise: Exercise)
        ensures
            final(self).spec_timestamp() == old(self).spec_timestamp(),
            final(self).spec_exercises() == old(self).spec_exercises().push(exercise),
    {
        self.exercises.push(exercise);
    }

    /// Milliseconds since the Unix epoch.
    pub fn timestamp(&self) -> (r: u128)
        ensures
            r == self.spec_timestamp(),
    {
        self.timestamp
    }

    /// The exercises, in insertion order.
    pub fn exercises(&self) -> (r: &[Exercise])
        ensures
            r@ == self.spec_exercises(),
    {
        self.exercises.as_slice()
    }
}

} // verus!

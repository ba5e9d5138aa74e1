use rst::app::App;
use rst::persist::{deserialize_workouts, SaveAction, SaveError, SaveSession, SaveStep, StepOutcome};
use rst::workout::Workout;

fn parse_error(text: &str) -> serde_json::Error {
    serde_json::from_str::<Vec<u64>>(text).unwrap_err()
}

/// A file as the save steps see it: bytes and a cursor.
struct FakeFile {
    contents: Vec<u8>,
    cursor: usize,
}

impl FakeFile {
    fn write(&mut self, bytes: &[u8]) {
        if self.cursor > self.contents.len() {
            self.contents.resize(self.cursor, 0);
        }
        for (i, b) in bytes.iter().enumerate() {
            let at = self.cursor + i;
            if at < self.contents.len() {
                self.contents[at] = *b;
            } else {
                self.contents.push(*b);
            }
        }
        self.cursor += bytes.len();
    }
}

/// Runs a save against `file`, writing at most `chunk` bytes per write.
fn run_save(file: &mut FakeFile, payload: &[u8], chunk: usize) -> Result<usize, SaveError> {
    let mut session = SaveSession::new(Ok(payload.to_vec()));
    loop {
        let outcome = match session.next_action() {
            SaveAction::Truncate => {
                file.contents.clear();
                StepOutcome::Done
            }
            SaveAction::Rewind => {
                file.cursor = 0;
                StepOutcome::Done
            }
            SaveAction::Write { .. } => {
                let pending = session.pending();
                let n = pending.len().min(chunk);
                file.write(&pending[..n]);
                StepOutcome::Wrote(n)
            }
            SaveAction::Flush => StepOutcome::Done,
            SaveAction::Finished(result) => return result,
        };
        session = session.advance(outcome);
    }
}

/// Feeds `outcomes` to a fresh save of `payload` and returns where it ends.
fn finish_with(payload: &[u8], outcomes: &[StepOutcome]) -> SaveAction {
    let mut session = SaveSession::new(Ok(payload.to_vec()));
    for outcome in outcomes {
        session = session.advance(*outcome);
    }
    session.next_action()
}

#[test]
fn deserialize_keeps_parsed_records() {
    let records = vec![Workout::with_timestamp(2), Workout::with_timestamp(1)];
    assert_eq!(deserialize_workouts(Ok(records.clone())), records);
}

#[test]
fn empty_or_corrupt_file_gives_no_workouts() {
    assert!(deserialize_workouts(Err(parse_error(""))).is_empty());
    assert!(deserialize_workouts(Err(parse_error("[{\"timestamp\": "))).is_empty());
    let app = App::new(Err(parse_error("")));
    assert_eq!(app.workouts().len(), 0);
    let app = App::new(Err(parse_error("not json")));
    assert_eq!(app.workouts().len(), 0);
}

#[test]
fn app_new_inserts_records_in_file_order() {
    let records = vec![Workout::with_timestamp(9), Workout::with_timestamp(4), Workout::with_timestamp(9)];
    let app = App::new(Ok(records));
    assert_eq!(app.workouts().len(), 2);
}

#[test]
fn save_writes_the_whole_payload_in_pieces() {
    let mut file = FakeFile { contents: Vec::new(), cursor: 0 };
    let payload = b"[\n  {\"timestamp\": 1000}\n]".to_vec();
    assert_eq!(run_save(&mut file, &payload, 4), Ok(payload.len()));
    assert_eq!(file.contents, payload);
}

#[test]
fn smaller_save_leaves_no_trailing_bytes() {
    let mut file = FakeFile { contents: Vec::new(), cursor: 0 };
    let large = vec![b'x'; 300];
    assert_eq!(run_save(&mut file, &large, 64), Ok(300));
    let small = b"[]".to_vec();
    assert_eq!(run_save(&mut file, &small, 64), Ok(2));
    assert_eq!(file.contents.len(), small.len());
    assert_eq!(file.contents, small);
}

#[test]
fn save_steps_come_in_order() {
    let mut session = SaveSession::new(Ok(vec![1, 2, 3]));
    assert_eq!(session.next_action(), SaveAction::Truncate);
    session = session.advance(StepOutcome::Done);
    assert_eq!(session.next_action(), SaveAction::Rewind);
    session = session.advance(StepOutcome::Done);
    assert_eq!(session.next_action(), SaveAction::Write { offset: 0 });
    assert_eq!(session.pending(), &[1, 2, 3][..]);
    session = session.advance(StepOutcome::Wrote(2));
    assert_eq!(session.next_action(), SaveAction::Write { offset: 2 });
    assert_eq!(session.pending(), &[3][..]);
    session = session.advance(StepOutcome::Wrote(1));
    assert_eq!(session.next_action(), SaveAction::Flush);
    session = session.advance(StepOutcome::Done);
    assert_eq!(session.next_action(), SaveAction::Finished(Ok(3)));
}

#[test]
fn empty_payload_skips_writing() {
    let done = StepOutcome::Done;
    assert_eq!(finish_with(&[], &[done, done]), SaveAction::Flush);
    assert_eq!(finish_with(&[], &[done, done, done]), SaveAction::Finished(Ok(0)));
}

#[test]
fn serialization_error_fails_before_touching_the_file() {
    let session = SaveSession::new(Err(parse_error("nope")));
    let failed = SaveAction::Finished(Err(SaveError { step: SaveStep::Serialize }));
    assert_eq!(session.next_action(), failed);
    assert_eq!(session.advance(StepOutcome::Done).next_action(), failed);
}

#[test]
fn each_failing_step_is_named() {
    let done = StepOutcome::Done;
    let failed = StepOutcome::Failed;
    let err = |step| SaveAction::Finished(Err(SaveError { step }));
    assert_eq!(finish_with(b"ab", &[failed]), err(SaveStep::Truncate));
    assert_eq!(finish_with(b"ab", &[done, failed]), err(SaveStep::Rewind));
    assert_eq!(finish_with(b"ab", &[done, done, failed]), err(SaveStep::Write));
    assert_eq!(finish_with(b"ab", &[done, done, StepOutcome::Wrote(2), failed]), err(SaveStep::Flush));
}

#[test]
fn write_outcomes_that_do_not_fit_fail_the_write() {
    let done = StepOutcome::Done;
    let err = SaveAction::Finished(Err(SaveError { step: SaveStep::Write }));
    assert_eq!(finish_with(b"ab", &[done, done, StepOutcome::Wrote(0)]), err);
    assert_eq!(finish_with(b"ab", &[done, done, StepOutcome::Wrote(3)]), err);
    assert_eq!(finish_with(b"ab", &[done, done, done]), err);
    assert_eq!(
        finish_with(b"ab", &[StepOutcome::Wrote(1)]),
        SaveAction::Finished(Err(SaveError { step: SaveStep::Truncate }))
    );
}

#[test]
fn finished_save_ignores_further_outcomes() {
    let done = StepOutcome::Done;
    let outcomes = [done, done, StepOutcome::Wrote(1), done, StepOutcome::Failed];
    assert_eq!(finish_with(b"a", &outcomes), SaveAction::Finished(Ok(1)));
}

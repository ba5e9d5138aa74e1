use vstd::prelude::*;

use crate::workout::Workout;

verus! {

/// Errors of `serde_json`, carried through unchanged; nothing inside one is
/// read.
#[verifier::external_type_specification]
#[verifier::external_body]
pub struct ExJsonError(serde_json::Error);

/// The workouts to start from, given what parsing the data file produced: a
/// file that is empty, newly created or not a JSON array of workouts counts
/// as holding none.
pub fn deserialize_workouts(parsed: Result<Vec<Workout>, serde_json::Error>) -> (r: Vec<Workout>)
    ensures
        parsed matches Ok(records) ==> r@ == records@,
        parsed is Err ==> r@ == Seq::<Workout>::empty(),
{
    match parsed {
        Ok(records) => records,
        Err(_) => Vec::new(),
    }
}

/// A file as saving sees it: its bytes, and the position where the next
/// write lands.
pub struct FileImage {
    pub contents: Seq<u8>,
    pub cursor: nat,
}

/// A file operation that succeeded.
pub enum FileOp {
    /// Set the length to zero; the cursor does not move.
    Truncate,
    /// Move the cursor to the start.
    Rewind,
    /// Write these bytes at the cursor.
    Write(Seq<u8>),
    /// Push buffered bytes to the file; the contents seen do not change.
    Flush,
}

/// The file after writing `bytes` at its cursor: a cursor past the end
/// leaves a gap of zero bytes, and bytes beyond the written range stay.
pub open spec fn written(f: FileImage, bytes: Seq<u8>) -> FileImage {
    let len = f.contents.len();
    let prefix = if f.cursor <= len {
        f.contents.take(f.cursor as int)
    } else {
        f.contents + Seq::new((f.cursor - len) as nat, |i: int| 0u8)
    };
    let end = f.cursor + bytes.len();
    let tail = if end < len {
        f.contents.skip(end as int)
    } else {
        Seq::<u8>::empty()
    };
    FileImage { contents: prefix + bytes + tail, cursor: end }
}

/// The file after one operation.
pub open spec fn apply_op(f: FileImage, op: FileOp) -> FileImage {
    match op {
        FileOp::Truncate => FileImage { contents: Seq::empty(), cursor: f.cursor },
        FileOp::Rewind => FileImage { contents: f.contents, cursor: 0 },
        FileOp::Write(bytes) => written(f, bytes),
        FileOp::Flush => f,
    }
}

/// The file after a sequence of operations, first to last.
pub open spec fn apply_ops(f: FileImage, ops: Seq<FileOp>) -> FileImage
    decreases ops.len(),
{
    if ops.len() == 0 {
        f
    } else {
        apply_op(apply_ops(f, ops.drop_last()), ops.last())
    }
}

/// The bytes of all writes among `ops`, in order.
pub open spec fn bytes_written_by(ops: Seq<FileOp>) -> Seq<u8>
    decreases ops.len(),
{
    if ops.len() == 0 {
        Seq::empty()
    } else {
        bytes_written_by(ops.drop_last()) + match ops.last() {
            FileOp::Write(bytes) => bytes,
            _ => Seq::<u8>::empty(),
        }
    }
}

/// Whether `ops` is a truncation, then a rewind, then only writes.
pub open spec fn writes_after_rewind(ops: Seq<FileOp>) -> bool {
    &&& ops.len() >= 2
    &&& ops[0] == FileOp::Truncate
    &&& ops[1] == FileOp::Rewind
    &&& forall|i: int| 2 <= i < ops.len() ==> #[trigger] ops[i] is Write
}

/// Whether `ops` is what a successful save of `payload` performs: truncate,
/// rewind, writes that together give `payload`, and a final flush.
pub open spec fn is_successful_save(ops: Seq<FileOp>, payload: Seq<u8>) -> bool {
    &&& ops.len() >= 3
    &&& writes_after_rewind(ops.drop_last())
    &&& ops.last() == FileOp::Flush
    &&& bytes_written_by(ops) == payload
}

proof fn lemma_writes_after_rewind(f: FileImage, ops: Seq<FileOp>)
    requires
        writes_after_rewind(ops),
    ensures
        apply_ops(f, ops) == (FileImage {
            contents: bytes_written_by(ops),
            cursor: bytes_written_by(ops).len(),
        }),
    decreases ops.len(),
{
    if ops.len() == 2 {
        let one = ops.drop_last();
        assert(one.drop_last() =~= Seq::<FileOp>::empty());
        assert(bytes_written_by(one.drop_last()) =~= Seq::<u8>::empty());
        assert(bytes_written_by(one) =~= Seq::<u8>::empty());
        assert(bytes_written_by(ops) =~= Seq::<u8>::empty());
        assert(one.last() == FileOp::Truncate);
        assert(ops.last() == FileOp::Rewind);
        assert(apply_ops(f, one.drop_last()) == f);
        assert(apply_ops(f, one).contents =~= Seq::<u8>::empty());
        assert(apply_ops(f, ops).contents =~= Seq::<u8>::empty());
    } else {
        let init = ops.drop_last();
        assert forall|i: int| 2 <= i < init.len() implies #[trigger] init[i] is Write by {
            assert(ops[i] is Write);
        }
        lemma_writes_after_rewind(f, init);
        assert(ops[ops.len() - 1] is Write);
        let w = bytes_written_by(init);
        let before = apply_ops(f, init);
        assert(before.contents.take(before.cursor as int) =~= w);
        let bytes = ops.last()->Write_0;
        assert(bytes_written_by(ops) == w + bytes);
        assert(apply_ops(f, ops) == written(before, bytes));
        assert(written(before, bytes).contents =~= w + bytes);
    }
}

/// Whatever the file held before, even the longer payload of an earlier
/// save, a successful save leaves exactly its own payload in it, with no
/// bytes of the old contents after it.
pub proof fn lemma_save_replaces_contents(before: FileImage, ops: Seq<FileOp>, payload: Seq<u8>)
    requires
        is_successful_save(ops, payload),
    ensures
        apply_ops(before, ops).contents == payload,
        apply_ops(before, ops).contents.len() == payload.len(),
{
    lemma_writes_after_rewind(before, ops.drop_last());
    assert(bytes_written_by(ops) =~= bytes_written_by(ops.drop_last()));
}

/// A step of saving; a failed save names the step that failed.
#[derive(Debug, Clone, Copy, PartialEq, Eq, Structural)]
pub enum SaveStep {
    Serialize,
    Truncate,
    Rewind,
    Write,
    Flush,
}

/// Why a save did not complete.
#[derive(Debug, Clone, Copy, PartialEq, Eq, Structural)]
pub struct SaveError {
    /// The step that failed.
    pub step: SaveStep,
}

/// What became of the file operation last asked for.
#[derive(Debug, Clone, Copy, PartialEq, Eq, Structural)]
pub enum StepOutcome {
    /// A truncation, rewind or flush succeeded.
    Done,
    /// A write succeeded and took this many bytes.
    Wrote(usize),
    /// The operation failed.
    Failed,
}

/// Where a save stands.
#[derive(Debug, Clone, Copy, PartialEq, Eq, Structural)]
pub enum SaveStage {
    Truncating,
    Rewinding,
    Writing,
    Flushing,
    Saved,
    Aborted(SaveStep),
}

/// What the caller is to do next.
#[derive(Debug, Clone, Copy, PartialEq, Eq)]
pub enum SaveAction {
    /// Set the file's length to zero.
    Truncate,
    /// Move the file's cursor to the start.
    Rewind,
    /// Write the pending bytes, those of the payload from `offset` on.
    Write { offset: usize },
    /// Flush the file.
    Flush,
    /// Nothing is left to do: the number of bytes saved, or why the save
    /// failed.
    Finished(Result<usize, SaveError>),
}

/// The stage a save moves to, the bytes written after that, and the file
/// operations that `outcome` adds to those that succeeded. An outcome that
/// does not fit the current step (a write of no bytes, or of more than are
/// pending, or a write reported for another operation) fails that step.
pub open spec fn advanced(stage: SaveStage, written: nat, payload: Seq<u8>, outcome: StepOutcome) -> (
    SaveStage,
    nat,
    Seq<FileOp>,
) {
    match stage {
        SaveStage::Truncating => if outcome == StepOutcome::Done {
            (SaveStage::Rewinding, written, seq![FileOp::Truncate])
        } else {
            (SaveStage::Aborted(SaveStep::Truncate), written, Seq::empty())
        },
        SaveStage::Rewinding => if outcome == StepOutcome::Done {
            (
                if payload.len() == 0 { SaveStage::Flushing } else { SaveStage::Writing },
                written,
                seq![FileOp::Rewind],
            )
        } else {
            (SaveStage::Aborted(SaveStep::Rewind), written, Seq::empty())
        },
        SaveStage::Writing => if outcome is Wrote && 0 < outcome->Wrote_0 && written
            + outcome->Wrote_0 <= payload.len() {
            let end = (written + outcome->Wrote_0) as nat;
            (
                if end == payload.len() { SaveStage::Flushing } else { SaveStage::Writing },
                end,
                seq![FileOp::Write(payload.subrange(written as int, end as int))],
            )
        } else {
            (SaveStage::Aborted(SaveStep::Write), written, Seq::empty())
        },
        SaveStage::Flushing => if outcome == StepOutcome::Done {
            (SaveStage::Saved, written, seq![FileOp::Flush])
        } else {
            (SaveStage::Aborted(SaveStep::Flush), written, Seq::empty())
        },
        SaveStage::Saved => (stage, written, Seq::empty()),
        SaveStage::Aborted(_) => (stage, written, Seq::empty()),
    }
}

/// The action that a save at `stage`, with `written` of `len` bytes
/// written, asks for.
pub open spec fn action_at(stage: SaveStage, written: nat, len: nat) -> SaveAction {
    match stage {
        SaveStage::Truncating => SaveAction::Truncate,
        SaveStage::Rewinding => SaveAction::Rewind,
        SaveStage::Writing => SaveAction::Write { offset: written as usize },
        SaveStage::Flushing => SaveAction::Flush,
        SaveStage::Saved => SaveAction::Finished(Ok(len as usize)),
        SaveStage::Aborted(step) => SaveAction::Finished(Err(SaveError { step })),
    }
}

/// Replacing a file's contents with a serialized store: truncate the file to
/// zero length, move the cursor to the start, write the whole payload, and
/// flush, in that order, stopping at the first step that fails.
pub struct SaveSession {
    payload: Vec<u8>,
    stage: SaveStage,
    written: usize,
    performed: Ghost<Seq<FileOp>>,
}

impl SaveSession {
    #[verifier::type_invariant]
    spec fn inv(self) -> bool {
        let ops = self.performed@;
        let payload = self.payload@;
        &&& self.written <= payload.len()
        &&& match self.stage {
            SaveStage::Truncating => ops == Seq::<FileOp>::empty() && self.written == 0,
            SaveStage::Rewinding => ops == seq![FileOp::Truncate] && self.written == 0,
            SaveStage::Writing => writes_after_rewind(ops) && bytes_written_by(ops) == payload.take(
                self.written as int,
            ) && self.written < payload.len(),
            SaveStage::Flushing => writes_after_rewind(ops) && bytes_written_by(ops) == payload
                && self.written == payload.len(),
            SaveStage::Saved => is_successful_save(ops, payload) && self.written == payload.len(),
            SaveStage::Aborted(_) => true,
        }
    }

    /// The bytes to be saved.
    pub closed spec fn spec_payload(&self) -> Seq<u8> {
        self.payload@
    }

    /// Where the save stands.
    pub closed spec fn spec_stage(&self) -> SaveStage {
        self.stage
    }

    /// How many bytes of the payload have been written.
    pub closed spec fn spec_written(&self) -> nat {
        self.written as nat
    }

    /// The file operations that succeeded so far, in order.
    pub closed spec fn performed(&self) -> Seq<FileOp> {
        self.performed@
    }

    /// Starts a save of what serializing the store produced. A
    /// serialization error fails the save before any file operation.
    pub fn new(serialized: Result<Vec<u8>, serde_json::Error>) -> (r: Self)
        ensures
            r.performed() == Seq::<FileOp>::empty(),
            r.spec_written() == 0,
            serialized matches Ok(bytes) ==> r.spec_stage() == SaveStage::Truncating
                && r.spec_payload() == bytes@,
            serialized is Err ==> r.spec_stage() == SaveStage::Aborted(SaveStep::Serialize),
    {
        match serialized {
            Ok(payload) => SaveSession {
                payload,
                stage: SaveStage::Truncating,
                written: 0,
                performed: Ghost(Seq::empty()),
            },
            Err(_) => SaveSession {
                payload: Vec::new(),
                stage: SaveStage::Aborted(SaveStep::Serialize),
                written: 0,
                performed: Ghost(Seq::empty()),
            },
        }
    }

    /// What to do next. A reported success means the operations that
    /// succeeded make a successful save of the whole payload.
    pub fn next_action(&self) -> (r: SaveAction)
        ensures
            r == action_at(self.spec_stage(), self.spec_written(), self.spec_payload().len()),
            r == SaveAction::Finished(Ok(self.spec_payload().len() as usize)) ==> is_successful_save(
                self.performed(),
                self.spec_payload(),
            ),
    {
        proof { use_type_invariant(self); }
        match self.stage {
            SaveStage::Truncating => SaveAction::Truncate,
            SaveStage::Rewinding => SaveAction::Rewind,
            SaveStage::Writing => SaveAction::Write { offset: self.written },
            SaveStage::Flushing => SaveAction::Flush,
            SaveStage::Saved => SaveAction::Finished(Ok(self.payload.len())),
            SaveStage::Aborted(step) => SaveAction::Finished(Err(SaveError { step })),
        }
    }

    /// The payload bytes not yet written.
    pub fn pending(&self) -> (r: &[u8])
        ensures
            r@ == self.spec_payload().skip(self.spec_written() as int),
    {
        proof { use_type_invariant(self); }
        vstd::slice::slice_subrange(self.payload.as_slice(), self.written, self.payload.len())
    }

    /// Takes in what became of the operation that `next_action` asked for.
    pub fn advance(self, outcome: StepOutcome) -> (r: Self)
        ensures
            r.spec_payload() == self.spec_payload(),
            (r.spec_stage(), r.spec_written(), r.performed().skip(self.performed().len() as int))
                == advanced(self.spec_stage(), self.spec_written(), self.spec_payload(), outcome),
            r.performed().take(self.performed().len() as int) == self.performed(),
            r.spec_stage() == SaveStage::Saved ==> is_successful_save(r.performed(), r.spec_payload()),
    {
        proof { use_type_invariant(&self); }
        let ghost old_ops = self.performed@;
        let SaveSession { payload, stage, written, performed } = self;
        let len = payload.len();
        let (stage, written, performed) = match stage {
            SaveStage::Truncating => if outcome == StepOutcome::Done {
                (SaveStage::Rewinding, written, Ghost(old_ops.push(FileOp::Truncate)))
            } else {
                (SaveStage::Aborted(SaveStep::Truncate), written, performed)
            },
            SaveStage::Rewinding => if outcome == StepOutcome::Done {
                let next = if len == 0 { SaveStage::Flushing } else { SaveStage::Writing };
                (next, written, Ghost(old_ops.push(FileOp::Rewind)))
            } else {
                (SaveStage::Aborted(SaveStep::Rewind), written, performed)
            },
            SaveStage::Writing => match outcome {
                StepOutcome::Wrote(n) if 0 < n && n <= len - written => {
                    let end = written + n;
                    let next = if end == len { SaveStage::Flushing } else { SaveStage::Writing };
                    let ghost chunk = payload@.subrange(written as int, end as int);
                    proof {
                        let ops = old_ops.push(FileOp::Write(chunk));
                        assert(ops.drop_last() == old_ops);
                        assert(payload@.take(end as int) =~= payload@.take(written as int) + chunk);
                        assert forall|i: int| 2 <= i < ops.len() implies #[trigger] ops[i] is Write by {
                            if i < old_ops.len() {
                                assert(old_ops[i] is Write);
                            }
                        }
                        if end == len {
                            assert(payload@.take(end as int) =~= payload@);
                        }
                    }
                    (next, end, Ghost(old_ops.push(FileOp::Write(chunk))))
                },
                _ => (SaveStage::Aborted(SaveStep::Write), written, performed),
            },
            SaveStage::Flushing => if outcome == StepOutcome::Done {
                proof {
                    let ops = old_ops.push(FileOp::Flush);
                    assert(ops.drop_last() == old_ops);
                    assert(bytes_written_by(ops) =~= bytes_written_by(old_ops));
                }
                (SaveStage::Saved, written, Ghost(old_ops.push(FileOp::Flush)))
            } else {
                (SaveStage::Aborted(SaveStep::Flush), written, performed)
            },
            SaveStage::Saved => (stage, written, performed),
            SaveStage::Aborted(step) => (stage, written, performed),
        };
        proof {
            if stage == SaveStage::Rewinding {
                assert(performed@ =~= seq![FileOp::Truncate]);
            }
            if old_ops.len() == 1 && performed@.len() == 2 {
                let ops = performed@;
                assert(ops[0] == FileOp::Truncate);
                assert(ops.drop_last() =~= seq![FileOp::Truncate]);
                assert(ops.drop_last().drop_last() =~= Seq::<FileOp>::empty());
                assert(ops.last() == FileOp::Rewind);
                assert(bytes_written_by(ops.drop_last().drop_last()) =~= Seq::<u8>::empty());
                assert(bytes_written_by(ops.drop_last()) =~= Seq::<u8>::empty());
                assert(bytes_written_by(ops) =~= Seq::<u8>::empty());
                assert(payload@.take(0) =~= Seq::<u8>::empty());
                if len == 0 {
                    assert(payload@ =~= Seq::<u8>::empty());
                }
            }
        }
        let r = SaveSession { payload, stage, written, performed };
        proof {
            let added = r.performed@.skip(old_ops.len() as int);
            assert(r.performed@.take(old_ops.len() as int) =~= old_ops);
            if r.performed@.len() == old_ops.len() {
                assert(added =~= Seq::<FileOp>::empty());
            } else {
                assert(added =~= seq![r.performed@.last()]);
            }
        }
        r
    }
}

} // verus!

//! The pipeline in steps, for a caller that reports progress between them.
//!
//! A [`Job`] holds a buffer on its way through the three stages of one
//! direction, under one key. Each call of [`Job::advance`] does one bounded
//! piece of work. What the job will have produced when it is done never
//! changes on the way: it is what [`transform`](crate::transform::transform)
//! makes of the buffer that the job started from.

use crate::key::KeyTable;
use crate::transform::{
    pad, pad_bytes, rotate_bytes, rotate_range, rotate_span, transform_bytes, xor_bytes,
    xor_range, xor_span, Direction,
};
use vstd::prelude::*;

verus! {

/// The most bytes that one step works on. A whole number of words.
pub const CHUNK_LEN: usize = 1_048_576;

/// Number of stages in a direction.
pub const STAGES: usize = 3;

/// One of the three primitive transforms, as a stage of the pipeline.
#[derive(Clone, Copy, Debug, PartialEq, Eq, Structural)]
pub enum Stage {
    /// The cyclic XOR with the key.
    Xor,
    /// The padding to whole words.
    Pad,
    /// The rotation of each word.
    Rotate,
}

/// The stage that stands at place `index` in `direction`: XOR, padding,
/// rotation when clearing; padding, rotation, XOR when obfuscating.
pub open spec fn stage_of(direction: Direction, index: nat) -> Stage
    recommends
        index < STAGES,
{
    match direction {
        Direction::ToClear => if index == 0 {
            Stage::Xor
        } else if index == 1 {
            Stage::Pad
        } else {
            Stage::Rotate
        },
        Direction::ToObfuscated => if index == 0 {
            Stage::Pad
        } else if index == 1 {
            Stage::Rotate
        } else {
            Stage::Xor
        },
    }
}

/// What the whole of `stage` makes of `data`.
pub open spec fn apply(stage: Stage, direction: Direction, data: Seq<u8>, key: Seq<u8>) -> Seq<
    u8,
> {
    match stage {
        Stage::Xor => xor_bytes(data, key),
        Stage::Pad => pad_bytes(data),
        Stage::Rotate => rotate_bytes(data, direction == Direction::ToClear),
    }
}

/// What the stages from place `index` on make of `data`, one after the other.
pub open spec fn apply_from(direction: Direction, index: nat, data: Seq<u8>, key: Seq<u8>) -> Seq<
    u8,
>
    decreases STAGES - index,
{
    if index >= STAGES {
        data
    } else {
        let stage = stage_of(direction, index);
        apply_from(direction, index + 1, apply(stage, direction, data, key), key)
    }
}

/// The end of the piece of work that starts at byte `pos` of `len`.
pub open spec fn chunk_end(pos: nat, len: nat) -> nat {
    if pos + CHUNK_LEN < len {
        pos + CHUNK_LEN as nat
    } else {
        len
    }
}

/// A job as contracts see it.
pub struct JobView {
    /// The buffer as it stands.
    pub data: Seq<u8>,
    /// The direction of the pipeline.
    pub direction: Direction,
    /// The bytes of the key.
    pub key: Seq<u8>,
    /// How many stages are complete.
    pub done: nat,
    /// How many bytes the stage at work has dealt with.
    pub pos: nat,
}

impl JobView {
    /// What holds of every job: no more stages are complete than there are,
    /// the stage at work has not gone past the end of the buffer, the padding
    /// is done in one piece, and while the rotation is at work the buffer is
    /// made of whole words, of which a whole number has been dealt with.
    pub open spec fn wf(self) -> bool {
        &&& self.done <= STAGES
        &&& self.pos <= self.data.len()
        &&& self.done == STAGES ==> self.pos == 0
        &&& self.done < STAGES && stage_of(self.direction, self.done) == Stage::Pad ==> self.pos
            == 0
        &&& self.done < STAGES && stage_of(self.direction, self.done) == Stage::Rotate ==> {
            &&& self.data.len() % 8 == 0
            &&& self.pos % 8 == 0
        }
    }

    /// The stage at work, or `None` once all are complete.
    pub open spec fn stage(self) -> Option<Stage> {
        if self.done < STAGES {
            Some(stage_of(self.direction, self.done))
        } else {
            None
        }
    }

    /// The job after the stage at work is complete, with `data` for its
    /// buffer.
    pub open spec fn stage_complete(self, data: Seq<u8>) -> JobView {
        JobView { data, direction: self.direction, key: self.key, done: self.done + 1, pos: 0 }
    }

    /// The job after one more piece of work on the stage, which has then
    /// dealt with `pos` bytes of the buffer `data`.
    pub open spec fn moved_to(self, data: Seq<u8>, pos: nat) -> JobView {
        if pos == data.len() {
            self.stage_complete(data)
        } else {
            JobView { data, direction: self.direction, key: self.key, done: self.done, pos }
        }
    }

    /// The job after one step: the next [`CHUNK_LEN`] bytes, or what is left
    /// of them, XORed or rotated, or the whole buffer padded. A job that is
    /// done stays as it is.
    pub open spec fn next(self) -> JobView {
        let end = chunk_end(self.pos, self.data.len());
        match self.stage() {
            None => self,
            Some(Stage::Xor) => self.moved_to(
                xor_span(self.data, self.key, self.pos as int, end as int),
                end,
            ),
            Some(Stage::Pad) => self.stage_complete(pad_bytes(self.data)),
            Some(Stage::Rotate) => self.moved_to(
                rotate_span(
                    self.data,
                    self.direction == Direction::ToClear,
                    self.pos as int / 8,
                    end as int / 8,
                ),
                end,
            ),
        }
    }

    /// The buffer once the stage at work is complete.
    pub open spec fn after_stage(self) -> Seq<u8> {
        match self.stage() {
            None => self.data,
            Some(Stage::Xor) => xor_span(
                self.data,
                self.key,
                self.pos as int,
                self.data.len() as int,
            ),
            Some(Stage::Pad) => pad_bytes(self.data),
            Some(Stage::Rotate) => rotate_span(
                self.data,
                self.direction == Direction::ToClear,
                self.pos as int / 8,
                self.data.len() as int / 8,
            ),
        }
    }

    /// The buffer once the job is done.
    pub open spec fn outcome(self) -> Seq<u8> {
        apply_from(self.direction, self.done + 1, self.after_stage(), self.key)
    }

    /// The job that starts on `data`.
    pub open spec fn start(data: Seq<u8>, direction: Direction, key: Seq<u8>) -> JobView {
        JobView { data, direction, key, done: 0, pos: 0 }
    }
}

/// A buffer on its way through the pipeline.
///
/// Its view is a [`JobView`], which is always well formed.
#[derive(Debug)]
pub struct Job<'a> {
    data: Vec<u8>,
    direction: Direction,
    key: &'a KeyTable,
    done: usize,
    pos: usize,
}

impl<'a> View for Job<'a> {
    type V = JobView;

    closed spec fn view(&self) -> JobView {
        JobView {
            data: self.data@,
            direction: self.direction,
            key: self.key@,
            done: self.done as nat,
            pos: self.pos as nat,
        }
    }
}

/// The stage that stands at place `index` in `direction`.
pub fn stage_at(direction: Direction, index: usize) -> (stage: Stage)
    requires
        index < STAGES,
    ensures
        stage == stage_of(direction, index as nat),
{
    match direction {
        Direction::ToClear => if index == 0 {
            Stage::Xor
        } else if index == 1 {
            Stage::Pad
        } else {
            Stage::Rotate
        },
        Direction::ToObfuscated => if index == 0 {
            Stage::Pad
        } else if index == 1 {
            Stage::Rotate
        } else {
            Stage::Xor
        },
    }
}

impl<'a> Job<'a> {
    #[verifier::type_invariant]
    spec fn inv(self) -> bool {
        self@.wf()
    }

    /// The job that takes `data` through the pipeline in `direction` under
    /// `key`, with no work done yet.
    pub fn new(data: Vec<u8>, direction: Direction, key: &'a KeyTable) -> (job: Job<'a>)
        ensures
            job@ == JobView::start(data@, direction, key@),
            job@.wf(),
            job@.outcome() == transform_bytes(data@, direction, key@),
    {
        proof {
            lemma_outcome_at_start(data@, direction, key@);
        }
        Job { data, direction, key, done: 0, pos: 0 }
    }

    /// The direction of the pipeline.
    pub fn direction(&self) -> (direction: Direction)
        ensures
            direction == self@.direction,
    {
        self.direction
    }

    /// The stage at work, or `None` once the job is done.
    pub fn stage(&self) -> (stage: Option<Stage>)
        ensures
            stage == self@.stage(),
            self@.wf(),
    {
        proof {
            use_type_invariant(self);
        }
        if self.done < STAGES {
            Some(stage_at(self.direction, self.done))
        } else {
            None
        }
    }

    /// How many bytes the stage at work has dealt with.
    pub fn position(&self) -> (pos: usize)
        ensures
            pos == self@.pos,
    {
        self.pos
    }

    /// How many bytes the buffer holds as it stands.
    pub fn len(&self) -> (len: usize)
        ensures
            len == self@.data.len(),
    {
        self.data.len()
    }

    /// Does one step: XORs or rotates the next [`CHUNK_LEN`] bytes of the
    /// stage at work, or what is left of them, or pads the buffer. What the
    /// job will produce stays the same.
    pub fn advance(self) -> (next: Job<'a>)
        ensures
            next@ == self@.next(),
            next@.wf(),
            next@.outcome() == self@.outcome(),
    {
        proof {
            use_type_invariant(&self);
            lemma_next_keeps_outcome(self@);
        }
        if self.done >= STAGES {
            return self;
        }
        let stage = stage_at(self.direction, self.done);
        let direction = self.direction;
        let key = self.key;
        let done = self.done;
        let pos = self.pos;
        let mut data = self.data;
        let len = data.len();
        let end = if len - pos > CHUNK_LEN {
            pos + CHUNK_LEN
        } else {
            len
        };
        match stage {
            Stage::Xor => {
                xor_range(&mut data, key.as_slice(), pos, end);
            },
            Stage::Pad => {
                pad(&mut data);
                return Job { data, direction, key, done: done + 1, pos: 0 };
            },
            Stage::Rotate => {
                let left = match direction {
                    Direction::ToClear => true,
                    Direction::ToObfuscated => false,
                };
                rotate_range(&mut data, left, pos / 8, end / 8);
            },
        }
        if end == len {
            Job { data, direction, key, done: done + 1, pos: 0 }
        } else {
            Job { data, direction, key, done, pos: end }
        }
    }

    /// Does all the steps that are left and hands out the buffer.
    pub fn run(self) -> (out: Vec<u8>)
        ensures
            out@ == self@.outcome(),
    {
        let mut job = self;
        loop
            invariant
                job@.outcome() == self@.outcome(),
            decreases STAGES - job@.done, job@.data.len() - job@.pos,
        {
            if job.stage().is_none() {
                proof {
                    lemma_outcome_at_end(job@);
                }
                return job.into_bytes();
            }
            proof {
                lemma_next_makes_progress(job@);
            }
            job = job.advance();
        }
    }

    /// Hands out the buffer as it stands.
    pub fn into_bytes(self) -> (data: Vec<u8>)
        ensures
            data@ == self@.data,
    {
        self.data
    }
}

/// A job that has just started will produce what the pipeline makes of its
/// buffer.
pub proof fn lemma_outcome_at_start(data: Seq<u8>, direction: Direction, key: Seq<u8>)
    ensures
        JobView::start(data, direction, key).wf(),
        JobView::start(data, direction, key).outcome() == transform_bytes(data, direction, key),
{
    reveal_with_fuel(apply_from, 4);
    assert(xor_span(data, key, 0, data.len() as int) =~= xor_bytes(data, key));
}

/// A job that is done has produced its outcome.
pub proof fn lemma_outcome_at_end(job: JobView)
    requires
        job.stage() is None,
    ensures
        job.outcome() == job.data,
{
    reveal_with_fuel(apply_from, 1);
}

/// A step changes nothing in what the job will produce, nor its direction or
/// its key.
pub proof fn lemma_next_keeps_outcome(job: JobView)
    requires
        job.wf(),
    ensures
        job.next().wf(),
        job.next().direction == job.direction,
        job.next().key == job.key,
        job.next().outcome() == job.outcome(),
{
    reveal_with_fuel(apply_from, 4);
    let len = job.data.len();
    let end = chunk_end(job.pos, len);
    let left = job.direction == Direction::ToClear;
    let next = job.next();
    match job.stage() {
        None => {},
        Some(Stage::Xor) => {
            if end == len {
                lemma_whole_stage(next);
            }
        },
        Some(Stage::Pad) => {
            lemma_whole_stage(next);
        },
        Some(Stage::Rotate) => {
            let (from, mid, to) = (job.pos as int / 8, end as int / 8, len as int / 8);
            lemma_rotate_span_joins(job.data, left, from, mid, to);
            if end == len {
                lemma_whole_stage(next);
            }
        },
    }
}

/// A step on a job that is not done completes a stage, or deals with more
/// bytes of a buffer of the same length.
pub proof fn lemma_next_makes_progress(job: JobView)
    requires
        job.wf(),
        job.stage() is Some,
    ensures
        job.next().done == job.done + 1 || (job.next().done == job.done && job.next().pos
            > job.pos && job.next().data.len() == job.data.len()),
{
}

/// Rotating the words up to `mid` and then those from `mid` on is rotating
/// them all.
proof fn lemma_rotate_span_joins(data: Seq<u8>, left: bool, from: int, mid: int, to: int)
    requires
        0 <= from <= mid <= to,
        8 * to <= data.len(),
    ensures
        rotate_span(rotate_span(data, left, from, mid), left, mid, to) == rotate_span(
            data,
            left,
            from,
            to,
        ),
{
    let first = rotate_span(data, left, from, mid);
    let both = rotate_span(first, left, mid, to);
    assert forall|i: int| 0 <= i < data.len() implies both[i] == rotate_span(
        data,
        left,
        from,
        to,
    )[i] by {
        let w = i / 8;
        if mid <= w < to {
            // The first pass has left word `w` alone.
            assert(first.subrange(8 * w, 8 * w + 8) =~= data.subrange(8 * w, 8 * w + 8));
        }
    }
}

/// At the start of a stage, what is left of the stage is the whole of it.
proof fn lemma_whole_stage(job: JobView)
    requires
        job.wf(),
        job.pos == 0,
    ensures
        job.stage() matches Some(stage) ==> job.after_stage() == apply(
            stage,
            job.direction,
            job.data,
            job.key,
        ),
{
    let len = job.data.len() as int;
    match job.stage() {
        Some(Stage::Xor) => {
            assert(xor_span(job.data, job.key, 0, len) =~= xor_bytes(job.data, job.key));
        },
        Some(Stage::Rotate) => {
            let left = job.direction == Direction::ToClear;
            assert(rotate_span(job.data, left, 0, len / 8) =~= rotate_bytes(job.data, left));
        },
        _ => {},
    }
}

} // verus!

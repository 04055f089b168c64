//! The batched source: its parameters, and the state machine that groups
//! decoded rows into batches.
use vstd::prelude::*;
use crate::batch::{
    batch_count, batches_flatten_law, batches_of, batches_shape_law, last_batch_len,
    lemma_batches_of_full_then_pending,
};

verus! {

/// Parameters of a CSV source: the file to read and the number of rows per
/// batch.
pub struct FillCsvArg {
    filepath: String,
    batch_size: usize,
}

impl FillCsvArg {
    /// The path of the CSV file to read.
    pub closed spec fn spec_filepath(&self) -> Seq<char> {
        self.filepath@
    }

    /// The number of rows a full batch holds.
    pub closed spec fn spec_batch_size(&self) -> usize {
        self.batch_size
    }

    /// Makes the parameters of a source reading `filepath` in batches of
    /// `batch_size` rows.
    pub fn new(filepath: &str, batch_size: usize) -> (r: FillCsvArg)
        ensures
            r.spec_filepath() == filepath@,
            r.spec_batch_size() == batch_size,
    {
        let filepath = filepath.to_owned();
        FillCsvArg { filepath, batch_size }
    }

    /// The path of the CSV file to read.
    pub fn filepath(&self) -> (r: &str)
        ensures
            r@ == self.spec_filepath(),
    {
        self.filepath.as_str()
    }

    /// The number of rows a full batch holds.
    pub fn batch_size(&self) -> (r: usize)
        ensures
            r == self.spec_batch_size(),
    {
        self.batch_size
    }

    /// Starts one read of the configured file, in batches of the configured
    /// size.
    pub fn start<T>(&self) -> (r: BatchFill<T>)
        ensures
            r.wf(),
            r.spec_batch_size() == self.spec_batch_size(),
            r.rows_read().len() == 0,
            r.dispatched().len() == 0,
            r.pending_rows().len() == 0,
            !r.spec_finished(),
    {
        BatchFill::new(self.batch_size)
    }
}

/// A CSV source unit: its name, the label of the data it brings in, and its
/// parameters.
pub struct FillCsTea {
    name: String,
    source: String,
    params: FillCsvArg,
}

impl FillCsTea {
    /// The unit's name.
    pub closed spec fn spec_name(&self) -> Seq<char> {
        self.name@
    }

    /// The label of the data the unit brings in.
    pub closed spec fn spec_source(&self) -> Seq<char> {
        self.source@
    }

    /// The unit's parameters.
    pub closed spec fn spec_params(&self) -> FillCsvArg {
        self.params
    }

    /// Makes the source unit `name`, bringing in `source`, with `params`.
    pub fn new(name: &str, source: &str, params: FillCsvArg) -> (r: FillCsTea)
        ensures
            r.spec_name() == name@,
            r.spec_source() == source@,
            r.spec_params() == params,
    {
        FillCsTea { name: name.to_owned(), source: source.to_owned(), params }
    }

    /// The unit's name.
    pub fn name(&self) -> (r: &str)
        ensures
            r@ == self.spec_name(),
    {
        self.name.as_str()
    }

    /// The label of the data the unit brings in.
    pub fn source(&self) -> (r: &str)
        ensures
            r@ == self.spec_source(),
    {
        self.source.as_str()
    }

    /// The unit's parameters.
    pub fn params(&self) -> (r: &FillCsvArg)
        ensures
            *r == self.spec_params(),
    {
        &self.params
    }
}

/// What a source does next, once told of its next decoded row or of the end
/// of its input.
pub enum FillStep<T, E> {
    /// The row joined the batch being filled: read on.
    Continue,
    /// This batch is ready: hand it to the dispatcher, then go on.
    Dispatch(Vec<T>),
    /// The read is over and nothing is left to dispatch.
    Done,
    /// A row failed to decode: the read stops with this error, and the rows
    /// of the unfinished batch are never dispatched.
    Failed(E),
}

/// The batching decisions of a source, fed one decoded row at a time.
///
/// Rows are collected into a pending batch; a batch is handed out the moment
/// it holds `batch_size` rows, and whatever is pending when the input ends
/// goes out as one final batch. A decode failure ends the read: the batches
/// already handed out stand, the pending rows are dropped.
pub struct BatchFill<T> {
    batch_size: usize,
    pending: Vec<T>,
    finished: bool,
    failed: bool,
    read: Ghost<Seq<T>>,
    sent: Ghost<Seq<Seq<T>>>,
}

impl<T> BatchFill<T> {
    /// The capacity of a full batch.
    pub closed spec fn spec_batch_size(&self) -> nat {
        self.batch_size as nat
    }

    /// Every row decoded so far, in input order.
    pub closed spec fn rows_read(&self) -> Seq<T> {
        self.read@
    }

    /// Every batch handed out so far, in the order handed out.
    pub closed spec fn dispatched(&self) -> Seq<Seq<T>> {
        self.sent@
    }

    /// The rows collected for the batch being filled.
    pub closed spec fn pending_rows(&self) -> Seq<T> {
        self.pending@
    }

    /// Whether the read is over.
    pub closed spec fn spec_finished(&self) -> bool {
        self.finished
    }

    /// Whether the read ended on a decode failure.
    pub closed spec fn spec_failed(&self) -> bool {
        self.failed
    }

    /// The state is consistent: while reading, the batches handed out are
    /// full and, with the pending rows, make up exactly the rows read; after a
    /// clean end they are the batches of all rows read; after a failure they
    /// are full batches of a prefix of the rows read.
    pub closed spec fn wf(&self) -> bool {
        &&& !self.finished ==> !self.failed
        &&& !self.finished ==> {
            &&& self.sent@.flatten() + self.pending@ == self.read@
            &&& forall|i: int|
                0 <= i < self.sent@.len() ==> (#[trigger] self.sent@[i]).len() == self.batch_size
            &&& self.batch_size > 0 ==> self.pending@.len() < self.batch_size
            &&& self.batch_size == 0 ==> self.sent@.len() == 0
        }
        &&& self.finished ==> self.pending@.len() == 0
        &&& self.finished && !self.failed ==> self.sent@ == batches_of(
            self.read@,
            self.batch_size as nat,
        )
        &&& self.failed ==> self.sent@.flatten().is_prefix_of(self.read@)
    }

    /// Starts a read that hands out batches of `batch_size` rows.
    pub fn new(batch_size: usize) -> (r: BatchFill<T>)
        ensures
            r.wf(),
            r.spec_batch_size() == batch_size,
            r.rows_read().len() == 0,
            r.dispatched().len() == 0,
            r.pending_rows().len() == 0,
            !r.spec_finished(),
    {
        let r = BatchFill {
            batch_size,
            pending: Vec::new(),
            finished: false,
            failed: false,
            read: Ghost(Seq::empty()),
            sent: Ghost(Seq::empty()),
        };
        assert(r.sent@.flatten() + r.pending@ =~= r.read@);
        r
    }

    /// Whether the read is over, cleanly or by a decode failure.
    pub fn is_finished(&self) -> (r: bool)
        ensures
            r == self.spec_finished(),
    {
        self.finished
    }

    /// Takes the next item of the input: a decoded row, a decode failure, or
    /// `None` at the end of the input. Says what to do next.
    pub fn next<E>(&mut self, item: Option<Result<T, E>>) -> (r: FillStep<T, E>)
        requires
            old(self).wf(),
        ensures
            final(self).wf(),
            final(self).spec_batch_size() == old(self).spec_batch_size(),
            old(self).spec_finished() ==> r is Done && *final(self) == *old(self),
            !old(self).spec_finished() ==> match item {
                None => {
                    &&& final(self).spec_finished() && !final(self).spec_failed()
                    &&& final(self).rows_read() == old(self).rows_read()
                    &&& final(self).dispatched() == batches_of(
                        final(self).rows_read(),
                        final(self).spec_batch_size(),
                    )
                    &&& old(self).pending_rows().len() == 0 ==> r is Done
                    &&& old(self).pending_rows().len() > 0 ==> (r matches FillStep::Dispatch(b)
                        && b@ == old(self).pending_rows())
                },
                Some(Ok(row)) => {
                    let filled = old(self).pending_rows().push(row);
                    &&& !final(self).spec_finished()
                    &&& final(self).rows_read() == old(self).rows_read().push(row)
                    &&& filled.len() == old(self).spec_batch_size() ==> {
                        &&& r matches FillStep::Dispatch(b) && b@ == filled
                        &&& final(self).dispatched() == old(self).dispatched().push(filled)
                        &&& final(self).pending_rows().len() == 0
                    }
                    &&& filled.len() != old(self).spec_batch_size() ==> {
                        &&& r is Continue
                        &&& final(self).dispatched() == old(self).dispatched()
                        &&& final(self).pending_rows() == filled
                    }
                },
                Some(Err(e)) => {
                    &&& r == FillStep::<T, E>::Failed(e)
                    &&& final(self).spec_finished() && final(self).spec_failed()
                    &&& final(self).rows_read() == old(self).rows_read()
                    &&& final(self).dispatched() == old(self).dispatched()
                    &&& final(self).pending_rows().len() == 0
                },
            },
    {
        if self.finished {
            return FillStep::Done;
        }
        match item {
            None => {
                let mut batch: Vec<T> = Vec::new();
                core::mem::swap(&mut batch, &mut self.pending);
                self.finished = true;
                proof {
                    assert(self.sent@.flatten() + batch@ == self.read@);
                    if self.batch_size > 0 {
                        lemma_batches_of_full_then_pending(
                            self.sent@,
                            batch@,
                            self.batch_size as nat,
                        );
                    } else {
                        assert(self.sent@ =~= Seq::<Seq<T>>::empty());
                        assert(batch@ =~= self.read@);
                    }
                }
                if batch.len() == 0 {
                    FillStep::Done
                } else {
                    self.sent = Ghost(self.sent@.push(batch@));
                    proof {
                        if self.batch_size == 0 {
                            assert(self.sent@ =~= seq![self.read@]);
                        }
                    }
                    FillStep::Dispatch(batch)
                }
            },
            Some(Ok(row)) => {
                let ghost old_sent = self.sent@;
                let ghost old_pending = self.pending@;
                self.pending.push(row);
                self.read = Ghost(self.read@.push(row));
                assert(old_sent.flatten() + self.pending@ =~= self.read@);
                if self.pending.len() == self.batch_size {
                    let mut batch: Vec<T> = Vec::new();
                    core::mem::swap(&mut batch, &mut self.pending);
                    self.sent = Ghost(self.sent@.push(batch@));
                    proof {
                        old_sent.lemma_flatten_push(batch@);
                        assert(self.sent@.flatten() + self.pending@ =~= self.read@);
                    }
                    FillStep::Dispatch(batch)
                } else {
                    FillStep::Continue
                }
            },
            Some(Err(e)) => {
                proof {
                    assert(self.sent@.flatten() + self.pending@ == self.read@);
                    assert(self.sent@.flatten() =~= self.read@.take(
                        self.sent@.flatten().len() as int,
                    ));
                }
                self.pending = Vec::new();
                self.finished = true;
                self.failed = true;
                FillStep::Failed(e)
            },
        }
    }

    /// After a clean end with a positive batch size, the batches handed out
    /// number the rows read divided by the size, rounded up; all but the last
    /// are full, and the last holds the remainder, or a full batch when the
    /// size divides the number of rows.
    pub proof fn finished_batches_law(&self)
        requires
            self.wf(),
            self.spec_finished(),
            !self.spec_failed(),
            self.spec_batch_size() > 0,
        ensures
            self.dispatched().len() == batch_count(self.rows_read().len(), self.spec_batch_size()),
            forall|i: int|
                0 <= i < self.dispatched().len() - 1 ==> #[trigger] self.dispatched()[i].len()
                    == self.spec_batch_size(),
            self.rows_read().len() > 0 ==> self.dispatched().last().len() == last_batch_len(
                self.rows_read().len(),
                self.spec_batch_size(),
            ),
    {
        batches_shape_law(self.read@, self.batch_size as nat);
    }

    /// Every row handed out was read, exactly once and in input order: the
    /// batches handed out, put end to end, are a prefix of the rows read, and
    /// after a clean end they are all of them.
    pub proof fn dispatched_rows_law(&self)
        requires
            self.wf(),
        ensures
            self.dispatched().flatten().is_prefix_of(self.rows_read()),
            self.spec_finished() && !self.spec_failed() ==> self.dispatched().flatten()
                == self.rows_read(),
    {
        if !self.finished {
            assert(self.sent@.flatten() =~= self.read@.take(self.sent@.flatten().len() as int));
        } else if !self.failed {
            batches_flatten_law(self.read@, self.batch_size as nat);
            assert(self.read@ =~= self.read@.take(self.read@.len() as int));
        }
    }
}

} // verus!

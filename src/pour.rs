//! The batched sink: its parameters, and the bookkeeping that decides when a
//! header row is written.
use vstd::prelude::*;

verus! {

/// Parameters of a CSV sink: the file to append to.
pub struct PourCsvArg {
    filepath: String,
}

impl PourCsvArg {
    /// The path of the CSV file to append to.
    pub closed spec fn spec_filepath(&self) -> Seq<char> {
        self.filepath@
    }

    /// Makes the parameters of a sink appending to `filepath`.
    pub fn new(filepath: &str) -> (r: PourCsvArg)
        ensures
            r.spec_filepath() == filepath@,
    {
        let filepath = filepath.to_owned();
        PourCsvArg { filepath }
    }

    /// The path of the CSV file to append to.
    pub fn filepath(&self) -> (r: &str)
        ensures
            r@ == self.spec_filepath(),
    {
        self.filepath.as_str()
    }
}

/// One line that a sink appends to its file.
pub enum Line {
    /// The header row of field names.
    Header,
    /// One record.
    Data,
}

/// The header decision of one sink over its whole lifetime, and the lines it
/// has appended so far.
///
/// Whether a header is wanted is decided once, at the first batch, from
/// whether the file existed then; later batches never decide it again. The
/// header goes out with the first record, so a file that gets no record gets
/// no header either.
pub struct PourLedger {
    header_wanted: Option<bool>,
    header_written: bool,
    lines: Ghost<Seq<Line>>,
}

impl PourLedger {
    /// The decision taken at the first batch: `Some(true)` when the file did
    /// not exist then, `None` before the first batch.
    pub closed spec fn spec_header_wanted(&self) -> Option<bool> {
        self.header_wanted
    }

    /// The lines appended so far, in order.
    pub closed spec fn appended(&self) -> Seq<Line> {
        self.lines@
    }

    /// The number of records among `lines`.
    pub open spec fn data_count(lines: Seq<Line>) -> nat
        decreases lines.len(),
    {
        if lines.len() == 0 {
            0
        } else {
            Self::data_count(lines.drop_last()) + if lines.last() is Data {
                1nat
            } else {
                0nat
            }
        }
    }

    /// `n` records.
    pub open spec fn data_lines(n: nat) -> Seq<Line> {
        Seq::new(n, |i: int| Line::Data)
    }

    proof fn lemma_data_count_concat(a: Seq<Line>, b: Seq<Line>)
        ensures
            Self::data_count(a + b) == Self::data_count(a) + Self::data_count(b),
        decreases b.len(),
    {
        if b.len() == 0 {
            assert(a + b =~= a);
        } else {
            Self::lemma_data_count_concat(a, b.drop_last());
            assert((a + b).drop_last() =~= a + b.drop_last());
        }
    }

    proof fn lemma_data_count_of_data_lines(n: nat)
        ensures
            Self::data_count(Self::data_lines(n)) == n,
        decreases n,
    {
        if n > 0 {
            Self::lemma_data_count_of_data_lines((n - 1) as nat);
            assert(Self::data_lines(n).drop_last() =~= Self::data_lines((n - 1) as nat));
        }
    }

    /// The ledger is consistent: only the first line can be a header, and it
    /// is one exactly when the file was new at the first batch and a record
    /// has been appended.
    pub closed spec fn wf(&self) -> bool {
        &&& self.header_wanted is None ==> self.lines@.len() == 0
        &&& forall|i: int| 0 < i < self.lines@.len() ==> #[trigger] self.lines@[i] is Data
        &&& self.header_written <==> (self.lines@.len() > 0 && self.lines@[0] is Header)
        &&& self.header_written <==> (self.header_wanted == Some(true) && self.lines@.len() > 0)
    }

    /// A ledger for a sink that has written nothing yet.
    pub fn new() -> (r: PourLedger)
        ensures
            r.wf(),
            r.spec_header_wanted() is None,
            r.appended().len() == 0,
    {
        PourLedger { header_wanted: None, header_written: false, lines: Ghost(Seq::empty()) }
    }

    /// Whether a header row is wanted, once decided.
    pub fn header_wanted(&self) -> (r: Option<bool>)
        ensures
            r == self.spec_header_wanted(),
    {
        self.header_wanted
    }

    /// Records a batch of `rows` records about to be appended, given whether
    /// the file exists now; only the first batch's answer is used. Returns
    /// whether a header row must be written before the batch's records.
    pub fn begin_batch(&mut self, file_exists: bool, rows: usize) -> (write_header: bool)
        requires
            old(self).wf(),
        ensures
            final(self).wf(),
            final(self).spec_header_wanted() == match old(self).spec_header_wanted() {
                None => Some(!file_exists),
                Some(w) => Some(w),
            },
            write_header == (final(self).spec_header_wanted() == Some(true) && old(
                self,
            ).appended().len() == 0 && rows > 0),
            final(self).appended() == old(self).appended() + (if write_header {
                seq![Line::Header]
            } else {
                Seq::empty()
            }) + Self::data_lines(rows as nat),
            Self::data_count(final(self).appended()) == Self::data_count(old(self).appended())
                + rows,
    {
        if self.header_wanted.is_none() {
            self.header_wanted = Some(!file_exists);
        }
        let write_header = match self.header_wanted {
            Some(w) => w && !self.header_written && rows > 0,
            None => false,
        };
        let ghost old_lines = self.lines@;
        let ghost head: Seq<Line> = if write_header {
            seq![Line::Header]
        } else {
            Seq::empty()
        };
        self.lines = Ghost(old_lines + head + Self::data_lines(rows as nat));
        if write_header {
            self.header_written = true;
        }
        proof {
            let lines = self.lines@;
            Self::lemma_data_count_concat(old_lines + head, Self::data_lines(rows as nat));
            Self::lemma_data_count_concat(old_lines, head);
            Self::lemma_data_count_of_data_lines(rows as nat);
            if write_header {
                assert(Self::data_count(head) == 0) by {
                    assert(head.drop_last() =~= Seq::<Line>::empty());
                    assert(Self::data_count(head.drop_last()) == 0);
                    assert(head.last() is Header);
                }
            } else {
                assert(Self::data_count(head) == 0);
            }
            assert forall|i: int| 0 < i < lines.len() implies #[trigger] lines[i] is Data by {
                if i < old_lines.len() {
                    assert(lines[i] == old_lines[i]);
                } else if i >= old_lines.len() + head.len() {
                    assert(lines[i] == Self::data_lines(rows as nat)[i - old_lines.len()
                        - head.len()]);
                }
            }
            if old_lines.len() > 0 {
                assert(lines[0] == old_lines[0]);
            } else if write_header {
                assert(lines[0] == head[0]);
            } else if rows > 0 {
                assert(lines[0] == Self::data_lines(rows as nat)[0]);
            }
        }
        write_header
    }

    /// A sink writes at most one header, and only as the first line it
    /// appends: before every record, whatever batches came. It writes one
    /// exactly when the file was new at its first batch and it has appended a
    /// record; into a file that already existed it never writes one.
    pub proof fn single_header_law(&self)
        requires
            self.wf(),
        ensures
            forall|i: int|
                0 <= i < self.appended().len() && (#[trigger] self.appended()[i]) is Header ==> i
                    == 0,
            (exists|i: int| 0 <= i < self.appended().len() && #[trigger] self.appended()[i] is Header)
                <==> (self.spec_header_wanted() == Some(true) && self.appended().len() > 0),
            self.spec_header_wanted() == Some(false) ==> forall|i: int|
                0 <= i < self.appended().len() ==> #[trigger] self.appended()[i] is Data,
    {
        if self.header_written {
            assert(self.lines@[0] is Header);
        }
    }
}

/// A CSV sink unit: its name and its parameters.
pub struct PourCsTea {
    name: String,
    params: PourCsvArg,
}

impl PourCsTea {
    /// The unit's name.
    pub closed spec fn spec_name(&self) -> Seq<char> {
        self.name@
    }

    /// The unit's parameters.
    pub closed spec fn spec_params(&self) -> PourCsvArg {
        self.params
    }

    /// Makes the sink unit `name` with `params`.
    pub fn new(name: &str, params: PourCsvArg) -> (r: PourCsTea)
        ensures
            r.spec_name() == name@,
            r.spec_params() == params,
    {
        PourCsTea { name: name.to_owned(), params }
    }

    /// The unit's name.
    pub fn name(&self) -> (r: &str)
        ensures
            r@ == self.spec_name(),
    {
        self.name.as_str()
    }

    /// The unit's parameters.
    pub fn params(&self) -> (r: &PourCsvArg)
        ensures
            *r == self.spec_params(),
    {
        &self.params
    }
}

} // verus!

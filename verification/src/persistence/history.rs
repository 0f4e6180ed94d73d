//! The exports that were made.

use vstd::prelude::*;

use crate::time::Duration;

verus! {

#[derive(Debug)]
pub struct ExportRecord {
    pub output_path: String,
    pub input_count: usize,
    /// Since the start of 1970.
    pub finished_at: Duration,
    /// The bits of the length in seconds, a double-precision number.
    pub duration_secs_bits: u64,
}

#[verifier::ext_equal]
pub struct ExportRecordView {
    pub output_path: Seq<char>,
    pub input_count: usize,
    pub finished_at: Duration,
    pub duration_secs_bits: u64,
}

impl View for ExportRecord {
    type V = ExportRecordView;

    open spec fn view(&self) -> ExportRecordView {
        ExportRecordView {
            output_path: self.output_path@,
            input_count: self.input_count,
            finished_at: self.finished_at,
            duration_secs_bits: self.duration_secs_bits,
        }
    }
}

pub open spec fn record_view() -> spec_fn(ExportRecord) -> ExportRecordView {
    |r: ExportRecord| r@
}

/// How many exports are remembered.
pub const MAX_RECORDS: usize = 50;

/// The exports, the latest first.
#[derive(Debug)]
pub struct History {
    pub records: Vec<ExportRecord>,
}

impl View for History {
    type V = Seq<ExportRecordView>;

    open spec fn view(&self) -> Seq<ExportRecordView> {
        self.records@.map_values(record_view())
    }
}

impl Default for History {
    fn default() -> (h: Self)
        ensures
            h@ == Seq::<ExportRecordView>::empty(),
    {
        let h: History = History { records: Vec::new() };
        assert(h@ =~= Seq::<ExportRecordView>::empty());
        h
    }
}

/// The records with one more at the front, as far as there is room.
pub open spec fn with_record(
    records: Seq<ExportRecordView>,
    record: ExportRecordView,
) -> Seq<ExportRecordView> {
    let all = records.insert(0, record);
    if all.len() > MAX_RECORDS {
        all.take(MAX_RECORDS as int)
    } else {
        all
    }
}

impl History {
    /// Remember an export.
    pub fn push(&mut self, record: ExportRecord)
        ensures
            final(self)@ == with_record(old(self)@, record@),
            final(self)@.len() <= MAX_RECORDS,
    {
        self.records.insert(0, record);
        let ghost all = self@;
        assert(all =~= old(self)@.insert(0, record@));
        self.records.truncate(MAX_RECORDS);
        proof {
            if all.len() > MAX_RECORDS {
                assert(self@ =~= all.take(MAX_RECORDS as int));
            } else {
                assert(self@ =~= all);
            }
        }
    }
}

} // verus!

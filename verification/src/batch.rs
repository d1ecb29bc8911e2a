//! What stepping through a whole batch, and through a whole directory,
//! yields.
//!
//! The records of a batch lie one behind the other, each as long as it
//! declares. Stepping through a batch whose records can all be decoded yields
//! one entry for each record that is to be reported, in the order of the
//! records, and nothing for the others. A directory comes in one batch after
//! the other, and what holds of each batch holds of all of them together.

use vstd::prelude::*;
use crate::entry::EntryView;
use crate::iter::{
    entry_of, lemma_entry_keeps_name, lemma_step_consumes, name_has_room, passed_over,
    scan_batch, ScanState, ScanView, StepView,
};
use crate::record::{is_pseudo_name, record_at, record_fits, RecordKind, RecordView};

verus! {

/// Whether the `count` records from `offset` on can all be decoded inside the
/// buffer, and the names of those to be reported fit the path buffer.
pub open spec fn batch_sound(scratch: Seq<u8>, offset: int, count: int) -> bool
    decreases count,
{
    count <= 0 || {
        &&& record_fits(scratch, offset)
        &&& passed_over(record_at(scratch, offset)) || name_has_room(record_at(scratch, offset))
        &&& batch_sound(scratch, offset + record_at(scratch, offset).length, count - 1)
    }
}

/// The `count` records from `offset` on.
pub open spec fn batch_records(scratch: Seq<u8>, offset: int, count: int) -> Seq<RecordView>
    decreases count,
{
    if count <= 0 {
        Seq::empty()
    } else {
        seq![record_at(scratch, offset)] + batch_records(
            scratch,
            offset + record_at(scratch, offset).length,
            count - 1,
        )
    }
}

/// The entries to report for `records`: one for each record that is not
/// passed over, in the order of the records.
pub open spec fn reported(records: Seq<RecordView>, prefix: Seq<u8>, depth: u32) -> Seq<EntryView>
    decreases records.len(),
{
    if records.len() == 0 {
        Seq::empty()
    } else if passed_over(records[0]) {
        reported(records.skip(1), prefix, depth)
    } else {
        seq![entry_of(prefix, depth, records[0])] + reported(records.skip(1), prefix, depth)
    }
}

/// How many of `records` are to be reported.
pub open spec fn count_reportable(records: Seq<RecordView>) -> nat
    decreases records.len(),
{
    if records.len() == 0 {
        0
    } else if passed_over(records[0]) {
        count_reportable(records.skip(1))
    } else {
        1 + count_reportable(records.skip(1))
    }
}

/// The entries that step after step through a batch yields, up to the step
/// that asks for a refill or fails.
pub open spec fn batch_entries(
    scratch: Seq<u8>,
    offset: int,
    remaining: int,
    prefix: Seq<u8>,
    depth: u32,
) -> Seq<EntryView>
    decreases remaining,
{
    let outcome = scan_batch(scratch, offset, remaining, prefix, depth);
    match outcome.step {
        StepView::Entry(entry) => {
            proof {
                lemma_step_consumes(scratch, offset, remaining, prefix, depth);
            }
            seq![entry] + batch_entries(scratch, outcome.offset, outcome.remaining, prefix, depth)
        },
        _ => Seq::empty(),
    }
}

/// There is one entry for each record to be reported, and each entry carries
/// its record's name, which is neither `.` nor `..`.
pub proof fn lemma_reported_entries(records: Seq<RecordView>, prefix: Seq<u8>, depth: u32)
    ensures
        reported(records, prefix, depth).len() == count_reportable(records),
        reported(records, prefix, depth).len() <= records.len(),
        forall|i: int|
            #![trigger reported(records, prefix, depth)[i]]
            0 <= i < reported(records, prefix, depth).len() ==> {
                &&& reported(records, prefix, depth)[i].wf()
                &&& reported(records, prefix, depth)[i].depth == depth
                &&& !is_pseudo_name(reported(records, prefix, depth)[i].file_name())
            },
    decreases records.len(),
{
    if records.len() > 0 {
        lemma_reported_entries(records.skip(1), prefix, depth);
        if !passed_over(records[0]) {
            lemma_entry_keeps_name(prefix, depth, records[0]);
        }
    }
}

/// Records that are all pseudo-entries yield nothing.
pub proof fn lemma_pseudo_entries_yield_nothing(
    records: Seq<RecordView>,
    prefix: Seq<u8>,
    depth: u32,
)
    requires
        forall|i: int| 0 <= i < records.len() ==> (#[trigger] records[i]).kind()
            == RecordKind::PseudoEntry,
    ensures
        reported(records, prefix, depth).len() == 0,
    decreases records.len(),
{
    if records.len() > 0 {
        assert forall|i: int| 0 <= i < records.skip(1).len() implies (#[trigger] records.skip(
            1,
        )[i]).kind() == RecordKind::PseudoEntry by {
            assert(records.skip(1)[i] == records[i + 1]);
        }
        lemma_pseudo_entries_yield_nothing(records.skip(1), prefix, depth);
    }
}

/// Stepping through a batch whose records can all be decoded yields exactly
/// the entries of the records to be reported, in their order: as many entries
/// as there are such records, and none named `.` or `..`.
pub proof fn lemma_batch_yields_reported(
    scratch: Seq<u8>,
    offset: int,
    count: int,
    prefix: Seq<u8>,
    depth: u32,
)
    requires
        batch_sound(scratch, offset, count),
    ensures
        batch_entries(scratch, offset, count, prefix, depth) == reported(
            batch_records(scratch, offset, count),
            prefix,
            depth,
        ),
        batch_entries(scratch, offset, count, prefix, depth).len() == count_reportable(
            batch_records(scratch, offset, count),
        ),
        forall|i: int|
            #![trigger batch_entries(scratch, offset, count, prefix, depth)[i]]
            0 <= i < batch_entries(scratch, offset, count, prefix, depth).len() ==> !is_pseudo_name(
                batch_entries(scratch, offset, count, prefix, depth)[i].file_name(),
            ),
    decreases count,
{
    let records = batch_records(scratch, offset, count);
    if count > 0 {
        let record = record_at(scratch, offset);
        let next = offset + record.length;
        let rest = batch_records(scratch, next, count - 1);
        lemma_batch_yields_reported(scratch, next, count - 1, prefix, depth);
        assert(records.skip(1) =~= rest);
        assert(records[0] == record);
    }
    lemma_reported_entries(records, prefix, depth);
}

/// The entries to report for two runs of records, one behind the other, are
/// those of the first followed by those of the second.
pub proof fn lemma_reported_concat(
    first: Seq<RecordView>,
    second: Seq<RecordView>,
    prefix: Seq<u8>,
    depth: u32,
)
    ensures
        reported(first + second, prefix, depth) == reported(first, prefix, depth) + reported(
            second,
            prefix,
            depth,
        ),
    decreases first.len(),
{
    if first.len() == 0 {
        assert(first + second =~= second);
        assert(reported(first, prefix, depth) + reported(second, prefix, depth) =~= reported(
            second,
            prefix,
            depth,
        ));
    } else {
        assert((first + second).skip(1) =~= first.skip(1) + second);
        assert((first + second)[0] == first[0]);
        lemma_reported_concat(first.skip(1), second, prefix, depth);
        assert(reported(first + second, prefix, depth) =~= reported(first, prefix, depth)
            + reported(second, prefix, depth));
    }
}

/// One refill: the buffer that the bulk call filled and the number of records
/// that it wrote.
pub struct BatchView {
    pub scratch: Seq<u8>,
    pub count: i32,
}

/// The entries that a scan yields step after step, up to the first step that
/// yields none.
pub open spec fn drain_entries(scan: ScanView) -> Seq<EntryView>
    decreases scan.remaining,
{
    match scan.step_outcome().step {
        StepView::Entry(entry) => {
            proof {
                if !scan.finished {
                    lemma_step_consumes(
                        scan.scratch,
                        scan.offset,
                        scan.remaining,
                        scan.prefix,
                        scan.depth,
                    );
                }
            }
            seq![entry] + drain_entries(scan.stepped())
        },
        _ => Seq::empty(),
    }
}

/// The scan after those steps, the one that yields no entry included.
pub open spec fn drained(scan: ScanView) -> ScanView
    decreases scan.remaining,
{
    match scan.step_outcome().step {
        StepView::Entry(_) => {
            proof {
                if !scan.finished {
                    lemma_step_consumes(
                        scan.scratch,
                        scan.offset,
                        scan.remaining,
                        scan.prefix,
                        scan.depth,
                    );
                }
            }
            drained(scan.stepped())
        },
        _ => scan.stepped(),
    }
}

/// The entries of a whole scan: the scan is stepped until it yields no entry;
/// where it then needs a refill it is handed the next of `batches` and
/// stepped again, and so on until the batches are used up or the scan is
/// exhausted.
pub open spec fn scan_entries(scan: ScanView, batches: Seq<BatchView>) -> Seq<EntryView>
    decreases batches.len(),
{
    if drained(scan).state() == ScanState::NeedsRefill && batches.len() > 0 {
        drain_entries(scan) + scan_entries(
            drained(scan).lent().refilled(batches[0].scratch, batches[0].count),
            batches.skip(1),
        )
    } else {
        drain_entries(scan)
    }
}

/// The records of a directory: those of its batches, one batch behind the
/// other.
pub open spec fn directory_records(batches: Seq<BatchView>) -> Seq<RecordView>
    decreases batches.len(),
{
    if batches.len() == 0 {
        Seq::empty()
    } else {
        batch_records(batches[0].scratch, 0, batches[0].count as int) + directory_records(
            batches.skip(1),
        )
    }
}

/// Whether `batches` are what the bulk call returns for a directory whose
/// records can all be decoded: every batch is sound, and none is empty but
/// the last, which ends the directory.
pub open spec fn batches_sound(batches: Seq<BatchView>) -> bool {
    forall|k: int|
        0 <= k < batches.len() ==> {
            &&& batch_sound((#[trigger] batches[k]).scratch, 0, batches[k].count as int)
            &&& batches[k].count >= 0
            &&& batches[k].count == 0 ==> k == batches.len() - 1
        }
}

/// A scan that is stepped through a sound batch yields the entries of the
/// batch and then needs a refill. It is exhausted by none of these steps and
/// keeps its place in the tree.
pub proof fn lemma_drain_sound_batch(scan: ScanView)
    requires
        !scan.finished,
        batch_sound(scan.scratch, scan.offset, scan.remaining),
    ensures
        drain_entries(scan) == batch_entries(
            scan.scratch,
            scan.offset,
            scan.remaining,
            scan.prefix,
            scan.depth,
        ),
        drained(scan).state() == ScanState::NeedsRefill,
        drained(scan).prefix == scan.prefix,
        drained(scan).depth == scan.depth,
        drained(scan).descriptor_open == scan.descriptor_open,
    decreases scan.remaining,
{
    lemma_batch_ends_in_refill(
        scan.scratch,
        scan.offset,
        scan.remaining,
        scan.prefix,
        scan.depth,
    );
    lemma_step_consumes(scan.scratch, scan.offset, scan.remaining, scan.prefix, scan.depth);
    if scan.step_outcome().step is Entry {
        lemma_sound_after_step(
            scan.scratch,
            scan.offset,
            scan.remaining,
            scan.prefix,
            scan.depth,
        );
        lemma_drain_sound_batch(scan.stepped());
    }
}

/// No step through a sound batch fails: it yields an entry or asks for a
/// refill.
pub proof fn lemma_batch_ends_in_refill(
    scratch: Seq<u8>,
    offset: int,
    count: int,
    prefix: Seq<u8>,
    depth: u32,
)
    requires
        batch_sound(scratch, offset, count),
    ensures
        ({
            let outcome = scan_batch(scratch, offset, count, prefix, depth);
            &&& outcome.step is Entry || outcome.step is NeedsRefill
            &&& !outcome.finished
        }),
    decreases count,
{
    if count > 0 && passed_over(record_at(scratch, offset)) {
        lemma_batch_ends_in_refill(
            scratch,
            offset + record_at(scratch, offset).length,
            count - 1,
            prefix,
            depth,
        );
    }
}

/// What is left of a sound batch after a step is a sound batch.
pub proof fn lemma_sound_after_step(
    scratch: Seq<u8>,
    offset: int,
    count: int,
    prefix: Seq<u8>,
    depth: u32,
)
    requires
        batch_sound(scratch, offset, count),
    ensures
        batch_sound(
            scratch,
            scan_batch(scratch, offset, count, prefix, depth).offset,
            scan_batch(scratch, offset, count, prefix, depth).remaining,
        ),
    decreases count,
{
    if count > 0 && passed_over(record_at(scratch, offset)) {
        lemma_sound_after_step(
            scratch,
            offset + record_at(scratch, offset).length,
            count - 1,
            prefix,
            depth,
        );
    }
}

/// A directory of N children and any number of pseudo-entries yields exactly
/// N entries, none named `.` or `..`.
///
/// More precisely: a scan that is not exhausted, whose batch at hand and
/// whose batches to come can all be decoded, yields one entry for each
/// record that is to be reported, in the order of the records, and nothing
/// for the pseudo-entries, the records without a name and the children with
/// an error attached.
pub proof fn lemma_directory_yields_reported(scan: ScanView, batches: Seq<BatchView>)
    requires
        !scan.finished,
        batch_sound(scan.scratch, scan.offset, scan.remaining),
        batches_sound(batches),
    ensures
        scan_entries(scan, batches) == reported(
            batch_records(scan.scratch, scan.offset, scan.remaining) + directory_records(batches),
            scan.prefix,
            scan.depth,
        ),
        scan_entries(scan, batches).len() == count_reportable(
            batch_records(scan.scratch, scan.offset, scan.remaining) + directory_records(batches),
        ),
        forall|i: int|
            #![trigger scan_entries(scan, batches)[i]]
            0 <= i < scan_entries(scan, batches).len() ==> {
                &&& !is_pseudo_name(scan_entries(scan, batches)[i].file_name())
                &&& scan_entries(scan, batches)[i].depth == scan.depth
                &&& scan_entries(scan, batches)[i].wf()
            },
    decreases batches.len(),
{
    let at_hand = batch_records(scan.scratch, scan.offset, scan.remaining);
    let to_come = directory_records(batches);
    lemma_drain_sound_batch(scan);
    lemma_batch_yields_reported(
        scan.scratch,
        scan.offset,
        scan.remaining,
        scan.prefix,
        scan.depth,
    );
    lemma_reported_concat(at_hand, to_come, scan.prefix, scan.depth);
    lemma_reported_entries(at_hand + to_come, scan.prefix, scan.depth);
    if batches.len() == 0 {
        assert(reported(to_come, scan.prefix, scan.depth) =~= Seq::<EntryView>::empty());
        assert(scan_entries(scan, batches) =~= reported(at_hand, scan.prefix, scan.depth)
            + reported(to_come, scan.prefix, scan.depth));
    } else {
        let first = batches[0];
        let rest = batches.skip(1);
        let next = drained(scan).lent().refilled(first.scratch, first.count);
        assert forall|k: int| 0 <= k < rest.len() implies {
            &&& batch_sound((#[trigger] rest[k]).scratch, 0, rest[k].count as int)
            &&& rest[k].count >= 0
            &&& rest[k].count == 0 ==> k == rest.len() - 1
        } by {
            assert(rest[k] == batches[k + 1]);
        }
        if first.count == 0 {
            assert(rest.len() == 0);
            assert(drain_entries(next) =~= Seq::<EntryView>::empty());
            assert(scan_entries(next, rest) =~= Seq::<EntryView>::empty());
            assert(directory_records(rest) =~= Seq::<RecordView>::empty());
            assert(to_come =~= Seq::<RecordView>::empty());
            assert(scan_entries(scan, batches) =~= reported(at_hand, scan.prefix, scan.depth)
                + reported(to_come, scan.prefix, scan.depth));
        } else {
            lemma_directory_yields_reported(next, rest);
            assert(batch_records(next.scratch, next.offset, next.remaining) + directory_records(
                rest,
            ) =~= to_come);
        }
    }
}

} // verus!

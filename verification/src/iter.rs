//! The scan of one directory as a state machine.
//!
//! The scanner makes no system call. It is told how opening the directory went
//! when it is made, it says when the bulk call is due, and it is handed the
//! buffer and the count that the call returned. Between two refills it decodes
//! the records of the batch one by one and yields the children they describe.
//!
//! A scan is in one of three states. It needs a refill while no record of the
//! last batch is left, it has records while some are left, and it is exhausted
//! once a refill has returned nothing or failed, a record could not be
//! decoded, or the descriptor was given up. An exhausted scan stays exhausted.

use vstd::prelude::*;
use crate::entry::{DirEntryBeta, EntryView};
use crate::error::{open_failure_of, OpenFailure, ScanError};
use crate::file_type::{filetype_of_code, get_filetype};
use crate::path::{
    append_filename_and_get_index, child_path, child_prefix, init_from_direntry, zeros,
    DirectoryHandle, MAX_SIZED_DIRENT_LENGTH, TERMINATOR,
};
use crate::record::{
    decode_record, has_attr, is_pseudo_name, record_at, record_fits, RecordKind, RecordView,
    ATTR_CMN_ERROR, ATTR_CMN_FILEID, ATTR_CMN_NAME, ATTR_CMN_OBJTYPE, ATTR_CMN_RETURNED_ATTRS,
};

verus! {

/// Size of the buffer that the bulk call fills.
pub const ATTR_BUFFER_SIZE: usize = 128 * 1024;

/// Number of attribute groups in a request.
pub const ATTR_BIT_MAP_COUNT: u16 = 5;

/// The common attributes asked of the kernel for every child: which
/// attributes it returned, the name, the per-entry error, the object type and
/// the file id.
pub const REQUESTED_COMMON_ATTRS: u32 = ATTR_CMN_RETURNED_ATTRS | ATTR_CMN_NAME | ATTR_CMN_ERROR
    | ATTR_CMN_OBJTYPE | ATTR_CMN_FILEID;

/// What the open call returns where it fails.
pub const OPEN_FAILED: i32 = -1;

/// The attribute request handed to the bulk call, group by group.
#[derive(Debug, Clone, Copy, PartialEq, Eq, Structural)]
pub struct AttrList {
    pub bitmapcount: u16,
    pub reserved: u16,
    pub commonattr: u32,
    pub volattr: u32,
    pub dirattr: u32,
    pub fileattr: u32,
    pub forkattr: u32,
}

/// The request asks for each of the five attributes that the decoder reads,
/// and for nothing else.
pub proof fn lemma_requested_attrs()
    ensures
        REQUESTED_COMMON_ATTRS == 0xA200_0009u32,
        has_attr(REQUESTED_COMMON_ATTRS, ATTR_CMN_RETURNED_ATTRS),
        has_attr(REQUESTED_COMMON_ATTRS, ATTR_CMN_NAME),
        has_attr(REQUESTED_COMMON_ATTRS, ATTR_CMN_ERROR),
        has_attr(REQUESTED_COMMON_ATTRS, ATTR_CMN_OBJTYPE),
        has_attr(REQUESTED_COMMON_ATTRS, ATTR_CMN_FILEID),
{
    assert(0x8000_0000u32 | 0x0000_0001u32 | 0x2000_0000u32 | 0x0000_0008u32 | 0x0200_0000u32
        == 0xA200_0009u32) by (bit_vector);
    assert(0xA200_0009u32 & 0x8000_0000u32 != 0) by (bit_vector);
    assert(0xA200_0009u32 & 0x0000_0001u32 != 0) by (bit_vector);
    assert(0xA200_0009u32 & 0x2000_0000u32 != 0) by (bit_vector);
    assert(0xA200_0009u32 & 0x0000_0008u32 != 0) by (bit_vector);
    assert(0xA200_0009u32 & 0x0200_0000u32 != 0) by (bit_vector);
}

/// The request that every scan makes: [`REQUESTED_COMMON_ATTRS`] and nothing
/// from the other groups.
pub open spec fn spec_bulk_request() -> AttrList {
    AttrList {
        bitmapcount: ATTR_BIT_MAP_COUNT,
        reserved: 0,
        commonattr: REQUESTED_COMMON_ATTRS,
        volattr: 0,
        dirattr: 0,
        fileattr: 0,
        forkattr: 0,
    }
}

/// Makes the request that every scan hands to the bulk call.
#[verifier::when_used_as_spec(spec_bulk_request)]
pub fn bulk_request() -> (attrlist: AttrList)
    ensures
        attrlist == spec_bulk_request(),
{
    AttrList {
        bitmapcount: ATTR_BIT_MAP_COUNT,
        reserved: 0,
        commonattr: REQUESTED_COMMON_ATTRS,
        volattr: 0,
        dirattr: 0,
        fileattr: 0,
        forkattr: 0,
    }
}

/// The three states of a scan.
#[derive(Debug, Clone, Copy, PartialEq, Eq, Structural)]
pub enum ScanState {
    /// No record of the last batch is left: the bulk call is due.
    NeedsRefill,
    /// Records of the last batch are left to decode.
    HasRecords,
    /// The scan is over.
    Exhausted,
}

/// What one step of a scan comes to.
#[derive(Debug)]
pub enum Step {
    /// The batch is used up. The caller makes the bulk call and reports what
    /// it returned.
    NeedsRefill,
    /// The next child.
    Entry(DirEntryBeta),
    /// The scan failed. It is exhausted from now on.
    Failed(ScanError),
    /// The scan is exhausted: there is nothing more.
    Finished,
}

/// What one step of a scan comes to, with the entry as what it holds.
pub enum StepView {
    NeedsRefill,
    Entry(EntryView),
    Failed(ScanError),
    Finished,
}

impl View for Step {
    type V = StepView;

    open spec fn view(&self) -> StepView {
        match self {
            Step::NeedsRefill => StepView::NeedsRefill,
            Step::Entry(entry) => StepView::Entry(entry@),
            Step::Failed(e) => StepView::Failed(*e),
            Step::Finished => StepView::Finished,
        }
    }
}

/// What a scan holds.
pub struct ScanView {
    /// The descriptor of the open directory.
    pub dirfd: i32,
    /// Whether the descriptor is still to be closed.
    pub descriptor_open: bool,
    /// The attribute request.
    pub attrlist: AttrList,
    /// The buffer that the last bulk call filled.
    pub scratch: Seq<u8>,
    /// Where in the buffer the next record starts.
    pub offset: int,
    /// How many records of the batch are left.
    pub remaining: int,
    /// What every child's path starts with.
    pub prefix: Seq<u8>,
    /// The depth of every child: one more than the directory's own.
    pub depth: u32,
    /// Whether the scan is exhausted.
    pub finished: bool,
}

/// The entry made of a record that is to be reported: its path is the prefix,
/// the record's name and a terminator, and its name starts behind the prefix.
pub open spec fn entry_of(prefix: Seq<u8>, depth: u32, record: RecordView) -> EntryView {
    EntryView {
        path: prefix + record.name->0 + seq![TERMINATOR],
        file_type: filetype_of_code(record.obj_type),
        file_name_index: prefix.len() as int,
        depth,
        inode: record.inode,
        traversible: None,
    }
}

/// Whether a record is passed over without a word: a pseudo-entry, a record
/// without a name, or a child with an error attached.
pub open spec fn passed_over(record: RecordView) -> bool {
    record.kind() != RecordKind::Entry
}

/// Whether the name of a record that is to be reported fits the room that the
/// path buffer keeps for it, terminator included.
pub open spec fn name_has_room(record: RecordView) -> bool {
    record.name->0.len() < MAX_SIZED_DIRENT_LENGTH
}

/// The result of one step: what the caller gets, and where the scan stands
/// afterwards.
pub struct ScanOutcome {
    pub step: StepView,
    pub offset: int,
    pub remaining: int,
    pub finished: bool,
}

/// One step through a batch of which `remaining` records are left, the next at
/// `offset`.
///
/// Records that are passed over are skipped until one is to be reported or
/// the batch is used up. A record that does not fit the buffer, or whose name
/// does not fit the path buffer, ends the scan.
pub open spec fn scan_batch(
    scratch: Seq<u8>,
    offset: int,
    remaining: int,
    prefix: Seq<u8>,
    depth: u32,
) -> ScanOutcome
    decreases remaining,
{
    if remaining <= 0 {
        ScanOutcome { step: StepView::NeedsRefill, offset, remaining: 0, finished: false }
    } else if !record_fits(scratch, offset) {
        ScanOutcome {
            step: StepView::Failed(ScanError::DecodeBoundsError),
            offset,
            remaining: 0,
            finished: true,
        }
    } else {
        let record = record_at(scratch, offset);
        if passed_over(record) {
            scan_batch(scratch, offset + record.length, remaining - 1, prefix, depth)
        } else if !name_has_room(record) {
            ScanOutcome {
                step: StepView::Failed(ScanError::DecodeBoundsError),
                offset,
                remaining: 0,
                finished: true,
            }
        } else {
            ScanOutcome {
                step: StepView::Entry(entry_of(prefix, depth, record)),
                offset: offset + record.length,
                remaining: remaining - 1,
                finished: false,
            }
        }
    }
}

impl ScanView {
    /// The state of the scan.
    pub open spec fn state(self) -> ScanState {
        if self.finished {
            ScanState::Exhausted
        } else if self.remaining > 0 {
            ScanState::HasRecords
        } else {
            ScanState::NeedsRefill
        }
    }

    /// A new scan of the directory at `parent`, `parent_depth` levels below
    /// the root of the traversal, opened as `dirfd`.
    pub open spec fn initial(dirfd: i32, parent: Seq<u8>, parent_depth: u32) -> ScanView {
        ScanView {
            dirfd,
            descriptor_open: true,
            attrlist: spec_bulk_request(),
            scratch: zeros(ATTR_BUFFER_SIZE as nat),
            offset: 0,
            remaining: 0,
            prefix: child_prefix(parent),
            depth: (parent_depth + 1) as u32,
            finished: false,
        }
    }

    /// What the next step comes to. An exhausted scan yields nothing and
    /// asks for nothing.
    pub open spec fn step_outcome(self) -> ScanOutcome {
        if self.finished {
            ScanOutcome {
                step: StepView::Finished,
                offset: self.offset,
                remaining: self.remaining,
                finished: true,
            }
        } else {
            scan_batch(self.scratch, self.offset, self.remaining, self.prefix, self.depth)
        }
    }

    /// The scan after its next step.
    pub open spec fn stepped(self) -> ScanView {
        ScanView {
            offset: self.step_outcome().offset,
            remaining: self.step_outcome().remaining,
            finished: self.step_outcome().finished,
            ..self
        }
    }

    /// The scan after its buffer was handed out to be filled: whatever was
    /// left of the batch is given up with it.
    pub open spec fn lent(self) -> ScanView {
        ScanView { scratch: Seq::<u8>::empty(), offset: 0, remaining: 0, ..self }
    }

    /// What a bulk call that returned `retcount`, with the error code
    /// `os_error` where it failed, amounts to. An exhausted scan takes no
    /// refill.
    pub open spec fn refill_result(self, retcount: i32, os_error: i32) -> Result<i32, ScanError> {
        if self.finished {
            Ok(0)
        } else if retcount < 0 {
            Err(ScanError::ReadFailed(os_error))
        } else {
            Ok(retcount)
        }
    }

    /// The scan after a bulk call that filled `scratch` and returned
    /// `retcount`. A count of zero and a failure both exhaust the scan.
    pub open spec fn refilled(self, scratch: Seq<u8>, retcount: i32) -> ScanView {
        if self.finished {
            ScanView { scratch, offset: 0, remaining: 0, ..self }
        } else {
            ScanView {
                scratch,
                offset: 0,
                remaining: if retcount > 0 {
                    retcount as int
                } else {
                    0
                },
                finished: retcount <= 0,
                ..self
            }
        }
    }

    /// The scan after its descriptor was given up to be closed.
    pub open spec fn released(self) -> ScanView {
        ScanView { descriptor_open: false, remaining: 0, finished: true, ..self }
    }
}

/// The scan of one directory.
#[derive(Debug)]
pub struct DirIterator {
    dirfd: i32,
    descriptor_open: bool,
    attrlist: AttrList,
    attrbuf: Vec<u8>,
    current_offset: usize,
    remaining_entries: i32,
    path_buffer: Vec<u8>,
    base_len: usize,
    depth: u32,
    is_finished: bool,
}

impl View for DirIterator {
    type V = ScanView;

    closed spec fn view(&self) -> ScanView {
        ScanView {
            dirfd: self.dirfd,
            descriptor_open: self.descriptor_open,
            attrlist: self.attrlist,
            scratch: self.attrbuf@,
            offset: self.current_offset as int,
            remaining: self.remaining_entries as int,
            prefix: self.path_buffer@.subrange(0, self.base_len as int),
            depth: self.depth,
            finished: self.is_finished,
        }
    }
}

impl DirIterator {
    /// The scan is well formed when its path buffer has the room for a name
    /// behind the prefix and the number of records left is not negative. A new
    /// scan is well formed and every operation keeps it so.
    pub closed spec fn wf(&self) -> bool {
        &&& self.base_len + MAX_SIZED_DIRENT_LENGTH == self.path_buffer@.len()
        &&& self.remaining_entries >= 0
    }

    /// Starts the scan of `dir_path`, given what opening it returned: the
    /// descriptor in `dirfd`, or [`OPEN_FAILED`] with the operating system's
    /// error code in `os_error`.
    ///
    /// Where the directory was opened the scan starts without records, so its
    /// first step asks for a refill. Where it was not, the error says why.
    pub fn new(dir_path: &DirectoryHandle, dirfd: i32, os_error: i32) -> (made: Result<
        DirIterator,
        ScanError,
    >)
        requires
            dir_path.spec_bytes().len() + 1 + MAX_SIZED_DIRENT_LENGTH <= usize::MAX,
            dir_path.spec_depth() < u32::MAX,
        ensures
            match made {
                Ok(scan) => dirfd != OPEN_FAILED && scan.wf() && scan@ == ScanView::initial(
                    dirfd,
                    dir_path.spec_bytes(),
                    dir_path.spec_depth(),
                ),
                Err(e) => dirfd == OPEN_FAILED && e == ScanError::OpenFailed(
                    open_failure_of(os_error),
                ),
            },
    {
        if dirfd == OPEN_FAILED {
            return Err(ScanError::OpenFailed(OpenFailure::from_os_error(os_error)));
        }
        let attrlist = bulk_request();
        let attrbuf = vec![0u8; ATTR_BUFFER_SIZE];
        assert(attrbuf@ =~= zeros(ATTR_BUFFER_SIZE as nat));
        let (path_buffer, base_len) = init_from_direntry(dir_path);
        assert(path_buffer@.subrange(0, base_len as int) =~= child_prefix(dir_path.spec_bytes()));
        let depth = dir_path.depth() + 1;
        Ok(
            DirIterator {
                dirfd,
                descriptor_open: true,
                attrlist,
                attrbuf,
                current_offset: 0,
                remaining_entries: 0,
                path_buffer,
                base_len,
                depth,
                is_finished: false,
            },
        )
    }

    /// The descriptor of the directory, for the bulk call.
    pub fn dirfd(&self) -> (dirfd: i32)
        ensures
            dirfd == self@.dirfd,
    {
        self.dirfd
    }

    /// The attribute request, for the bulk call.
    pub fn attrlist(&self) -> (attrlist: AttrList)
        ensures
            attrlist == self@.attrlist,
    {
        self.attrlist
    }

    /// The state of the scan.
    pub fn state(&self) -> (state: ScanState)
        ensures
            state == self@.state(),
    {
        if self.is_finished {
            ScanState::Exhausted
        } else if self.remaining_entries > 0 {
            ScanState::HasRecords
        } else {
            ScanState::NeedsRefill
        }
    }

    /// Takes one step.
    ///
    /// An exhausted scan is finished and stays as it is. Otherwise the records
    /// left of the batch are decoded in turn. Pseudo-entries, records without
    /// a name and children with an error attached are passed over. The first
    /// other record becomes the entry that is yielded, at the depth of this
    /// scan and with a path of its own. Where the batch is used up first, a
    /// refill is asked for. A record that cannot be decoded inside the buffer,
    /// or whose name is longer than the path buffer has room for, fails the
    /// scan and exhausts it.
    ///
    /// The entry that is yielded is well formed and one level below the
    /// directory. Its path is the prefix of this scan, the name of its record
    /// and a terminator, so the name comes back from the path unchanged. Its
    /// record has no error attached, and its name is neither `.` nor `..`.
    pub fn get_next_entry(&mut self) -> (step: Step)
        requires
            old(self).wf(),
        ensures
            final(self).wf(),
            step@ == old(self)@.step_outcome().step,
            final(self)@ == old(self)@.stepped(),
            step matches Step::Entry(entry) ==> ({
                let record = record_at(
                    old(self)@.scratch,
                    yield_position(old(self)@.scratch, old(self)@.offset, old(self)@.remaining),
                );
                &&& entry@.wf()
                &&& entry@.depth == old(self)@.depth
                &&& entry@.path == old(self)@.prefix + record.name->0 + seq![TERMINATOR]
                &&& entry@.file_name_index <= entry@.path.len() - 1
                &&& entry@.file_name() == record.name->0
                &&& !is_pseudo_name(entry@.file_name())
                &&& !record.failed()
            }),
    {
        if self.is_finished {
            return Step::Finished;
        }
        let ghost start = self@;
        while self.remaining_entries > 0
            invariant
                self.base_len + MAX_SIZED_DIRENT_LENGTH == self.path_buffer@.len(),
                self.remaining_entries >= 0,
                !self.is_finished,
                !start.finished,
                start == old(self)@,
                self@ == (ScanView { offset: self@.offset, remaining: self@.remaining, ..start }),
                scan_batch(
                    start.scratch,
                    self@.offset,
                    self@.remaining,
                    start.prefix,
                    start.depth,
                ) == start.step_outcome(),
            decreases self.remaining_entries,
        {
            let ghost here = self@;
            let ghost outcome = scan_batch(
                start.scratch,
                here.offset,
                here.remaining,
                start.prefix,
                start.depth,
            );
            let record = match decode_record(self.attrbuf.as_slice(), self.current_offset) {
                Ok(record) => record,
                Err(e) => {
                    self.remaining_entries = 0;
                    self.is_finished = true;
                    assert(outcome.step == StepView::Failed(ScanError::DecodeBoundsError));
                    return Step::Failed(e);
                },
            };
            assert(record@ == record_at(start.scratch, here.offset));
            match (record.kind(), record.name) {
                (RecordKind::Entry, Some(name)) => {
                    if name.len() >= MAX_SIZED_DIRENT_LENGTH {
                        self.remaining_entries = 0;
                        self.is_finished = true;
                        assert(outcome.step == StepView::Failed(ScanError::DecodeBoundsError));
                        return Step::Failed(ScanError::DecodeBoundsError);
                    }
                    self.current_offset = self.current_offset + record.length as usize;
                    self.remaining_entries = self.remaining_entries - 1;
                    let (path, file_name_index) = append_filename_and_get_index(
                        &mut self.path_buffer,
                        self.base_len,
                        name,
                    );
                    let entry = DirEntryBeta::new(
                        path,
                        get_filetype(record.obj_type),
                        file_name_index,
                        self.depth,
                        record.inode,
                    );
                    assert(outcome.step == StepView::Entry(
                        entry_of(start.prefix, start.depth, record@),
                    ));
                    proof {
                        lemma_yield_is_reportable(
                            start.scratch,
                            start.offset,
                            start.remaining,
                            start.prefix,
                            start.depth,
                        );
                        lemma_entry_keeps_name(
                            start.prefix,
                            start.depth,
                            record_at(
                                start.scratch,
                                yield_position(start.scratch, start.offset, start.remaining),
                            ),
                        );
                    }
                    return Step::Entry(entry);
                },
                _ => {
                    self.current_offset = self.current_offset + record.length as usize;
                    self.remaining_entries = self.remaining_entries - 1;
                    assert(outcome == scan_batch(
                        start.scratch,
                        here.offset + record@.length,
                        here.remaining - 1,
                        start.prefix,
                        start.depth,
                    ));
                },
            }
        }
        Step::NeedsRefill
    }

    /// Hands out the buffer for the bulk call to fill. Whatever was left of
    /// the batch is given up with it.
    pub fn take_scratch(&mut self) -> (scratch: Vec<u8>)
        requires
            old(self).wf(),
        ensures
            final(self).wf(),
            scratch@ == old(self)@.scratch,
            final(self)@ == old(self)@.lent(),
    {
        let mut scratch: Vec<u8> = Vec::new();
        std::mem::swap(&mut self.attrbuf, &mut scratch);
        self.current_offset = 0;
        self.remaining_entries = 0;
        scratch
    }

    /// Takes in what the bulk call returned: the buffer it filled, the number
    /// of records it wrote, and the operating system's error code where that
    /// number is negative.
    ///
    /// A positive count starts a new batch at the front of the buffer. A
    /// count of zero exhausts the scan without an error. A negative count
    /// exhausts it with [`ScanError::ReadFailed`]. A scan that is exhausted
    /// already takes the buffer back and stays as it is.
    pub fn read_next_batch(&mut self, scratch: Vec<u8>, retcount: i32, os_error: i32) -> (read:
        Result<i32, ScanError>)
        requires
            old(self).wf(),
        ensures
            final(self).wf(),
            read == old(self)@.refill_result(retcount, os_error),
            final(self)@ == old(self)@.refilled(scratch@, retcount),
    {
        self.attrbuf = scratch;
        self.current_offset = 0;
        self.remaining_entries = 0;
        if self.is_finished {
            return Ok(0);
        }
        if retcount < 0 {
            self.is_finished = true;
            return Err(ScanError::ReadFailed(os_error));
        }
        if retcount == 0 {
            self.is_finished = true;
        }
        self.remaining_entries = retcount;
        Ok(retcount)
    }

    /// Gives up the descriptor so that it can be closed: the first call
    /// returns it, every later call returns nothing. The scan is exhausted
    /// from then on.
    pub fn release_descriptor(&mut self) -> (descriptor: Option<i32>)
        requires
            old(self).wf(),
        ensures
            final(self).wf(),
            descriptor == (if old(self)@.descriptor_open {
                Some(old(self)@.dirfd)
            } else {
                None
            }),
            final(self)@ == old(self)@.released(),
    {
        let descriptor = if self.descriptor_open {
            Some(self.dirfd)
        } else {
            None
        };
        self.descriptor_open = false;
        self.remaining_entries = 0;
        self.is_finished = true;
        descriptor
    }
}

/// A step that yields an entry uses up at least one record of the batch. Any
/// other step uses up the whole batch, and only a step that fails exhausts
/// the scan.
pub proof fn lemma_step_consumes(
    scratch: Seq<u8>,
    offset: int,
    remaining: int,
    prefix: Seq<u8>,
    depth: u32,
)
    ensures
        ({
            let outcome = scan_batch(scratch, offset, remaining, prefix, depth);
            &&& 0 <= outcome.remaining
            &&& outcome.step is Entry ==> outcome.remaining < remaining
            &&& outcome.step !is Entry ==> outcome.remaining == 0
            &&& outcome.step !is Finished
            &&& outcome.finished == (outcome.step is Failed)
        }),
    decreases remaining,
{
    if remaining > 0 && record_fits(scratch, offset) && passed_over(record_at(scratch, offset)) {
        lemma_step_consumes(
            scratch,
            offset + record_at(scratch, offset).length,
            remaining - 1,
            prefix,
            depth,
        );
    }
}

/// Where the record stands of which the next step through a batch makes its
/// entry: behind the records that are passed over.
pub open spec fn yield_position(scratch: Seq<u8>, offset: int, remaining: int) -> int
    decreases remaining,
{
    if remaining > 0 && record_fits(scratch, offset) && passed_over(record_at(scratch, offset)) {
        yield_position(scratch, offset + record_at(scratch, offset).length, remaining - 1)
    } else {
        offset
    }
}

/// Every entry that a step yields is made of a record of the batch that fits
/// the buffer and is to be reported: it has a name, the name is neither `.`
/// nor `..`, and no error is attached to it. The next step starts behind that
/// record.
pub proof fn lemma_yield_is_reportable(
    scratch: Seq<u8>,
    offset: int,
    remaining: int,
    prefix: Seq<u8>,
    depth: u32,
)
    requires
        scan_batch(scratch, offset, remaining, prefix, depth).step is Entry,
    ensures
        ({
            let at = yield_position(scratch, offset, remaining);
            let record = record_at(scratch, at);
            let outcome = scan_batch(scratch, offset, remaining, prefix, depth);
            &&& record_fits(scratch, at)
            &&& record.kind() == RecordKind::Entry
            &&& !record.failed()
            &&& record.name is Some
            &&& !is_pseudo_name(record.name->0)
            &&& name_has_room(record)
            &&& outcome.step == StepView::Entry(entry_of(prefix, depth, record))
            &&& outcome.offset == at + record.length
        }),
    decreases remaining,
{
    if remaining > 0 && record_fits(scratch, offset) && passed_over(record_at(scratch, offset)) {
        lemma_yield_is_reportable(
            scratch,
            offset + record_at(scratch, offset).length,
            remaining - 1,
            prefix,
            depth,
        );
    }
}

/// A record with an error attached is passed over, whatever else it holds.
pub proof fn lemma_failed_is_passed_over(record: RecordView)
    requires
        record.failed(),
    ensures
        passed_over(record),
        record.kind() == RecordKind::EntryError(record.error->0),
{
}

/// The entry made of a record keeps the record's name: the name is the path
/// from the name's start up to the terminator, and the path is the prefix,
/// the name and the terminator.
pub proof fn lemma_entry_keeps_name(prefix: Seq<u8>, depth: u32, record: RecordView)
    ensures
        entry_of(prefix, depth, record).wf(),
        entry_of(prefix, depth, record).file_name_index <= entry_of(prefix, depth, record).path.len()
            - 1,
        entry_of(prefix, depth, record).file_name() == record.name->0,
        entry_of(prefix, depth, record).bytes() == prefix + record.name->0,
        entry_of(prefix, depth, record).depth == depth,
{
    let entry = entry_of(prefix, depth, record);
    assert(entry.file_name() =~= record.name->0);
    assert(entry.bytes() =~= prefix + record.name->0);
}

impl ScanView {
    /// The children of a directory are one level below it: a new scan yields
    /// at the directory's depth plus one, no operation changes that depth,
    /// and every entry yielded has it.
    pub proof fn lemma_depth_is_kept(
        self,
        dirfd: i32,
        parent: Seq<u8>,
        parent_depth: u32,
        scratch: Seq<u8>,
        retcount: i32,
    )
        requires
            parent_depth < u32::MAX,
        ensures
            ScanView::initial(dirfd, parent, parent_depth).depth == parent_depth + 1,
            self.stepped().depth == self.depth,
            self.lent().depth == self.depth,
            self.refilled(scratch, retcount).depth == self.depth,
            self.released().depth == self.depth,
            self.step_outcome().step matches StepView::Entry(entry) ==> entry.depth == self.depth,
    {
        if !self.finished && self.step_outcome().step is Entry {
            lemma_yield_is_reportable(
                self.scratch,
                self.offset,
                self.remaining,
                self.prefix,
                self.depth,
            );
        }
    }

    /// Every entry that a scan of the directory at `parent` yields is a child
    /// of that directory: its path is the parent's path, one separator unless
    /// the parent is the root, the name of the record it is made of, and a
    /// terminator. The name starts behind the separator and runs up to the
    /// terminator.
    pub proof fn lemma_entry_is_child(self, parent: Seq<u8>)
        requires
            self.prefix == child_prefix(parent),
            self.step_outcome().step is Entry,
        ensures
            ({
                let entry = self.step_outcome().step->Entry_0;
                let at = yield_position(self.scratch, self.offset, self.remaining);
                let name = record_at(self.scratch, at).name->0;
                &&& entry.wf()
                &&& entry.path == child_path(parent, name)
                &&& entry.file_name_index == child_prefix(parent).len()
                &&& entry.file_name_index <= entry.path.len() - 1
                &&& entry.file_name() == name
                &&& self.stepped().prefix == self.prefix
            }),
    {
        let at = yield_position(self.scratch, self.offset, self.remaining);
        lemma_yield_is_reportable(
            self.scratch,
            self.offset,
            self.remaining,
            self.prefix,
            self.depth,
        );
        lemma_entry_keeps_name(self.prefix, self.depth, record_at(self.scratch, at));
    }

    /// What every child's path starts with is fixed when the scan is made: no
    /// operation changes it.
    pub proof fn lemma_prefix_is_kept(
        self,
        dirfd: i32,
        parent: Seq<u8>,
        parent_depth: u32,
        scratch: Seq<u8>,
        retcount: i32,
    )
        ensures
            ScanView::initial(dirfd, parent, parent_depth).prefix == child_prefix(parent),
            self.stepped().prefix == self.prefix,
            self.lent().prefix == self.prefix,
            self.refilled(scratch, retcount).prefix == self.prefix,
            self.released().prefix == self.prefix,
    {
    }

    /// An exhausted scan stays exhausted: its steps are finished and ask for
    /// no refill, and no operation brings it back.
    pub proof fn lemma_exhausted_stays(self, scratch: Seq<u8>, retcount: i32, os_error: i32)
        requires
            self.finished,
        ensures
            self.step_outcome().step == StepView::Finished,
            self.stepped() == self,
            self.stepped().finished,
            self.lent().finished,
            self.refilled(scratch, retcount).finished,
            self.refill_result(retcount, os_error) == Ok::<i32, ScanError>(0),
            self.released().finished,
    {
    }

    /// A refill that returns no record ends the scan without an error: the
    /// scan is exhausted, and its next step is finished and asks for no
    /// further refill.
    pub proof fn lemma_empty_refill_exhausts(self, scratch: Seq<u8>, os_error: i32)
        ensures
            self.refill_result(0, os_error) == Ok::<i32, ScanError>(0),
            self.refilled(scratch, 0).state() == ScanState::Exhausted,
            self.refilled(scratch, 0).step_outcome().step == StepView::Finished,
            self.refilled(scratch, 0).stepped() == self.refilled(scratch, 0),
    {
    }

    /// A refill that fails is reported once: it exhausts the scan with the
    /// operating system's error code, and the next step is finished.
    pub proof fn lemma_failed_refill_exhausts(
        self,
        scratch: Seq<u8>,
        retcount: i32,
        os_error: i32,
    )
        requires
            !self.finished,
            retcount < 0,
        ensures
            self.refill_result(retcount, os_error) == Err::<i32, ScanError>(
                ScanError::ReadFailed(os_error),
            ),
            self.refilled(scratch, retcount).state() == ScanState::Exhausted,
            self.refilled(scratch, retcount).step_outcome().step == StepView::Finished,
    {
    }

    /// A step that fails exhausts the scan, and only such a step or one of an
    /// exhausted scan leaves it exhausted.
    pub proof fn lemma_failure_exhausts(self)
        ensures
            self.step_outcome().step is Failed ==> self.stepped().state() == ScanState::Exhausted,
            self.stepped().finished == (self.finished || self.step_outcome().step is Failed),
            self.step_outcome().step is NeedsRefill ==> self.stepped().state()
                == ScanState::NeedsRefill,
    {
        if !self.finished {
            lemma_step_consumes(self.scratch, self.offset, self.remaining, self.prefix, self.depth);
        }
    }

    /// The descriptor is given up once: giving it up marks it as no longer
    /// open, and no operation marks it as open again.
    pub proof fn lemma_descriptor_given_up_once(self, scratch: Seq<u8>, retcount: i32)
        ensures
            !self.released().descriptor_open,
            self.released().released() == self.released(),
            self.stepped().descriptor_open == self.descriptor_open,
            self.lent().descriptor_open == self.descriptor_open,
            self.refilled(scratch, retcount).descriptor_open == self.descriptor_open,
            self.stepped().dirfd == self.dirfd,
            self.lent().dirfd == self.dirfd,
            self.refilled(scratch, retcount).dirfd == self.dirfd,
            self.released().dirfd == self.dirfd,
            self.released().state() == ScanState::Exhausted,
    {
    }
}

} // verus!

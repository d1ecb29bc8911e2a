//! The layout of one record of the bulk call and its decoder.
//!
//! A record starts with its own length and the set of attributes that the
//! kernel returned for this child. The attributes follow in a fixed order,
//! each present only where its bit is set in the returned set: the name
//! reference, the per-entry error, the object type, the file id. The name
//! reference holds an offset and a length; the offset counts from the start of
//! the reference itself, and the length includes the name's terminator.
//!
//! The record's length says only where the next record starts. Every field is
//! checked against the end of the buffer before it is read.

use vstd::prelude::*;
use crate::cursor::{
    field_fits, has_room, read_bytes, read_u32_le, read_u64_le, spec_i32_le, spec_u32_le,
    spec_u64_le, u32_le_at,
};
use crate::error::ScanError;

verus! {

/// Bit of the name in a set of common attributes.
pub const ATTR_CMN_NAME: u32 = 0x0000_0001;

/// Bit of the object type in a set of common attributes.
pub const ATTR_CMN_OBJTYPE: u32 = 0x0000_0008;

/// Bit of the file id in a set of common attributes.
pub const ATTR_CMN_FILEID: u32 = 0x0200_0000;

/// Bit of the per-entry error in a set of common attributes.
pub const ATTR_CMN_ERROR: u32 = 0x2000_0000;

/// Bit that asks the kernel to say which attributes it returned.
pub const ATTR_CMN_RETURNED_ATTRS: u32 = 0x8000_0000;

/// Bytes taken by a record's length and its returned-attribute set: one
/// 32-bit length and five 32-bit attribute groups.
pub const RECORD_HEADER_SIZE: usize = 24;

/// Bytes taken by a name reference: a signed 32-bit offset and an unsigned
/// 32-bit length.
pub const NAME_REFERENCE_SIZE: usize = 8;

/// Bytes taken by a per-entry error code.
pub const ERROR_SIZE: usize = 4;

/// Bytes taken by an object type; only the first carries the code.
pub const OBJTYPE_SIZE: usize = 4;

/// Bytes taken by a file id.
pub const FILEID_SIZE: usize = 8;

/// The object-type code of a record that carries none.
pub const OBJTYPE_UNKNOWN: u8 = 0;

/// Whether the attribute `attr` is in the set `returned`.
pub open spec fn has_attr(returned: u32, attr: u32) -> bool {
    returned & attr != 0
}

/// The length that the record at `off` declares.
pub open spec fn record_length(buf: Seq<u8>, off: int) -> u32 {
    spec_u32_le(buf, off)
}

/// The common attributes that the kernel returned for the record at `off`.
pub open spec fn record_returned(buf: Seq<u8>, off: int) -> u32 {
    spec_u32_le(buf, off + 4)
}

/// Where the name reference of the record at `off` stands.
pub open spec fn name_slot(off: int) -> int {
    off + RECORD_HEADER_SIZE
}

/// Where the error code of the record at `off` stands.
pub open spec fn error_slot(buf: Seq<u8>, off: int) -> int {
    name_slot(off) + if has_attr(record_returned(buf, off), ATTR_CMN_NAME) {
        NAME_REFERENCE_SIZE as int
    } else {
        0
    }
}

/// Where the object type of the record at `off` stands.
pub open spec fn objtype_slot(buf: Seq<u8>, off: int) -> int {
    error_slot(buf, off) + if has_attr(record_returned(buf, off), ATTR_CMN_ERROR) {
        ERROR_SIZE as int
    } else {
        0
    }
}

/// Where the file id of the record at `off` stands.
pub open spec fn fileid_slot(buf: Seq<u8>, off: int) -> int {
    objtype_slot(buf, off) + if has_attr(record_returned(buf, off), ATTR_CMN_OBJTYPE) {
        OBJTYPE_SIZE as int
    } else {
        0
    }
}

/// The length of the name of the record at `off` as its reference gives it,
/// terminator included.
pub open spec fn name_field_length(buf: Seq<u8>, off: int) -> u32 {
    spec_u32_le(buf, name_slot(off) + 4)
}

/// Where the name bytes of the record at `off` start: the reference's offset
/// counts from the reference.
pub open spec fn name_start(buf: Seq<u8>, off: int) -> int {
    name_slot(off) + spec_i32_le(buf, name_slot(off))
}

/// Whether the record at `off` carries a name: the kernel returned one and its
/// reference is not empty.
pub open spec fn has_name(buf: Seq<u8>, off: int) -> bool {
    has_attr(record_returned(buf, off), ATTR_CMN_NAME) && name_field_length(buf, off) > 0
}

/// The per-entry error code of the record at `off`, where the kernel returned
/// one.
pub open spec fn record_error(buf: Seq<u8>, off: int) -> Option<u32> {
    if has_attr(record_returned(buf, off), ATTR_CMN_ERROR) {
        Some(spec_u32_le(buf, error_slot(buf, off)))
    } else {
        None
    }
}

/// Whether the kernel attached an error to the record at `off`. Such a record
/// says nothing of the child's type or file id.
pub open spec fn record_failed(buf: Seq<u8>, off: int) -> bool {
    record_error(buf, off) matches Some(code) && code != 0
}

/// Whether the record at `off` can be decoded without reading outside `buf`:
/// its declared length stays inside the buffer, and so does every field that
/// its returned set announces, the name's bytes and terminator included. A
/// record with an error attached needs no object type and no file id.
#[verifier::opaque]
pub open spec fn record_fits(buf: Seq<u8>, off: int) -> bool {
    let len = buf.len() as int;
    let returned = record_returned(buf, off);
    &&& field_fits(len, off, RECORD_HEADER_SIZE as int)
    &&& field_fits(len, off, record_length(buf, off) as int)
    &&& has_attr(returned, ATTR_CMN_NAME) ==> field_fits(
        len,
        name_slot(off),
        NAME_REFERENCE_SIZE as int,
    )
    &&& has_name(buf, off) ==> field_fits(
        len,
        name_start(buf, off),
        name_field_length(buf, off) as int,
    )
    &&& has_attr(returned, ATTR_CMN_ERROR) ==> field_fits(
        len,
        error_slot(buf, off),
        ERROR_SIZE as int,
    )
    &&& !record_failed(buf, off) && has_attr(returned, ATTR_CMN_OBJTYPE) ==> field_fits(
        len,
        objtype_slot(buf, off),
        OBJTYPE_SIZE as int,
    )
    &&& !record_failed(buf, off) && has_attr(returned, ATTR_CMN_FILEID) ==> field_fits(
        len,
        fileid_slot(buf, off),
        FILEID_SIZE as int,
    )
}

/// What one record holds.
pub struct RecordView {
    /// The record's declared length: the distance to the next record.
    pub length: u32,
    /// The common attributes that the kernel returned.
    pub returned: u32,
    /// The child's name without its terminator.
    pub name: Option<Seq<u8>>,
    /// The per-entry error code.
    pub error: Option<u32>,
    /// The object-type code, [`OBJTYPE_UNKNOWN`] where none was returned.
    pub obj_type: u8,
    /// The file id, zero where none was returned.
    pub inode: u64,
}

/// What the record at `off` holds, for a record that fits.
#[verifier::opaque]
pub open spec fn record_at(buf: Seq<u8>, off: int) -> RecordView {
    let returned = record_returned(buf, off);
    RecordView {
        length: record_length(buf, off),
        returned,
        name: if has_name(buf, off) {
            Some(
                buf.subrange(
                    name_start(buf, off),
                    name_start(buf, off) + name_field_length(buf, off) - 1,
                ),
            )
        } else {
            None
        },
        error: record_error(buf, off),
        obj_type: if !record_failed(buf, off) && has_attr(returned, ATTR_CMN_OBJTYPE) {
            buf[objtype_slot(buf, off)]
        } else {
            OBJTYPE_UNKNOWN
        },
        inode: if !record_failed(buf, off) && has_attr(returned, ATTR_CMN_FILEID) {
            spec_u64_le(buf, fileid_slot(buf, off))
        } else {
            0
        },
    }
}

/// Whether `name` is the self or the parent pseudo-entry.
pub open spec fn is_pseudo_name(name: Seq<u8>) -> bool {
    name == seq![46u8] || name == seq![46u8, 46u8]
}

/// What is to be done with a record.
#[derive(Debug, Clone, Copy, PartialEq, Eq, Structural)]
pub enum RecordKind {
    /// A child to report.
    Entry,
    /// The directory itself or its parent: never reported.
    PseudoEntry,
    /// A record without a name: nothing to report.
    Nameless,
    /// A child that the kernel could not describe, with its error code.
    EntryError(u32),
}

impl RecordView {
    /// Whether the kernel attached an error to the record.
    pub open spec fn failed(self) -> bool {
        self.error matches Some(code) && code != 0
    }

    /// How the record is classified. An attached error comes first: it makes
    /// the rest of the record meaningless.
    pub open spec fn kind(self) -> RecordKind {
        if self.failed() {
            RecordKind::EntryError(self.error->0)
        } else if self.name is None {
            RecordKind::Nameless
        } else if is_pseudo_name(self.name->0) {
            RecordKind::PseudoEntry
        } else {
            RecordKind::Entry
        }
    }
}

/// One decoded record. The name is borrowed from the buffer that was decoded.
#[derive(Debug, Clone, Copy)]
pub struct RawRecord<'a> {
    /// The record's declared length: the distance to the next record.
    pub length: u32,
    /// The common attributes that the kernel returned.
    pub returned: u32,
    /// The child's name without its terminator.
    pub name: Option<&'a [u8]>,
    /// The per-entry error code.
    pub error: Option<u32>,
    /// The object-type code, [`OBJTYPE_UNKNOWN`] where none was returned.
    pub obj_type: u8,
    /// The file id, zero where none was returned.
    pub inode: u64,
}

impl<'a> View for RawRecord<'a> {
    type V = RecordView;

    open spec fn view(&self) -> RecordView {
        RecordView {
            length: self.length,
            returned: self.returned,
            name: match self.name {
                Some(name) => Some(name@),
                None => None,
            },
            error: self.error,
            obj_type: self.obj_type,
            inode: self.inode,
        }
    }
}

/// Tells whether `name` is `.` or `..`.
pub fn check_pseudo_name(name: &[u8]) -> (pseudo: bool)
    ensures
        pseudo == is_pseudo_name(name@),
{
    let dot: u8 = 46;
    let pseudo = if name.len() == 1 {
        name[0] == dot
    } else if name.len() == 2 {
        name[0] == dot && name[1] == dot
    } else {
        false
    };
    proof {
        if pseudo {
            assert(name@ =~= seq![46u8] || name@ =~= seq![46u8, 46u8]);
        } else {
            assert(seq![46u8].len() == 1);
            assert(seq![46u8, 46u8].len() == 2);
            assert(seq![46u8][0] == 46u8);
            assert(seq![46u8, 46u8][0] == 46u8);
            assert(seq![46u8, 46u8][1] == 46u8);
        }
    }
    pseudo
}

impl<'a> RawRecord<'a> {
    /// Classifies the record: a child to report, a pseudo-entry, a record
    /// without a name, or a child with an error attached.
    pub fn kind(&self) -> (kind: RecordKind)
        ensures
            kind == self@.kind(),
    {
        if let Some(code) = self.error {
            if code != 0 {
                return RecordKind::EntryError(code);
            }
        }
        match self.name {
            None => RecordKind::Nameless,
            Some(name) => {
                if check_pseudo_name(name) {
                    RecordKind::PseudoEntry
                } else {
                    RecordKind::Entry
                }
            },
        }
    }
}

/// Whether the attribute `attr` is in the set `returned`.
pub fn attr_returned(returned: u32, attr: u32) -> (present: bool)
    ensures
        present == has_attr(returned, attr),
{
    returned & attr != 0
}

/// Reads the name that the reference at `slot` points to: the bytes from
/// `slot` plus the reference's signed offset, one fewer than the reference's
/// length. Nothing is returned where the reference or the name, terminator
/// included, leaves the buffer. The reference's length must not be zero.
fn read_name<'a>(buf: &'a [u8], slot: usize) -> (name: Option<&'a [u8]>)
    requires
        field_fits(buf@.len() as int, slot as int, NAME_REFERENCE_SIZE as int),
        spec_u32_le(buf@, slot + 4) > 0,
    ensures
        match name {
            Some(n) => {
                &&& field_fits(
                    buf@.len() as int,
                    slot + spec_i32_le(buf@, slot as int),
                    spec_u32_le(buf@, slot + 4) as int,
                )
                &&& n@ == buf@.subrange(
                    slot + spec_i32_le(buf@, slot as int),
                    slot + spec_i32_le(buf@, slot as int) + spec_u32_le(buf@, slot + 4) - 1,
                )
            },
            None => !field_fits(
                buf@.len() as int,
                slot + spec_i32_le(buf@, slot as int),
                spec_u32_le(buf@, slot + 4) as int,
            ),
        },
{
    let room: usize = buf.len() - slot;
    let raw_offset = u32_le_at(buf, slot);
    let field_length = u32_le_at(buf, slot + 4);
    let start: usize = if raw_offset < 0x8000_0000 {
        let forward = raw_offset as usize;
        if forward > room {
            return None;
        }
        slot + forward
    } else {
        let back: u64 = 0x1_0000_0000u64 - raw_offset as u64;
        if back > slot as u64 {
            return None;
        }
        slot - back as usize
    };
    match read_bytes(buf, start, field_length as usize) {
        Some(field) => {
            let name = vstd::slice::slice_subrange(field, 0, field.len() - 1);
            assert(name@ =~= buf@.subrange(start as int, start + field_length - 1));
            Some(name)
        },
        None => None,
    }
}

/// Decodes the record at `offset` of `scratch`.
///
/// Succeeds exactly where the record fits the buffer, and then returns what
/// the record holds. Where it does not fit, nothing outside the buffer is
/// read and the result is [`ScanError::DecodeBoundsError`].
pub fn decode_record<'a>(scratch: &'a [u8], offset: usize) -> (decoded: Result<
    RawRecord<'a>,
    ScanError,
>)
    ensures
        match decoded {
            Ok(record) => record_fits(scratch@, offset as int) && record@ == record_at(
                scratch@,
                offset as int,
            ),
            Err(e) => !record_fits(scratch@, offset as int) && e == ScanError::DecodeBoundsError,
        },
        decoded matches Ok(record) ==> offset + record.length <= scratch@.len() <= usize::MAX,
{
    reveal(record_fits);
    reveal(record_at);
    if !has_room(scratch, offset, RECORD_HEADER_SIZE) {
        return Err(ScanError::DecodeBoundsError);
    }
    let length = u32_le_at(scratch, offset);
    if !has_room(scratch, offset, length as usize) {
        return Err(ScanError::DecodeBoundsError);
    }
    let returned = u32_le_at(scratch, offset + 4);
    let mut field: usize = offset + RECORD_HEADER_SIZE;

    let mut name: Option<&'a [u8]> = None;
    if attr_returned(returned, ATTR_CMN_NAME) {
        if !has_room(scratch, field, NAME_REFERENCE_SIZE) {
            return Err(ScanError::DecodeBoundsError);
        }
        if u32_le_at(scratch, field + 4) > 0 {
            match read_name(scratch, field) {
                Some(bytes) => { name = Some(bytes); },
                None => { return Err(ScanError::DecodeBoundsError); },
            }
        }
        field = field + NAME_REFERENCE_SIZE;
    }
    let mut error: Option<u32> = None;
    let mut failed = false;
    if attr_returned(returned, ATTR_CMN_ERROR) {
        match read_u32_le(scratch, field) {
            Some(code) => {
                error = Some(code);
                failed = code != 0;
            },
            None => { return Err(ScanError::DecodeBoundsError); },
        }
        field = field + ERROR_SIZE;
    }
    let mut obj_type: u8 = OBJTYPE_UNKNOWN;
    let mut inode: u64 = 0;
    if !failed {
        if attr_returned(returned, ATTR_CMN_OBJTYPE) {
            if !has_room(scratch, field, OBJTYPE_SIZE) {
                return Err(ScanError::DecodeBoundsError);
            }
            obj_type = scratch[field];
            field = field + OBJTYPE_SIZE;
        }
        if attr_returned(returned, ATTR_CMN_FILEID) {
            match read_u64_le(scratch, field) {
                Some(id) => { inode = id; },
                None => { return Err(ScanError::DecodeBoundsError); },
            }
        }
    }
    Ok(RawRecord { length, returned, name, error, obj_type, inode })
}

} // verus!

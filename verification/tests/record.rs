use bulkdir::error::ScanError;
use bulkdir::record::{
    attr_returned, check_pseudo_name, decode_record, RecordKind, ATTR_CMN_ERROR, ATTR_CMN_FILEID,
    ATTR_CMN_NAME, ATTR_CMN_OBJTYPE, ATTR_CMN_RETURNED_ATTRS, RECORD_HEADER_SIZE,
};

/// Lays out one record as the kernel does: length, returned set, then the
/// fields that are given, then the name's bytes and terminator, padded to a
/// multiple of four.
fn record(
    name: Option<&[u8]>,
    error: Option<u32>,
    obj_type: Option<u32>,
    file_id: Option<u64>,
) -> Vec<u8> {
    let mut returned = ATTR_CMN_RETURNED_ATTRS;
    let mut fixed = RECORD_HEADER_SIZE;
    if name.is_some() {
        returned |= ATTR_CMN_NAME;
        fixed += 8;
    }
    if error.is_some() {
        returned |= ATTR_CMN_ERROR;
        fixed += 4;
    }
    if obj_type.is_some() {
        returned |= ATTR_CMN_OBJTYPE;
        fixed += 4;
    }
    if file_id.is_some() {
        returned |= ATTR_CMN_FILEID;
        fixed += 8;
    }
    let mut tail: Vec<u8> = Vec::new();
    if let Some(n) = name {
        tail.extend_from_slice(n);
        tail.push(0);
        while tail.len() % 4 != 0 {
            tail.push(0);
        }
    }
    let length = (fixed + tail.len()) as u32;
    let mut out: Vec<u8> = Vec::new();
    out.extend_from_slice(&length.to_le_bytes());
    out.extend_from_slice(&returned.to_le_bytes());
    out.extend_from_slice(&[0u8; 16]);
    if let Some(n) = name {
        let data_offset = (fixed - RECORD_HEADER_SIZE) as i32;
        out.extend_from_slice(&data_offset.to_le_bytes());
        out.extend_from_slice(&((n.len() + 1) as u32).to_le_bytes());
    }
    if let Some(code) = error {
        out.extend_from_slice(&code.to_le_bytes());
    }
    if let Some(t) = obj_type {
        out.extend_from_slice(&t.to_le_bytes());
    }
    if let Some(id) = file_id {
        out.extend_from_slice(&id.to_le_bytes());
    }
    out.extend_from_slice(&tail);
    out
}

#[test]
fn a_full_record_is_decoded_field_by_field() {
    let buf = record(Some(b"etc"), None, Some(2), Some(42));
    assert_eq!(buf.len(), 48);
    let rec = decode_record(&buf, 0).unwrap();
    assert_eq!(rec.length, 48);
    assert_eq!(rec.returned, 0x8200_0009);
    assert_eq!(rec.name, Some(&b"etc"[..]));
    assert_eq!(rec.error, None);
    assert_eq!(rec.obj_type, 2);
    assert_eq!(rec.inode, 42);
    assert_eq!(rec.kind(), RecordKind::Entry);
}

#[test]
fn a_record_is_decoded_at_its_offset() {
    let mut buf = record(Some(b"first"), None, Some(1), Some(7));
    let second_at = buf.len();
    buf.extend_from_slice(&record(Some(b"second"), None, Some(5), Some(0x1_0000_0001)));
    let first = decode_record(&buf, 0).unwrap();
    assert_eq!(first.name, Some(&b"first"[..]));
    assert_eq!(first.length as usize, second_at);
    let second = decode_record(&buf, second_at).unwrap();
    assert_eq!(second.name, Some(&b"second"[..]));
    assert_eq!(second.obj_type, 5);
    assert_eq!(second.inode, 0x1_0000_0001);
}

#[test]
fn fields_that_were_not_returned_take_no_room() {
    let buf = record(Some(b"x"), None, None, Some(9));
    let rec = decode_record(&buf, 0).unwrap();
    assert_eq!(rec.obj_type, 0);
    assert_eq!(rec.inode, 9);
    let buf = record(Some(b"x"), None, Some(4), None);
    let rec = decode_record(&buf, 0).unwrap();
    assert_eq!(rec.obj_type, 4);
    assert_eq!(rec.inode, 0);
    let buf = record(None, None, Some(3), Some(11));
    let rec = decode_record(&buf, 0).unwrap();
    assert_eq!(rec.name, None);
    assert_eq!(rec.obj_type, 3);
    assert_eq!(rec.inode, 11);
    assert_eq!(rec.kind(), RecordKind::Nameless);
}

#[test]
fn only_the_first_byte_of_the_object_type_counts() {
    let buf = record(Some(b"x"), None, Some(0x0102_0305), Some(1));
    let rec = decode_record(&buf, 0).unwrap();
    assert_eq!(rec.obj_type, 5);
    assert_eq!(rec.inode, 1);
}

#[test]
fn the_name_excludes_its_terminator() {
    let buf = record(Some(b"name"), None, Some(1), Some(1));
    let rec = decode_record(&buf, 0).unwrap();
    assert_eq!(rec.name.unwrap().len(), 4);
    assert_eq!(rec.name.unwrap(), b"name");
}

#[test]
fn an_empty_name_reference_means_no_name() {
    let mut buf = record(Some(b"gone"), None, Some(1), Some(1));
    buf[28..32].copy_from_slice(&0u32.to_le_bytes());
    let rec = decode_record(&buf, 0).unwrap();
    assert_eq!(rec.name, None);
    assert_eq!(rec.kind(), RecordKind::Nameless);
    assert_eq!(rec.obj_type, 1);
}

#[test]
fn a_name_of_no_bytes_is_still_a_name() {
    let buf = record(Some(b""), None, Some(1), Some(1));
    let rec = decode_record(&buf, 0).unwrap();
    assert_eq!(rec.name, Some(&b""[..]));
    assert_eq!(rec.kind(), RecordKind::Entry);
}

#[test]
fn the_name_offset_counts_from_the_reference() {
    let mut buf = record(Some(b"abc"), None, Some(1), Some(1));
    let name_at = 24 + 20;
    assert_eq!(&buf[name_at..name_at + 4], b"abc\0");
    buf.extend_from_slice(b"moved\0\0\0");
    buf[24..28].copy_from_slice(&24i32.to_le_bytes());
    buf[28..32].copy_from_slice(&6u32.to_le_bytes());
    let rec = decode_record(&buf, 0).unwrap();
    assert_eq!(rec.name, Some(&b"moved"[..]));
}

#[test]
fn a_negative_name_offset_points_before_the_reference() {
    let mut buf = b"pre\0".to_vec();
    buf.extend_from_slice(&record(Some(b"abc"), None, Some(1), Some(1)));
    let slot = 4 + 24;
    buf[slot..slot + 4].copy_from_slice(&(-28i32).to_le_bytes());
    let rec = decode_record(&buf, 4).unwrap();
    assert_eq!(rec.name, Some(&b"pre"[..]));
    buf[slot..slot + 4].copy_from_slice(&(-29i32).to_le_bytes());
    assert_eq!(decode_record(&buf, 4).unwrap_err(), ScanError::DecodeBoundsError);
    buf[slot..slot + 4].copy_from_slice(&i32::MIN.to_le_bytes());
    assert_eq!(decode_record(&buf, 4).unwrap_err(), ScanError::DecodeBoundsError);
}

#[test]
fn dot_and_dot_dot_are_pseudo_entries() {
    assert!(check_pseudo_name(b"."));
    assert!(check_pseudo_name(b".."));
    assert!(!check_pseudo_name(b""));
    assert!(!check_pseudo_name(b"..."));
    assert!(!check_pseudo_name(b".a"));
    assert!(!check_pseudo_name(b"a."));
    assert!(!check_pseudo_name(b".hidden"));
    assert!(!check_pseudo_name(b"a"));
    let dot = record(Some(b"."), None, Some(2), Some(2));
    assert_eq!(decode_record(&dot, 0).unwrap().kind(), RecordKind::PseudoEntry);
    let dot_dot = record(Some(b".."), None, Some(2), Some(1));
    assert_eq!(decode_record(&dot_dot, 0).unwrap().kind(), RecordKind::PseudoEntry);
    let hidden = record(Some(b".git"), None, Some(2), Some(3));
    assert_eq!(decode_record(&hidden, 0).unwrap().kind(), RecordKind::Entry);
}

#[test]
fn an_attached_error_makes_an_entry_error() {
    let buf = record(Some(b"locked"), Some(13), None, None);
    let rec = decode_record(&buf, 0).unwrap();
    assert_eq!(rec.error, Some(13));
    assert_eq!(rec.kind(), RecordKind::EntryError(13));
    assert_eq!(rec.obj_type, 0);
    assert_eq!(rec.inode, 0);
    assert_eq!(rec.name, Some(&b"locked"[..]));
}

#[test]
fn an_error_comes_before_every_other_classification() {
    let dot = record(Some(b"."), Some(5), None, None);
    assert_eq!(decode_record(&dot, 0).unwrap().kind(), RecordKind::EntryError(5));
    let nameless = record(None, Some(2), None, None);
    assert_eq!(decode_record(&nameless, 0).unwrap().kind(), RecordKind::EntryError(2));
}

#[test]
fn a_record_with_an_error_needs_no_type_and_no_file_id() {
    let mut buf = record(Some(b"n"), Some(13), None, None);
    assert_eq!(buf.len(), 40);
    let returned = u32::from_le_bytes([buf[4], buf[5], buf[6], buf[7]])
        | ATTR_CMN_OBJTYPE
        | ATTR_CMN_FILEID;
    buf[4..8].copy_from_slice(&returned.to_le_bytes());
    let rec = decode_record(&buf, 0).unwrap();
    assert_eq!(rec.kind(), RecordKind::EntryError(13));
    assert_eq!(rec.obj_type, 0);
    assert_eq!(rec.inode, 0);
    // With no error attached the announced fields are wanted, and missing.
    buf[32..36].copy_from_slice(&0u32.to_le_bytes());
    assert_eq!(decode_record(&buf, 0).unwrap_err(), ScanError::DecodeBoundsError);
}

#[test]
fn an_error_code_of_zero_is_no_error() {
    let buf = record(Some(b"fine"), Some(0), Some(1), Some(99));
    let rec = decode_record(&buf, 0).unwrap();
    assert_eq!(rec.error, Some(0));
    assert_eq!(rec.kind(), RecordKind::Entry);
    assert_eq!(rec.obj_type, 1);
    assert_eq!(rec.inode, 99);
}

#[test]
fn a_record_cut_anywhere_is_a_bounds_error() {
    let buf = record(Some(b"etc"), Some(0), Some(2), Some(42));
    assert!(decode_record(&buf, 0).is_ok());
    for cut in 0..buf.len() {
        assert_eq!(
            decode_record(&buf[..cut], 0).unwrap_err(),
            ScanError::DecodeBoundsError,
            "cut at {}",
            cut
        );
    }
    // The same with a declared length that is always inside the buffer: the
    // fields are checked one by one.
    let mut short = buf.clone();
    short[0..4].copy_from_slice(&0u32.to_le_bytes());
    assert!(decode_record(&short, 0).is_ok());
    for cut in 0..short.len() {
        assert_eq!(
            decode_record(&short[..cut], 0).unwrap_err(),
            ScanError::DecodeBoundsError,
            "cut at {}",
            cut
        );
    }
}

#[test]
fn each_field_is_checked_against_the_end_of_the_buffer() {
    // No name: the fields end the record, so every cut inside one is caught
    // by that field's own check.
    let mut buf = record(None, Some(0), Some(2), Some(42));
    assert_eq!(buf.len(), 40);
    buf[0..4].copy_from_slice(&0u32.to_le_bytes());
    assert!(decode_record(&buf, 0).is_ok());
    for cut in 0..buf.len() {
        assert_eq!(
            decode_record(&buf[..cut], 0).unwrap_err(),
            ScanError::DecodeBoundsError,
            "cut at {}",
            cut
        );
    }
}

#[test]
fn a_length_past_the_buffer_is_a_bounds_error() {
    let mut buf = record(Some(b"etc"), None, Some(2), Some(42));
    let longer = (buf.len() + 1) as u32;
    buf[0..4].copy_from_slice(&longer.to_le_bytes());
    assert_eq!(decode_record(&buf, 0).unwrap_err(), ScanError::DecodeBoundsError);
    buf[0..4].copy_from_slice(&u32::MAX.to_le_bytes());
    assert_eq!(decode_record(&buf, 0).unwrap_err(), ScanError::DecodeBoundsError);
}

#[test]
fn a_length_shorter_than_the_fields_is_not_an_error() {
    let mut buf = record(Some(b"etc"), None, Some(2), Some(42));
    buf[0..4].copy_from_slice(&8u32.to_le_bytes());
    let rec = decode_record(&buf, 0).unwrap();
    assert_eq!(rec.length, 8);
    assert_eq!(rec.name, Some(&b"etc"[..]));
    assert_eq!(rec.inode, 42);
    buf[0..4].copy_from_slice(&0u32.to_le_bytes());
    assert_eq!(decode_record(&buf, 0).unwrap().length, 0);
}

#[test]
fn a_name_past_the_buffer_is_a_bounds_error() {
    let mut buf = record(Some(b"etc"), None, Some(2), Some(42));
    buf[28..32].copy_from_slice(&5u32.to_le_bytes());
    assert_eq!(decode_record(&buf, 0).unwrap_err(), ScanError::DecodeBoundsError);
    buf[28..32].copy_from_slice(&u32::MAX.to_le_bytes());
    assert_eq!(decode_record(&buf, 0).unwrap_err(), ScanError::DecodeBoundsError);
    buf[28..32].copy_from_slice(&4u32.to_le_bytes());
    buf[24..28].copy_from_slice(&i32::MAX.to_le_bytes());
    assert_eq!(decode_record(&buf, 0).unwrap_err(), ScanError::DecodeBoundsError);
}

#[test]
fn an_offset_past_the_buffer_is_a_bounds_error() {
    let buf = record(Some(b"etc"), None, Some(2), Some(42));
    assert_eq!(decode_record(&buf, buf.len()).unwrap_err(), ScanError::DecodeBoundsError);
    assert_eq!(decode_record(&buf, 1).unwrap_err(), ScanError::DecodeBoundsError);
    assert_eq!(decode_record(&buf, usize::MAX).unwrap_err(), ScanError::DecodeBoundsError);
    assert_eq!(decode_record(&[], 0).unwrap_err(), ScanError::DecodeBoundsError);
}

#[test]
fn attributes_are_told_by_their_bits() {
    let returned = ATTR_CMN_RETURNED_ATTRS | ATTR_CMN_NAME | ATTR_CMN_FILEID;
    assert!(attr_returned(returned, ATTR_CMN_NAME));
    assert!(attr_returned(returned, ATTR_CMN_FILEID));
    assert!(attr_returned(returned, ATTR_CMN_RETURNED_ATTRS));
    assert!(!attr_returned(returned, ATTR_CMN_OBJTYPE));
    assert!(!attr_returned(returned, ATTR_CMN_ERROR));
    assert!(!attr_returned(0, ATTR_CMN_NAME));
}

#[test]
fn the_attribute_bits_are_those_of_the_platform() {
    assert_eq!(ATTR_CMN_NAME, 0x0000_0001);
    assert_eq!(ATTR_CMN_OBJTYPE, 0x0000_0008);
    assert_eq!(ATTR_CMN_FILEID, 0x0200_0000);
    assert_eq!(ATTR_CMN_ERROR, 0x2000_0000);
    assert_eq!(ATTR_CMN_RETURNED_ATTRS, 0x8000_0000);
}

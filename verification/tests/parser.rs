//! TLV parser tests: byte decoding, field interpretation, padding, the MAC
//! feed, and the record accessors.
use rs_pwsafe::util::{bytes_as_u16, bytes_as_u32, to_uinx_timestamp};
use rs_pwsafe::header::HeaderField;
use rs_pwsafe::field::RecordField;
use rs_pwsafe::record::DbRecord;
use rs_pwsafe::pwsdb::PwDb;
use rs_pwsafe::pwserrors::PwSafeError;

fn tlv(t: u8, payload: &[u8]) -> Vec<u8> {
    let mut v = (payload.len() as u32).to_le_bytes().to_vec();
    v.push(t);
    v.extend_from_slice(payload);
    let total = 5 + payload.len();
    let padded = if total <= 16 { 16 } else { ((total + 15) / 16) * 16 };
    while v.len() < padded {
        v.push(0);
    }
    v
}

#[test]
fn bytes_as_u16_exact() {
    assert_eq!(bytes_as_u16(&[0x10, 0x03]), 0x0310);
    assert_eq!(bytes_as_u16(&[0xff, 0xff]), 0xffff);
    assert_eq!(bytes_as_u16(&[0x01, 0x00]), 1);
}

#[test]
fn bytes_as_u32_exact() {
    assert_eq!(bytes_as_u32(&[0x78, 0x56, 0x34, 0x12]), 0x12345678);
    assert_eq!(bytes_as_u32(&[0, 0, 0, 0]), 0);
    assert_eq!(bytes_as_u32(&[0xff, 0xff, 0xff, 0xff]), 0xffffffff);
}

#[test]
fn timestamp_is_le_u32() {
    assert_eq!(to_uinx_timestamp(&[0x40, 0xe2, 0x01, 0x00]), 123456);
}

#[test]
fn header_version_decodes() {
    match HeaderField::load(0x00, &[0x10, 0x03]) {
        Ok(HeaderField::Version(v)) => assert_eq!(v, 0x0310),
        r => panic!("expected Version, got {:?}", r),
    }
}

#[test]
fn header_string_decodes() {
    match HeaderField::load(0x09, b"MyBase") {
        Ok(HeaderField::DatabaseName(s)) => assert_eq!(s, "MyBase"),
        r => panic!("expected DatabaseName, got {:?}", r),
    }
}

#[test]
fn header_invalid_utf8_is_fatal() {
    match HeaderField::load(0x09, &[0xff, 0xfe, 0x41]) {
        Err(PwSafeError::InvalidUtf8InStringField) => (),
        r => panic!("expected InvalidUtf8InStringField, got {:?}", r),
    }
}

#[test]
fn header_unknown_code_is_reserved() {
    match HeaderField::load(0x42, &[1, 2, 3]) {
        Ok(HeaderField::Reserved1) => (),
        r => panic!("expected Reserved1, got {:?}", r),
    }
}

#[test]
fn record_field_decodes() {
    match RecordField::load(0x03, b"A title") {
        Ok(RecordField::Title(s)) => assert_eq!(s, "A title"),
        r => panic!("expected Title, got {:?}", r),
    }
    match RecordField::load(0x07, &[0x40, 0xe2, 0x01, 0x00]) {
        Ok(RecordField::CreationTime(v)) => assert_eq!(v, 123456),
        r => panic!("expected CreationTime, got {:?}", r),
    }
    match RecordField::load(0x15, &[1]) {
        Ok(RecordField::ProtectedEntry(v)) => assert_eq!(v, 1),
        r => panic!("expected ProtectedEntry, got {:?}", r),
    }
    match RecordField::load(0x1b, &[9, 8, 7]) {
        Ok(RecordField::TwoFactorKey(b)) => assert_eq!(b, vec![9, 8, 7]),
        r => panic!("expected TwoFactorKey, got {:?}", r),
    }
    match RecordField::load(0x13, &[4, 5, 6]) {
        Ok(RecordField::DoubleClickAction(b)) => assert_eq!(b, vec![4, 5]),
        r => panic!("expected DoubleClickAction, got {:?}", r),
    }
    match RecordField::load(0x01, &[0u8; 16]) {
        Ok(RecordField::UUID(b)) => assert_eq!(b.len(), 16),
        r => panic!("expected UUID, got {:?}", r),
    }
    // a UUID payload must be exactly 16 bytes, on the record side as on
    // the header side
    match RecordField::load(0x01, &[0u8; 17]) {
        Ok(RecordField::Unknown) => (),
        r => panic!("expected Unknown, got {:?}", r),
    }
}

#[test]
fn record_unknown_code_kept_opaque() {
    match RecordField::load(0x60, &[1, 2]) {
        Ok(RecordField::Unknown) => (),
        r => panic!("expected Unknown, got {:?}", r),
    }
}

#[test]
fn record_invalid_utf8_is_fatal() {
    match RecordField::load(0x06, &[0xc0, 0x00]) {
        Err(PwSafeError::InvalidUtf8InStringField) => (),
        r => panic!("expected InvalidUtf8InStringField, got {:?}", r),
    }
}

#[test]
fn read_record_parses_fields_and_feeds_mac() {
    let mut buf = Vec::new();
    buf.extend_from_slice(&tlv(0x03, b"Entry1"));
    buf.extend_from_slice(&tlv(0x04, b"user1"));
    buf.extend_from_slice(&tlv(0xff, &[]));
    let mut feed = Vec::new();
    let (end, rec) = PwDb::read_record(&buf, &mut feed).unwrap();
    assert_eq!(end, buf.len());
    assert_eq!(rec.fields.len(), 2);
    assert_eq!(rec.title().as_deref(), Some("Entry1"));
    assert_eq!(rec.username().as_deref(), Some("user1"));
    // the MAC is fed exactly the payload bytes, in order, nothing else
    assert_eq!(feed, b"Entry1user1".to_vec());
}

#[test]
fn read_record_padding_short_element() {
    // a 3-byte payload occupies one whole block: 5 + 3 padded up to 16
    let mut buf = Vec::new();
    buf.extend_from_slice(&tlv(0x03, b"abc"));
    assert_eq!(buf.len(), 16);
    buf.extend_from_slice(&tlv(0xff, &[]));
    let mut feed = Vec::new();
    let (end, rec) = PwDb::read_record(&buf, &mut feed).unwrap();
    assert_eq!(end, 32);
    assert_eq!(rec.fields.len(), 1);
}

#[test]
fn read_record_padding_eleven_byte_payload() {
    // 5 + 11 bytes exactly fill one block, no padding
    let mut buf = Vec::new();
    buf.extend_from_slice(&tlv(0x03, b"elevenchars"));
    assert_eq!(buf.len(), 16);
    buf.extend_from_slice(&tlv(0xff, &[]));
    let mut feed = Vec::new();
    let (end, rec) = PwDb::read_record(&buf, &mut feed).unwrap();
    assert_eq!(end, 32);
    assert_eq!(rec.title().as_deref(), Some("elevenchars"));
}

#[test]
fn read_record_padding_long_element() {
    // 5 + 20 bytes round up to two blocks
    let payload = b"twenty--bytes-------";
    assert_eq!(payload.len(), 20);
    let mut buf = Vec::new();
    buf.extend_from_slice(&tlv(0x03, payload));
    assert_eq!(buf.len(), 32);
    buf.extend_from_slice(&tlv(0xff, &[]));
    let mut feed = Vec::new();
    let (end, rec) = PwDb::read_record(&buf, &mut feed).unwrap();
    assert_eq!(end, 48);
    assert_eq!(rec.fields.len(), 1);
}

#[test]
fn read_header_parses_version() {
    let mut buf = Vec::new();
    buf.extend_from_slice(&tlv(0x00, &[0x10, 0x03]));
    buf.extend_from_slice(&tlv(0xff, &[]));
    let mut feed = Vec::new();
    let (end, hs) = PwDb::read_header(&buf, &mut feed).unwrap();
    assert_eq!(end, 32);
    assert_eq!(hs.len(), 1);
    assert_eq!(hs[0].len, 2);
    match &hs[0].field {
        HeaderField::Version(v) => assert_eq!(*v, 0x0310),
        f => panic!("expected Version, got {:?}", f),
    }
    assert_eq!(feed, vec![0x10, 0x03]);
}

#[test]
fn username_find_username() {
    let mut fields = Vec::new();
    fields.push(RecordField::Username("a".to_string()));
    fields.push(RecordField::ProtectedEntry(1));
    fields.push(RecordField::URL("b".to_string()));
    let rec = DbRecord { fields };
    let group = rec.username();
    assert!(group.is_some());
    assert_eq!(group.unwrap(), "a".to_string());
}

#[test]
fn groups_find_groups() {
    let mut fields = Vec::new();
    fields.push(RecordField::Group("a".to_string()));
    fields.push(RecordField::ProtectedEntry(1));
    fields.push(RecordField::URL("b".to_string()));
    let rec = DbRecord { fields };
    let group = rec.group();
    assert!(group.is_some());
    assert_eq!(group.unwrap(), "a".to_string());
}

#[test]
fn groups_find_none() {
    let mut fields = Vec::new();
    fields.push(RecordField::ProtectedEntry(1));
    fields.push(RecordField::URL("b".to_string()));
    let rec = DbRecord { fields };
    let group = rec.group();
    assert!(group.is_none());
}

#[test]
fn record_accessors_find_first() {
    let fields = vec![
        RecordField::Password("p1".to_string()),
        RecordField::Password("p2".to_string()),
        RecordField::EMailAddress("m@example".to_string()),
    ];
    let rec = DbRecord { fields };
    assert_eq!(rec.password().as_deref(), Some("p1"));
    assert_eq!(rec.email().as_deref(), Some("m@example"));
    assert!(rec.title().is_none());
}

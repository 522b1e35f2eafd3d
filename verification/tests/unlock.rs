//! End-to-end unlock tests on synthesized safes: the happy path, wrong
//! passphrases, tampering, truncation, empty records and grouping.
use rs_pwsafe::PwFile;
use rs_pwsafe::pwserrors::PwSafeError;
use rs_pwsafe::pwsfile::PwSafeEncrypted;
use rs_pwsafe::pwsdb::PwDb;
use sha2::{Digest, Sha256};
use lsx::Twofish;
use hmac::{Hmac, Mac, KeyInit};

fn stretch(pw: &[u8], salt: &[u8; 32], iter: u32) -> [u8; 32] {
    let mut h = Sha256::new();
    h.update(pw);
    h.update(salt);
    let mut r = h.finalize();
    for _ in 0..iter {
        r = Sha256::digest(&r);
    }
    r.into()
}

fn tlv(t: u8, payload: &[u8]) -> Vec<u8> {
    let mut v = (payload.len() as u32).to_le_bytes().to_vec();
    v.push(t);
    v.extend_from_slice(payload);
    let total = 5 + payload.len();
    let padded = if total <= 16 { 16 } else { ((total + 15) / 16) * 16 };
    while v.len() < padded {
        v.push(0);
    }
    v
}

fn build_file(passphrase: &str, iter: u32, elements: &[(u8, Vec<u8>)]) -> Vec<u8> {
    let salt = [7u8; 32];
    let iv = [9u8; 16];
    let k = [3u8; 32];
    let l = [5u8; 32];
    let p = stretch(passphrase.as_bytes(), &salt, iter);
    let ph = Sha256::digest(&p);
    let tf_p = Twofish::new256(&p);
    let mut wrapped = [[0u8; 16]; 4];
    let mut half = [0u8; 16];
    half.copy_from_slice(&k[0..16]);
    tf_p.encrypt(&half, &mut wrapped[0]);
    half.copy_from_slice(&k[16..32]);
    tf_p.encrypt(&half, &mut wrapped[1]);
    half.copy_from_slice(&l[0..16]);
    tf_p.encrypt(&half, &mut wrapped[2]);
    half.copy_from_slice(&l[16..32]);
    tf_p.encrypt(&half, &mut wrapped[3]);

    let mut plain = Vec::new();
    let mut feed = Vec::new();
    for (t, payload) in elements {
        plain.extend_from_slice(&tlv(*t, payload));
        if *t != 0xff {
            feed.extend_from_slice(payload);
        }
    }
    assert!(plain.len() % 16 == 0);

    let tf_k = Twofish::new256(&k);
    let mut body = Vec::new();
    let mut prev = iv;
    for chunk in plain.chunks(16) {
        let mut x = [0u8; 16];
        x.copy_from_slice(chunk);
        for j in 0..16 {
            x[j] ^= prev[j];
        }
        let mut c = [0u8; 16];
        tf_k.encrypt(&x, &mut c);
        body.extend_from_slice(&c);
        prev = c;
    }

    let mut m: Hmac<Sha256> = Hmac::new_from_slice(&l).unwrap();
    m.update(&feed);
    let tag = m.finalize().into_bytes();

    let mut f = b"PWS3".to_vec();
    f.extend_from_slice(&salt);
    f.extend_from_slice(&iter.to_le_bytes());
    f.extend_from_slice(&ph);
    for blk in &wrapped {
        f.extend_from_slice(blk);
    }
    f.extend_from_slice(&iv);
    f.extend_from_slice(&body);
    f.extend_from_slice(b"PWS3-EOFPWS3-EOF");
    f.extend_from_slice(&tag);
    f
}

fn dev_safe() -> Vec<u8> {
    build_file(
        "PswSafe123",
        64,
        &[
            (0x00, vec![0x10, 0x03]),
            (0x09, b"TestDb".to_vec()),
            (0xff, vec![]),
            (0x03, b"Entry1".to_vec()),
            (0x04, b"user1".to_vec()),
            (0x06, b"secret1".to_vec()),
            (0xff, vec![]),
            (0x03, b"Entry2".to_vec()),
            (0x06, b"secret2".to_vec()),
            (0xff, vec![]),
        ],
    )
}

fn groups_safe() -> Vec<u8> {
    let mut elements: Vec<(u8, Vec<u8>)> = vec![
        (0x00, vec![0x10, 0x03]),
        (0xff, vec![]),
    ];
    for (group, n) in [("GroupA", 3), ("GroupB", 4)] {
        for i in 0..n {
            elements.push((0x03, format!("{}-entry{}", group, i).into_bytes()));
            elements.push((0x02, group.as_bytes().to_vec()));
            elements.push((0x06, format!("pw{}", i).into_bytes()));
            elements.push((0xff, vec![]));
        }
    }
    build_file("PswSafe123", 64, &elements)
}

#[test]
fn unlock_happy_path() {
    let data = dev_safe();
    let mut file = PwFile::from_bytes(&data).expect("open failed");
    file.unlock("PswSafe123").expect("unlock failed");
    assert!(file.db.header.len() > 0);
    let first = &file.db.records[0];
    assert_eq!(first.title().as_deref(), Some("Entry1"));
    assert_eq!(first.username().as_deref(), Some("user1"));
    assert_eq!(first.password().as_deref(), Some("secret1"));
    assert_eq!(file.db.records.len(), 2);
}

#[test]
fn execute_load() {
    let data_buf = dev_safe();
    let mut safe = PwSafeEncrypted::new();
    assert!(safe.check_format(&data_buf).is_ok());
    assert!(safe.load(&data_buf).is_ok());
    let trans = match safe.prepare_db("PswSafe123".to_string()) {
        Ok(t) => t,
        Err(e) => panic!("{:?}", e),
    };
    let db = PwDb::load(&trans.plt, &trans.l, &trans.sig).expect("parse failed");
    assert!(db.header.len() > 0);
}

#[test]
fn header_version_field_nonzero() {
    let data = dev_safe();
    let mut file = PwFile::from_bytes(&data).expect("open failed");
    file.unlock("PswSafe123").expect("unlock failed");
    match &file.db.header[0].field {
        rs_pwsafe::header::HeaderField::Version(v) => {
            assert_eq!(*v, 0x0310);
            assert!(*v != 0);
        },
        f => panic!("expected Version, got {:?}", f),
    }
}

#[test]
fn unlock_wrong_passphrase() {
    let data = dev_safe();
    let mut file = PwFile::from_bytes(&data).expect("open failed");
    match file.unlock("wrong") {
        Err(PwSafeError::InvalidKey) => (),
        r => panic!("expected InvalidKey, got {:?}", r),
    }
    // no plaintext was produced
    assert_eq!(file.db.records.len(), 0);
    assert_eq!(file.db.header.len(), 0);
}

#[test]
fn unlock_trims_passphrase() {
    let data = dev_safe();
    let mut file = PwFile::from_bytes(&data).expect("open failed");
    file.unlock("  PswSafe123\n").expect("trimmed unlock failed");
    assert!(file.db.header.len() > 0);
}

#[test]
fn unlock_zero_iterations() {
    let data = build_file(
        "PswSafe123",
        0,
        &[(0x00, vec![0x10, 0x03]), (0xff, vec![])],
    );
    let mut file = PwFile::from_bytes(&data).expect("open failed");
    match file.unlock("PswSafe123") {
        Err(PwSafeError::IterationsNotInitialized) => (),
        r => panic!("expected IterationsNotInitialized, got {:?}", r),
    }
}

#[test]
fn unlock_tampered_body() {
    // flip the byte at offset 200, inside the encrypted body
    let mut data = dev_safe();
    assert!(data.len() > 200);
    data[200] ^= 0x01;
    let mut file = PwFile::from_bytes(&data).expect("open failed");
    match file.unlock("PswSafe123") {
        Err(PwSafeError::InvalidSignature) => (),
        r => panic!("expected InvalidSignature, got {:?}", r),
    }
    assert_eq!(file.db.records.len(), 0);
}

#[test]
fn unlock_tampered_payload_byte() {
    // flip a ciphertext byte in the block that carries the last record's
    // password payload
    let mut data = dev_safe();
    data[280] ^= 0x80;
    let mut file = PwFile::from_bytes(&data).expect("open failed");
    match file.unlock("PswSafe123") {
        Err(PwSafeError::InvalidSignature) => (),
        r => panic!("expected InvalidSignature, got {:?}", r),
    }
}

#[test]
fn unlock_twice_same_database() {
    let data = dev_safe();
    let mut file = PwFile::from_bytes(&data).expect("open failed");
    file.unlock("PswSafe123").expect("first unlock failed");
    let first = file.db.clone();
    file.unlock("PswSafe123").expect("second unlock failed");
    assert_eq!(first, file.db);
}

#[test]
fn empty_record_is_dropped() {
    // a record holding only its end-of-record sentinel is not emitted
    let data = build_file(
        "PswSafe123",
        64,
        &[
            (0x00, vec![0x10, 0x03]),
            (0xff, vec![]),
            (0x03, b"Entry1".to_vec()),
            (0xff, vec![]),
            (0xff, vec![]),
            (0x03, b"Entry2".to_vec()),
            (0xff, vec![]),
        ],
    );
    let mut file = PwFile::from_bytes(&data).expect("open failed");
    file.unlock("PswSafe123").expect("unlock failed");
    assert_eq!(file.db.records.len(), 2);
    assert_eq!(file.db.records[0].title().as_deref(), Some("Entry1"));
    assert_eq!(file.db.records[1].title().as_deref(), Some("Entry2"));
}

#[test]
fn entries_are_grouped() {
    let data = groups_safe();
    let mut file = PwFile::from_bytes(&data).expect("failed to open safe");
    file.unlock("PswSafe123").expect("failed to unlock db");
    let groups = file.groups();
    assert_eq!(groups.len(), 2);
    let records = file.by_broup(groups.iter().next().unwrap().to_string());
    assert!(records.len() >= 3);
}

#[test]
fn get_entry_has_title() {
    let data = groups_safe();
    let mut file = PwFile::from_bytes(&data).expect("failed to open safe");
    file.unlock("PswSafe123").expect("failed to unlock db");
    let groups = file.groups();
    assert_eq!(groups.len(), 2);
    let records = file.by_broup(groups.iter().next().unwrap().to_string());
    let title = records.first().unwrap().title();
    assert!(title.is_some())
}

#[test]
fn get_entry_has_password() {
    let data = groups_safe();
    let mut file = PwFile::from_bytes(&data).expect("failed to open safe");
    file.unlock("PswSafe123").expect("failed to unlock db");
    let groups = file.groups();
    assert_eq!(groups.len(), 2);
    let records = file.by_broup(groups.iter().next().unwrap().to_string());
    let password = records.first().unwrap().password();
    assert!(password.is_some())
}

#[test]
fn groups_keep_first_occurrence_order() {
    let data = groups_safe();
    let mut file = PwFile::from_bytes(&data).expect("open failed");
    file.unlock("PswSafe123").expect("unlock failed");
    assert_eq!(file.groups(), vec!["GroupA".to_string(), "GroupB".to_string()]);
    let in_a = file.by_broup("GroupA".to_string());
    let titles: Vec<String> = in_a.iter().map(|r| r.title().unwrap()).collect();
    assert_eq!(
        titles,
        vec![
            "GroupA-entry0".to_string(),
            "GroupA-entry1".to_string(),
            "GroupA-entry2".to_string()
        ]
    );
    assert_eq!(file.by_broup("GroupB".to_string()).len(), 4);
    assert_eq!(file.by_broup("NoSuchGroup".to_string()).len(), 0);
}

#[test]
fn iter_walks_all_records() {
    let data = groups_safe();
    let mut file = PwFile::from_bytes(&data).expect("open failed");
    file.unlock("PswSafe123").expect("unlock failed");
    assert_eq!(file.iter().len(), 7);
    for record in file.iter() {
        assert!(record.title().is_some());
    }
}

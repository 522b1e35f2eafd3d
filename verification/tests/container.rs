//! Container layout tests: tag and sentinel checks, size floors, and the
//! slicing of a synthesized safe.
use rs_pwsafe::pwsfile::PwSafeEncrypted;
use rs_pwsafe::pwserrors::PwSafeError;
use rs_pwsafe::PwFile;
use sha2::{Digest, Sha256};
use lsx::Twofish;
use hmac::{Hmac, Mac, KeyInit};

const PSW3_IDENTIFIER: &[u8] = b"PWS3";

fn stretch(pw: &[u8], salt: &[u8; 32], iter: u32) -> [u8; 32] {
    let mut h = Sha256::new();
    h.update(pw);
    h.update(salt);
    let mut r = h.finalize();
    for _ in 0..iter {
        r = Sha256::digest(&r);
    }
    r.into()
}

fn tlv(t: u8, payload: &[u8]) -> Vec<u8> {
    let mut v = (payload.len() as u32).to_le_bytes().to_vec();
    v.push(t);
    v.extend_from_slice(payload);
    let total = 5 + payload.len();
    let padded = if total <= 16 { 16 } else { ((total + 15) / 16) * 16 };
    while v.len() < padded {
        v.push(0);
    }
    v
}

/// Builds a complete, correctly encrypted and authenticated PWS3 file.
fn build_file(passphrase: &str, iter: u32, elements: &[(u8, Vec<u8>)]) -> Vec<u8> {
    let salt = [7u8; 32];
    let iv = [9u8; 16];
    let k = [3u8; 32];
    let l = [5u8; 32];
    let p = stretch(passphrase.as_bytes(), &salt, iter);
    let ph = Sha256::digest(&p);
    let tf_p = Twofish::new256(&p);
    let mut wrapped = [[0u8; 16]; 4];
    let mut half = [0u8; 16];
    half.copy_from_slice(&k[0..16]);
    tf_p.encrypt(&half, &mut wrapped[0]);
    half.copy_from_slice(&k[16..32]);
    tf_p.encrypt(&half, &mut wrapped[1]);
    half.copy_from_slice(&l[0..16]);
    tf_p.encrypt(&half, &mut wrapped[2]);
    half.copy_from_slice(&l[16..32]);
    tf_p.encrypt(&half, &mut wrapped[3]);

    let mut plain = Vec::new();
    let mut feed = Vec::new();
    for (t, payload) in elements {
        plain.extend_from_slice(&tlv(*t, payload));
        if *t != 0xff {
            feed.extend_from_slice(payload);
        }
    }
    assert!(plain.len() % 16 == 0);

    let tf_k = Twofish::new256(&k);
    let mut body = Vec::new();
    let mut prev = iv;
    for chunk in plain.chunks(16) {
        let mut x = [0u8; 16];
        x.copy_from_slice(chunk);
        for j in 0..16 {
            x[j] ^= prev[j];
        }
        let mut c = [0u8; 16];
        tf_k.encrypt(&x, &mut c);
        body.extend_from_slice(&c);
        prev = c;
    }

    let mut m: Hmac<Sha256> = Hmac::new_from_slice(&l).unwrap();
    m.update(&feed);
    let tag = m.finalize().into_bytes();

    let mut f = PSW3_IDENTIFIER.to_vec();
    f.extend_from_slice(&salt);
    f.extend_from_slice(&iter.to_le_bytes());
    f.extend_from_slice(&ph);
    for blk in &wrapped {
        f.extend_from_slice(blk);
    }
    f.extend_from_slice(&iv);
    f.extend_from_slice(&body);
    f.extend_from_slice(b"PWS3-EOFPWS3-EOF");
    f.extend_from_slice(&tag);
    f
}

fn small_safe() -> Vec<u8> {
    build_file(
        "PswSafe123",
        64,
        &[
            (0x00, vec![0x10, 0x03]),
            (0x09, b"TestDb".to_vec()),
            (0xff, vec![]),
            (0x03, b"Entry1".to_vec()),
            (0x04, b"user1".to_vec()),
            (0x06, b"secret1".to_vec()),
            (0xff, vec![]),
        ],
    )
}

#[test]
fn check_tag_finds_tag() {
    let safe = PwSafeEncrypted::new();
    let tag_s = safe.check_tag(PSW3_IDENTIFIER);
    assert!(tag_s.is_ok())
}

#[test]
fn mod_check_tag_finds_tag() {
    let safe = PwSafeEncrypted::new();
    let tag_s = safe.check_tag(PSW3_IDENTIFIER);
    assert!(tag_s.is_ok())
}

#[test]
fn check_tag_finds_tag_in_file() {
    let data_buf = small_safe();
    let safe = PwSafeEncrypted::new();
    let tag_s = safe.check_tag(data_buf.as_slice());
    assert!(tag_s.is_ok())
}

#[test]
fn check_reports_valid_file() {
    let data_buf = small_safe();
    let mut safe = PwSafeEncrypted::new();
    assert!(safe.check_format(&data_buf).is_ok())
}

#[test]
fn unlock_prints_text() {
    let data_buf = small_safe();
    let mut safe = PwSafeEncrypted::new();
    assert!(safe.check_format(&data_buf).is_ok());
    assert!(safe.load(&data_buf).is_ok());
    let unlock = safe.unlock("PswSafe123".to_string());
    assert!(unlock.is_ok())
}

#[test]
fn strecht_key_match() {
    let data_buf = small_safe();
    let mut safe = PwSafeEncrypted::new();
    safe.set_salt(&data_buf);
    safe.set_iter(&data_buf);
    let pw_vec = "PswSafe123".as_bytes().to_vec();
    safe.set_key(&data_buf);
    assert!(safe.check_key(pw_vec).is_ok());
}

#[test]
fn stretch_key_accepts_only_match() {
    let data_buf = small_safe();
    let mut safe = PwSafeEncrypted::new();
    safe.set_salt(&data_buf);
    safe.set_iter(&data_buf);
    safe.set_key(&data_buf);
    assert_eq!(safe.check_key(b"PswSafe123".to_vec()), Ok(true));
    assert_eq!(safe.check_key(b"PswSafe124".to_vec()), Ok(false));
}

#[test]
fn valid_file_length_formula() {
    // a valid file of k body blocks is 152 + 16*k + 16 + 32 bytes long
    let data = small_safe();
    assert_eq!(data.len() % 16, 200 % 16);
    let k = (data.len() - 200) / 16;
    assert_eq!(data.len(), 152 + 16 * k + 16 + 32);
    assert!(PwFile::from_bytes(&data).is_ok());
}

#[test]
fn bad_tag_not_supported() {
    let mut data = small_safe();
    data[0] = b'X';
    match PwFile::from_bytes(&data) {
        Err(PwSafeError::FileNotSupported) => (),
        r => panic!("expected FileNotSupported, got {:?}", r.map(|_| ())),
    }
}

#[test]
fn short_input_not_supported() {
    match PwFile::from_bytes(b"PW") {
        Err(PwSafeError::FileNotSupported) => (),
        r => panic!("expected FileNotSupported, got {:?}", r.map(|_| ())),
    }
}

#[test]
fn missing_sentinel_reported() {
    let mut data = small_safe();
    let n = data.len();
    // erase the sentinel (16 bytes before the 32-byte tag)
    for i in (n - 48)..(n - 32) {
        data[i] = 0;
    }
    match PwFile::from_bytes(&data) {
        Err(PwSafeError::EofSentinelMissing) => (),
        r => panic!("expected EofSentinelMissing, got {:?}", r.map(|_| ())),
    }
}

#[test]
fn early_sentinel_is_position_error() {
    let mut data = vec![0u8; 200];
    data[0..4].copy_from_slice(b"PWS3");
    // a sentinel inside the fixed key block
    data[40..56].copy_from_slice(b"PWS3-EOFPWS3-EOF");
    match PwFile::from_bytes(&data) {
        Err(PwSafeError::EofPositionError) => (),
        r => panic!("expected EofPositionError, got {:?}", r.map(|_| ())),
    }
}

#[test]
fn truncated_mac_too_small() {
    // a file cut by one byte inside the MAC tag is rejected
    let mut data = small_safe();
    data.pop();
    match PwFile::from_bytes(&data) {
        Err(PwSafeError::FileTooSmall) => (),
        r => panic!("expected FileTooSmall, got {:?}", r.map(|_| ())),
    }
}

#[test]
fn removed_mac_too_small() {
    // removing the whole trailing 32-byte MAC also fails the size floor
    let mut data = small_safe();
    let n = data.len();
    data.truncate(n - 32);
    match PwFile::from_bytes(&data) {
        Err(PwSafeError::FileTooSmall) => (),
        r => panic!("expected FileTooSmall, got {:?}", r.map(|_| ())),
    }
}

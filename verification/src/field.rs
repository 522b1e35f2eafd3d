//! The record TLV vocabulary: a closed sum of typed record fields plus a
//! catch-all tag for the extension range, with per-code payload
//! interpretation.
use vstd::prelude::*;
use vstd::utf8::{valid_utf8, decode_utf8};
use crate::pwserrors::PwSafeError;
use crate::util::{le32, to_uinx_timestamp, load_string};

verus! {

/// A typed record field.  String payloads are UTF-8; timestamps are Unix
/// epoch seconds; UUIDs and fixed-width payloads are kept as raw bytes.
#[derive(Debug, Clone, PartialEq)]
pub enum RecordField {
    UUID(Vec<u8>),
    Group(String),
    Title(String),
    Username(String),
    Notes(String),
    Password(String),
    CreationTime(u32),
    PasswordModTime(u32),
    LastAccessTime(u32),
    PasswordExpiryTime(u32),
    Reserved1(Vec<u8>),
    LastModTime(u32),
    URL(String),
    Autotype(String),
    PasswordHistory(String),
    PasswordPolicy(String),
    PasswordExpiryInterval(Vec<u8>),
    RunCommand(String),
    DoubleClickAction(Vec<u8>),
    EMailAddress(String),
    ProtectedEntry(u8),
    OwnSymbolsForPassword(String),
    ShiftDoubleClickAction(Vec<u8>),
    PasswordPolicyName(String),
    EntryKeyboardShortcut(Vec<u8>),
    Reserved2(Vec<u8>),
    TwoFactorKey(Vec<u8>),
    CredicCardNumber(String),
    CreditCardExpiration(String),
    CreditCardVerifValue(String),
    CreditCardPin(String),
    QRCode(String),
    Unknown,
    EndOfRecord,
}

/// The mathematical value of a record field.
pub ghost enum RecordFieldV {
    UUID(Seq<u8>),
    Group(Seq<char>),
    Title(Seq<char>),
    Username(Seq<char>),
    Notes(Seq<char>),
    Password(Seq<char>),
    CreationTime(u32),
    PasswordModTime(u32),
    LastAccessTime(u32),
    PasswordExpiryTime(u32),
    Reserved1(Seq<u8>),
    LastModTime(u32),
    URL(Seq<char>),
    Autotype(Seq<char>),
    PasswordHistory(Seq<char>),
    PasswordPolicy(Seq<char>),
    PasswordExpiryInterval(Seq<u8>),
    RunCommand(Seq<char>),
    DoubleClickAction(Seq<u8>),
    EMailAddress(Seq<char>),
    ProtectedEntry(u8),
    OwnSymbolsForPassword(Seq<char>),
    ShiftDoubleClickAction(Seq<u8>),
    PasswordPolicyName(Seq<char>),
    EntryKeyboardShortcut(Seq<u8>),
    Reserved2(Seq<u8>),
    TwoFactorKey(Seq<u8>),
    CredicCardNumber(Seq<char>),
    CreditCardExpiration(Seq<char>),
    CreditCardVerifValue(Seq<char>),
    CreditCardPin(Seq<char>),
    QRCode(Seq<char>),
    Unknown,
    EndOfRecord,
}

impl View for RecordField {
    type V = RecordFieldV;

    open spec fn view(&self) -> RecordFieldV {
        match self {
            RecordField::UUID(u) => RecordFieldV::UUID(u@),
            RecordField::Group(s) => RecordFieldV::Group(s@),
            RecordField::Title(s) => RecordFieldV::Title(s@),
            RecordField::Username(s) => RecordFieldV::Username(s@),
            RecordField::Notes(s) => RecordFieldV::Notes(s@),
            RecordField::Password(s) => RecordFieldV::Password(s@),
            RecordField::CreationTime(v) => RecordFieldV::CreationTime(*v),
            RecordField::PasswordModTime(v) => RecordFieldV::PasswordModTime(*v),
            RecordField::LastAccessTime(v) => RecordFieldV::LastAccessTime(*v),
            RecordField::PasswordExpiryTime(v) => RecordFieldV::PasswordExpiryTime(*v),
            RecordField::Reserved1(b) => RecordFieldV::Reserved1(b@),
            RecordField::LastModTime(v) => RecordFieldV::LastModTime(*v),
            RecordField::URL(s) => RecordFieldV::URL(s@),
            RecordField::Autotype(s) => RecordFieldV::Autotype(s@),
            RecordField::PasswordHistory(s) => RecordFieldV::PasswordHistory(s@),
            RecordField::PasswordPolicy(s) => RecordFieldV::PasswordPolicy(s@),
            RecordField::PasswordExpiryInterval(b) => RecordFieldV::PasswordExpiryInterval(b@),
            RecordField::RunCommand(s) => RecordFieldV::RunCommand(s@),
            RecordField::DoubleClickAction(b) => RecordFieldV::DoubleClickAction(b@),
            RecordField::EMailAddress(s) => RecordFieldV::EMailAddress(s@),
            RecordField::ProtectedEntry(v) => RecordFieldV::ProtectedEntry(*v),
            RecordField::OwnSymbolsForPassword(s) => RecordFieldV::OwnSymbolsForPassword(s@),
            RecordField::ShiftDoubleClickAction(b) => RecordFieldV::ShiftDoubleClickAction(b@),
            RecordField::PasswordPolicyName(s) => RecordFieldV::PasswordPolicyName(s@),
            RecordField::EntryKeyboardShortcut(b) => RecordFieldV::EntryKeyboardShortcut(b@),
            RecordField::Reserved2(b) => RecordFieldV::Reserved2(b@),
            RecordField::TwoFactorKey(b) => RecordFieldV::TwoFactorKey(b@),
            RecordField::CredicCardNumber(s) => RecordFieldV::CredicCardNumber(s@),
            RecordField::CreditCardExpiration(s) => RecordFieldV::CreditCardExpiration(s@),
            RecordField::CreditCardVerifValue(s) => RecordFieldV::CreditCardVerifValue(s@),
            RecordField::CreditCardPin(s) => RecordFieldV::CreditCardPin(s@),
            RecordField::QRCode(s) => RecordFieldV::QRCode(s@),
            RecordField::Unknown => RecordFieldV::Unknown,
            RecordField::EndOfRecord => RecordFieldV::EndOfRecord,
        }
    }
}

impl DeepView for RecordField {
    type V = RecordFieldV;

    open spec fn deep_view(&self) -> RecordFieldV {
        self.view()
    }
}

/// The string-typed record field for a code, if the code names one.
pub open spec fn record_string_variant(t: u8, s: Seq<char>) -> Option<RecordFieldV> {
    if t == 2 {
        Some(RecordFieldV::Group(s))
    } else if t == 3 {
        Some(RecordFieldV::Title(s))
    } else if t == 4 {
        Some(RecordFieldV::Username(s))
    } else if t == 5 {
        Some(RecordFieldV::Notes(s))
    } else if t == 6 {
        Some(RecordFieldV::Password(s))
    } else if t == 13 {
        Some(RecordFieldV::URL(s))
    } else if t == 14 {
        Some(RecordFieldV::Autotype(s))
    } else if t == 15 {
        Some(RecordFieldV::PasswordHistory(s))
    } else if t == 16 {
        Some(RecordFieldV::PasswordPolicy(s))
    } else if t == 18 {
        Some(RecordFieldV::RunCommand(s))
    } else if t == 20 {
        Some(RecordFieldV::EMailAddress(s))
    } else if t == 22 {
        Some(RecordFieldV::OwnSymbolsForPassword(s))
    } else if t == 24 {
        Some(RecordFieldV::PasswordPolicyName(s))
    } else if t == 28 {
        Some(RecordFieldV::CredicCardNumber(s))
    } else if t == 29 {
        Some(RecordFieldV::CreditCardExpiration(s))
    } else if t == 30 {
        Some(RecordFieldV::CreditCardVerifValue(s))
    } else if t == 31 {
        Some(RecordFieldV::CreditCardPin(s))
    } else if t == 32 {
        Some(RecordFieldV::QRCode(s))
    } else {
        None
    }
}

/// The u32-timestamp record field for a code, if the code names one.
pub open spec fn record_time_variant(t: u8, v: u32) -> Option<RecordFieldV> {
    if t == 7 {
        Some(RecordFieldV::CreationTime(v))
    } else if t == 8 {
        Some(RecordFieldV::PasswordModTime(v))
    } else if t == 9 {
        Some(RecordFieldV::LastAccessTime(v))
    } else if t == 10 {
        Some(RecordFieldV::PasswordExpiryTime(v))
    } else if t == 12 {
        Some(RecordFieldV::LastModTime(v))
    } else {
        None
    }
}

/// The fixed-width-bytes record field for a code, together with its
/// required width, if the code names one.
pub open spec fn record_bytes_variant(t: u8, b: Seq<u8>) -> Option<(RecordFieldV, int)> {
    if t == 11 {
        Some((RecordFieldV::Reserved1(b), 4))
    } else if t == 17 {
        Some((RecordFieldV::PasswordExpiryInterval(b), 4))
    } else if t == 19 {
        Some((RecordFieldV::DoubleClickAction(b), 2))
    } else if t == 23 {
        Some((RecordFieldV::ShiftDoubleClickAction(b), 2))
    } else if t == 25 {
        Some((RecordFieldV::EntryKeyboardShortcut(b), 4))
    } else {
        None
    }
}

/// How a record payload decodes for a type code: `None` is the one fatal
/// case, a string field whose payload is not UTF-8.  UUID-shaped payloads
/// must be exactly 16 bytes; other codes whose payload is shorter than
/// the shape demands fall back to the catch-all tag, as do codes in the
/// extension range.
pub open spec fn decode_record_field(t: u8, p: Seq<u8>) -> Option<RecordFieldV> {
    if t == 1 {
        Some(
            if p.len() == 16 {
                RecordFieldV::UUID(p)
            } else {
                RecordFieldV::Unknown
            },
        )
    } else if t == 26 {
        Some(
            if p.len() == 16 {
                RecordFieldV::Reserved2(p)
            } else {
                RecordFieldV::Unknown
            },
        )
    } else if record_time_variant(t, 0) is Some {
        Some(
            if p.len() >= 4 {
                match record_time_variant(t, le32(p) as u32) {
                    Some(f) => f,
                    None => RecordFieldV::Unknown,
                }
            } else {
                RecordFieldV::Unknown
            },
        )
    } else if record_bytes_variant(t, p) is Some {
        Some(
            match record_bytes_variant(t, p) {
                Some((f, w)) => if p.len() >= w {
                    match record_bytes_variant(t, p.take(w)) {
                        Some((g, _)) => g,
                        None => RecordFieldV::Unknown,
                    }
                } else {
                    RecordFieldV::Unknown
                },
                None => RecordFieldV::Unknown,
            },
        )
    } else if t == 21 {
        Some(
            if p.len() >= 1 {
                RecordFieldV::ProtectedEntry(p[0])
            } else {
                RecordFieldV::Unknown
            },
        )
    } else if t == 27 {
        Some(RecordFieldV::TwoFactorKey(p))
    } else if record_string_variant(t, Seq::empty()) is Some {
        if valid_utf8(p) {
            record_string_variant(t, decode_utf8(p))
        } else {
            None
        }
    } else {
        Some(RecordFieldV::Unknown)
    }
}

impl RecordField {
    /// Interprets one record payload according to its type code.
    pub fn load(t: u8, payload: &[u8]) -> (r: Result<RecordField, PwSafeError>)
        ensures
            match r {
                Ok(f) => decode_record_field(t, payload@) == Some(f@),
                Err(e) => decode_record_field(t, payload@) is None && e
                    == PwSafeError::InvalidUtf8InStringField,
            },
    {
        if t == 7 || t == 8 || t == 9 || t == 10 || t == 12 {
            if payload.len() >= 4 {
                let v = to_uinx_timestamp(payload);
                if t == 7 {
                    Ok(RecordField::CreationTime(v))
                } else if t == 8 {
                    Ok(RecordField::PasswordModTime(v))
                } else if t == 9 {
                    Ok(RecordField::LastAccessTime(v))
                } else if t == 10 {
                    Ok(RecordField::PasswordExpiryTime(v))
                } else {
                    Ok(RecordField::LastModTime(v))
                }
            } else {
                Ok(RecordField::Unknown)
            }
        } else if t == 1 || t == 26 {
            if payload.len() == 16 {
                let b = vstd::slice::slice_to_vec(payload);
                if t == 1 {
                    Ok(RecordField::UUID(b))
                } else {
                    Ok(RecordField::Reserved2(b))
                }
            } else {
                Ok(RecordField::Unknown)
            }
        } else if t == 11 || t == 17 || t == 25 {
            if payload.len() >= 4 {
                let b = vstd::slice::slice_to_vec(vstd::slice::slice_subrange(payload, 0, 4));
                proof {
                    assert(payload@.take(4) =~= payload@.subrange(0, 4));
                }
                if t == 11 {
                    Ok(RecordField::Reserved1(b))
                } else if t == 17 {
                    Ok(RecordField::PasswordExpiryInterval(b))
                } else {
                    Ok(RecordField::EntryKeyboardShortcut(b))
                }
            } else {
                Ok(RecordField::Unknown)
            }
        } else if t == 19 || t == 23 {
            if payload.len() >= 2 {
                let b = vstd::slice::slice_to_vec(vstd::slice::slice_subrange(payload, 0, 2));
                proof {
                    assert(payload@.take(2) =~= payload@.subrange(0, 2));
                }
                if t == 19 {
                    Ok(RecordField::DoubleClickAction(b))
                } else {
                    Ok(RecordField::ShiftDoubleClickAction(b))
                }
            } else {
                Ok(RecordField::Unknown)
            }
        } else if t == 21 {
            if payload.len() >= 1 {
                Ok(RecordField::ProtectedEntry(*vstd::slice::slice_index_get(payload, 0)))
            } else {
                Ok(RecordField::Unknown)
            }
        } else if t == 27 {
            Ok(RecordField::TwoFactorKey(vstd::slice::slice_to_vec(payload)))
        } else if t == 2 || t == 3 || t == 4 || t == 5 || t == 6 || t == 13 || t == 14 || t == 15
            || t == 16 || t == 18 || t == 20 || t == 22 || t == 24 || t == 28 || t == 29 || t == 30
            || t == 31 || t == 32 {
            let s = match load_string(payload) {
                Ok(s) => s,
                Err(e) => {
                    return Err(e);
                },
            };
            if t == 2 {
                Ok(RecordField::Group(s))
            } else if t == 3 {
                Ok(RecordField::Title(s))
            } else if t == 4 {
                Ok(RecordField::Username(s))
            } else if t == 5 {
                Ok(RecordField::Notes(s))
            } else if t == 6 {
                Ok(RecordField::Password(s))
            } else if t == 13 {
                Ok(RecordField::URL(s))
            } else if t == 14 {
                Ok(RecordField::Autotype(s))
            } else if t == 15 {
                Ok(RecordField::PasswordHistory(s))
            } else if t == 16 {
                Ok(RecordField::PasswordPolicy(s))
            } else if t == 18 {
                Ok(RecordField::RunCommand(s))
            } else if t == 20 {
                Ok(RecordField::EMailAddress(s))
            } else if t == 22 {
                Ok(RecordField::OwnSymbolsForPassword(s))
            } else if t == 24 {
                Ok(RecordField::PasswordPolicyName(s))
            } else if t == 28 {
                Ok(RecordField::CredicCardNumber(s))
            } else if t == 29 {
                Ok(RecordField::CreditCardExpiration(s))
            } else if t == 30 {
                Ok(RecordField::CreditCardVerifValue(s))
            } else if t == 31 {
                Ok(RecordField::CreditCardPin(s))
            } else {
                Ok(RecordField::QRCode(s))
            }
        } else {
            Ok(RecordField::Unknown)
        }
    }
}

} // verus!

//! The header TLV vocabulary: a closed sum of typed header fields plus
//! reserved tags for the extension range, with per-code payload
//! interpretation.
use vstd::prelude::*;
use vstd::utf8::{valid_utf8, decode_utf8};
use crate::pwserrors::PwSafeError;
use crate::util::{le16, le32, bytes_as_u16, to_uinx_timestamp, load_string};

verus! {

/// A typed header field.  String payloads are UTF-8; timestamps are Unix
/// epoch seconds; the UUID is kept as its 16 raw bytes.
#[derive(Debug, Clone, PartialEq)]
pub enum HeaderField {
    Version(u16),
    UUID(Vec<u8>),
    NonDefaultPreferences(String),
    TreeDisplayStatus(String),
    TimestampLastSaved(u32),
    WhoLastSaved(String),
    WhatLastSaved(String),
    LastSavedByUser(String),
    LastSavedOnHost(String),
    DatabaseName(String),
    DatabaseDescription(String),
    DatabaseFilters(String),
    Reserved1,
    Reserved2,
    Reserved3,
    RecentlyUsedEntries(String),
    NamedPasswordPolicy(String),
    EmptyGroups(String),
    Yubico(String),
    LastMastPswChangeTimestamp(u32),
    EndOfEntry,
}

/// The mathematical value of a header field.
pub ghost enum HeaderFieldV {
    Version(u16),
    UUID(Seq<u8>),
    NonDefaultPreferences(Seq<char>),
    TreeDisplayStatus(Seq<char>),
    TimestampLastSaved(u32),
    WhoLastSaved(Seq<char>),
    WhatLastSaved(Seq<char>),
    LastSavedByUser(Seq<char>),
    LastSavedOnHost(Seq<char>),
    DatabaseName(Seq<char>),
    DatabaseDescription(Seq<char>),
    DatabaseFilters(Seq<char>),
    Reserved1,
    Reserved2,
    Reserved3,
    RecentlyUsedEntries(Seq<char>),
    NamedPasswordPolicy(Seq<char>),
    EmptyGroups(Seq<char>),
    Yubico(Seq<char>),
    LastMastPswChangeTimestamp(u32),
    EndOfEntry,
}

impl View for HeaderField {
    type V = HeaderFieldV;

    open spec fn view(&self) -> HeaderFieldV {
        match self {
            HeaderField::Version(v) => HeaderFieldV::Version(*v),
            HeaderField::UUID(u) => HeaderFieldV::UUID(u@),
            HeaderField::NonDefaultPreferences(s) => HeaderFieldV::NonDefaultPreferences(s@),
            HeaderField::TreeDisplayStatus(s) => HeaderFieldV::TreeDisplayStatus(s@),
            HeaderField::TimestampLastSaved(v) => HeaderFieldV::TimestampLastSaved(*v),
            HeaderField::WhoLastSaved(s) => HeaderFieldV::WhoLastSaved(s@),
            HeaderField::WhatLastSaved(s) => HeaderFieldV::WhatLastSaved(s@),
            HeaderField::LastSavedByUser(s) => HeaderFieldV::LastSavedByUser(s@),
            HeaderField::LastSavedOnHost(s) => HeaderFieldV::LastSavedOnHost(s@),
            HeaderField::DatabaseName(s) => HeaderFieldV::DatabaseName(s@),
            HeaderField::DatabaseDescription(s) => HeaderFieldV::DatabaseDescription(s@),
            HeaderField::DatabaseFilters(s) => HeaderFieldV::DatabaseFilters(s@),
            HeaderField::Reserved1 => HeaderFieldV::Reserved1,
            HeaderField::Reserved2 => HeaderFieldV::Reserved2,
            HeaderField::Reserved3 => HeaderFieldV::Reserved3,
            HeaderField::RecentlyUsedEntries(s) => HeaderFieldV::RecentlyUsedEntries(s@),
            HeaderField::NamedPasswordPolicy(s) => HeaderFieldV::NamedPasswordPolicy(s@),
            HeaderField::EmptyGroups(s) => HeaderFieldV::EmptyGroups(s@),
            HeaderField::Yubico(s) => HeaderFieldV::Yubico(s@),
            HeaderField::LastMastPswChangeTimestamp(v) => HeaderFieldV::LastMastPswChangeTimestamp(
                *v,
            ),
            HeaderField::EndOfEntry => HeaderFieldV::EndOfEntry,
        }
    }
}

impl DeepView for HeaderField {
    type V = HeaderFieldV;

    open spec fn deep_view(&self) -> HeaderFieldV {
        self.view()
    }
}

/// The string-typed header field for a code, if the code names one.
pub open spec fn header_string_variant(t: u8, s: Seq<char>) -> Option<HeaderFieldV> {
    if t == 2 {
        Some(HeaderFieldV::NonDefaultPreferences(s))
    } else if t == 3 {
        Some(HeaderFieldV::TreeDisplayStatus(s))
    } else if t == 5 {
        Some(HeaderFieldV::WhoLastSaved(s))
    } else if t == 6 {
        Some(HeaderFieldV::WhatLastSaved(s))
    } else if t == 7 {
        Some(HeaderFieldV::LastSavedByUser(s))
    } else if t == 8 {
        Some(HeaderFieldV::LastSavedOnHost(s))
    } else if t == 9 {
        Some(HeaderFieldV::DatabaseName(s))
    } else if t == 10 {
        Some(HeaderFieldV::DatabaseDescription(s))
    } else if t == 11 {
        Some(HeaderFieldV::DatabaseFilters(s))
    } else if t == 15 {
        Some(HeaderFieldV::RecentlyUsedEntries(s))
    } else if t == 16 {
        Some(HeaderFieldV::NamedPasswordPolicy(s))
    } else if t == 17 {
        Some(HeaderFieldV::EmptyGroups(s))
    } else if t == 18 {
        Some(HeaderFieldV::Yubico(s))
    } else {
        None
    }
}

/// How a header payload decodes for a type code: `None` is the one fatal
/// case, a string field whose payload is not UTF-8.  Numeric, UUID and
/// fixed-width codes whose payload is too short fall back to the reserved
/// tag, as do codes in the extension range.
pub open spec fn decode_header_field(t: u8, p: Seq<u8>) -> Option<HeaderFieldV> {
    if t == 0 {
        Some(
            if p.len() >= 2 {
                HeaderFieldV::Version(le16(p) as u16)
            } else {
                HeaderFieldV::Reserved1
            },
        )
    } else if t == 1 {
        Some(
            if p.len() == 16 {
                HeaderFieldV::UUID(p)
            } else {
                HeaderFieldV::Reserved1
            },
        )
    } else if t == 4 {
        Some(
            if p.len() >= 4 {
                HeaderFieldV::TimestampLastSaved(le32(p) as u32)
            } else {
                HeaderFieldV::Reserved1
            },
        )
    } else if t == 19 {
        Some(
            if p.len() >= 4 {
                HeaderFieldV::LastMastPswChangeTimestamp(le32(p) as u32)
            } else {
                HeaderFieldV::Reserved1
            },
        )
    } else if t == 12 {
        Some(HeaderFieldV::Reserved1)
    } else if t == 13 {
        Some(HeaderFieldV::Reserved2)
    } else if t == 14 {
        Some(HeaderFieldV::Reserved3)
    } else if header_string_variant(t, Seq::empty()) is Some {
        if valid_utf8(p) {
            header_string_variant(t, decode_utf8(p))
        } else {
            None
        }
    } else {
        Some(HeaderFieldV::Reserved1)
    }
}

impl HeaderField {
    /// Interprets one header payload according to its type code.
    pub fn load(t: u8, payload: &[u8]) -> (r: Result<HeaderField, PwSafeError>)
        ensures
            match r {
                Ok(f) => decode_header_field(t, payload@) == Some(f@),
                Err(e) => decode_header_field(t, payload@) is None && e
                    == PwSafeError::InvalidUtf8InStringField,
            },
    {
        if t == 0 {
            if payload.len() >= 2 {
                Ok(HeaderField::Version(bytes_as_u16(payload)))
            } else {
                Ok(HeaderField::Reserved1)
            }
        } else if t == 1 {
            if payload.len() == 16 {
                Ok(HeaderField::UUID(vstd::slice::slice_to_vec(payload)))
            } else {
                Ok(HeaderField::Reserved1)
            }
        } else if t == 4 {
            if payload.len() >= 4 {
                Ok(HeaderField::TimestampLastSaved(to_uinx_timestamp(payload)))
            } else {
                Ok(HeaderField::Reserved1)
            }
        } else if t == 19 {
            if payload.len() >= 4 {
                Ok(HeaderField::LastMastPswChangeTimestamp(to_uinx_timestamp(payload)))
            } else {
                Ok(HeaderField::Reserved1)
            }
        } else if t == 12 {
            Ok(HeaderField::Reserved1)
        } else if t == 13 {
            Ok(HeaderField::Reserved2)
        } else if t == 14 {
            Ok(HeaderField::Reserved3)
        } else if t == 2 || t == 3 || t == 5 || t == 6 || t == 7 || t == 8 || t == 9 || t == 10
            || t == 11 || t == 15 || t == 16 || t == 17 || t == 18 {
            let s = match load_string(payload) {
                Ok(s) => s,
                Err(e) => {
                    return Err(e);
                },
            };
            if t == 2 {
                Ok(HeaderField::NonDefaultPreferences(s))
            } else if t == 3 {
                Ok(HeaderField::TreeDisplayStatus(s))
            } else if t == 5 {
                Ok(HeaderField::WhoLastSaved(s))
            } else if t == 6 {
                Ok(HeaderField::WhatLastSaved(s))
            } else if t == 7 {
                Ok(HeaderField::LastSavedByUser(s))
            } else if t == 8 {
                Ok(HeaderField::LastSavedOnHost(s))
            } else if t == 9 {
                Ok(HeaderField::DatabaseName(s))
            } else if t == 10 {
                Ok(HeaderField::DatabaseDescription(s))
            } else if t == 11 {
                Ok(HeaderField::DatabaseFilters(s))
            } else if t == 15 {
                Ok(HeaderField::RecentlyUsedEntries(s))
            } else if t == 16 {
                Ok(HeaderField::NamedPasswordPolicy(s))
            } else if t == 17 {
                Ok(HeaderField::EmptyGroups(s))
            } else {
                Ok(HeaderField::Yubico(s))
            }
        } else {
            Ok(HeaderField::Reserved1)
        }
    }
}

/// One parsed header element: the decoded field and its on-wire payload
/// length.
#[derive(Debug, Clone, PartialEq)]
pub struct Header {
    pub field: HeaderField,
    pub len: usize,
}

/// The mathematical value of a parsed header element.
pub ghost struct HeaderV {
    pub field: HeaderFieldV,
    pub len: int,
}

impl View for Header {
    type V = HeaderV;

    open spec fn view(&self) -> HeaderV {
        HeaderV { field: self.field@, len: self.len as int }
    }
}

impl DeepView for Header {
    type V = HeaderV;

    open spec fn deep_view(&self) -> HeaderV {
        self.view()
    }
}

} // verus!

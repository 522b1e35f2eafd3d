//! One database record: an ordered list of typed fields, with accessors
//! for the common lookup fields.
use vstd::prelude::*;
use crate::field::{RecordField, RecordFieldV};

verus! {

/// A parsed record: its fields in file order.
#[derive(Debug, Clone, PartialEq)]
pub struct DbRecord {
    pub fields: Vec<RecordField>,
}

impl View for DbRecord {
    type V = Seq<RecordFieldV>;

    open spec fn view(&self) -> Seq<RecordFieldV> {
        self.fields.deep_view()
    }
}

impl DeepView for DbRecord {
    type V = Seq<RecordFieldV>;

    open spec fn deep_view(&self) -> Seq<RecordFieldV> {
        self.view()
    }
}

/// The string carried by `f` if `f` is the string-typed field that `code`
/// names (`2` group, `3` title, `4` username, `6` password, `13` URL,
/// `20` e-mail address).
pub open spec fn str_of(f: RecordFieldV, code: u8) -> Option<Seq<char>> {
    match f {
        RecordFieldV::Group(s) => if code == 2 {
            Some(s)
        } else {
            None
        },
        RecordFieldV::Title(s) => if code == 3 {
            Some(s)
        } else {
            None
        },
        RecordFieldV::Username(s) => if code == 4 {
            Some(s)
        } else {
            None
        },
        RecordFieldV::Password(s) => if code == 6 {
            Some(s)
        } else {
            None
        },
        RecordFieldV::URL(s) => if code == 13 {
            Some(s)
        } else {
            None
        },
        RecordFieldV::EMailAddress(s) => if code == 20 {
            Some(s)
        } else {
            None
        },
        _ => None,
    }
}

/// The first field in `fields` that `code` names, if any.
pub open spec fn first_str(fields: Seq<RecordFieldV>, code: u8) -> Option<Seq<char>>
    decreases fields.len(),
{
    if fields.len() == 0 {
        None
    } else {
        match str_of(fields[0], code) {
            Some(s) => Some(s),
            None => first_str(fields.drop_first(), code),
        }
    }
}

impl DbRecord {
    /// Scans the fields for the first one that `code` names.
    fn find_str(&self, code: u8) -> (r: Option<String>)
        ensures
            match r {
                Some(s) => first_str(self@, code) == Some(s@),
                None => first_str(self@, code) is None,
            },
    {
        let n = self.fields.len();
        proof {
            assert(self@.skip(0) =~= self@);
        }
        for i in 0..n
            invariant
                n == self.fields@.len(),
                first_str(self@, code) == first_str(self@.skip(i as int), code),
        {
            proof {
                assert(self@.skip(i as int)[0] == self@[i as int]);
                assert(self@.skip(i as int).drop_first() =~= self@.skip(i as int + 1));
            }
            let found: Option<String> = match &self.fields[i] {
                RecordField::Group(s) => if code == 2 {
                    Some(s.clone())
                } else {
                    None
                },
                RecordField::Title(s) => if code == 3 {
                    Some(s.clone())
                } else {
                    None
                },
                RecordField::Username(s) => if code == 4 {
                    Some(s.clone())
                } else {
                    None
                },
                RecordField::Password(s) => if code == 6 {
                    Some(s.clone())
                } else {
                    None
                },
                RecordField::URL(s) => if code == 13 {
                    Some(s.clone())
                } else {
                    None
                },
                RecordField::EMailAddress(s) => if code == 20 {
                    Some(s.clone())
                } else {
                    None
                },
                _ => None,
            };
            if found.is_some() {
                return found;
            }
        }
        proof {
            assert(self@.skip(n as int) =~= Seq::<RecordFieldV>::empty());
        }
        None
    }

    /// The first `Group` field, if any.
    pub fn group(&self) -> (r: Option<String>)
        ensures
            match r {
                Some(s) => first_str(self@, 2) == Some(s@),
                None => first_str(self@, 2) is None,
            },
    {
        self.find_str(2)
    }

    /// The first `Title` field, if any.
    pub fn title(&self) -> (r: Option<String>)
        ensures
            match r {
                Some(s) => first_str(self@, 3) == Some(s@),
                None => first_str(self@, 3) is None,
            },
    {
        self.find_str(3)
    }

    /// The first `EMailAddress` field, if any.
    pub fn email(&self) -> (r: Option<String>)
        ensures
            match r {
                Some(s) => first_str(self@, 20) == Some(s@),
                None => first_str(self@, 20) is None,
            },
    {
        self.find_str(20)
    }

    /// The first `Username` field, if any.
    pub fn username(&self) -> (r: Option<String>)
        ensures
            match r {
                Some(s) => first_str(self@, 4) == Some(s@),
                None => first_str(self@, 4) is None,
            },
    {
        self.find_str(4)
    }

    /// The first `Password` field, if any.
    pub fn password(&self) -> (r: Option<String>)
        ensures
            match r {
                Some(s) => first_str(self@, 6) == Some(s@),
                None => first_str(self@, 6) is None,
            },
    {
        self.find_str(6)
    }

    /// The first `URL` field, if any.
    pub fn url(&self) -> (r: Option<String>)
        ensures
            match r {
                Some(s) => first_str(self@, 13) == Some(s@),
                None => first_str(self@, 13) is None,
            },
    {
        self.find_str(13)
    }
}

} // verus!

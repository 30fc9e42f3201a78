//! Typed attribute records: reading scalar and array values out of a
//! node's attribute list, and building such lists.

use vstd::prelude::*;
use vstd::string::StringExecFns;

use crate::error::ConversionError;
use crate::text::str_eq;

verus! {

/// Wire code of an integer-valued attribute.
pub const ATTR_TYPE_INT: i32 = 2;

/// Wire code of a string-valued attribute.
pub const ATTR_TYPE_STRING: i32 = 3;

/// Wire code of an integer-array attribute.
pub const ATTR_TYPE_INTS: i32 = 7;

/// One typed attribute of a graph node: a name, a type code, and the
/// value fields the type code selects from.
#[derive(Debug, Clone)]
pub struct AttributeProto {
    pub name: String,
    pub attr_type: i32,
    pub i: i64,
    pub ints: Vec<i64>,
    pub s: Vec<u8>,
}

/// The first attribute with the given name, if any.
pub open spec fn find_attr(attrs: Seq<AttributeProto>, name: Seq<char>) -> Option<AttributeProto>
    decreases attrs.len(),
{
    if attrs.len() == 0 {
        None
    } else if attrs[0].name@ == name {
        Some(attrs[0])
    } else {
        find_attr(attrs.drop_first(), name)
    }
}

proof fn lemma_find_attr_at(attrs: Seq<AttributeProto>, name: Seq<char>, j: int)
    requires
        0 <= j < attrs.len(),
        attrs[j].name@ == name,
        forall|k: int| 0 <= k < j ==> attrs[k].name@ != name,
    ensures
        find_attr(attrs, name) == Some(attrs[j]),
    decreases j,
{
    if j > 0 {
        lemma_find_attr_at(attrs.drop_first(), name, j - 1);
    }
}

proof fn lemma_find_attr_none(attrs: Seq<AttributeProto>, name: Seq<char>)
    requires
        forall|k: int| 0 <= k < attrs.len() ==> attrs[k].name@ != name,
    ensures
        find_attr(attrs, name) is None,
    decreases attrs.len(),
{
    if attrs.len() > 0 {
        lemma_find_attr_none(attrs.drop_first(), name);
    }
}

/// What `String::from_utf8_lossy` yields for a byte sequence.
pub uninterp spec fn utf8_lossy_chars(bytes: Seq<u8>) -> Seq<char>;

/// Relies on `String::from_utf8_lossy`: the result depends on the
/// bytes alone, and valid UTF-8 decodes to its original characters.
#[verifier::external_body]
fn utf8_lossy(bytes: &[u8]) -> (r: String)
    ensures
        r@ == utf8_lossy_chars(bytes@),
        vstd::utf8::valid_utf8(bytes@) ==> r@ == vstd::utf8::decode_utf8(bytes@),
{
    String::from_utf8_lossy(bytes).to_string()
}

/// A read-only view over a node's attribute list, with typed lookups
/// by attribute name.
pub struct AttrParser<'a> {
    attrs: &'a [AttributeProto],
}

impl<'a> AttrParser<'a> {
    /// The attribute list under view.
    pub closed spec fn attrs_seq(&self) -> Seq<AttributeProto> {
        self.attrs@
    }

    pub fn new(attrs: &'a [AttributeProto]) -> (r: Self)
        ensures
            r.attrs_seq() == attrs@,
    {
        Self { attrs }
    }

    fn find(&self, name: &str) -> (r: Option<&'a AttributeProto>)
        ensures
            match r {
                Some(a) => find_attr(self.attrs_seq(), name@) == Some(*a),
                None => find_attr(self.attrs_seq(), name@) is None,
            },
    {
        let mut j: usize = 0;
        while j < self.attrs.len()
            invariant
                j <= self.attrs@.len(),
                forall|k: int| 0 <= k < j ==> self.attrs@[k].name@ != name@,
            decreases self.attrs.len() - j,
        {
            if str_eq(self.attrs[j].name.as_str(), name) {
                proof {
                    lemma_find_attr_at(self.attrs@, name@, j as int);
                }
                return Some(&self.attrs[j]);
            }
            j = j + 1;
        }
        proof {
            lemma_find_attr_none(self.attrs@, name@);
        }
        None
    }

    /// The integer value of the named attribute, if it exists and is
    /// integer-typed.
    pub fn get_int(&self, name: &str) -> (r: Option<i64>)
        ensures
            match find_attr(self.attrs_seq(), name@) {
                Some(a) => r == if a.attr_type == ATTR_TYPE_INT {
                    Some(a.i)
                } else {
                    None::<i64>
                },
                None => r is None,
            },
    {
        let a = match self.find(name) {
            Some(a) => a,
            None => {
                return None;
            },
        };
        if a.attr_type == ATTR_TYPE_INT {
            Some(a.i)
        } else {
            None
        }
    }

    /// The integer-array value of the named attribute, if it exists,
    /// is array-typed, and is non-empty.
    pub fn get_ints(&self, name: &str) -> (r: Option<Vec<i64>>)
        ensures
            match find_attr(self.attrs_seq(), name@) {
                Some(a) => if a.attr_type == ATTR_TYPE_INTS && a.ints@.len() > 0 {
                    r is Some && r.unwrap()@ == a.ints@
                } else {
                    r is None
                },
                None => r is None,
            },
    {
        let a = match self.find(name) {
            Some(a) => a,
            None => {
                return None;
            },
        };
        if a.attr_type == ATTR_TYPE_INTS && a.ints.len() > 0 {
            let copy = a.ints.clone();
            proof {
                assert(copy@ =~= a.ints@);
            }
            Some(copy)
        } else {
            None
        }
    }

    /// The string value of the named attribute, if it exists and is
    /// string-typed; the stored bytes are decoded leniently, and valid
    /// UTF-8 decodes to exactly its characters.
    pub fn get_string(&self, name: &str) -> (r: Option<String>)
        ensures
            match find_attr(self.attrs_seq(), name@) {
                Some(a) => if a.attr_type == ATTR_TYPE_STRING {
                    r is Some && r.unwrap()@ == utf8_lossy_chars(a.s@) && (vstd::utf8::valid_utf8(
                        a.s@,
                    ) ==> r.unwrap()@ == vstd::utf8::decode_utf8(a.s@))
                } else {
                    r is None
                },
                None => r is None,
            },
    {
        let a = match self.find(name) {
            Some(a) => a,
            None => {
                return None;
            },
        };
        if a.attr_type == ATTR_TYPE_STRING {
            Some(utf8_lossy(a.s.as_slice()))
        } else {
            None
        }
    }
}

/// A builder assembling a node's attribute list value by value.
pub struct AttrBuilder {
    attrs: Vec<AttributeProto>,
}

impl AttrBuilder {
    /// The attribute list built so far.
    pub closed spec fn attrs_seq(&self) -> Seq<AttributeProto> {
        self.attrs@
    }

    pub fn new() -> (r: Self)
        ensures
            r.attrs_seq() == Seq::<AttributeProto>::empty(),
    {
        Self { attrs: Vec::new() }
    }

    /// Appends an integer attribute.
    pub fn add_int(self, name: &str, value: i64) -> (r: Self)
        ensures
            r.attrs_seq().len() == self.attrs_seq().len() + 1,
            forall|j: int| 0 <= j < self.attrs_seq().len() ==> r.attrs_seq()[j] == self.attrs_seq()[j],
            ({
                let a = r.attrs_seq().last();
                a.name@ == name@ && a.attr_type == ATTR_TYPE_INT && a.i == value && a.ints@
                    == Seq::<i64>::empty() && a.s@ == Seq::<u8>::empty()
            }),
    {
        let mut attrs = self.attrs;
        attrs.push(
            AttributeProto {
                name: name.to_owned(),
                attr_type: ATTR_TYPE_INT,
                i: value,
                ints: Vec::new(),
                s: Vec::new(),
            },
        );
        Self { attrs }
    }

    /// Appends an integer-array attribute.
    pub fn add_ints(self, name: &str, values: Vec<i64>) -> (r: Self)
        ensures
            r.attrs_seq().len() == self.attrs_seq().len() + 1,
            forall|j: int| 0 <= j < self.attrs_seq().len() ==> r.attrs_seq()[j] == self.attrs_seq()[j],
            ({
                let a = r.attrs_seq().last();
                a.name@ == name@ && a.attr_type == ATTR_TYPE_INTS && a.i == 0 && a.ints@ == values@
                    && a.s@ == Seq::<u8>::empty()
            }),
    {
        let mut attrs = self.attrs;
        attrs.push(
            AttributeProto {
                name: name.to_owned(),
                attr_type: ATTR_TYPE_INTS,
                i: 0,
                ints: values,
                s: Vec::new(),
            },
        );
        Self { attrs }
    }

    /// Appends a string attribute, stored as its UTF-8 bytes.
    pub fn add_string(self, name: &str, value: String) -> (r: Self)
        ensures
            r.attrs_seq().len() == self.attrs_seq().len() + 1,
            forall|j: int| 0 <= j < self.attrs_seq().len() ==> r.attrs_seq()[j] == self.attrs_seq()[j],
            ({
                let a = r.attrs_seq().last();
                a.name@ == name@ && a.attr_type == ATTR_TYPE_STRING && a.i == 0 && a.ints@
                    == Seq::<i64>::empty() && a.s@ == vstd::utf8::encode_utf8(value@)
            }),
    {
        let mut attrs = self.attrs;
        let bytes = value.as_str().as_bytes_vec();
        attrs.push(
            AttributeProto {
                name: name.to_owned(),
                attr_type: ATTR_TYPE_STRING,
                i: 0,
                ints: Vec::new(),
                s: bytes,
            },
        );
        Self { attrs }
    }

    /// Hands out the finished attribute list.
    pub fn build(self) -> (r: Vec<AttributeProto>)
        ensures
            r@ == self.attrs_seq(),
    {
        self.attrs
    }
}

/// Unwraps an attribute lookup, or reports the missing attribute by
/// name.
pub fn require_attr<T>(name: &str, v: Option<T>) -> (r: Result<T, ConversionError>)
    ensures
        match r {
            Ok(x) => v == Some(x),
            Err(e) => v is None && match e {
                ConversionError::InvalidAttribute(m) => m@ == "missing attribute: "@ + name@,
                _ => false,
            },
        },
{
    match v {
        Some(x) => Ok(x),
        None => {
            let mut m: String = "missing attribute: ".to_owned();
            m.append(name);
            Err(ConversionError::InvalidAttribute(m))
        },
    }
}

} // verus!

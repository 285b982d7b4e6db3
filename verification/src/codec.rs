//! Conversion between domain field values and wire attribute values, with
//! per-field failure classification: a required field that is absent fails
//! with `AttributeValueNotFound`, a present but type-incompatible one with
//! `AttributeConvertError`, and an optional absent one decodes to the empty
//! value.
use vstd::prelude::*;

use crate::attr::{AttrValueTable, AttributeValue};
use crate::error::RaidenError;

verus! {

/// The domain-side type a field decodes to.
#[derive(Debug, Clone, Copy, PartialEq, Eq, Structural)]
pub enum FieldType {
    S,
    N,
    Bool,
}

/// A decoded field value; `Absent` is the empty value of an optional field
/// that the item does not carry.
#[derive(Debug, PartialEq, Eq)]
pub enum FieldValue {
    S(String),
    N(String),
    Bool(bool),
    Absent,
}

pub open spec fn is_dec_digit(c: char) -> bool {
    48 <= c as u32 <= 57
}

pub open spec fn all_dec_digits(s: Seq<char>) -> bool {
    forall|i: int| 0 <= i < s.len() ==> is_dec_digit(#[trigger] s[i])
}

/// A decimal integer string: an optional leading minus sign, then one or
/// more digits.
pub open spec fn is_decimal(s: Seq<char>) -> bool {
    if s.len() > 0 && s[0] == '-' {
        s.len() > 1 && all_dec_digits(s.drop_first())
    } else {
        s.len() > 0 && all_dec_digits(s)
    }
}

/// Whether `s` is a decimal integer string.
pub fn is_decimal_str(s: &str) -> (r: bool)
    ensures
        r == is_decimal(s@),
{
    let n = s.unicode_len();
    if n == 0 {
        return false;
    }
    let first = s.get_char(0);
    let start: usize = if first == '-' {
        1
    } else {
        0
    };
    if n == start {
        return false;
    }
    let ghost digits = if s@[0] == '-' {
        s@.drop_first()
    } else {
        s@
    };
    proof {
        assert(digits.len() == n - start);
        assert(forall|j: int| 0 <= j < digits.len() ==> digits[j] == s@[j + start]);
    }
    for i in start..n
        invariant
            start <= i <= n,
            n == s@.len(),
            forall|j: int| start <= j < i ==> is_dec_digit(#[trigger] s@[j]),
    {
        let c = s.get_char(i);
        let code = c as u32;
        if code < 48 || code > 57 {
            proof {
                assert(digits[i - start] == s@[i as int]);
                assert(!is_dec_digit(digits[i - start]));
                assert(!all_dec_digits(digits));
                assert(!is_decimal(s@));
            }
            return false;
        }
    }
    proof {
        assert forall|j: int| 0 <= j < digits.len() implies is_dec_digit(#[trigger] digits[j]) by {
            assert(digits[j] == s@[j + start]);
            assert(is_dec_digit(s@[j + start]));
        }
        assert(all_dec_digits(digits));
        assert(is_decimal(s@));
    }
    true
}

/// The resolved attribute key of a field: an explicit per-field override if
/// one is given, else the name the global case convention supplies, else the
/// field identifier itself. Both overrides are collaborator inputs; no case
/// conversion happens here.
pub open spec fn spec_resolved_key(
    ident: Seq<char>,
    explicit: Option<Seq<char>>,
    convention: Option<Seq<char>>,
) -> Seq<char> {
    match explicit {
        Option::Some(e) => e,
        Option::None => match convention {
            Option::Some(c) => c,
            Option::None => ident,
        },
    }
}

pub open spec fn opt_str_view(o: Option<&str>) -> Option<Seq<char>> {
    match o {
        Option::Some(s) => Option::Some(s@),
        Option::None => Option::None,
    }
}

/// Resolves the attribute key a field is stored under.
pub fn resolve_attr_key(ident: &str, explicit: Option<&str>, convention: Option<&str>) -> (r:
    String)
    ensures
        r@ == spec_resolved_key(ident@, opt_str_view(explicit), opt_str_view(convention)),
{
    match explicit {
        Option::Some(e) => e.to_owned(),
        Option::None => match convention {
            Option::Some(c) => c.to_owned(),
            Option::None => ident.to_owned(),
        },
    }
}

/// One field of an entity: its identifier, the attribute key it is stored
/// under, whether an item must carry it, and its domain type.
pub struct FieldSpec {
    pub ident: String,
    pub attr_key: String,
    pub required: bool,
    pub ty: FieldType,
}

/// Encoding is total: every domain value has a wire shape.
pub open spec fn spec_encode(v: FieldValue) -> AttributeValue {
    match v {
        FieldValue::S(s) => AttributeValue::S(s),
        FieldValue::N(s) => AttributeValue::N(s),
        FieldValue::Bool(b) => AttributeValue::Bool(b),
        FieldValue::Absent => AttributeValue::Null,
    }
}

/// Encodes a domain value as its wire attribute value.
pub fn encode(v: FieldValue) -> (r: AttributeValue)
    ensures
        r == spec_encode(v),
{
    match v {
        FieldValue::S(s) => AttributeValue::S(s),
        FieldValue::N(s) => AttributeValue::N(s),
        FieldValue::Bool(b) => AttributeValue::Bool(b),
        FieldValue::Absent => AttributeValue::Null,
    }
}

/// What a present attribute value decodes to under a field type, or nothing
/// when the shapes do not fit.
pub open spec fn spec_decode_value(ty: FieldType, v: AttributeValue) -> Option<FieldValue> {
    match (ty, v) {
        (FieldType::S, AttributeValue::S(s)) => Option::Some(FieldValue::S(s)),
        (FieldType::N, AttributeValue::N(s)) => if is_decimal(s@) {
            Option::Some(FieldValue::N(s))
        } else {
            Option::None
        },
        (FieldType::Bool, AttributeValue::Bool(b)) => Option::Some(FieldValue::Bool(b)),
        _ => Option::None,
    }
}

/// Law: the codec round-trips: a well-formed domain value decodes from its
/// own encoding unchanged, under its own type.
pub proof fn lemma_encode_decode(ty: FieldType, v: FieldValue)
    requires
        match v {
            FieldValue::S(_) => ty == FieldType::S,
            FieldValue::N(s) => ty == FieldType::N && is_decimal(s@),
            FieldValue::Bool(_) => ty == FieldType::Bool,
            FieldValue::Absent => false,
        },
    ensures
        spec_decode_value(ty, spec_encode(v)) == Option::Some(v),
{
}

/// The decode outcome of one field against one stored item.
pub open spec fn spec_decode_field(f: FieldSpec, item: Map<Seq<char>, AttributeValue>) -> Result<
    FieldValue,
    RaidenError,
> {
    if !item.contains_key(f.attr_key@) {
        if f.required {
            Result::Err(RaidenError::AttributeValueNotFound { attr_name: f.attr_key })
        } else {
            Result::Ok(FieldValue::Absent)
        }
    } else {
        match spec_decode_value(f.ty, item[f.attr_key@]) {
            Option::Some(v) => Result::Ok(v),
            Option::None => Result::Err(
                RaidenError::AttributeConvertError { attr_name: f.attr_key },
            ),
        }
    }
}

fn clone_key(f: &FieldSpec) -> (r: String)
    ensures
        r == f.attr_key,
{
    f.attr_key.clone()
}

/// Decodes one field out of a stored item.
pub fn decode_field(f: &FieldSpec, item: &AttrValueTable) -> (r: Result<FieldValue, RaidenError>)
    requires
        item.wf(),
    ensures
        r == spec_decode_field(*f, item@),
{
    match item.get(f.attr_key.as_str()) {
        Option::None => {
            if f.required {
                Result::Err(RaidenError::AttributeValueNotFound { attr_name: clone_key(f) })
            } else {
                Result::Ok(FieldValue::Absent)
            }
        },
        Option::Some(v) => {
            match (f.ty, v) {
                (FieldType::S, AttributeValue::S(s)) => Result::Ok(FieldValue::S(s.clone())),
                (FieldType::N, AttributeValue::N(s)) => {
                    if is_decimal_str(s.as_str()) {
                        Result::Ok(FieldValue::N(s.clone()))
                    } else {
                        Result::Err(RaidenError::AttributeConvertError { attr_name: clone_key(f) })
                    }
                },
                (FieldType::Bool, AttributeValue::Bool(b)) => Result::Ok(FieldValue::Bool(*b)),
                _ => Result::Err(RaidenError::AttributeConvertError { attr_name: clone_key(f) }),
            }
        },
    }
}

/// The decode outcome of a field list against one stored item: the decoded
/// values in field order, or the first failing field's error.
pub open spec fn spec_decode_item(fields: Seq<FieldSpec>, item: Map<Seq<char>, AttributeValue>) -> Result<
    Seq<FieldValue>,
    RaidenError,
>
    decreases fields.len(),
{
    if fields.len() == 0 {
        Result::Ok(Seq::empty())
    } else {
        match spec_decode_item(fields.drop_last(), item) {
            Result::Ok(vs) => match spec_decode_field(fields.last(), item) {
                Result::Ok(v) => Result::Ok(vs.push(v)),
                Result::Err(e) => Result::Err(e),
            },
            Result::Err(e) => Result::Err(e),
        }
    }
}

proof fn lemma_decode_item_err(
    fields: Seq<FieldSpec>,
    item: Map<Seq<char>, AttributeValue>,
    i: int,
    e: RaidenError,
)
    requires
        0 <= i < fields.len(),
        spec_decode_item(fields.subrange(0, i), item) is Ok,
        spec_decode_field(fields[i], item) == Result::<FieldValue, RaidenError>::Err(e),
    ensures
        spec_decode_item(fields, item) == Result::<Seq<FieldValue>, RaidenError>::Err(e),
    decreases fields.len(),
{
    if i == fields.len() - 1 {
        assert(fields.drop_last() =~= fields.subrange(0, i));
    } else {
        assert(fields.drop_last().subrange(0, i) =~= fields.subrange(0, i));
        assert(fields.drop_last()[i] == fields[i]);
        lemma_decode_item_err(fields.drop_last(), item, i, e);
    }
}

/// Decodes a whole item against the field list; the first failing field
/// aborts the item.
pub fn decode_item(fields: &Vec<FieldSpec>, item: &AttrValueTable) -> (r: Result<
    Vec<FieldValue>,
    RaidenError,
>)
    requires
        item.wf(),
    ensures
        match r {
            Result::Ok(vs) => spec_decode_item(fields@, item@) == Result::<
                Seq<FieldValue>,
                RaidenError,
            >::Ok(vs@),
            Result::Err(e) => spec_decode_item(fields@, item@) == Result::<
                Seq<FieldValue>,
                RaidenError,
            >::Err(e),
        },
{
    let mut out: Vec<FieldValue> = Vec::new();
    let n = fields.len();
    for i in 0..n
        invariant
            out@.len() == i,
            spec_decode_item(fields@.subrange(0, i as int), item@) == Result::<
                Seq<FieldValue>,
                RaidenError,
            >::Ok(out@),
    {
        match decode_field(&fields[i], item) {
            Result::Ok(v) => {
                out.push(v);
                proof {
                    let pre = fields@.subrange(0, i as int);
                    let now = fields@.subrange(0, i + 1 as int);
                    assert(now.drop_last() =~= pre);
                    assert(now.last() == fields@[i as int]);
                }
            },
            Result::Err(e) => {
                proof {
                    lemma_decode_item_err(fields@, item@, i as int, e);
                }
                return Result::Err(e);
            },
        }
    }
    proof {
        assert(fields@.subrange(0, n as int) =~= fields@);
    }
    Result::Ok(out)
}

} // verus!

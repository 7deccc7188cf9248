//! MessagePack values as Neovim sends them, and the accessors the redraw
//! decoder reads them with.

use vstd::prelude::*;
use vstd::string::*;

verus! {

/// A MessagePack value. Integers are kept by sign (`UInt` for values from
/// zero up, `NInt` for negative ones), floats by their bit pattern, and a
/// string that is not valid UTF-8 by its bytes.
#[derive(Debug, PartialEq)]
pub enum MsgValue {
    Nil,
    Boolean(bool),
    UInt(u64),
    NInt(i64),
    Float32(u32),
    Float64(u64),
    Str(String),
    BadStr(Vec<u8>),
    Binary(Vec<u8>),
    Array(Vec<MsgValue>),
    Mapping(Vec<(MsgValue, MsgValue)>),
    Ext(i8, Vec<u8>),
}

/// The two values hold the same data.
pub open spec fn same_value(a: MsgValue, b: MsgValue) -> bool
    decreases a,
{
    match (a, b) {
        (MsgValue::Nil, MsgValue::Nil) => true,
        (MsgValue::Boolean(x), MsgValue::Boolean(y)) => x == y,
        (MsgValue::UInt(x), MsgValue::UInt(y)) => x == y,
        (MsgValue::NInt(x), MsgValue::NInt(y)) => x == y,
        (MsgValue::Float32(x), MsgValue::Float32(y)) => x == y,
        (MsgValue::Float64(x), MsgValue::Float64(y)) => x == y,
        (MsgValue::Str(x), MsgValue::Str(y)) => x@ == y@,
        (MsgValue::BadStr(x), MsgValue::BadStr(y)) => x@ == y@,
        (MsgValue::Binary(x), MsgValue::Binary(y)) => x@ == y@,
        (MsgValue::Array(x), MsgValue::Array(y)) => x@.len() == y@.len() && forall|i: int|
            0 <= i < x@.len() ==> same_value(#[trigger] x@[i], y@[i]),
        (MsgValue::Mapping(x), MsgValue::Mapping(y)) => x@.len() == y@.len() && forall|i: int|
            0 <= i < x@.len() ==> same_value(#[trigger] x@[i].0, y@[i].0) && same_value(x@[i].1, y@[i].1),
        (MsgValue::Ext(t, x), MsgValue::Ext(u, y)) => t == u && x@ == y@,
        _ => false,
    }
}

/// The value as an unsigned integer, when it is one from zero up.
pub open spec fn value_u64(v: MsgValue) -> Option<u64> {
    match v {
        MsgValue::UInt(u) => Some(u),
        _ => None,
    }
}

/// The value as a signed 64-bit integer, when it fits.
pub open spec fn value_i64(v: MsgValue) -> Option<i64> {
    match v {
        MsgValue::UInt(u) => if u <= i64::MAX {
            Some(u as i64)
        } else {
            None
        },
        MsgValue::NInt(n) => Some(n),
        _ => None,
    }
}

/// The value as an unsigned integer cut to its low 32 bits.
pub open spec fn value_u32(v: MsgValue) -> Option<u32> {
    match value_u64(v) {
        Some(u) => Some(u as u32),
        None => None,
    }
}

/// The value as an unsigned integer cut to the width of `usize`.
pub open spec fn value_usize(v: MsgValue) -> Option<usize> {
    match value_u64(v) {
        Some(u) => Some(u as usize),
        None => None,
    }
}

/// The value as text, when it is a valid UTF-8 string.
pub open spec fn value_str(v: MsgValue) -> Option<Seq<char>> {
    match v {
        MsgValue::Str(s) => Some(s@),
        _ => None,
    }
}

/// The value as a boolean.
pub open spec fn value_bool(v: MsgValue) -> Option<bool> {
    match v {
        MsgValue::Boolean(b) => Some(b),
        _ => None,
    }
}

/// The text of a key, or the empty text for a key that is no string.
pub open spec fn key_text(v: MsgValue) -> Seq<char> {
    match value_str(v) {
        Some(s) => s,
        None => Seq::empty(),
    }
}

/// Returns the value as an unsigned integer, when it is one from zero up.
pub fn as_u64(value: &MsgValue) -> (r: Option<u64>)
    ensures
        r == value_u64(*value),
{
    match value {
        MsgValue::UInt(u) => Some(*u),
        _ => None,
    }
}

/// Returns the value as a signed 64-bit integer, when it fits.
pub fn as_i64(value: &MsgValue) -> (r: Option<i64>)
    ensures
        r == value_i64(*value),
{
    match value {
        MsgValue::UInt(u) => if *u <= 0x7FFF_FFFF_FFFF_FFFFu64 {
            Some(*u as i64)
        } else {
            None
        },
        MsgValue::NInt(n) => Some(*n),
        _ => None,
    }
}

/// Returns the value as an unsigned integer cut to its low 32 bits.
pub fn as_u32(value: &MsgValue) -> (r: Option<u32>)
    ensures
        r == value_u32(*value),
{
    match as_u64(value) {
        Some(v) => Some(v as u32),
        None => None,
    }
}

/// Returns the value as an unsigned integer cut to the width of `usize`.
pub fn as_usize(value: &MsgValue) -> (r: Option<usize>)
    ensures
        r == value_usize(*value),
{
    match as_u64(value) {
        Some(v) => Some(v as usize),
        None => None,
    }
}

/// Returns the value as text, when it is a valid UTF-8 string.
pub fn as_str(value: &MsgValue) -> (r: Option<&str>)
    ensures
        match r {
            Some(s) => value_str(*value) == Some(s@),
            None => value_str(*value) is None,
        },
{
    match value {
        MsgValue::Str(s) => Some(s.as_str()),
        _ => None,
    }
}

/// Returns the value as a boolean.
pub fn as_bool(value: &MsgValue) -> (r: Option<bool>)
    ensures
        r == value_bool(*value),
{
    match value {
        MsgValue::Boolean(b) => Some(*b),
        _ => None,
    }
}

/// Returns the text of a key, or the empty text for a key that is no
/// string.
pub fn key_str(value: &MsgValue) -> (s: &str)
    ensures
        s@ == key_text(*value),
{
    match value {
        MsgValue::Str(s) => s.as_str(),
        _ => {
            proof {
                reveal_strlit("");
            }
            ""
        },
    }
}

/// Whether `s` is the text `lit`.
pub fn text_is(s: &str, lit: &str) -> (b: bool)
    ensures
        b == (s@ == lit@),
{
    let n = s.unicode_len();
    if n != lit.unicode_len() {
        return false;
    }
    let mut i: usize = 0;
    while i < n
        invariant
            n == s@.len(),
            n == lit@.len(),
            i <= n,
            forall|j: int| 0 <= j < i ==> s@[j] == lit@[j],
        decreases n - i,
    {
        if s.get_char(i) != lit.get_char(i) {
            return false;
        }
        i = i + 1;
    }
    assert(s@ =~= lit@);
    true
}

/// Copies bytes.
fn copy_bytes(b: &Vec<u8>) -> (r: Vec<u8>)
    ensures
        r@ == b@,
{
    let mut out: Vec<u8> = Vec::new();
    let mut i: usize = 0;
    while i < b.len()
        invariant
            i <= b@.len(),
            out@ == b@.take(i as int),
        decreases b@.len() - i,
    {
        out.push(b[i]);
        i = i + 1;
        assert(out@ =~= b@.take(i as int));
    }
    assert(b@.take(b@.len() as int) =~= b@);
    out
}

/// Copies a value.
pub fn copy_value(v: &MsgValue) -> (r: MsgValue)
    ensures
        same_value(r, *v),
    decreases v,
{
    match v {
        MsgValue::Nil => MsgValue::Nil,
        MsgValue::Boolean(b) => MsgValue::Boolean(*b),
        MsgValue::UInt(u) => MsgValue::UInt(*u),
        MsgValue::NInt(n) => MsgValue::NInt(*n),
        MsgValue::Float32(x) => MsgValue::Float32(*x),
        MsgValue::Float64(x) => MsgValue::Float64(*x),
        MsgValue::Str(s) => MsgValue::Str(String::from_str(s.as_str())),
        MsgValue::BadStr(b) => MsgValue::BadStr(copy_bytes(b)),
        MsgValue::Binary(b) => MsgValue::Binary(copy_bytes(b)),
        MsgValue::Array(a) => {
            let mut out: Vec<MsgValue> = Vec::new();
            let mut i: usize = 0;
            while i < a.len()
                invariant
                    *v == MsgValue::Array(*a),
                    i <= a@.len(),
                    out@.len() == i,
                    forall|k: int| 0 <= k < i ==> same_value(#[trigger] out@[k], a@[k]),
                decreases a@.len() - i,
            {
                proof {
                    broadcast use vstd::std_specs::vec::group_vec_axioms;
                    assert((*v)->Array_0 == *a);
                    assert(decreases_to!(*v => (*v)->Array_0));
                    assert(decreases_to!(*a => a@));
                    assert(decreases_to!(a@ => a@[i as int]));
                }
                let x = copy_value(&a[i]);
                out.push(x);
                i = i + 1;
            }
            MsgValue::Array(out)
        },
        MsgValue::Mapping(m) => {
            let mut out: Vec<(MsgValue, MsgValue)> = Vec::new();
            let mut i: usize = 0;
            while i < m.len()
                invariant
                    *v == MsgValue::Mapping(*m),
                    i <= m@.len(),
                    out@.len() == i,
                    forall|k: int|
                        0 <= k < i ==> same_value(#[trigger] out@[k].0, m@[k].0) && same_value(out@[k].1, m@[k].1),
                decreases m@.len() - i,
            {
                proof {
                    broadcast use vstd::std_specs::vec::group_vec_axioms;
                    assert((*v)->Mapping_0 == *m);
                    assert(decreases_to!(*v => (*v)->Mapping_0));
                    assert(decreases_to!(*m => m@));
                    assert(decreases_to!(m@ => m@[i as int]));
                    assert(decreases_to!(m@[i as int] => m@[i as int].0));
                    assert(decreases_to!(m@[i as int] => m@[i as int].1));
                }
                let k = copy_value(&m[i].0);
                let x = copy_value(&m[i].1);
                out.push((k, x));
                i = i + 1;
            }
            MsgValue::Mapping(out)
        },
        MsgValue::Ext(t, b) => MsgValue::Ext(*t, copy_bytes(b)),
    }
}

impl Clone for MsgValue {
    fn clone(&self) -> (r: Self)
        ensures
            same_value(r, *self),
    {
        copy_value(self)
    }
}

} // verus!

//! Parameter values collected for one operation.
use vstd::prelude::*;
use crate::text::decimal;
use crate::text::decimal_text;

verus! {

/// One value of a scalar type.
#[derive(Debug, PartialEq, Eq)]
pub enum Scalar {
    Null,
    Bool(bool),
    Int(i64),
    Str(String),
}

/// The value of a parameter: a scalar, or the elements of an array.
#[derive(Debug, PartialEq, Eq)]
pub enum Value {
    One(Scalar),
    Many(Vec<Scalar>),
}

/// The text that stands for `s` in a path or a query: `true` or `false`, the
/// decimal form of a number, the raw text of a string, or `null`.
pub open spec fn scalar_text(s: Scalar) -> Seq<char> {
    match s {
        Scalar::Null => "null"@,
        Scalar::Bool(b) => if b {
            "true"@
        } else {
            "false"@
        },
        Scalar::Int(n) => decimal_text(n as int),
        Scalar::Str(t) => t@,
    }
}

impl Scalar {
    /// The text that stands for this value in a path or a query.
    pub fn text(&self) -> (r: String)
        ensures
            r@ == scalar_text(*self),
    {
        match self {
            Scalar::Null => "null".to_owned(),
            Scalar::Bool(b) => if *b {
                "true".to_owned()
            } else {
                "false".to_owned()
            },
            Scalar::Int(n) => decimal(*n),
            Scalar::Str(t) => t.clone(),
        }
    }

    /// A copy of this value.
    pub fn copy(&self) -> (r: Scalar)
        ensures
            r == *self,
    {
        match self {
            Scalar::Null => Scalar::Null,
            Scalar::Bool(b) => Scalar::Bool(*b),
            Scalar::Int(n) => Scalar::Int(*n),
            Scalar::Str(t) => Scalar::Str(t.clone()),
        }
    }
}

/// A copy of `items`.
pub fn copy_items(items: &Vec<Scalar>) -> (r: Vec<Scalar>)
    ensures
        r@ == items@,
{
    let mut out: Vec<Scalar> = Vec::new();
    let mut i: usize = 0;
    while i < items.len()
        invariant
            i <= items.len(),
            out@ == items@.subrange(0, i as int),
        decreases items.len() - i,
    {
        out.push(items[i].copy());
        i = i + 1;
        assert(out@ =~= items@.subrange(0, i as int));
    }
    assert(items@.subrange(0, items@.len() as int) =~= items@);
    out
}

} // verus!

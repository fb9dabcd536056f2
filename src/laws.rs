//! Properties that hold across the library's functions.
use vstd::prelude::*;
use crate::collect::coerced;
use crate::collect::first_kind;
use crate::collect::is_default;
use crate::model::Param;
use crate::model::Schema;
use crate::model::SchemaKind;
use crate::model::Spec;
use crate::text::int_text_value;
use crate::text::is_digit;
use crate::text::join_with;
use crate::text::parsed_int;
use crate::text::texts;
use crate::value::Scalar;
use crate::value::Value;

verus! {

proof fn lemma_resolve_within_pointer_free(spec: Spec, s: Schema, fuel: nat)
    ensures
        spec.resolve_within(s, fuel) matches Some(t) ==> t.ptr is None,
    decreases fuel,
{
    if s.ptr is Some && fuel > 0 {
        if let Some(t) = spec.comps.target(s.ptr->0@) {
            lemma_resolve_within_pointer_free(spec, t, (fuel - 1) as nat);
        }
    }
}

/// Resolution ends in a schema without a pointer, or fails.
pub proof fn resolve_is_pointer_free(spec: Spec, s: Schema)
    ensures
        spec.resolve(s) matches Some(t) ==> t.ptr is None,
{
    lemma_resolve_within_pointer_free(spec, s, spec.comps.schemas@.len());
}

/// Resolving again changes nothing: a resolved schema stands for itself.
pub proof fn resolve_is_idempotent(spec: Spec, s: Schema)
    ensures
        spec.resolve(s) matches Some(t) ==> spec.resolve(t) == Some(t),
{
    resolve_is_pointer_free(spec, s);
}

proof fn lemma_cycle_within(spec: Spec, s: Schema, fuel: nat)
    requires
        s.ptr is Some,
        spec.comps.target(s.ptr->0@) == Some(s),
    ensures
        spec.resolve_within(s, fuel) is None,
    decreases fuel,
{
    if fuel > 0 {
        lemma_cycle_within(spec, s, (fuel - 1) as nat);
    }
}

/// A schema whose pointer leads back to itself resolves to nothing: a cyclic
/// registry makes resolution fail rather than run forever.
pub proof fn self_cycle_fails(spec: Spec, s: Schema)
    requires
        s.ptr is Some,
        spec.comps.target(s.ptr->0@) == Some(s),
    ensures
        spec.resolve(s) is None,
{
    lemma_cycle_within(spec, s, spec.comps.schemas@.len());
}

/// Describing is a function of the description and the schema: two results
/// for the same schema are the same text.
pub proof fn describe_is_deterministic(spec: Spec, s: Schema, a: Seq<char>, b: Seq<char>)
    requires
        a == spec.describe(s),
        b == spec.describe(s),
    ensures
        a == b,
{
}

/// Enumerated values come first: a schema that resolves to one with
/// enumerated values is described by them, joined with `|`, whatever its type.
pub proof fn variants_take_precedence(spec: Spec, s: Schema, t: Schema, depth: nat)
    requires
        depth > 0,
        spec.resolve(s) == Some(t),
        t.variants is Some,
    ensures
        spec.describe_within(s, depth) == join_with(texts(t.variants->0@), "|"@),
{
}

/// An array is described by the description of its items, one level of
/// nesting deeper, inside `array<...>`.
pub proof fn array_describes_items(spec: Spec, s: Schema, t: Schema, depth: nat)
    requires
        spec.resolve(s) == Some(t),
        t.variants is None,
        t.pattern is None,
        t.kind matches Some(SchemaKind::Single(k)) && k@ == "array"@,
        t.items is Some,
    ensures
        spec.describe_within(s, depth + 1) == "array<"@ + spec.describe_within(
            *t.items->0,
            depth,
        ) + ">"@,
{
}

/// A required parameter whose type is boolean starts as `false`, one whose
/// type is integer as `0`.
pub proof fn required_defaults(spec: Spec, p: Param, t: Schema, v: Option<Value>)
    requires
        p.required,
        spec.resolve(p.schema) == Some(t),
        is_default(spec, p, v),
    ensures
        first_kind(t) == Some("boolean"@) ==> v == Some(Value::One(Scalar::Bool(false))),
        first_kind(t) == Some("integer"@) ==> v == Some(Value::One(Scalar::Int(0))),
{
    crate::collect::lemma_type_names_distinct();
}

/// Text that holds a character other than a digit or a sign is no integer:
/// under an integer type it coerces to nothing, so the held value stays.
pub proof fn non_numeric_text_is_kept_out(s: Schema, text: Seq<char>, c: Option<Scalar>)
    requires
        first_kind(s) == Some("integer"@),
        exists|j: int|
            0 <= j < text.len() && !is_digit(#[trigger] text[j]) && text[j] != '+' && text[j]
                != '-',
        coerced(s, text, c),
    ensures
        int_text_value(text) is None,
        parsed_int(text) is None,
        c is None,
{
    let j = choose|j: int|
        0 <= j < text.len() && !is_digit(#[trigger] text[j]) && text[j] != '+' && text[j] != '-';
    if text.len() > 0 && (text[0] == '+' || text[0] == '-') {
        let body = text.subrange(1, text.len() as int);
        assert(body[j - 1] == text[j]);
    }
}

} // verus!

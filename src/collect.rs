//! Collection of parameter values for one operation: the defaults that
//! required parameters start with, the choices offered for a value, the
//! coercion of typed text, the editing of arrays, and the session that holds
//! the value of every parameter.
use vstd::prelude::*;
use crate::model::Param;
use crate::model::Schema;
use crate::model::SchemaKind;
use crate::model::Spec;
use crate::text::parse_i64;
use crate::text::parsed_int;
use crate::text::same_text;
use crate::value::Scalar;
use crate::value::Value;
use crate::value::copy_items;
use crate::text::decimal;
use crate::text::decimal_text;

verus! {

/// The type names that a schema declares, in order.
pub open spec fn kind_names(s: Schema) -> Seq<Seq<char>> {
    match s.kind {
        Some(SchemaKind::Single(k)) => seq![k@],
        Some(SchemaKind::Multiple(v)) => v@.map_values(|k: String| k@),
        None => Seq::empty(),
    }
}

/// The first type name that a schema declares: the one that stands for it
/// where a single type must be chosen.
pub open spec fn first_kind(s: Schema) -> Option<Seq<char>> {
    let ks = kind_names(s);
    if ks.len() > 0 {
        Some(ks[0])
    } else {
        None
    }
}

/// The first type name that `s` declares.
pub fn first_kind_of(s: &Schema) -> (r: Option<&String>)
    ensures
        match r {
            Some(k) => first_kind(*s) == Some(k@),
            None => first_kind(*s) is None,
        },
{
    match &s.kind {
        Some(SchemaKind::Single(k)) => Some(k),
        Some(SchemaKind::Multiple(v)) => if v.len() > 0 {
            Some(&v[0])
        } else {
            None
        },
        None => None,
    }
}

/// The zero value of the type named `k`: `false`, `0`, the empty string or
/// `null`; other types have none.
pub open spec fn zero_of(k: Seq<char>) -> Option<Scalar> {
    if k == "boolean"@ {
        Some(Scalar::Bool(false))
    } else if k == "integer"@ {
        Some(Scalar::Int(0))
    } else if k == "null"@ {
        Some(Scalar::Null)
    } else {
        None
    }
}

/// The type whose zero value parameter `p` starts with: the first type of
/// its resolved schema, for a required parameter.
pub open spec fn default_kind(spec: Spec, p: Param) -> Option<Seq<char>> {
    if !p.required {
        None
    } else {
        match spec.resolve(p.schema) {
            Some(t) => first_kind(t),
            None => None,
        }
    }
}

/// Whether `v` is the value that parameter `p` holds before any editing: a
/// required parameter holds the zero value of its first type (`false`, `0`,
/// the empty string or `null`), an optional one none.
pub open spec fn is_default(spec: Spec, p: Param, v: Option<Value>) -> bool {
    match default_kind(spec, p) {
        Some(k) => if k == "string"@ {
            match v {
                Some(Value::One(Scalar::Str(s))) => s@ == Seq::<char>::empty(),
                _ => false,
            }
        } else {
            match zero_of(k) {
                Some(z) => v == Some(Value::One(z)),
                None => v is None,
            }
        },
        None => v is None,
    }
}

pub(crate) proof fn lemma_type_names_distinct()
    ensures
        "boolean"@ != "integer"@,
        "boolean"@ != "string"@,
        "boolean"@ != "null"@,
        "integer"@ != "string"@,
        "integer"@ != "null"@,
        "string"@ != "null"@,
{
    broadcast use vstd::string::group_string_axioms;

    reveal_strlit("boolean");
    reveal_strlit("integer");
    reveal_strlit("string");
    reveal_strlit("null");
    assert("boolean"@[0] != "integer"@[0]);
    assert("boolean"@.len() != "string"@.len());
    assert("boolean"@.len() != "null"@.len());
    assert("integer"@.len() != "string"@.len());
    assert("integer"@.len() != "null"@.len());
    assert("string"@.len() != "null"@.len());
}

/// The value that parameter `p` holds before any editing.
pub fn default_value(spec: &Spec, p: &Param) -> (r: Option<Value>)
    ensures
        is_default(*spec, *p, r),
{
    if !p.required {
        return None;
    }
    let t = match spec.traverse_schema(&p.schema) {
        Some(t) => t,
        None => {
            return None;
        },
    };
    let k = match first_kind_of(t) {
        Some(k) => k.as_str(),
        None => {
            return None;
        },
    };
    proof {
        lemma_type_names_distinct();
    }
    if same_text(k, "boolean") {
        Some(Value::One(Scalar::Bool(false)))
    } else if same_text(k, "integer") {
        Some(Value::One(Scalar::Int(0)))
    } else if same_text(k, "string") {
        Some(Value::One(Scalar::Str(String::new())))
    } else if same_text(k, "null") {
        Some(Value::One(Scalar::Null))
    } else {
        None
    }
}

/// A choice offered for a scalar value.
#[derive(Debug, PartialEq, Eq)]
pub enum PrimAction {
    /// Type the value as text.
    Custom,
    Bool(bool),
    Str(String),
    Null,
    /// Leave the parameter without a value.
    Unset,
}

/// `xs` with `a` added at the end, unless it is there already.
pub open spec fn push_missing(xs: Seq<PrimAction>, a: PrimAction) -> Seq<PrimAction> {
    if xs.contains(a) {
        xs
    } else {
        xs.push(a)
    }
}

/// `xs` with the choices that type `k` offers.
pub open spec fn kind_choices(xs: Seq<PrimAction>, k: Seq<char>) -> Seq<PrimAction> {
    if k == "boolean"@ {
        push_missing(push_missing(xs, PrimAction::Bool(true)), PrimAction::Bool(false))
    } else if k == "integer"@ || k == "string"@ {
        push_missing(xs, PrimAction::Custom)
    } else if k == "null"@ {
        push_missing(xs, PrimAction::Null)
    } else {
        xs
    }
}

/// `xs` with the choices of the first `i` type names of `ks`.
pub open spec fn fold_choices(xs: Seq<PrimAction>, ks: Seq<Seq<char>>, i: nat) -> Seq<PrimAction>
    decreases i,
{
    if i == 0 || i > ks.len() {
        xs
    } else {
        kind_choices(fold_choices(xs, ks, (i - 1) as nat), ks[i - 1])
    }
}

/// The choices offered for a value of resolved schema `s`: its enumerated
/// strings, then those of its types, then `Unset` for an optional parameter.
pub open spec fn prim_choices(s: Schema, required: bool) -> Seq<PrimAction> {
    let base = match s.variants {
        Some(v) => v@.map_values(|x: String| PrimAction::Str(x)),
        None => Seq::empty(),
    };
    let ks = kind_names(s);
    let c = fold_choices(base, ks, ks.len());
    if required {
        c
    } else {
        c.push(PrimAction::Unset)
    }
}

fn push_if_missing(xs: &mut Vec<PrimAction>, a: PrimAction)
    requires
        !(a is Str),
    ensures
        final(xs)@ == push_missing(old(xs)@, a),
{
    let mut i: usize = 0;
    while i < xs.len()
        invariant
            !(a is Str),
            i <= xs.len(),
            xs@ == old(xs)@,
            forall|j: int| 0 <= j < i ==> xs@[j] != a,
        decreases xs.len() - i,
    {
        let same = match (&xs[i], &a) {
            (PrimAction::Custom, PrimAction::Custom) => true,
            (PrimAction::Bool(x), PrimAction::Bool(y)) => *x == *y,
            (PrimAction::Null, PrimAction::Null) => true,
            (PrimAction::Unset, PrimAction::Unset) => true,
            _ => false,
        };
        if same {
            assert(xs@.contains(a)) by {
                assert(xs@[i as int] == a);
            }
            return;
        }
        i = i + 1;
    }
    assert(!xs@.contains(a));
    xs.push(a);
}

fn add_kind_choices(xs: &mut Vec<PrimAction>, k: &str)
    ensures
        final(xs)@ == kind_choices(old(xs)@, k@),
{
    if same_text(k, "boolean") {
        push_if_missing(xs, PrimAction::Bool(true));
        push_if_missing(xs, PrimAction::Bool(false));
    } else if same_text(k, "integer") || same_text(k, "string") {
        push_if_missing(xs, PrimAction::Custom);
    } else if same_text(k, "null") {
        push_if_missing(xs, PrimAction::Null);
    }
}

/// The choices offered for a value of resolved schema `schema`.
pub fn prim_actions(schema: &Schema, required: bool) -> (r: Vec<PrimAction>)
    ensures
        r@ == prim_choices(*schema, required),
{
    let mut xs: Vec<PrimAction> = Vec::new();
    if let Some(v) = &schema.variants {
        let mut i: usize = 0;
        while i < v.len()
            invariant
                i <= v.len(),
                xs@ == v@.subrange(0, i as int).map_values(|x: String| PrimAction::Str(x)),
            decreases v.len() - i,
        {
            xs.push(PrimAction::Str(v[i].clone()));
            i = i + 1;
            assert(xs@ =~= v@.subrange(0, i as int).map_values(|x: String| PrimAction::Str(x)));
        }
        assert(v@.subrange(0, v@.len() as int) =~= v@);
    }
    let ghost base = xs@;
    match &schema.kind {
        Some(SchemaKind::Single(k)) => {
            add_kind_choices(&mut xs, k.as_str());
            assert(fold_choices(base, kind_names(*schema), 0) == base);
        },
        Some(SchemaKind::Multiple(ks)) => {
            let ghost names = kind_names(*schema);
            let mut i: usize = 0;
            while i < ks.len()
                invariant
                    i <= ks.len(),
                    names == ks@.map_values(|k: String| k@),
                    xs@ == fold_choices(base, names, i as nat),
                decreases ks.len() - i,
            {
                add_kind_choices(&mut xs, ks[i].as_str());
                i = i + 1;
            }
        },
        None => {},
    }
    if !required {
        xs.push(PrimAction::Unset);
    }
    xs
}

/// Whether choice `a` is the one that the held value `v` already makes.
pub open spec fn marks(a: PrimAction, v: Option<Value>) -> bool {
    match (a, v) {
        (PrimAction::Bool(x), Some(Value::One(Scalar::Bool(y)))) => x == y,
        (PrimAction::Str(x), Some(Value::One(Scalar::Str(y)))) => x@ == y@,
        (PrimAction::Null, Some(Value::One(Scalar::Null))) => true,
        (PrimAction::Unset, None) => true,
        _ => false,
    }
}

/// Where the focus starts among `actions`: on the first choice that the held
/// value `initial` makes, else on the first.
pub fn choice_cursor(actions: &Vec<PrimAction>, initial: &Option<Value>) -> (r: usize)
    ensures
        (exists|k: int| 0 <= k < actions@.len() && marks(actions@[k], *initial)) ==> (r
            < actions@.len() && marks(actions@[r as int], *initial) && forall|k: int|
            0 <= k < r ==> !marks(#[trigger] actions@[k], *initial)),
        !(exists|k: int| 0 <= k < actions@.len() && marks(actions@[k], *initial)) ==> r == 0,
{
    let mut i: usize = 0;
    while i < actions.len()
        invariant
            i <= actions.len(),
            forall|k: int| 0 <= k < i ==> !marks(#[trigger] actions@[k], *initial),
        decreases actions.len() - i,
    {
        let hit = match (&actions[i], initial) {
            (PrimAction::Bool(x), Some(Value::One(Scalar::Bool(y)))) => *x == *y,
            (PrimAction::Str(x), Some(Value::One(Scalar::Str(y)))) => *x == *y,
            (PrimAction::Null, Some(Value::One(Scalar::Null))) => true,
            (PrimAction::Unset, None) => true,
            _ => false,
        };
        if hit {
            return i;
        }
        i = i + 1;
    }
    0
}

/// What a picked choice does to the value being edited.
#[derive(Debug, PartialEq, Eq)]
pub enum Pick {
    /// The value becomes this one.
    Assign(Scalar),
    /// The value is removed.
    Clear,
    /// The value is typed as text.
    Enter,
}

/// Whether the choices are offered as a selection: with fewer than two, the
/// value is typed as text at once.
pub fn offers_selection(actions: &Vec<PrimAction>) -> (r: bool)
    ensures
        r == (actions@.len() > 1),
{
    actions.len() > 1
}

/// What picking `a` does to the value being edited.
pub fn pick(a: &PrimAction) -> (r: Pick)
    ensures
        match *a {
            PrimAction::Custom => r is Enter,
            PrimAction::Bool(b) => r == Pick::Assign(Scalar::Bool(b)),
            PrimAction::Str(s) => r == Pick::Assign(Scalar::Str(s)),
            PrimAction::Null => r == Pick::Assign(Scalar::Null),
            PrimAction::Unset => r is Clear,
        },
{
    match a {
        PrimAction::Custom => Pick::Enter,
        PrimAction::Bool(b) => Pick::Assign(Scalar::Bool(*b)),
        PrimAction::Str(s) => Pick::Assign(Scalar::Str(s.clone())),
        PrimAction::Null => Pick::Assign(Scalar::Null),
        PrimAction::Unset => Pick::Clear,
    }
}

/// The text that typing starts from: the held number or string, else nothing.
pub open spec fn seed_text(v: Option<Value>) -> Seq<char> {
    match v {
        Some(Value::One(Scalar::Int(n))) => decimal_text(n as int),
        Some(Value::One(Scalar::Str(s))) => s@,
        _ => Seq::empty(),
    }
}

/// The text that typing starts from for held value `initial`.
pub fn initial_text(initial: &Option<Value>) -> (r: String)
    ensures
        r@ == seed_text(*initial),
{
    match initial {
        Some(Value::One(Scalar::Int(n))) => decimal(*n),
        Some(Value::One(Scalar::Str(s))) => s.clone(),
        _ => String::new(),
    }
}

/// Whether `r` is what typed `text` becomes for resolved schema `s`: an
/// integer for an integer type when the text writes one, the text itself for
/// a string type, and nothing otherwise.
pub open spec fn coerced(s: Schema, text: Seq<char>, r: Option<Scalar>) -> bool {
    match first_kind(s) {
        Some(k) => if k == "integer"@ {
            match parsed_int(text) {
                Some(n) => r == Some(Scalar::Int(n)),
                None => r is None,
            }
        } else if k == "string"@ {
            match r {
                Some(Scalar::Str(t)) => t@ == text,
                _ => false,
            }
        } else {
            r is None
        },
        None => r is None,
    }
}

/// The value that typed `text` stands for under resolved schema `schema`, or
/// nothing when the text does not fit its first type.
pub fn coerce_text(schema: &Schema, text: &str) -> (r: Option<Scalar>)
    ensures
        coerced(*schema, text@, r),
{
    proof {
        lemma_type_names_distinct();
    }
    let k = match first_kind_of(schema) {
        Some(k) => k.as_str(),
        None => {
            return None;
        },
    };
    if same_text(k, "integer") {
        match parse_i64(text) {
            Some(n) => Some(Scalar::Int(n)),
            None => None,
        }
    } else if same_text(k, "string") {
        Some(Scalar::Str(text.to_owned()))
    } else {
        None
    }
}

/// A choice while editing an array.
#[derive(Debug, PartialEq, Eq, Structural)]
pub enum ParamAction {
    Add,
    /// Remove the element at this position.
    Remove(usize),
    Done,
}

/// The elements of an array while it is edited.
#[derive(Debug)]
pub struct ArrayEdit {
    pub items: Vec<Scalar>,
}

/// The choices while editing an array of `n` elements: add one, remove each,
/// or finish.
pub open spec fn array_choices(n: nat) -> Seq<ParamAction> {
    seq![ParamAction::Add] + Seq::new(n, |i: int| ParamAction::Remove(i as usize)) + seq![
        ParamAction::Done,
    ]
}

impl ArrayEdit {
    /// Starts from the elements of the held value, if it is an array.
    pub fn new(initial: &Option<Value>) -> (r: ArrayEdit)
        ensures
            match *initial {
                Some(Value::Many(v)) => r.items@ == v@,
                _ => r.items@ == Seq::<Scalar>::empty(),
            },
    {
        match initial {
            Some(Value::Many(v)) => ArrayEdit { items: copy_items(v) },
            _ => ArrayEdit { items: Vec::new() },
        }
    }

    /// The choices offered for the current elements.
    pub fn actions(&self) -> (r: Vec<ParamAction>)
        ensures
            r@ == array_choices(self.items@.len()),
    {
        let mut out: Vec<ParamAction> = Vec::new();
        out.push(ParamAction::Add);
        let mut i: usize = 0;
        while i < self.items.len()
            invariant
                i <= self.items@.len(),
                out@ == seq![ParamAction::Add] + Seq::new(
                    i as nat,
                    |j: int| ParamAction::Remove(j as usize),
                ),
            decreases self.items.len() - i,
        {
            out.push(ParamAction::Remove(i));
            i = i + 1;
            assert(out@ =~= seq![ParamAction::Add] + Seq::new(
                i as nat,
                |j: int| ParamAction::Remove(j as usize),
            ));
        }
        out.push(ParamAction::Done);
        assert(out@ =~= array_choices(self.items@.len()));
        out
    }

    /// Appends the element that adding produced; nothing is appended when it
    /// produced none.
    pub fn add(&mut self, v: Option<Scalar>)
        ensures
            match v {
                Some(x) => final(self).items@ == old(self).items@.push(x),
                None => final(self).items@ == old(self).items@,
            },
    {
        if let Some(x) = v {
            self.items.push(x);
        }
    }

    /// Removes the element at position `i`.
    pub fn remove(&mut self, i: usize)
        requires
            i < old(self).items@.len(),
        ensures
            final(self).items@ == old(self).items@.remove(i as int),
    {
        self.items.remove(i);
    }

    /// The array that editing produced, empty or not.
    pub fn finish(self) -> (r: Value)
        ensures
            r == Value::Many(self.items),
    {
        Value::Many(self.items)
    }
}

/// A choice in the overview of all parameters.
#[derive(Debug, PartialEq, Eq, Structural)]
pub enum ParamsAction {
    /// Edit the parameter at this position.
    Edit(usize),
    Done,
}

/// The overview choices for `n` parameters: each parameter, then finishing.
pub open spec fn overview_choices(n: nat) -> Seq<ParamsAction> {
    Seq::new(n, |i: int| ParamsAction::Edit(i as usize)) + seq![ParamsAction::Done]
}

/// The values of one operation's parameters while they are collected:
/// `values[i]` belongs to the parameter at position `i`, and `focus` is the
/// position that the overview shows first.
#[derive(Debug)]
pub struct Session {
    pub values: Vec<Option<Value>>,
    pub focus: usize,
}

impl Session {
    /// A session for `params`, each holding its default.
    pub fn new(spec: &Spec, params: &Vec<Param>) -> (r: Session)
        ensures
            r.values@.len() == params@.len(),
            forall|i: int| 0 <= i < params@.len() ==> is_default(*spec, params@[i], #[trigger] r.values@[i]),
            r.focus == 0,
    {
        let mut values: Vec<Option<Value>> = Vec::new();
        let mut i: usize = 0;
        while i < params.len()
            invariant
                i <= params@.len(),
                values@.len() == i,
                forall|j: int| 0 <= j < i ==> is_default(*spec, params@[j], #[trigger] values@[j]),
            decreases params.len() - i,
        {
            values.push(default_value(spec, &params[i]));
            i = i + 1;
        }
        Session { values, focus: 0 }
    }

    /// The overview choices.
    pub fn overview(&self) -> (r: Vec<ParamsAction>)
        ensures
            r@ == overview_choices(self.values@.len()),
    {
        let mut out: Vec<ParamsAction> = Vec::new();
        let mut i: usize = 0;
        while i < self.values.len()
            invariant
                i <= self.values@.len(),
                out@ == Seq::new(i as nat, |j: int| ParamsAction::Edit(j as usize)),
            decreases self.values.len() - i,
        {
            out.push(ParamsAction::Edit(i));
            i = i + 1;
            assert(out@ =~= Seq::new(i as nat, |j: int| ParamsAction::Edit(j as usize)));
        }
        out.push(ParamsAction::Done);
        out
    }

    /// Gives the parameter at `i` the outcome of its editing: a value, or none.
    pub fn store(&mut self, i: usize, v: Option<Value>)
        requires
            i < old(self).values@.len(),
        ensures
            final(self).values@ == old(self).values@.update(i as int, v),
            final(self).focus == i,
    {
        self.values[i] = v;
        self.focus = i;
    }

    /// Gives the scalar parameter at `i` the value of typed `text` under its
    /// resolved schema `schema`; text that does not fit leaves the value as it
    /// was.
    pub fn enter_text(&mut self, i: usize, schema: &Schema, text: &str)
        requires
            i < old(self).values@.len(),
        ensures
            final(self).focus == i,
            final(self).values@.len() == old(self).values@.len(),
            forall|j: int| 0 <= j < old(self).values@.len() && j != i ==> #[trigger] final(self).values@[j] == old(self).values@[j],
            exists|c: Option<Scalar>| #[trigger] coerced(*schema, text@, c) && match c {
                Some(x) => final(self).values@[i as int] == Some(Value::One(x)),
                None => final(self).values@[i as int] == old(self).values@[i as int],
            },
    {
        let c = coerce_text(schema, text);
        let ghost g = c;
        match c {
            Some(x) => self.store(i, Some(Value::One(x))),
            None => {
                self.focus = i;
            },
        }
        assert(coerced(*schema, text@, g));
    }

    /// The collected values, one per parameter.
    pub fn finish(self) -> (r: Vec<Option<Value>>)
        ensures
            r@ == self.values@,
    {
        self.values
    }
}

} // verus!

//! The in-memory form of an API description: endpoints, their operations,
//! parameters and schemas, and the registry of named schemas.
use vstd::prelude::*;
use crate::text::join;
use crate::text::join_with;
use crate::text::same_text;
use crate::text::strip_prefix;
use crate::text::texts;
use vstd::string::StringExecFns;

verus! {

/// Where a parameter's value travels in a request.
#[derive(Clone, Copy, Debug, PartialEq, Eq, Structural)]
pub enum ParamKind {
    Query,
    Path,
    Header,
    Cookie,
}

/// An HTTP method token.
#[derive(Clone, Copy, Debug, PartialEq, Eq, Structural)]
pub enum Method {
    Get,
    Post,
    Put,
    Delete,
    Options,
    Head,
    Patch,
    Trace,
}

/// The declared type of a schema: one type name, or a union of several.
#[derive(Debug)]
pub enum SchemaKind {
    Single(String),
    Multiple(Vec<String>),
}

/// A type descriptor, possibly a pointer into the registry of named schemas.
#[derive(Debug)]
pub struct Schema {
    pub ptr: Option<String>,
    pub kind: Option<SchemaKind>,
    pub items: Option<Box<Schema>>,
    pub variants: Option<Vec<String>>,
    pub pattern: Option<String>,
}

#[derive(Debug)]
pub struct Param {
    pub name: String,
    pub kind: ParamKind,
    pub required: bool,
    pub schema: Schema,
}

/// The definition of one method on one endpoint.
#[derive(Debug)]
pub struct Rpc {
    pub summ: Option<String>,
    pub deprecated: bool,
    pub params: Vec<Param>,
}

/// The operations of one endpoint, one slot per method.
#[derive(Debug)]
pub struct Rpcs {
    pub get: Option<Rpc>,
    pub post: Option<Rpc>,
    pub put: Option<Rpc>,
    pub delete: Option<Rpc>,
    pub options: Option<Rpc>,
    pub head: Option<Rpc>,
    pub patch: Option<Rpc>,
    pub trace: Option<Rpc>,
}

/// Named schemas, the targets of schema pointers.
#[derive(Debug)]
pub struct Components {
    pub schemas: Vec<(String, Schema)>,
}

/// An API description: endpoint path templates with their operations, and the
/// registry of named schemas.
#[derive(Debug)]
pub struct Spec {
    pub rpcs: Vec<(String, Rpcs)>,
    pub comps: Components,
}

/// Array nesting beyond this depth is described as `unknown`.
pub const NESTING_LIMIT: usize = 64;

/// The entry of the first pair in `entries` whose key is `key`.
pub open spec fn lookup<T>(entries: Seq<(String, T)>, key: Seq<char>) -> Option<T>
    decreases entries.len(),
{
    if entries.len() == 0 {
        None
    } else if entries[0].0@ == key {
        Some(entries[0].1)
    } else {
        lookup(entries.drop_first(), key)
    }
}

/// The entry of the first pair in `entries` whose key is `key`.
pub fn find_entry<'a, T>(entries: &'a Vec<(String, T)>, key: &str) -> (r: Option<&'a T>)
    ensures
        match r {
            Some(t) => lookup(entries@, key@) == Some(*t),
            None => lookup(entries@, key@) is None,
        },
{
    let mut i: usize = 0;
    assert(entries@.subrange(0, entries@.len() as int) =~= entries@);
    while i < entries.len()
        invariant
            i <= entries.len(),
            lookup(entries@, key@) == lookup(entries@.subrange(i as int, entries@.len() as int), key@),
        decreases entries.len() - i,
    {
        let ghost rest = entries@.subrange(i as int, entries@.len() as int);
        assert(rest.drop_first() =~= entries@.subrange(i + 1, entries@.len() as int));
        if same_text(entries[i].0.as_str(), key) {
            return Some(&entries[i].1);
        }
        i = i + 1;
    }
    None
}

pub open spec fn pointer_prefix() -> Seq<char> {
    "#/components/schemas/"@
}

impl Rpcs {
    /// The operation defined for `m`, if any.
    pub open spec fn slot(self, m: Method) -> Option<Rpc> {
        match m {
            Method::Get => self.get,
            Method::Post => self.post,
            Method::Put => self.put,
            Method::Delete => self.delete,
            Method::Options => self.options,
            Method::Head => self.head,
            Method::Patch => self.patch,
            Method::Trace => self.trace,
        }
    }

    /// The operation defined for `m`, if any.
    pub fn operation(&self, m: Method) -> (r: Option<&Rpc>)
        ensures
            match r {
                Some(o) => self.slot(m) == Some(*o),
                None => self.slot(m) is None,
            },
    {
        match m {
            Method::Get => self.get.as_ref(),
            Method::Post => self.post.as_ref(),
            Method::Put => self.put.as_ref(),
            Method::Delete => self.delete.as_ref(),
            Method::Options => self.options.as_ref(),
            Method::Head => self.head.as_ref(),
            Method::Patch => self.patch.as_ref(),
            Method::Trace => self.trace.as_ref(),
        }
    }
}

impl Components {
    /// The registry entry that pointer text `p` names.
    pub open spec fn target(self, p: Seq<char>) -> Option<Schema> {
        let n = pointer_prefix().len();
        if n <= p.len() && p.subrange(0, n as int) == pointer_prefix() {
            lookup(self.schemas@, p.subrange(n as int, p.len() as int))
        } else {
            None
        }
    }
}

impl Spec {
    /// Follows pointers from `s`, at most `fuel` of them, to a schema that has
    /// none.
    pub open spec fn resolve_within(self, s: Schema, fuel: nat) -> Option<Schema>
        decreases fuel,
    {
        match s.ptr {
            None => Some(s),
            Some(p) => if fuel == 0 {
                None
            } else {
                match self.comps.target(p@) {
                    Some(t) => self.resolve_within(t, (fuel - 1) as nat),
                    None => None,
                }
            },
        }
    }

    /// The concrete schema that `s` stands for. A chain of pointers longer
    /// than the registry revisits an entry, so it is a cycle and has none.
    pub open spec fn resolve(self, s: Schema) -> Option<Schema> {
        self.resolve_within(s, self.comps.schemas@.len())
    }

    /// The operation of `method` on `endpoint`.
    pub open spec fn rpc_of(self, endpoint: Seq<char>, method: Method) -> Option<Rpc> {
        match lookup(self.rpcs@, endpoint) {
            Some(e) => e.slot(method),
            None => None,
        }
    }

    /// The type descriptor of `s`, with at most `depth` levels of array
    /// nesting.
    pub open spec fn describe_within(self, s: Schema, depth: nat) -> Seq<char>
        decreases depth,
    {
        if depth == 0 {
            "unknown"@
        } else {
            match self.resolve(s) {
                None => "unknown"@,
                Some(t) => if t.variants is Some {
                    join_with(texts(t.variants->0@), "|"@)
                } else if t.pattern is Some {
                    "regex<"@ + t.pattern->0@ + ">"@
                } else {
                    match t.kind {
                        Some(SchemaKind::Single(k)) => if k@ == "array"@ {
                            match t.items {
                                Some(it) => "array<"@ + self.describe_within(*it, (depth - 1) as nat)
                                    + ">"@,
                                None => "array<unknown>"@,
                            }
                        } else if k@ == "string"@ {
                            "str"@
                        } else if k@ == "integer"@ {
                            "int"@
                        } else if k@ == "boolean"@ {
                            "bool"@
                        } else {
                            k@
                        },
                        Some(SchemaKind::Multiple(v)) => join_with(texts(v@), "|"@),
                        None => "unknown"@,
                    }
                },
            }
        }
    }

    /// The type descriptor of `s`.
    pub open spec fn describe(self, s: Schema) -> Seq<char> {
        self.describe_within(s, NESTING_LIMIT as nat)
    }

    /// The registry entry that pointer text `p` names.
    pub fn target_of(&self, p: &str) -> (r: Option<&Schema>)
        ensures
            match r {
                Some(t) => self.comps.target(p@) == Some(*t),
                None => self.comps.target(p@) is None,
            },
    {
        let prefix = "#/components/schemas/";
        match strip_prefix(p, prefix) {
            Some(name) => find_entry(&self.comps.schemas, name),
            None => None,
        }
    }

    /// The concrete schema that `schema` stands for, or nothing when a pointer
    /// names no registry entry or the pointers form a cycle.
    pub fn traverse_schema<'a>(&'a self, schema: &'a Schema) -> (r: Option<&'a Schema>)
        ensures
            match r {
                Some(t) => self.resolve(*schema) == Some(*t) && t.ptr is None,
                None => self.resolve(*schema) is None,
            },
    {
        let mut cur = schema;
        let mut fuel = self.comps.schemas.len();
        loop
            invariant
                fuel <= self.comps.schemas@.len(),
                self.resolve_within(*cur, fuel as nat) == self.resolve(*schema),
            decreases fuel,
        {
            match &cur.ptr {
                None => {
                    return Some(cur);
                },
                Some(p) => {
                    if fuel == 0 {
                        return None;
                    }
                    match self.target_of(p.as_str()) {
                        Some(t) => {
                            cur = t;
                            fuel = fuel - 1;
                        },
                        None => {
                            return None;
                        },
                    }
                },
            }
        }
    }

    fn describe_depth(&self, schema: &Schema, depth: usize) -> (r: String)
        ensures
            r@ == self.describe_within(*schema, depth as nat),
        decreases depth,
    {
        if depth == 0 {
            return "unknown".to_owned();
        }
        let t = match self.traverse_schema(schema) {
            Some(t) => t,
            None => {
                return "unknown".to_owned();
            },
        };
        if let Some(v) = &t.variants {
            return join(v, "|");
        }
        if let Some(p) = &t.pattern {
            let mut out = String::from_str("regex<");
            out.append(p.as_str());
            out.append(">");
            return out;
        }
        match &t.kind {
            Some(SchemaKind::Single(k)) => {
                if same_text(k.as_str(), "array") {
                    match &t.items {
                        Some(it) => {
                            let inner = self.describe_depth(it, depth - 1);
                            let mut out = String::from_str("array<");
                            out.append(inner.as_str());
                            out.append(">");
                            out
                        },
                        None => "array<unknown>".to_owned(),
                    }
                } else if same_text(k.as_str(), "string") {
                    "str".to_owned()
                } else if same_text(k.as_str(), "integer") {
                    "int".to_owned()
                } else if same_text(k.as_str(), "boolean") {
                    "bool".to_owned()
                } else {
                    k.clone()
                }
            },
            Some(SchemaKind::Multiple(v)) => join(v, "|"),
            None => "unknown".to_owned(),
        }
    }

    /// A compact type descriptor of `schema`: its enumerated values, else its
    /// pattern, else its type with the short names `str`, `int` and `bool`.
    pub fn describe_schema(&self, schema: &Schema) -> (r: String)
        ensures
            r@ == self.describe(*schema),
    {
        self.describe_depth(schema, NESTING_LIMIT)
    }

    /// Whether `endpoint` defines an operation for `method`.
    pub fn is_defined(&self, endpoint: &str, method: Method) -> (r: bool)
        ensures
            r == (self.rpc_of(endpoint@, method) is Some),
    {
        self.find_rpc(endpoint, method).is_some()
    }

    /// The operation of `method` on `endpoint`.
    pub fn find_rpc(&self, endpoint: &str, method: Method) -> (r: Option<&Rpc>)
        ensures
            match r {
                Some(o) => self.rpc_of(endpoint@, method) == Some(*o),
                None => self.rpc_of(endpoint@, method) is None,
            },
    {
        match find_entry(&self.rpcs, endpoint) {
            Some(e) => e.operation(method),
            None => None,
        }
    }
}

} // verus!

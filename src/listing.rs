//! Listings drawn from a description: every defined operation, and the
//! completion candidates for an endpoint or a parameter name.
use vstd::prelude::*;
use crate::model::Method;
use crate::model::Param;
use crate::model::Rpc;
use crate::model::Rpcs;
use crate::model::Spec;
use crate::text::starts_with;
use crate::text::same_text;
use crate::text::texts;
use vstd::string::StringExecFns;

verus! {

/// One defined operation: a method on an endpoint.
#[derive(Debug)]
pub struct RpcAction {
    pub method: Method,
    pub endpoint: String,
}

impl RpcAction {
    pub fn new(method: Method, endpoint: String) -> (r: RpcAction)
        ensures
            r.method == method,
            r.endpoint == endpoint,
    {
        RpcAction { method, endpoint }
    }
}

/// The order in which the methods of one endpoint are listed.
pub open spec fn method_order() -> Seq<Method> {
    seq![
        Method::Get,
        Method::Post,
        Method::Put,
        Method::Delete,
        Method::Patch,
        Method::Head,
        Method::Options,
        Method::Trace,
    ]
}

/// The methods among the first `i` of `method_order()` that `r` defines.
pub open spec fn methods_upto(r: Rpcs, i: nat) -> Seq<Method>
    decreases i,
{
    if i == 0 || i > 8 {
        Seq::empty()
    } else {
        let acc = methods_upto(r, (i - 1) as nat);
        let m = method_order()[i - 1];
        if r.slot(m) is Some {
            acc.push(m)
        } else {
            acc
        }
    }
}

/// Every defined operation, endpoint by endpoint, in `method_order()` within
/// each.
pub open spec fn all_rpcs(entries: Seq<(String, Rpcs)>) -> Seq<(Seq<char>, Method)>
    decreases entries.len(),
{
    if entries.len() == 0 {
        Seq::empty()
    } else {
        let e = entries.last();
        all_rpcs(entries.drop_last()) + methods_upto(e.1, 8).map_values(
            |m: Method| (e.0@, m),
        )
    }
}

pub open spec fn action_views(v: Seq<RpcAction>) -> Seq<(Seq<char>, Method)> {
    v.map_values(|a: RpcAction| (a.endpoint@, a.method))
}

fn method_at(i: usize) -> (m: Method)
    requires
        i < 8,
    ensures
        m == method_order()[i as int],
{
    match i {
        0 => Method::Get,
        1 => Method::Post,
        2 => Method::Put,
        3 => Method::Delete,
        4 => Method::Patch,
        5 => Method::Head,
        6 => Method::Options,
        _ => Method::Trace,
    }
}

/// Every operation that `spec` defines.
pub fn rpc_actions(spec: &Spec) -> (r: Vec<RpcAction>)
    ensures
        action_views(r@) == all_rpcs(spec.rpcs@),
{
    let mut out: Vec<RpcAction> = Vec::new();
    let mut i: usize = 0;
    while i < spec.rpcs.len()
        invariant
            i <= spec.rpcs@.len(),
            action_views(out@) == all_rpcs(spec.rpcs@.subrange(0, i as int)),
        decreases spec.rpcs.len() - i,
    {
        let ghost start = action_views(out@);
        let e = &spec.rpcs[i];
        let mut k: usize = 0;
        while k < 8
            invariant
                i < spec.rpcs@.len(),
                *e == spec.rpcs@[i as int],
                k <= 8,
                action_views(out@) == start + methods_upto(e.1, k as nat).map_values(
                    |m: Method| (e.0@, m),
                ),
            decreases 8 - k,
        {
            let m = method_at(k);
            let ghost before = out@;
            if e.1.operation(m).is_some() {
                out.push(RpcAction::new(m, e.0.clone()));
                assert(action_views(out@) =~= action_views(before).push((e.0@, m)));
            }
            k = k + 1;
            assert(action_views(out@) =~= start + methods_upto(e.1, k as nat).map_values(
                |m: Method| (e.0@, m),
            ));
        }
        i = i + 1;
        assert(spec.rpcs@.subrange(0, i as int).drop_last() =~= spec.rpcs@.subrange(
            0,
            i - 1,
        ));
    }
    assert(spec.rpcs@.subrange(0, spec.rpcs@.len() as int) =~= spec.rpcs@);
    out
}

/// A completion candidate and the help shown beside it.
#[derive(Debug, PartialEq, Eq)]
pub struct Candidate {
    pub value: String,
    pub help: String,
}

pub open spec fn candidate_views(v: Seq<Candidate>) -> Seq<(Seq<char>, Seq<char>)> {
    v.map_values(|c: Candidate| (c.value@, c.help@))
}

/// The help beside an endpoint: its summary, marked when deprecated.
pub open spec fn rpc_help(o: Rpc) -> Seq<char> {
    let summary = match o.summ {
        Some(s) => s@,
        None => Seq::empty(),
    };
    if o.deprecated {
        summary + " (deprecated)"@
    } else {
        summary
    }
}

pub open spec fn has_prefix(s: Seq<char>, p: Seq<char>) -> bool {
    p.len() <= s.len() && s.subrange(0, p.len() as int) == p
}

/// The endpoints among `entries` that begin with `prefix` and define `m`,
/// each with its help.
pub open spec fn endpoint_matches(entries: Seq<(String, Rpcs)>, prefix: Seq<char>, m: Method) -> Seq<
    (Seq<char>, Seq<char>),
>
    decreases entries.len(),
{
    if entries.len() == 0 {
        Seq::empty()
    } else {
        let acc = endpoint_matches(entries.drop_last(), prefix, m);
        let e = entries.last();
        match e.1.slot(m) {
            Some(o) => if has_prefix(e.0@, prefix) {
                acc.push((e.0@, rpc_help(o)))
            } else {
                acc
            },
            None => acc,
        }
    }
}

fn help_of(o: &Rpc) -> (r: String)
    ensures
        r@ == rpc_help(*o),
{
    let mut help = match &o.summ {
        Some(s) => s.clone(),
        None => String::new(),
    };
    if o.deprecated {
        help.append(" (deprecated)");
    }
    help
}

/// The endpoints that begin with `prefix` and define `method`, each with its
/// summary and deprecation as help.
pub fn endpoint_candidates(spec: &Spec, prefix: &str, method: Method) -> (r: Vec<Candidate>)
    ensures
        candidate_views(r@) == endpoint_matches(spec.rpcs@, prefix@, method),
{
    let mut out: Vec<Candidate> = Vec::new();
    let mut i: usize = 0;
    while i < spec.rpcs.len()
        invariant
            i <= spec.rpcs@.len(),
            candidate_views(out@) == endpoint_matches(spec.rpcs@.subrange(0, i as int), prefix@, method),
        decreases spec.rpcs.len() - i,
    {
        let e = &spec.rpcs[i];
        let ghost before = out@;
        if let Some(o) = e.1.operation(method) {
            if starts_with(e.0.as_str(), prefix) {
                out.push(Candidate { value: e.0.clone(), help: help_of(o) });
                assert(candidate_views(out@) =~= candidate_views(before).push((e.0@, rpc_help(*o))));
            }
        }
        i = i + 1;
        assert(spec.rpcs@.subrange(0, i as int).drop_last() =~= spec.rpcs@.subrange(
            0,
            i - 1,
        ));
    }
    assert(spec.rpcs@.subrange(0, spec.rpcs@.len() as int) =~= spec.rpcs@);
    out
}

/// The help beside a parameter: its type descriptor, marked when required.
pub open spec fn param_help(spec: Spec, p: Param) -> Seq<char> {
    if p.required {
        spec.describe(p.schema) + " (required)"@
    } else {
        spec.describe(p.schema)
    }
}

/// The parameters among `ps` that begin with `prefix` and are not among
/// `passed`, each as `name=` with its help.
pub open spec fn param_matches(
    spec: Spec,
    ps: Seq<Param>,
    prefix: Seq<char>,
    passed: Seq<Seq<char>>,
) -> Seq<(Seq<char>, Seq<char>)>
    decreases ps.len(),
{
    if ps.len() == 0 {
        Seq::empty()
    } else {
        let acc = param_matches(spec, ps.drop_last(), prefix, passed);
        let p = ps.last();
        if !passed.contains(p.name@) && has_prefix(p.name@, prefix) {
            acc.push((p.name@ + "="@, param_help(spec, p)))
        } else {
            acc
        }
    }
}

fn contains_text(v: &Vec<String>, s: &str) -> (r: bool)
    ensures
        r == texts(v@).contains(s@),
{
    let mut i: usize = 0;
    while i < v.len()
        invariant
            i <= v@.len(),
            forall|j: int| 0 <= j < i ==> v@[j]@ != s@,
        decreases v.len() - i,
    {
        if same_text(v[i].as_str(), s) {
            assert(texts(v@)[i as int] == s@);
            return true;
        }
        i = i + 1;
    }
    assert forall|j: int| 0 <= j < texts(v@).len() implies texts(v@)[j] != s@ by {
        assert(texts(v@)[j] == v@[j]@);
    }
    false
}

/// The parameters of `method` on `endpoint` that begin with `prefix` and are
/// not among `passed`, each as `name=` with its type descriptor and required
/// mark as help; none when the operation is not defined.
pub fn param_candidates(
    spec: &Spec,
    endpoint: &str,
    method: Method,
    prefix: &str,
    passed: &Vec<String>,
) -> (r: Vec<Candidate>)
    ensures
        candidate_views(r@) == match spec.rpc_of(endpoint@, method) {
            Some(o) => param_matches(*spec, o.params@, prefix@, texts(passed@)),
            None => Seq::empty(),
        },
{
    let mut out: Vec<Candidate> = Vec::new();
    let o = match spec.find_rpc(endpoint, method) {
        Some(o) => o,
        None => {
            return out;
        },
    };
    let ps = &o.params;
    let mut i: usize = 0;
    while i < ps.len()
        invariant
            i <= ps@.len(),
            candidate_views(out@) == param_matches(*spec, ps@.subrange(0, i as int), prefix@, texts(passed@)),
        decreases ps.len() - i,
    {
        let p = &ps[i];
        let ghost before = out@;
        if !contains_text(passed, p.name.as_str()) && starts_with(p.name.as_str(), prefix) {
            let mut value = p.name.clone();
            value.append("=");
            let mut help = spec.describe_schema(&p.schema);
            if p.required {
                help.append(" (required)");
            }
            out.push(Candidate { value, help });
            assert(candidate_views(out@) =~= candidate_views(before).push((p.name@ + "="@, param_help(*spec, *p))));
        }
        i = i + 1;
        assert(ps@.subrange(0, i as int).drop_last() =~= ps@.subrange(0, i - 1));
    }
    assert(ps@.subrange(0, ps@.len() as int) =~= ps@);
    out
}

} // verus!

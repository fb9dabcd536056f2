//! Assembly of a request path and query string from an endpoint template and
//! collected parameter values.
use vstd::prelude::*;
use crate::model::Param;
use crate::model::ParamKind;
use crate::text::join;
use crate::text::join_with;
use crate::text::replace_all;
use crate::text::replace_token;
use crate::text::same_text;
use crate::text::texts;
use crate::value::scalar_text;
use crate::value::Scalar;
use crate::value::Value;
use vstd::string::StrSliceExecFns;
use vstd::string::StringExecFns;

verus! {

/// The value held for the parameter at `i`; positions past the end hold none.
pub open spec fn value_at(vs: Seq<Option<Value>>, i: int) -> Option<Value> {
    if 0 <= i < vs.len() {
        vs[i]
    } else {
        None
    }
}

/// The placeholder of parameter `name` in a path template.
pub open spec fn token(name: Seq<char>) -> Seq<char> {
    seq!['{'] + name + seq!['}']
}

/// Template `t` with the scalar values of the first `i` path parameters put
/// in place of their placeholders.
pub open spec fn substitute(t: Seq<char>, ps: Seq<Param>, vs: Seq<Option<Value>>, i: nat) -> Seq<
    char,
>
    decreases i,
{
    if i == 0 {
        t
    } else {
        let acc = substitute(t, ps, vs, (i - 1) as nat);
        let j = i - 1;
        if j < ps.len() && ps[j].kind == ParamKind::Path {
            match value_at(vs, j) {
                Some(Value::One(s)) => replace_all(acc, token(ps[j].name@), scalar_text(s)),
                _ => acc,
            }
        } else {
            acc
        }
    }
}

pub open spec fn pair(name: Seq<char>, s: Scalar) -> Seq<char> {
    name + "="@ + scalar_text(s)
}

/// The `name=value` pairs of one value: one per array element, in order.
pub open spec fn pairs_of(name: Seq<char>, v: Value) -> Seq<Seq<char>> {
    match v {
        Value::One(s) => seq![pair(name, s)],
        Value::Many(items) => items@.map_values(|s: Scalar| pair(name, s)),
    }
}

/// The query pairs of the first `i` parameters that travel in the query.
pub open spec fn query_pairs(ps: Seq<Param>, vs: Seq<Option<Value>>, i: nat) -> Seq<Seq<char>>
    decreases i,
{
    if i == 0 {
        Seq::empty()
    } else {
        let acc = query_pairs(ps, vs, (i - 1) as nat);
        let j = i - 1;
        if j < ps.len() && ps[j].kind == ParamKind::Query {
            match value_at(vs, j) {
                Some(v) => acc + pairs_of(ps[j].name@, v),
                None => acc,
            }
        } else {
            acc
        }
    }
}

/// The request path for template `t`: placeholders filled, then `?` and the
/// query pairs joined by `&`, where there is at least one.
pub open spec fn request_path(t: Seq<char>, ps: Seq<Param>, vs: Seq<Option<Value>>) -> Seq<char> {
    let base = substitute(t, ps, vs, ps.len());
    let q = query_pairs(ps, vs, ps.len());
    if q.len() == 0 {
        base
    } else {
        base + "?"@ + join_with(q, "&"@)
    }
}

fn make_pair(name: &String, s: &Scalar) -> (r: String)
    ensures
        r@ == pair(name@, *s),
{
    let mut out = name.clone();
    out.append("=");
    let t = s.text();
    out.append(t.as_str());
    out
}

fn make_token(name: &String) -> (r: String)
    ensures
        r@ == token(name@),
{
    let mut out = String::from_str("{");
    out.append(name.as_str());
    out.append("}");
    proof {
        reveal_strlit("{");
        reveal_strlit("}");
    }
    assert(out@ =~= token(name@));
    out
}

/// The path and query of a request to `endpoint`, where `values[i]` is the
/// value collected for `params[i]`. Path parameters fill their placeholders;
/// query parameters become `name=value` pairs in parameter order; header and
/// cookie parameters leave the path alone.
pub fn build_url(endpoint: &str, values: &Vec<Option<Value>>, params: &Vec<Param>) -> (r: String)
    ensures
        r@ == request_path(endpoint@, params@, values@),
{
    let mut url = endpoint.to_owned();
    let mut pairs: Vec<String> = Vec::new();
    let mut i: usize = 0;
    while i < params.len()
        invariant
            i <= params.len(),
            url@ == substitute(endpoint@, params@, values@, i as nat),
            texts(pairs@) == query_pairs(params@, values@, i as nat),
        decreases params.len() - i,
    {
        let p = &params[i];
        if i < values.len() {
            match &values[i] {
                Some(v) => {
                    if p.kind == ParamKind::Path {
                        if let Value::One(s) = v {
                            let tok = make_token(&p.name);
                            let text = s.text();
                            url = replace_token(url.as_str(), tok.as_str(), text.as_str());
                        }
                    } else if p.kind == ParamKind::Query {
                        match v {
                            Value::One(s) => {
                                pairs.push(make_pair(&p.name, s));
                                assert(texts(pairs@) =~= query_pairs(
                                    params@,
                                    values@,
                                    (i + 1) as nat,
                                ));
                            },
                            Value::Many(items) => {
                                let ghost start = texts(pairs@);
                                let mut k: usize = 0;
                                while k < items.len()
                                    invariant
                                        i < params.len(),
                                        k <= items.len(),
                                        texts(pairs@) == start + items@.subrange(
                                            0,
                                            k as int,
                                        ).map_values(|s: Scalar| pair(p.name@, s)),
                                    decreases items.len() - k,
                                {
                                    let ghost before = pairs@;
                                    let made = make_pair(&p.name, &items[k]);
                                    pairs.push(made);
                                    proof {
                                        let f = |s: Scalar| pair(p.name@, s);
                                        assert(texts(pairs@) =~= texts(before).push(made@));
                                        assert(items@.subrange(0, k + 1).map_values(f) =~= items@.subrange(
                                            0,
                                            k as int,
                                        ).map_values(f).push(f(items@[k as int])));
                                    }
                                    k = k + 1;
                                }
                                assert(items@.subrange(0, items@.len() as int) =~= items@);
                                assert(texts(pairs@) =~= query_pairs(
                                    params@,
                                    values@,
                                    (i + 1) as nat,
                                ));
                            },
                        }
                    }
                },
                None => {},
            }
        }
        i = i + 1;
    }
    if pairs.len() == 0 {
        url
    } else {
        url.append("?");
        let q = join(&pairs, "&");
        url.append(q.as_str());
        url
    }
}

/// Whether `s` holds `pat` at position `k`.
pub open spec fn occurs_at(s: Seq<char>, pat: Seq<char>, k: int) -> bool {
    0 <= k && k + pat.len() <= s.len() && s.subrange(k, k + pat.len()) == pat
}

/// The first position at or after `from` where `s` holds `pat`.
pub open spec fn first_from(s: Seq<char>, pat: Seq<char>, from: int) -> Option<int>
    decreases s.len() + 1 - from,
{
    if from < 0 || from + pat.len() > s.len() {
        None
    } else if occurs_at(s, pat, from) {
        Some(from)
    } else {
        first_from(s, pat, from + 1)
    }
}

/// The scheme and authority of `url`: everything before the first `/` that
/// follows the first `://`.
pub open spec fn base_url(url: Seq<char>) -> Option<Seq<char>> {
    match first_from(url, "://"@, 0) {
        Some(a) => match first_from(url, "/"@, a + "://"@.len()) {
            Some(c) => Some(url.subrange(0, c)),
            None => None,
        },
        None => None,
    }
}

proof fn lemma_first_from(s: Seq<char>, pat: Seq<char>, from: int)
    ensures
        first_from(s, pat, from) matches Some(k) ==> from <= k && occurs_at(s, pat, k),
    decreases s.len() + 1 - from,
{
    if !(from < 0 || from + pat.len() > s.len()) && !occurs_at(s, pat, from) {
        lemma_first_from(s, pat, from + 1);
    }
}

/// The first position at or after `from` where `s` holds `pat`.
pub fn find_from(s: &str, pat: &str, from: usize) -> (r: Option<usize>)
    ensures
        match r {
            Some(k) => first_from(s@, pat@, from as int) == Some(k as int),
            None => first_from(s@, pat@, from as int) is None,
        },
{
    let n = s.unicode_len();
    let m = pat.unicode_len();
    if m == 0 {
        if from <= n {
            assert(s@.subrange(from as int, from as int) =~= pat@);
            return Some(from);
        }
        return None;
    }
    let mut k = from;
    while k <= n && m <= n - k
        invariant
            m > 0,
            n == s@.len(),
            m == pat@.len(),
            from <= k,
            first_from(s@, pat@, from as int) == first_from(s@, pat@, k as int),
        decreases n - k,
    {
        if same_text(s.substring_char(k, k + m), pat) {
            return Some(k);
        }
        k = k + 1;
    }
    None
}

/// The scheme and authority of `url`, as in `https://host:port` of
/// `https://host:port/docs/spec.json`; nothing when `url` has no `://` or no
/// `/` after it.
pub fn extract_base_url(url: &str) -> (r: Option<&str>)
    ensures
        match r {
            Some(b) => base_url(url@) == Some(b@),
            None => base_url(url@) is None,
        },
{
    let n = url.unicode_len();
    let a = match find_from(url, "://", 0) {
        Some(a) => a,
        None => {
            return None;
        },
    };
    proof {
        reveal_strlit("://");
        reveal_strlit("/");
        lemma_first_from(url@, "://"@, 0);
        lemma_first_from(url@, "/"@, a + 3);
    }
    if a > usize::MAX - 3 {
        return None;
    }
    match find_from(url, "/", a + 3) {
        Some(c) => Some(url.substring_char(0, c)),
        None => None,
    }
}

/// Why an assignment of the form `name=value` was refused.
#[derive(Debug, PartialEq, Eq, Structural)]
pub enum AssignError {
    /// The assignment at this position holds no `=`.
    Malformed(usize),
    /// The assignment at this position names no parameter of the operation.
    UnknownParam(usize),
}

/// The position of the first parameter at or after `j` named `name`.
pub open spec fn param_index_from(ps: Seq<Param>, name: Seq<char>, j: int) -> Option<int>
    decreases ps.len() - j,
{
    if j < 0 || j >= ps.len() {
        None
    } else if ps[j].name@ == name {
        Some(j)
    } else {
        param_index_from(ps, name, j + 1)
    }
}

/// The position of the first parameter named `name`.
pub open spec fn param_index(ps: Seq<Param>, name: Seq<char>) -> Option<int> {
    param_index_from(ps, name, 0)
}

proof fn lemma_param_index_from(ps: Seq<Param>, name: Seq<char>, j: int)
    ensures
        param_index_from(ps, name, j) matches Some(k) ==> 0 <= k < ps.len() && ps[k].name@ == name,
    decreases ps.len() - j,
{
    if 0 <= j < ps.len() && ps[j].name@ != name {
        lemma_param_index_from(ps, name, j + 1);
    }
}

/// The name part of assignment `a`: what precedes its first `=`.
pub open spec fn assigned_name(a: Seq<char>) -> Seq<char> {
    match first_from(a, "="@, 0) {
        Some(k) => a.subrange(0, k),
        None => a,
    }
}

/// The value part of assignment `a`: what follows its first `=`.
pub open spec fn assigned_value(a: Seq<char>) -> Seq<char> {
    match first_from(a, "="@, 0) {
        Some(k) => a.subrange(k + 1, a.len() as int),
        None => Seq::empty(),
    }
}

/// What is wrong with assignment `a`, at position `i`, for parameters `ps`.
pub open spec fn assign_fault(ps: Seq<Param>, a: Seq<char>, i: int) -> Option<AssignError> {
    if first_from(a, "="@, 0) is None {
        Some(AssignError::Malformed(i as usize))
    } else if param_index(ps, assigned_name(a)) is None {
        Some(AssignError::UnknownParam(i as usize))
    } else {
        None
    }
}

/// `acc` after assignment `a`, when it is to a path parameter.
pub open spec fn path_step(acc: Seq<char>, ps: Seq<Param>, a: Seq<char>) -> Seq<char> {
    match param_index(ps, assigned_name(a)) {
        Some(j) => if 0 <= j < ps.len() && ps[j].kind == ParamKind::Path {
            replace_all(acc, token(assigned_name(a)), assigned_value(a))
        } else {
            acc
        },
        None => acc,
    }
}

/// `acc` after assignment `a`, when it is to a query parameter.
pub open spec fn query_step(acc: Seq<Seq<char>>, ps: Seq<Param>, a: Seq<char>) -> Seq<Seq<char>> {
    match param_index(ps, assigned_name(a)) {
        Some(j) => if 0 <= j < ps.len() && ps[j].kind == ParamKind::Query {
            acc.push(assigned_name(a) + "="@ + assigned_value(a))
        } else {
            acc
        },
        None => acc,
    }
}

/// Template `t` with the values of the first `i` assignments to path
/// parameters put in place of their placeholders.
pub open spec fn assigned_path(t: Seq<char>, ps: Seq<Param>, asg: Seq<Seq<char>>, i: nat) -> Seq<
    char,
>
    decreases i,
{
    if i == 0 || i > asg.len() {
        t
    } else {
        path_step(assigned_path(t, ps, asg, (i - 1) as nat), ps, asg[i - 1])
    }
}

/// The `name=value` pairs of the first `i` assignments to query parameters.
pub open spec fn assigned_query(ps: Seq<Param>, asg: Seq<Seq<char>>, i: nat) -> Seq<Seq<char>>
    decreases i,
{
    if i == 0 || i > asg.len() {
        Seq::empty()
    } else {
        query_step(assigned_query(ps, asg, (i - 1) as nat), ps, asg[i - 1])
    }
}

/// The request path that assignments `asg` give template `t`.
pub open spec fn assigned_request(t: Seq<char>, ps: Seq<Param>, asg: Seq<Seq<char>>) -> Seq<char> {
    let base = assigned_path(t, ps, asg, asg.len());
    let q = assigned_query(ps, asg, asg.len());
    if q.len() == 0 {
        base
    } else {
        base + "?"@ + join_with(q, "&"@)
    }
}

/// The position of the first parameter named `name`.
pub fn find_param(ps: &Vec<Param>, name: &str) -> (r: Option<usize>)
    ensures
        match r {
            Some(j) => param_index(ps@, name@) == Some(j as int),
            None => param_index(ps@, name@) is None,
        },
{
    let mut j: usize = 0;
    while j < ps.len()
        invariant
            j <= ps@.len(),
            param_index(ps@, name@) == param_index_from(ps@, name@, j as int),
        decreases ps.len() - j,
    {
        if same_text(ps[j].name.as_str(), name) {
            return Some(j);
        }
        j = j + 1;
    }
    None
}

fn apply_assignment(
    url: &mut String,
    pairs: &mut Vec<String>,
    params: &Vec<Param>,
    a: &str,
    i: usize,
) -> (r: Result<(), AssignError>)
    ensures
        match r {
            Ok(()) => assign_fault(params@, a@, i as int) is None && final(url)@ == path_step(
                old(url)@,
                params@,
                a@,
            ) && texts(final(pairs)@) == query_step(texts(old(pairs)@), params@, a@),
            Err(e) => assign_fault(params@, a@, i as int) == Some(e),
        },
{
    let n = a.unicode_len();
    let k = match find_from(a, "=", 0) {
        Some(k) => k,
        None => {
            return Err(AssignError::Malformed(i));
        },
    };
    proof {
        reveal_strlit("=");
        lemma_first_from(a@, "="@, 0);
    }
    let name = a.substring_char(0, k);
    let value = a.substring_char(k + 1, n);
    let j = match find_param(params, name) {
        Some(j) => j,
        None => {
            return Err(AssignError::UnknownParam(i));
        },
    };
    proof {
        lemma_param_index_from(params@, name@, 0);
    }
    let ghost before = pairs@;
    if params[j].kind == ParamKind::Path {
        let tok = make_token(&params[j].name);
        let next = replace_token(url.as_str(), tok.as_str(), value);
        *url = next;
    } else if params[j].kind == ParamKind::Query {
        let mut pair_text = name.to_owned();
        pair_text.append("=");
        pair_text.append(value);
        pairs.push(pair_text);
        assert(texts(pairs@) =~= texts(before).push(pair_text@));
    }
    Ok(())
}

/// The path and query of a request to `endpoint` from assignments
/// `name=value` given in order: path parameters fill their placeholders and
/// query parameters become pairs in the order given. The first assignment
/// without `=`, or naming no parameter, is refused.
pub fn build_from_assignments(endpoint: &str, params: &Vec<Param>, assignments: &Vec<String>) -> (r:
    Result<String, AssignError>)
    ensures
        match r {
            Ok(u) => (forall|i: int|
                0 <= i < assignments@.len() ==> assign_fault(
                    params@,
                    #[trigger] assignments@[i]@,
                    i,
                ) is None) && u@ == assigned_request(endpoint@, params@, texts(assignments@)),
            Err(e) => exists|i: int|
                0 <= i < assignments@.len() && assign_fault(params@, #[trigger] assignments@[i]@, i)
                    == Some(e) && forall|k: int|
                    0 <= k < i ==> assign_fault(params@, #[trigger] assignments@[k]@, k) is None,
        },
{
    let ghost asg = texts(assignments@);
    let mut url = endpoint.to_owned();
    let mut pairs: Vec<String> = Vec::new();
    let mut i: usize = 0;
    while i < assignments.len()
        invariant
            i <= assignments@.len(),
            asg == texts(assignments@),
            forall|k: int|
                0 <= k < i ==> assign_fault(params@, #[trigger] assignments@[k]@, k) is None,
            url@ == assigned_path(endpoint@, params@, asg, i as nat),
            texts(pairs@) == assigned_query(params@, asg, i as nat),
        decreases assignments.len() - i,
    {
        assert(asg[i as int] == assignments@[i as int]@);
        match apply_assignment(&mut url, &mut pairs, params, assignments[i].as_str(), i) {
            Ok(()) => {},
            Err(e) => {
                return Err(e);
            },
        }
        i = i + 1;
    }
    if pairs.len() == 0 {
        Ok(url)
    } else {
        url.append("?");
        let q = join(&pairs, "&");
        url.append(q.as_str());
        Ok(url)
    }
}

} // verus!

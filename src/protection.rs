use vstd::prelude::*;
use crate::model::BranchProtection;

verus! {

/// A JSON value as the branch-protection query returns it. A number keeps its
/// value when it is an integer that fits in `i64`.
#[derive(Debug)]
pub enum Json {
    Null,
    Bool(bool),
    Number(Option<i64>),
    Str(String),
    Array(Vec<Json>),
    Object(Vec<(String, Json)>),
}

/// The query's response does not have the shape of branch-protection rules.
#[derive(Debug, Clone, Copy, PartialEq, Eq, Structural)]
pub enum DecodeError {
    Shape,
}

/// The value of the first member named `key`.
pub open spec fn member(es: Seq<(String, Json)>, key: Seq<char>) -> Option<Json>
    decreases es.len(),
{
    if es.len() == 0 {
        None
    } else if es[0].0@ == key {
        Some(es[0].1)
    } else {
        member(es.drop_first(), key)
    }
}

/// The member `key` of an object; nothing for any other value.
pub open spec fn get(j: Json, key: Seq<char>) -> Option<Json> {
    match j {
        Json::Object(es) => member(es@, key),
        _ => None,
    }
}

pub open spec fn get_in(j: Option<Json>, key: Seq<char>) -> Option<Json> {
    match j {
        Some(v) => get(v, key),
        None => None,
    }
}

pub open spec fn as_text(j: Option<Json>) -> Option<Seq<char>> {
    match j {
        Some(Json::Str(s)) => Some(s@),
        _ => None,
    }
}

pub open spec fn as_flag(j: Option<Json>) -> Option<bool> {
    match j {
        Some(Json::Bool(b)) => Some(b),
        _ => None,
    }
}

pub open spec fn as_items(j: Option<Json>) -> Option<Seq<Json>> {
    match j {
        Some(Json::Array(v)) => Some(v@),
        _ => None,
    }
}

/// The required approval count: zero when absent or not an integer; nothing
/// when it is a negative integer.
pub open spec fn approvals_of(j: Option<Json>) -> Option<i64> {
    match j {
        Some(Json::Number(Some(n))) => if n >= 0 {
            Some(n)
        } else {
            None
        },
        _ => Some(0),
    }
}

/// The `key` text of every item; nothing if one lacks it.
pub open spec fn texts_of(items: Seq<Json>, key: Seq<char>) -> Option<Seq<Seq<char>>>
    decreases items.len(),
{
    if items.len() == 0 {
        Some(Seq::empty())
    } else {
        match (texts_of(items.drop_last(), key), as_text(get(items.last(), key))) {
            (Some(r), Some(c)) => Some(r.push(c)),
            _ => None,
        }
    }
}

/// The "id" of every push allowance; none when the node lists none, nothing
/// when one lacks an id.
pub open spec fn allowances_of(node: Json) -> Option<Seq<Seq<char>>> {
    match as_items(get_in(get(node, "pushAllowances"@), "nodes"@)) {
        Some(ns) => texts_of(ns, "id"@),
        None => Some(Seq::empty()),
    }
}

/// A branch-protection rule in plain values.
pub struct RuleModel {
    pub pattern: Seq<char>,
    pub status_checks: Seq<Seq<char>>,
    pub dismiss_stale_review: bool,
    pub pr_required: bool,
    pub required_approvals: i64,
    pub push_allowances: Seq<Seq<char>>,
    pub restrict_pushes: bool,
}

pub open spec fn rule_view(b: BranchProtection) -> RuleModel {
    RuleModel {
        pattern: b.pattern@,
        status_checks: b.status_checks@.map_values(|s: String| s@),
        dismiss_stale_review: b.dismiss_stale_review,
        pr_required: b.pr_required,
        required_approvals: b.required_approvals,
        push_allowances: b.push_allowances@.map_values(|s: String| s@),
        restrict_pushes: b.restrict_pushes,
    }
}

/// The rule a query node describes. Pattern, status checks (each with a
/// context) and both review flags must be there. The approval count is zero
/// when absent or not an integer, and may not be negative. Push allowances
/// are empty when absent, and each listed one must have an id. Pushes are
/// unrestricted unless the node says otherwise.
pub open spec fn rule_of(node: Json) -> Option<RuleModel> {
    match (
        as_text(get(node, "pattern"@)),
        as_items(get(node, "requiredStatusChecks"@)),
        as_flag(get(node, "dismissesStaleReviews"@)),
        as_flag(get(node, "requiresApprovingReviews"@)),
        approvals_of(get(node, "requiredApprovingReviewCount"@)),
    ) {
        (Some(p), Some(items), Some(d), Some(pr), Some(cnt)) => match (
            texts_of(items, "context"@),
            allowances_of(node),
        ) {
            (Some(cs), Some(pa)) => Some(
                RuleModel {
                    pattern: p,
                    status_checks: cs,
                    dismiss_stale_review: d,
                    pr_required: pr,
                    required_approvals: cnt,
                    push_allowances: pa,
                    restrict_pushes: match as_flag(get(node, "restrictsPushes"@)) {
                        Some(b) => b,
                        None => false,
                    },
                },
            ),
            _ => None,
        },
        _ => None,
    }
}

/// The rules of the edges, each read from its "node"; nothing if one fails.
pub open spec fn rules_of(edges: Seq<Json>) -> Option<Seq<RuleModel>>
    decreases edges.len(),
{
    if edges.len() == 0 {
        Some(Seq::empty())
    } else {
        match (rules_of(edges.drop_last()), get(edges.last(), "node"@)) {
            (Some(r), Some(n)) => match rule_of(n) {
                Some(m) => Some(r.push(m)),
                None => None,
            },
            _ => None,
        }
    }
}

/// The rules of a response, found under data.repository.branchProtectionRules.edges.
pub open spec fn response_rules(resp: Json) -> Option<Seq<RuleModel>> {
    match as_items(
        get_in(
            get_in(get_in(get(resp, "data"@), "repository"@), "branchProtectionRules"@),
            "edges"@,
        ),
    ) {
        Some(edges) => rules_of(edges),
        None => None,
    }
}

/// The member `key` of an object.
pub fn member_of<'a>(j: &'a Json, key: &String) -> (r: Option<&'a Json>)
    ensures
        r matches Some(v) ==> get(*j, key@) == Some(*v),
        r is None <==> get(*j, key@) is None,
{
    match j {
        Json::Object(es) => {
            let mut i: usize = 0;
            assert(es@.skip(0) =~= es@);
            assert(get(*j, key@) == member(es@, key@));
            while i < es.len()
                invariant
                    i <= es@.len(),
                    get(*j, key@) == member(es@, key@),
                    member(es@, key@) == member(es@.skip(i as int), key@),
                decreases es.len() - i,
            {
                let ghost rest = es@.skip(i as int);
                assert(rest.len() > 0 && rest[0] == es@[i as int]);
                let entry = &es[i];
                if entry.0 == *key {
                    assert(member(rest, key@) == Some(entry.1));
                    return Some(&entry.1);
                }
                assert(rest.drop_first() =~= es@.skip(i + 1));
                i = i + 1;
            }
            None
        },
        _ => None,
    }
}

fn text_member(j: &Json, key: &str) -> (r: Option<String>)
    ensures
        r matches Some(s) ==> as_text(get(*j, key@)) == Some(s@),
        r is None <==> as_text(get(*j, key@)) is None,
{
    match member_of(j, &String::from_str(key)) {
        Some(Json::Str(s)) => Some(s.clone()),
        _ => None,
    }
}

fn flag_member(j: &Json, key: &str) -> (r: Option<bool>)
    ensures
        r == as_flag(get(*j, key@)),
{
    match member_of(j, &String::from_str(key)) {
        Some(Json::Bool(b)) => Some(*b),
        _ => None,
    }
}

fn items_member<'a>(j: &'a Json, key: &str) -> (r: Option<&'a Vec<Json>>)
    ensures
        r matches Some(v) ==> as_items(get(*j, key@)) == Some(v@),
        r is None <==> as_items(get(*j, key@)) is None,
{
    match member_of(j, &String::from_str(key)) {
        Some(Json::Array(v)) => Some(v),
        _ => None,
    }
}

fn texts(items: &Vec<Json>, key: &str) -> (r: Option<Vec<String>>)
    ensures
        r matches Some(v) ==> texts_of(items@, key@) == Some(v@.map_values(|s: String| s@)),
        r is None <==> texts_of(items@, key@) is None,
{
    let mut out: Vec<String> = Vec::new();
    let mut i: usize = 0;
    assert(items@.subrange(0, 0) =~= Seq::<Json>::empty());
    while i < items.len()
        invariant
            i <= items@.len(),
            texts_of(items@.subrange(0, i as int), key@) == Some(
                out@.map_values(|s: String| s@),
            ),
        decreases items.len() - i,
    {
        assert(items@.subrange(0, i + 1).drop_last() =~= items@.subrange(0, i as int));
        match text_member(&items[i], key) {
            Some(c) => {
                out.push(c);
            },
            None => {
                proof {
                    lemma_texts_stay_none(items@, key@, i as int + 1);
                }
                return None;
            },
        }
        assert(out@.map_values(|s: String| s@) =~= texts_of(items@.subrange(0, i + 1), key@).unwrap());
        i = i + 1;
    }
    assert(items@.subrange(0, i as int) =~= items@);
    Some(out)
}

proof fn lemma_texts_stay_none(items: Seq<Json>, key: Seq<char>, k: int)
    requires
        0 < k <= items.len(),
        texts_of(items.subrange(0, k), key) is None,
    ensures
        texts_of(items, key) is None,
    decreases items.len() - k,
{
    if k < items.len() {
        assert(items.subrange(0, k + 1).drop_last() =~= items.subrange(0, k));
        lemma_texts_stay_none(items, key, k + 1);
    } else {
        assert(items.subrange(0, k) =~= items);
    }
}

fn push_allowances(node: &Json) -> (r: Option<Vec<String>>)
    ensures
        r matches Some(v) ==> allowances_of(*node) == Some(v@.map_values(|s: String| s@)),
        r is None <==> allowances_of(*node) is None,
{
    let nodes: Option<&Vec<Json>> = match member_of(node, &String::from_str("pushAllowances")) {
        Some(pa) => items_member(pa, "nodes"),
        None => None,
    };
    match nodes {
        Some(ns) => texts(ns, "id"),
        None => {
            let v: Vec<String> = Vec::new();
            assert(v@.map_values(|s: String| s@) =~= Seq::<Seq<char>>::empty());
            Some(v)
        },
    }
}

/// Reads one rule from a query node.
pub fn parse_rule(node: &Json) -> (r: Result<BranchProtection, DecodeError>)
    ensures
        r is Ok <==> rule_of(*node) is Some,
        r matches Ok(b) ==> rule_of(*node) == Some(rule_view(b)),
{
    let pattern = match text_member(node, "pattern") {
        Some(p) => p,
        None => return Err(DecodeError::Shape),
    };
    let items = match items_member(node, "requiredStatusChecks") {
        Some(v) => v,
        None => return Err(DecodeError::Shape),
    };
    let dismiss = match flag_member(node, "dismissesStaleReviews") {
        Some(b) => b,
        None => return Err(DecodeError::Shape),
    };
    let pr = match flag_member(node, "requiresApprovingReviews") {
        Some(b) => b,
        None => return Err(DecodeError::Shape),
    };
    let approvals = match member_of(node, &String::from_str("requiredApprovingReviewCount")) {
        Some(Json::Number(Some(n))) => {
            if *n < 0 {
                return Err(DecodeError::Shape);
            }
            *n
        },
        _ => 0,
    };
    let status_checks = match texts(items, "context") {
        Some(cs) => cs,
        None => return Err(DecodeError::Shape),
    };
    let push_allowances = match push_allowances(node) {
        Some(pa) => pa,
        None => return Err(DecodeError::Shape),
    };
    let restrict = match flag_member(node, "restrictsPushes") {
        Some(b) => b,
        None => false,
    };
    let b = BranchProtection {
        pattern,
        status_checks,
        dismiss_stale_review: dismiss,
        pr_required: pr,
        required_approvals: approvals,
        push_allowances,
        restrict_pushes: restrict,
    };
    assert(rule_of(*node) == Some(rule_view(b)));
    Ok(b)
}

/// Reads every rule of a branch-protection query response, in order.
pub fn parse_rules(resp: &Json) -> (r: Result<Vec<BranchProtection>, DecodeError>)
    ensures
        r is Ok <==> response_rules(*resp) is Some,
        r matches Ok(v) ==> response_rules(*resp) == Some(v@.map_values(|b: BranchProtection| rule_view(b))),
{
    let data = match member_of(resp, &String::from_str("data")) {
        Some(d) => d,
        None => return Err(DecodeError::Shape),
    };
    let repository = match member_of(data, &String::from_str("repository")) {
        Some(d) => d,
        None => return Err(DecodeError::Shape),
    };
    let rules = match member_of(repository, &String::from_str("branchProtectionRules")) {
        Some(d) => d,
        None => return Err(DecodeError::Shape),
    };
    let edges = match items_member(rules, "edges") {
        Some(e) => e,
        None => return Err(DecodeError::Shape),
    };
    let mut out: Vec<BranchProtection> = Vec::new();
    let mut i: usize = 0;
    assert(edges@.subrange(0, 0) =~= Seq::<Json>::empty());
    while i < edges.len()
        invariant
            i <= edges@.len(),
            as_items(get_in(get_in(get_in(get(*resp, "data"@), "repository"@), "branchProtectionRules"@), "edges"@)) == Some(edges@),
            rules_of(edges@.subrange(0, i as int)) == Some(
                out@.map_values(|b: BranchProtection| rule_view(b)),
            ),
        decreases edges.len() - i,
    {
        assert(edges@.subrange(0, i + 1).drop_last() =~= edges@.subrange(0, i as int));
        let node = match member_of(&edges[i], &String::from_str("node")) {
            Some(n) => n,
            None => {
                proof {
                    lemma_rules_stay_none(edges@, i as int + 1);
                }
                return Err(DecodeError::Shape);
            },
        };
        match parse_rule(node) {
            Ok(b) => {
                out.push(b);
            },
            Err(e) => {
                proof {
                    lemma_rules_stay_none(edges@, i as int + 1);
                }
                return Err(e);
            },
        }
        assert(out@.map_values(|b: BranchProtection| rule_view(b)) =~= rules_of(edges@.subrange(0, i + 1)).unwrap());
        i = i + 1;
    }
    assert(edges@.subrange(0, i as int) =~= edges@);
    Ok(out)
}

proof fn lemma_rules_stay_none(edges: Seq<Json>, k: int)
    requires
        0 < k <= edges.len(),
        rules_of(edges.subrange(0, k)) is None,
    ensures
        rules_of(edges) is None,
    decreases edges.len() - k,
{
    if k < edges.len() {
        assert(edges.subrange(0, k + 1).drop_last() =~= edges.subrange(0, k));
        lemma_rules_stay_none(edges, k + 1);
    } else {
        assert(edges.subrange(0, k) =~= edges);
    }
}

} // verus!

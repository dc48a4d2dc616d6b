use vstd::prelude::*;
use crate::model::{Collaborator, Permissions, Team};

verus! {

/// The label of a collaborator: the first set flag among admin, maintain,
/// push (as "write") and triage, in that order; none when all four are clear.
pub open spec fn collaborator_label(p: Permissions) -> Option<Seq<char>> {
    if p.admin {
        Some("admin"@)
    } else if p.maintain {
        Some("maintain"@)
    } else if p.push {
        Some("write"@)
    } else if p.triage {
        Some("triage"@)
    } else {
        None
    }
}

/// The label of a team: "push" is a synonym of "write", all else passes through.
pub open spec fn team_label(raw: Seq<char>) -> Seq<char> {
    if raw == "push"@ {
        "write"@
    } else {
        raw
    }
}

/// Maps a collaborator's flags to its label, or `None` for a pull-only grant.
pub fn collaborator_permission(p: &Permissions) -> (r: Option<String>)
    ensures
        r matches Some(s) ==> collaborator_label(*p) == Some(s@),
        r is None <==> collaborator_label(*p) is None,
{
    if p.admin {
        Some(String::from_str("admin"))
    } else if p.maintain {
        Some(String::from_str("maintain"))
    } else if p.push {
        Some(String::from_str("write"))
    } else if p.triage {
        Some(String::from_str("triage"))
    } else {
        None
    }
}

/// Maps a team's raw permission to its label.
pub fn team_permission(raw: &String) -> (r: String)
    ensures
        r@ == team_label(raw@),
{
    let push = String::from_str("push");
    if *raw == push {
        String::from_str("write")
    } else {
        raw.clone()
    }
}

/// The (name, label) pair of a collaborator, or `None` for a pull-only grant.
pub fn individual_entry(c: &Collaborator) -> (r: Option<(String, String)>)
    ensures
        r matches Some(e) ==> e.0@ == c.name@ && collaborator_label(c.permissions) == Some(e.1@),
        r is None <==> collaborator_label(c.permissions) is None,
{
    match collaborator_permission(&c.permissions) {
        Some(label) => Some((c.name.clone(), label)),
        None => None,
    }
}

/// The (name, label) pair of a team.
pub fn team_entry(t: &Team) -> (r: (String, String))
    ensures
        r.0@ == t.name@,
        r.1@ == team_label(t.permission@),
{
    (t.name.clone(), team_permission(&t.permission))
}

} // verus!

use vstd::prelude::*;
use crate::installs::InstallationMap;
use crate::model::{BranchProtection, Collaborator, Repo, Team};

verus! {

/// Why the data fetched for a repository cannot be used.
#[derive(Debug, Clone, Copy, PartialEq, Eq, Structural)]
pub enum FetchError {
    /// A team's permission is not one of the known words; its index is given.
    UnknownTeamPermission(usize),
    /// A team has the name of an earlier one; its index is given.
    DuplicateTeam(usize),
    /// A collaborator has the name of an earlier one; its index is given.
    DuplicateCollaborator(usize),
}

/// The permission words a team grant may carry ("push" being the service's
/// name for write).
pub open spec fn known_permission(p: Seq<char>) -> bool {
    p == "read"@ || p == "triage"@ || p == "write"@ || p == "push"@ || p == "maintain"@ || p
        == "admin"@
}

pub open spec fn all_known(ts: Seq<Team>) -> bool {
    forall|i: int| 0 <= i < ts.len() ==> known_permission(#[trigger] ts[i].permission@)
}

/// Whether the team at `k` has the name of an earlier one.
pub open spec fn team_repeats(ts: Seq<Team>, k: int) -> bool {
    exists|j: int| 0 <= j < k && (#[trigger] ts[j]).name@ == ts[k].name@
}

/// Whether the collaborator at `k` has the name of an earlier one.
pub open spec fn collaborator_repeats(cs: Seq<Collaborator>, k: int) -> bool {
    exists|j: int| 0 <= j < k && (#[trigger] cs[j]).name@ == cs[k].name@
}

pub open spec fn team_names_unique(ts: Seq<Team>) -> bool {
    forall|i: int, j: int| 0 <= i < j < ts.len() ==> (#[trigger] ts[i]).name@ != (#[trigger] ts[j]).name@
}

pub open spec fn collaborator_names_unique(cs: Seq<Collaborator>) -> bool {
    forall|i: int, j: int| 0 <= i < j < cs.len() ==> (#[trigger] cs[i]).name@ != (#[trigger] cs[j]).name@
}

pub fn is_known_permission(p: &String) -> (r: bool)
    ensures
        r == known_permission(p@),
{
    *p == String::from_str("read") || *p == String::from_str("triage") || *p
        == String::from_str("write") || *p == String::from_str("push") || *p == String::from_str(
        "maintain",
    ) || *p == String::from_str("admin")
}

fn team_named_before(ts: &Vec<Team>, k: usize) -> (r: bool)
    requires
        k < ts@.len(),
    ensures
        r == team_repeats(ts@, k as int),
{
    let mut j: usize = 0;
    while j < k
        invariant
            k < ts@.len(),
            j <= k,
            forall|i: int| 0 <= i < j ==> (#[trigger] ts@[i]).name@ != ts@[k as int].name@,
        decreases k - j,
    {
        if ts[j].name == ts[k].name {
            return true;
        }
        j = j + 1;
    }
    false
}

fn collaborator_named_before(cs: &Vec<Collaborator>, k: usize) -> (r: bool)
    requires
        k < cs@.len(),
    ensures
        r == collaborator_repeats(cs@, k as int),
{
    let mut j: usize = 0;
    while j < k
        invariant
            k < cs@.len(),
            j <= k,
            forall|i: int| 0 <= i < j ==> (#[trigger] cs@[i]).name@ != cs@[k as int].name@,
        decreases k - j,
    {
        if cs[j].name == cs[k].name {
            return true;
        }
        j = j + 1;
    }
    false
}

/// Assembles the record of one repository from what was fetched for it, with
/// the installations that reach it. Every team permission must be a known
/// word, and team names and collaborator names must each be unique; teams are
/// checked first, in order, then collaborators.
pub fn assemble(
    name: String,
    archived: bool,
    private: bool,
    teams: Vec<Team>,
    collaborators: Vec<Collaborator>,
    branch_protections: Vec<BranchProtection>,
    map: &InstallationMap,
) -> (r: Result<Repo, FetchError>)
    requires
        map.wf(),
    ensures
        r is Ok <==> all_known(teams@) && team_names_unique(teams@) && collaborator_names_unique(
            collaborators@,
        ),
        r matches Err(FetchError::UnknownTeamPermission(k)) ==> k < teams@.len()
            && !known_permission(teams@[k as int].permission@),
        r matches Err(FetchError::DuplicateTeam(k)) ==> k < teams@.len() && team_repeats(
            teams@,
            k as int,
        ),
        r matches Err(FetchError::DuplicateCollaborator(k)) ==> k < collaborators@.len()
            && collaborator_repeats(collaborators@, k as int),
        r matches Ok(repo) ==> {
            &&& repo.name == name
            &&& repo.archived == archived
            &&& repo.private == private
            &&& repo.teams == teams
            &&& repo.collaborators == collaborators
            &&& repo.branch_protections == branch_protections
            &&& repo.installations@ == map.spec_lookup(name@)
        },
{
    let mut i: usize = 0;
    while i < teams.len()
        invariant
            i <= teams@.len(),
            forall|k: int| 0 <= k < i ==> known_permission(#[trigger] teams@[k].permission@),
            forall|a: int, b: int| 0 <= a < b < i ==> (#[trigger] teams@[a]).name@ != (#[trigger] teams@[b]).name@,
        decreases teams.len() - i,
    {
        if !is_known_permission(&teams[i].permission) {
            return Err(FetchError::UnknownTeamPermission(i));
        }
        if team_named_before(&teams, i) {
            proof {
                let j = choose|j: int| 0 <= j < i && (#[trigger] teams@[j]).name@ == teams@[i as int].name@;
                assert(teams@[j].name@ == teams@[i as int].name@);
            }
            return Err(FetchError::DuplicateTeam(i));
        }
        i = i + 1;
    }
    let mut c: usize = 0;
    while c < collaborators.len()
        invariant
            i == teams@.len(),
            all_known(teams@),
            team_names_unique(teams@),
            c <= collaborators@.len(),
            forall|a: int, b: int| 0 <= a < b < c ==> (#[trigger] collaborators@[a]).name@ != (#[trigger] collaborators@[b]).name@,
        decreases collaborators.len() - c,
    {
        if collaborator_named_before(&collaborators, c) {
            proof {
                let j = choose|j: int| 0 <= j < c && (#[trigger] collaborators@[j]).name@ == collaborators@[c as int].name@;
                assert(collaborators@[j].name@ == collaborators@[c as int].name@);
            }
            return Err(FetchError::DuplicateCollaborator(c));
        }
        c = c + 1;
    }
    let installations = map.lookup(&name);
    Ok(Repo { name, teams, collaborators, branch_protections, archived, private, installations })
}

} // verus!

use vstd::prelude::*;
use crate::assemble::{collaborator_names_unique, team_names_unique};
use crate::model::{Collaborator, Repo, Team};
use crate::permission::{collaborator_label, individual_entry, team_entry, team_label};

verus! {

/// The access block of an entry: team and individual grants as (name, label).
/// Names are unique within each list when the record's names are, as
/// `assemble` ensures.
#[derive(Debug)]
pub struct AccessEntry {
    pub teams: Vec<(String, String)>,
    pub individuals: Vec<(String, String)>,
}

/// A generated access-policy entry for one repository.
#[derive(Debug)]
pub struct RepoEntry {
    pub org: String,
    pub name: String,
    pub description: String,
    pub bots: Vec<String>,
    pub access: AccessEntry,
}

pub open spec fn pairs_view(v: Seq<(String, String)>) -> Seq<(Seq<char>, Seq<char>)> {
    v.map_values(|p: (String, String)| (p.0@, p.1@))
}

/// Each team with its label, in order.
pub open spec fn team_pairs(ts: Seq<Team>) -> Seq<(Seq<char>, Seq<char>)> {
    ts.map_values(|t: Team| (t.name@, team_label(t.permission@)))
}

/// Each collaborator that has a label, with it, in order.
pub open spec fn individual_pairs(cs: Seq<Collaborator>) -> Seq<(Seq<char>, Seq<char>)>
    decreases cs.len(),
{
    if cs.len() == 0 {
        Seq::empty()
    } else {
        let rest = individual_pairs(cs.drop_last());
        match collaborator_label(cs.last().permissions) {
            Some(l) => rest.push((cs.last().name@, l)),
            None => rest,
        }
    }
}

/// No two grants have the same name.
pub open spec fn keys_unique(ps: Seq<(Seq<char>, Seq<char>)>) -> bool {
    forall|i: int, j: int| 0 <= i < j < ps.len() ==> (#[trigger] ps[i]).0 != (#[trigger] ps[j]).0
}

/// Each individual grant is named after one of the collaborators.
pub proof fn lemma_individual_keys_from(cs: Seq<Collaborator>)
    ensures
        forall|i: int|
            0 <= i < individual_pairs(cs).len() ==> exists|k: int|
                0 <= k < cs.len() && (#[trigger] cs[k]).name@ == (#[trigger] individual_pairs(
                    cs,
                )[i]).0,
    decreases cs.len(),
{
    if cs.len() > 0 {
        let d = cs.drop_last();
        lemma_individual_keys_from(d);
        assert forall|i: int| 0 <= i < individual_pairs(cs).len() implies exists|k: int|
            0 <= k < cs.len() && (#[trigger] cs[k]).name@ == (#[trigger] individual_pairs(
                cs,
            )[i]).0 by {
            if i < individual_pairs(d).len() {
                let k = choose|k: int|
                    0 <= k < d.len() && (#[trigger] d[k]).name@ == individual_pairs(d)[i].0;
                assert(cs[k] == d[k]);
            } else {
                assert(cs[cs.len() - 1].name@ == individual_pairs(cs)[i].0);
            }
        }
    }
}

/// Collaborators with unique names give individual grants with unique names.
pub proof fn lemma_individual_keys_unique(cs: Seq<Collaborator>)
    requires
        collaborator_names_unique(cs),
    ensures
        keys_unique(individual_pairs(cs)),
    decreases cs.len(),
{
    if cs.len() > 0 {
        let d = cs.drop_last();
        assert forall|a: int, b: int| 0 <= a < b < d.len() implies (#[trigger] d[a]).name@ != (
        #[trigger] d[b]).name@ by {
            assert(cs[a] == d[a] && cs[b] == d[b]);
        }
        lemma_individual_keys_unique(d);
        lemma_individual_keys_from(d);
        let p = individual_pairs(cs);
        let q = individual_pairs(d);
        assert forall|i: int, j: int| 0 <= i < j < p.len() implies (#[trigger] p[i]).0 != (
        #[trigger] p[j]).0 by {
            if j >= q.len() {
                let k = choose|k: int| 0 <= k < d.len() && (#[trigger] d[k]).name@ == q[i].0;
                assert(cs[k] == d[k]);
                assert(p[j].0 == cs[cs.len() - 1].name@);
            }
        }
    }
}

/// The team grants of a repository, labelled.
pub fn team_grants(ts: &Vec<Team>) -> (r: Vec<(String, String)>)
    ensures
        pairs_view(r@) == team_pairs(ts@),
{
    let mut r: Vec<(String, String)> = Vec::new();
    let mut i: usize = 0;
    while i < ts.len()
        invariant
            i <= ts.len(),
            r@.len() == i,
            pairs_view(r@) == team_pairs(ts@.subrange(0, i as int)),
        decreases ts.len() - i,
    {
        let e = team_entry(&ts[i]);
        let ghost prev = r@;
        r.push(e);
        assert forall|k: int| 0 <= k <= i implies pairs_view(r@)[k] == team_pairs(
            ts@.subrange(0, i + 1),
        )[k] by {
            if k < i {
                assert(r@[k] == prev[k]);
                assert(pairs_view(prev)[k] == team_pairs(ts@.subrange(0, i as int))[k]);
            }
        }
        assert(pairs_view(r@) =~= team_pairs(ts@.subrange(0, i + 1)));
        i = i + 1;
    }
    assert(ts@.subrange(0, i as int) =~= ts@);
    r
}

/// The individual grants of a repository, labelled; pull-only ones are left out.
pub fn individual_grants(cs: &Vec<Collaborator>) -> (r: Vec<(String, String)>)
    ensures
        pairs_view(r@) == individual_pairs(cs@),
{
    let mut r: Vec<(String, String)> = Vec::new();
    let mut i: usize = 0;
    assert(cs@.subrange(0, 0) =~= Seq::<Collaborator>::empty());
    while i < cs.len()
        invariant
            i <= cs.len(),
            pairs_view(r@) == individual_pairs(cs@.subrange(0, i as int)),
        decreases cs.len() - i,
    {
        assert(cs@.subrange(0, i + 1).drop_last() =~= cs@.subrange(0, i as int));
        match individual_entry(&cs[i]) {
            Some(e) => {
                r.push(e);
            },
            None => {},
        }
        assert(pairs_view(r@) =~= individual_pairs(cs@.subrange(0, i + 1)));
        i = i + 1;
    }
    assert(cs@.subrange(0, i as int) =~= cs@);
    r
}

/// The entry generated for a repository of `org`: an empty description, no
/// bots, every team and every labelled collaborator.
pub fn entry_for(org: &String, repo: &Repo) -> (e: RepoEntry)
    ensures
        e.org@ == org@,
        e.name@ == repo.name@,
        e.description@.len() == 0,
        e.bots@.len() == 0,
        pairs_view(e.access.teams@) == team_pairs(repo.teams@),
        pairs_view(e.access.individuals@) == individual_pairs(repo.collaborators@),
        team_names_unique(repo.teams@) ==> keys_unique(pairs_view(e.access.teams@)),
        collaborator_names_unique(repo.collaborators@) ==> keys_unique(
            pairs_view(e.access.individuals@),
        ),
{
    let teams = team_grants(&repo.teams);
    let individuals = individual_grants(&repo.collaborators);
    proof {
        if team_names_unique(repo.teams@) {
            let p = pairs_view(teams@);
            assert forall|i: int, j: int| 0 <= i < j < p.len() implies (#[trigger] p[i]).0 != (
            #[trigger] p[j]).0 by {
                assert(p[i] == team_pairs(repo.teams@)[i]);
                assert(p[j] == team_pairs(repo.teams@)[j]);
                assert(repo.teams@[i].name@ != repo.teams@[j].name@);
            }
        }
        if collaborator_names_unique(repo.collaborators@) {
            lemma_individual_keys_unique(repo.collaborators@);
        }
    }
    RepoEntry {
        org: org.clone(),
        name: repo.name.clone(),
        description: String::new(),
        bots: Vec::new(),
        access: AccessEntry { teams, individuals },
    }
}

} // verus!

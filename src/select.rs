use vstd::prelude::*;
use vstd::multiset::Multiset;
use vstd::seq_lib::to_multiset_build;
use crate::model::Repo;
use crate::order::{
    ActiveRepo,
    before,
    is_ordered,
    lemma_name_lt_total,
    name_lt,
    order_by_activity,
};

verus! {

/// What becomes of one repository in a run.
#[derive(Debug, Clone, Copy, PartialEq, Eq, Structural)]
pub enum Verdict {
    /// An entry is generated for it.
    Eligible,
    /// An entry already exists under version control; it is left alone.
    Managed,
    /// It is archived; it is skipped without a diagnostic.
    Archived,
    /// It has no commit on its default branch within the trailing window.
    Inactive,
    /// It has no team grant.
    NoTeams,
}

/// A repository as the filters see it: whether an entry for it is already
/// managed, and the author date of its most recent commit within the trailing
/// window, if it has one.
#[derive(Debug)]
pub struct Candidate {
    pub repo: Repo,
    pub managed: bool,
    pub last_commit: Option<i64>,
}

/// The verdict on a candidate; the checks are made in this order.
pub open spec fn verdict_of(c: Candidate) -> Verdict {
    if c.managed {
        Verdict::Managed
    } else if c.repo.archived {
        Verdict::Archived
    } else if c.last_commit is None {
        Verdict::Inactive
    } else if c.repo.teams@.len() == 0 {
        Verdict::NoTeams
    } else {
        Verdict::Eligible
    }
}

/// The active repositories that a list of candidates yields, counted with
/// multiplicity.
pub open spec fn selected(s: Seq<Candidate>) -> Multiset<ActiveRepo>
    decreases s.len(),
{
    if s.len() == 0 {
        Multiset::empty()
    } else {
        let c = s.last();
        let rest = selected(s.drop_last());
        if verdict_of(c) == Verdict::Eligible {
            rest.insert(ActiveRepo { repo: c.repo, last_commit: c.last_commit.unwrap() })
        } else {
            rest
        }
    }
}

impl Verdict {
    /// Whether the verdict is reported with a diagnostic naming the repository.
    pub fn is_reported(&self) -> (r: bool)
        ensures
            r <==> (*self == Verdict::Inactive || *self == Verdict::NoTeams),
    {
        match self {
            Verdict::Inactive | Verdict::NoTeams => true,
            _ => false,
        }
    }
}

/// Whether the trailing-window commit history of a repository is needed to
/// decide on it: not for a managed or archived one.
pub fn needs_activity(managed: bool, archived: bool) -> (r: bool)
    ensures
        r <==> !managed && !archived,
{
    !managed && !archived
}

/// Decides on one candidate: managed, then archived, then inactive, then
/// without teams; eligible otherwise.
pub fn classify(c: &Candidate) -> (v: Verdict)
    ensures
        v == verdict_of(*c),
{
    if c.managed {
        Verdict::Managed
    } else if c.repo.archived {
        Verdict::Archived
    } else if c.last_commit.is_none() {
        Verdict::Inactive
    } else if c.repo.teams.len() == 0 {
        Verdict::NoTeams
    } else {
        Verdict::Eligible
    }
}

/// Keeps the eligible candidates and orders them by most recent commit first,
/// then by name.
pub fn select(cands: Vec<Candidate>) -> (r: Vec<ActiveRepo>)
    ensures
        is_ordered(r@),
        r@.to_multiset() == selected(cands@),
{
    let mut cands = cands;
    let ghost orig = cands@;
    let mut picked: Vec<ActiveRepo> = Vec::new();
    proof {
        broadcast use vstd::seq_lib::group_to_multiset_ensures;
        broadcast use vstd::multiset::lemma_multiset_empty_len;

        assert(picked@.to_multiset() =~= Multiset::empty());
    }
    while cands.len() > 0
        invariant
            picked@.to_multiset().add(selected(cands@)) == selected(orig),
        decreases cands.len(),
    {
        let ghost prev = cands@;
        let c = cands.pop().unwrap();
        assert(prev.drop_last() =~= cands@);
        let v = classify(&c);
        if v == Verdict::Eligible {
            let Candidate { repo, managed, last_commit } = c;
            let t = last_commit.unwrap();
            let a = ActiveRepo { repo, last_commit: t };
            let ghost p = picked@;
            picked.push(a);
            proof {
                to_multiset_build(p, a);
            }
        }
        assert(picked@.to_multiset().add(selected(cands@)) =~= selected(orig));
    }
    proof {
        assert(selected(cands@) =~= Multiset::empty());
        assert(picked@.to_multiset() =~= selected(orig));
    }
    order_by_activity(picked)
}

/// Candidates that are all managed yield no active repository.
pub proof fn lemma_all_managed_selects_nothing(s: Seq<Candidate>)
    requires
        forall|i: int| 0 <= i < s.len() ==> (#[trigger] s[i]).managed,
    ensures
        selected(s) =~= Multiset::empty(),
    decreases s.len(),
{
    if s.len() > 0 {
        lemma_all_managed_selects_nothing(s.drop_last());
    }
}

/// Once every candidate's entry is under version control, as after a run that
/// wrote them all, a run on the same repositories yields nothing to write.
pub proof fn lemma_rerun_writes_nothing(cands: Seq<Candidate>, out: Seq<ActiveRepo>)
    requires
        forall|i: int| 0 <= i < cands.len() ==> (#[trigger] cands[i]).managed,
        out.to_multiset() == selected(cands),
    ensures
        out.len() == 0,
{
    broadcast use vstd::seq_lib::group_to_multiset_ensures;

    lemma_all_managed_selects_nothing(cands);
    assert(out.to_multiset().len() == 0);
}

/// In an ordered sequence, two active repositories with the same last-commit
/// date and different names stand in ascending order of name.
pub proof fn lemma_ties_by_name(s: Seq<ActiveRepo>, i: int, j: int)
    requires
        is_ordered(s),
        0 <= i < j < s.len(),
        s[i].last_commit == s[j].last_commit,
        s[i].repo.name@ != s[j].repo.name@,
    ensures
        name_lt(s[i].repo.name@, s[j].repo.name@),
{
    lemma_name_lt_total(s[i].repo.name@, s[j].repo.name@);
    assert(!before(s[j], s[i]));
}

} // verus!

use vstd::prelude::*;
use crate::model::OrgAppInstallation;

verus! {

/// The organization's App installations, each with the names of the
/// repositories it can access. Built once per run and only read after.
pub struct InstallationMap {
    pub installations: Vec<OrgAppInstallation>,
    pub repositories: Vec<Vec<String>>,
}

/// Whether `name` stands in `names`.
pub open spec fn lists(names: Seq<String>, name: Seq<char>) -> bool {
    exists|k: int| 0 <= k < names.len() && (#[trigger] names[k])@ == name
}

/// Whether `name` stands in `names`.
pub fn names_contain(names: &Vec<String>, name: &String) -> (r: bool)
    ensures
        r == lists(names@, name@),
{
    let mut i: usize = 0;
    while i < names.len()
        invariant
            i <= names@.len(),
            forall|k: int| 0 <= k < i ==> (#[trigger] names@[k])@ != name@,
        decreases names.len() - i,
    {
        if names[i] == *name {
            return true;
        }
        i = i + 1;
    }
    false
}

/// The installations whose lists name the repository `name`, each once, in
/// the order of the installations.
pub open spec fn grants(
    insts: Seq<OrgAppInstallation>,
    repos: Seq<Vec<String>>,
    name: Seq<char>,
) -> Seq<OrgAppInstallation>
    decreases insts.len(),
{
    if insts.len() == 0 || repos.len() == 0 {
        Seq::empty()
    } else {
        let rest = grants(insts.drop_last(), repos.drop_last(), name);
        if lists(repos.last()@, name) {
            rest.push(insts.last())
        } else {
            rest
        }
    }
}

impl InstallationMap {
    pub open spec fn wf(&self) -> bool {
        self.installations@.len() == self.repositories@.len()
    }

    /// The installations that reach the repository `name`.
    pub open spec fn spec_lookup(&self, name: Seq<char>) -> Seq<OrgAppInstallation> {
        grants(self.installations@, self.repositories@, name)
    }

    /// Pairs each installation with the repository names it can access.
    pub fn new(installations: Vec<OrgAppInstallation>, repositories: Vec<Vec<String>>) -> (m:
        Self)
        requires
            installations@.len() == repositories@.len(),
        ensures
            m.wf(),
            m.installations@ == installations@,
            m.repositories@ == repositories@,
    {
        InstallationMap { installations, repositories }
    }

    /// The installations that reach the repository `name`, in order.
    pub fn lookup(&self, name: &String) -> (r: Vec<OrgAppInstallation>)
        requires
            self.wf(),
        ensures
            r@ == self.spec_lookup(name@),
    {
        let mut r: Vec<OrgAppInstallation> = Vec::new();
        let mut i: usize = 0;
        while i < self.installations.len()
            invariant
                self.wf(),
                i <= self.installations@.len(),
                r@ == grants(
                    self.installations@.subrange(0, i as int),
                    self.repositories@.subrange(0, i as int),
                    name@,
                ),
            decreases self.installations.len() - i,
        {
            if names_contain(&self.repositories[i], name) {
                r.push(self.installations[i].clone());
            }
            proof {
                let a = self.installations@.subrange(0, i + 1);
                let b = self.repositories@.subrange(0, i + 1);
                assert(a.drop_last() =~= self.installations@.subrange(0, i as int));
                assert(b.drop_last() =~= self.repositories@.subrange(0, i as int));
            }
            i = i + 1;
        }
        assert(self.installations@.subrange(0, i as int) =~= self.installations@);
        assert(self.repositories@.subrange(0, i as int) =~= self.repositories@);
        r
    }
}

} // verus!

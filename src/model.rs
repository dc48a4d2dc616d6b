use vstd::prelude::*;

verus! {

/// A GitHub App installation of the organization.
#[derive(Debug)]
pub struct OrgAppInstallation {
    pub installation_id: u64,
    pub app_id: u64,
    pub app_slug: String,
}

impl Clone for OrgAppInstallation {
    fn clone(&self) -> (r: Self)
        ensures
            r == *self,
    {
        OrgAppInstallation {
            installation_id: self.installation_id,
            app_id: self.app_id,
            app_slug: self.app_slug.clone(),
        }
    }
}

/// A team's grant on a repository, with the permission as the service reports it.
#[derive(Debug)]
pub struct Team {
    pub name: String,
    pub permission: String,
}

/// The permission flags of a collaborator, as the service reports them.
#[derive(Debug, Clone, Copy, PartialEq, Eq, Structural)]
pub struct Permissions {
    pub admin: bool,
    pub maintain: bool,
    pub push: bool,
    pub triage: bool,
    pub pull: bool,
}

/// An individual collaborator's grant on a repository.
#[derive(Debug)]
pub struct Collaborator {
    pub name: String,
    pub permissions: Permissions,
}

/// One branch-protection rule of a repository.
#[derive(Debug)]
pub struct BranchProtection {
    pub pattern: String,
    pub status_checks: Vec<String>,
    pub dismiss_stale_review: bool,
    pub pr_required: bool,
    pub required_approvals: i64,
    pub push_allowances: Vec<String>,
    pub restrict_pushes: bool,
}

/// Everything fetched about one repository in a run.
#[derive(Debug)]
pub struct Repo {
    pub name: String,
    pub teams: Vec<Team>,
    pub collaborators: Vec<Collaborator>,
    pub branch_protections: Vec<BranchProtection>,
    pub archived: bool,
    pub private: bool,
    pub installations: Vec<OrgAppInstallation>,
}

} // verus!

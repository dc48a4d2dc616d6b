use backfill::assemble::{assemble, FetchError};
use backfill::entry::{entry_for, individual_grants, team_grants};
use backfill::installs::InstallationMap;
use backfill::model::{Collaborator, OrgAppInstallation, Permissions, Repo, Team};
use backfill::order::{name_less, order_by_activity, ActiveRepo};
use backfill::paginate::{collect_pages, Paginator};
use backfill::permission::{collaborator_permission, team_permission};
use backfill::select::{classify, needs_activity, select, Candidate, Verdict};

const JAN_10_2024: i64 = 1704844800;
const JAN_05_2024: i64 = 1704412800;

fn perms(admin: bool, maintain: bool, push: bool, triage: bool, pull: bool) -> Permissions {
    Permissions { admin, maintain, push, triage, pull }
}

fn team(name: &str, permission: &str) -> Team {
    Team { name: name.to_string(), permission: permission.to_string() }
}

fn collaborator(name: &str, permissions: Permissions) -> Collaborator {
    Collaborator { name: name.to_string(), permissions }
}

fn repo(name: &str, archived: bool, teams: Vec<Team>) -> Repo {
    Repo {
        name: name.to_string(),
        teams,
        collaborators: vec![],
        branch_protections: vec![],
        archived,
        private: false,
        installations: vec![],
    }
}

fn candidate(r: Repo, managed: bool, last_commit: Option<i64>) -> Candidate {
    Candidate { repo: r, managed, last_commit }
}

fn names(v: &[ActiveRepo]) -> Vec<String> {
    v.iter().map(|a| a.repo.name.clone()).collect()
}

fn install(id: u64, slug: &str) -> OrgAppInstallation {
    OrgAppInstallation { installation_id: id, app_id: id + 100, app_slug: slug.to_string() }
}

#[test]
fn pages_are_joined_in_order() {
    let pages = vec![vec![1, 2, 3], vec![4, 5, 6], vec![7]];
    assert_eq!(collect_pages(pages), vec![1, 2, 3, 4, 5, 6, 7]);
}

#[test]
fn any_page_size_gives_every_item() {
    let items: Vec<u32> = (0..23).collect();
    for size in 1..30 {
        let pages: Vec<Vec<u32>> = items.chunks(size).map(|c| c.to_vec()).collect();
        let got = collect_pages(pages);
        assert_eq!(got.len(), 23);
        assert_eq!(got, items);
    }
}

#[test]
fn no_pages_gives_nothing() {
    let got: Vec<u8> = collect_pages(vec![]);
    assert!(got.is_empty());
}

#[test]
fn paginator_asks_until_last_page() {
    let mut p: Paginator<&str> = Paginator::new();
    assert_eq!(p.next_page(), Some(0));
    p.receive(vec!["a", "b"], true);
    assert_eq!(p.next_page(), Some(1));
    p.receive(vec!["c"], false);
    assert_eq!(p.next_page(), None);
    assert_eq!(p.finish(), vec!["a", "b", "c"]);
}

#[test]
fn maintain_wins_over_push() {
    let r = collaborator_permission(&perms(false, true, true, false, false));
    assert_eq!(r.as_deref(), Some("maintain"));
}

#[test]
fn push_wins_over_triage() {
    let r = collaborator_permission(&perms(false, false, true, true, false));
    assert_eq!(r.as_deref(), Some("write"));
}

#[test]
fn admin_wins_over_everything() {
    let r = collaborator_permission(&perms(true, true, true, true, true));
    assert_eq!(r.as_deref(), Some("admin"));
}

#[test]
fn triage_alone_is_triage() {
    let r = collaborator_permission(&perms(false, false, false, true, true));
    assert_eq!(r.as_deref(), Some("triage"));
}

#[test]
fn no_flags_is_omitted() {
    assert_eq!(collaborator_permission(&perms(false, false, false, false, false)), None);
    assert_eq!(collaborator_permission(&perms(false, false, false, false, true)), None);
}

#[test]
fn individuals_leave_out_pull_only() {
    let cs = vec![
        collaborator("alice", perms(false, true, true, false, true)),
        collaborator("bob", perms(false, false, false, false, true)),
        collaborator("carol", perms(false, false, true, true, true)),
    ];
    let got = individual_grants(&cs);
    assert_eq!(
        got,
        vec![
            ("alice".to_string(), "maintain".to_string()),
            ("carol".to_string(), "write".to_string()),
        ]
    );
}

#[test]
fn team_push_is_write() {
    assert_eq!(team_permission(&"push".to_string()), "write");
}

#[test]
fn team_maintain_unchanged() {
    assert_eq!(team_permission(&"maintain".to_string()), "maintain");
    assert_eq!(team_permission(&"pull".to_string()), "pull");
}

#[test]
fn team_grants_are_labelled() {
    let ts = vec![team("infra", "push"), team("leads", "admin")];
    assert_eq!(
        team_grants(&ts),
        vec![
            ("infra".to_string(), "write".to_string()),
            ("leads".to_string(), "admin".to_string()),
        ]
    );
}

#[test]
fn inactive_repo_is_excluded() {
    let c = candidate(repo("quiet", false, vec![team("t", "push")]), false, None);
    assert_eq!(classify(&c), Verdict::Inactive);
    assert!(classify(&c).is_reported());
    assert!(select(vec![c]).is_empty());
}

#[test]
fn repo_without_teams_is_excluded() {
    let c = candidate(repo("lonely", false, vec![]), false, Some(JAN_05_2024));
    assert_eq!(classify(&c), Verdict::NoTeams);
    assert!(classify(&c).is_reported());
    assert!(select(vec![c]).is_empty());
}

#[test]
fn active_repo_with_teams_is_included() {
    let c = candidate(repo("busy", false, vec![team("t", "push")]), false, Some(JAN_05_2024));
    assert_eq!(classify(&c), Verdict::Eligible);
    assert_eq!(names(&select(vec![c])), vec!["busy"]);
}

#[test]
fn archived_and_managed_are_silent() {
    let a = candidate(repo("old", true, vec![team("t", "push")]), false, Some(1));
    let m = candidate(repo("kept", false, vec![team("t", "push")]), true, Some(1));
    assert_eq!(classify(&a), Verdict::Archived);
    assert_eq!(classify(&m), Verdict::Managed);
    assert!(!classify(&a).is_reported());
    assert!(!classify(&m).is_reported());
    assert!(!needs_activity(true, false));
    assert!(!needs_activity(false, true));
    assert!(needs_activity(false, false));
}

#[test]
fn second_run_writes_nothing() {
    let first = vec![
        candidate(repo("a", false, vec![team("t", "push")]), false, Some(3)),
        candidate(repo("b", false, vec![team("t", "pull")]), false, Some(5)),
    ];
    assert_eq!(names(&select(first)), vec!["b", "a"]);
    let second = vec![
        candidate(repo("a", false, vec![team("t", "push")]), true, Some(3)),
        candidate(repo("b", false, vec![team("t", "pull")]), true, Some(5)),
    ];
    assert!(select(second).is_empty());
}

#[test]
fn equal_dates_order_by_name() {
    let v = vec![
        ActiveRepo { repo: repo("zeta", false, vec![]), last_commit: 10 },
        ActiveRepo { repo: repo("alpha", false, vec![]), last_commit: 10 },
        ActiveRepo { repo: repo("mid", false, vec![]), last_commit: 20 },
        ActiveRepo { repo: repo("beta", false, vec![]), last_commit: 10 },
    ];
    assert_eq!(names(&order_by_activity(v)), vec!["mid", "alpha", "beta", "zeta"]);
}

#[test]
fn names_compare_lexicographically() {
    let s = |x: &str| x.to_string();
    assert!(name_less(&s("abc"), &s("abd")));
    assert!(name_less(&s("ab"), &s("abc")));
    assert!(!name_less(&s("abc"), &s("ab")));
    assert!(!name_less(&s("same"), &s("same")));
    assert!(name_less(&s(""), &s("a")));
    assert!(name_less(&s("Zed"), &s("alpha")));
}

#[test]
fn installations_are_looked_up_by_repository() {
    let map = InstallationMap::new(
        vec![install(1, "bot-one"), install(2, "bot-two")],
        vec![
            vec!["a".to_string(), "b".to_string()],
            vec!["b".to_string(), "b".to_string()],
        ],
    );
    let b = map.lookup(&"b".to_string());
    assert_eq!(b.len(), 2);
    assert_eq!(b[0].app_slug, "bot-one");
    assert_eq!(b[1].installation_id, 2);
    assert_eq!(map.lookup(&"a".to_string()).len(), 1);
    assert!(map.lookup(&"c".to_string()).is_empty());
}

#[test]
fn assemble_attaches_installations() {
    let map = InstallationMap::new(vec![install(7, "ci")], vec![vec!["r".to_string()]]);
    let r = assemble(
        "r".to_string(),
        false,
        true,
        vec![team("t", "push")],
        vec![],
        vec![],
        &map,
    )
    .unwrap();
    assert_eq!(r.installations.len(), 1);
    assert_eq!(r.installations[0].app_id, 107);
    assert!(r.private);
}

#[test]
fn assemble_rejects_unknown_team_permission() {
    let map = InstallationMap::new(vec![], vec![]);
    let r = assemble(
        "r".to_string(),
        false,
        false,
        vec![team("t", "push"), team("u", "owner")],
        vec![],
        vec![],
        &map,
    );
    assert_eq!(r.err(), Some(FetchError::UnknownTeamPermission(1)));
}

#[test]
fn end_to_end_emits_only_active_repo_with_teams() {
    let a = candidate(
        repo("A", false, vec![team("infra", "push"), team("leads", "maintain")]),
        false,
        Some(JAN_10_2024),
    );
    let b = candidate(repo("B", true, vec![team("infra", "push")]), false, None);
    let c = candidate(repo("C", false, vec![]), false, Some(JAN_05_2024));
    let cands = vec![a, b, c];
    let verdicts: Vec<Verdict> = cands.iter().map(classify).collect();
    assert_eq!(verdicts, vec![Verdict::Eligible, Verdict::Archived, Verdict::NoTeams]);
    let active = select(cands);
    assert_eq!(active.len(), 1);
    let e = entry_for(&"rust-lang".to_string(), &active[0].repo);
    assert_eq!(e.org, "rust-lang");
    assert_eq!(e.name, "A");
    assert_eq!(e.description, "");
    assert!(e.bots.is_empty());
    assert_eq!(
        e.access.teams,
        vec![
            ("infra".to_string(), "write".to_string()),
            ("leads".to_string(), "maintain".to_string()),
        ]
    );
    assert!(e.access.individuals.is_empty());
}

#[test]
fn first_record_of_each_name_is_kept() {
    let repos = vec![
        repo("b", false, vec![]),
        repo("a", false, vec![team("first", "push")]),
        repo("b", true, vec![]),
        repo("a", false, vec![]),
        repo("c", false, vec![]),
    ];
    let kept = backfill::distinct::first_of_each_name(repos);
    let names: Vec<&str> = kept.iter().map(|r| r.name.as_str()).collect();
    assert_eq!(names, vec!["b", "a", "c"]);
    assert!(!kept[0].archived);
    assert_eq!(kept[1].teams.len(), 1);
}

#[test]
fn assemble_rejects_pull_as_team_permission() {
    let map = InstallationMap::new(vec![], vec![]);
    let r = assemble("r".to_string(), false, false, vec![team("t", "pull")], vec![], vec![], &map);
    assert_eq!(r.err(), Some(FetchError::UnknownTeamPermission(0)));
}

#[test]
fn assemble_rejects_repeated_team_name() {
    let map = InstallationMap::new(vec![], vec![]);
    let teams = vec![team("t", "push"), team("u", "read"), team("t", "admin")];
    let r = assemble("r".to_string(), false, false, teams, vec![], vec![], &map);
    assert_eq!(r.err(), Some(FetchError::DuplicateTeam(2)));
}

#[test]
fn assemble_rejects_repeated_collaborator_name() {
    let map = InstallationMap::new(vec![], vec![]);
    let cs = vec![
        collaborator("ann", perms(true, false, false, false, false)),
        collaborator("ann", perms(false, false, true, false, false)),
    ];
    let r = assemble("r".to_string(), false, false, vec![team("t", "push")], cs, vec![], &map);
    assert_eq!(r.err(), Some(FetchError::DuplicateCollaborator(1)));
}

#[test]
fn installation_listing_a_name_twice_counts_once() {
    let map = InstallationMap::new(
        vec![install(3, "dup")],
        vec![vec!["x".to_string(), "x".to_string()]],
    );
    let x = map.lookup(&"x".to_string());
    assert_eq!(x.len(), 1);
    assert_eq!(x[0].installation_id, 3);
}

use gall::classify::{classify, is_marker_name, needs_validation, EntryFacts};
use gall::discover::{collect_repositories, finish_discovery, Discovery, Marker};
use gall::display::{abbreviate_home, starts_with};
use gall::kind::RepositoryKind;
use gall::prune::{plan_listing, plan_siblings, SiblingPlan};
use gall::workdir::{resolve_workdir, same_path, RepoPath};

const WT: RepositoryKind = RepositoryKind::WorkTree { linked: false };
const LINKED: RepositoryKind = RepositoryKind::WorkTree { linked: true };

fn p(s: &str) -> Vec<String> {
    s.split('/').filter(|c| !c.is_empty()).map(|c| c.to_string()).collect()
}

fn facts(name: &str, is_dir: bool, has_head: bool, has_config: bool, validated: Option<RepositoryKind>) -> EntryFacts {
    EntryFacts { name: name.to_string(), is_dir, has_head, has_config, validated }
}

/// A directory tree held in memory, for driving the per-directory decisions as a walk would.
enum Node {
    File(String),
    Dir(String, Vec<Node>),
}

fn file(name: &str) -> Node {
    Node::File(name.to_string())
}

fn dir(name: &str, children: Vec<Node>) -> Node {
    Node::Dir(name.to_string(), children)
}

fn name_of(n: &Node) -> &str {
    match n {
        Node::File(s) => s,
        Node::Dir(s, _) => s,
    }
}

fn holds_file(children: &[Node], name: &str) -> bool {
    children.iter().any(|c| matches!(c, Node::File(n) if n == name))
}

struct Walk<'a> {
    validator: &'a dyn Fn(&[String]) -> Option<RepositoryKind>,
    cancel_after: usize,
    listings: usize,
    interrupted: bool,
    markers: Vec<Marker>,
}

impl<'a> Walk<'a> {
    fn list(&mut self, dir: &[String], children: &[Node]) {
        if self.listings >= self.cancel_after {
            self.interrupted = true;
            return;
        }
        self.listings += 1;
        let cancelled = self.listings >= self.cancel_after;
        let mut sorted: Vec<&Node> = children.iter().collect();
        sorted.sort_by(|a, b| name_of(a).cmp(name_of(b)));
        let entries: Vec<EntryFacts> = sorted
            .iter()
            .map(|n| {
                let mut path = dir.to_vec();
                path.push(name_of(n).to_string());
                let (is_dir, head, config) = match n {
                    Node::File(_) => (false, false, false),
                    Node::Dir(_, c) => (true, holds_file(c, "HEAD"), holds_file(c, "config")),
                };
                let name = name_of(n).to_string();
                let validated = if needs_validation(&name, is_dir, head, config) { (self.validator)(&path) } else { None };
                facts(name_of(n), is_dir, head, config, validated)
            })
            .collect();
        let plans = plan_listing(&entries, cancelled);
        for (n, plan) in sorted.iter().zip(plans.iter()) {
            let mut path = dir.to_vec();
            path.push(name_of(n).to_string());
            if !plan.keep {
                continue;
            }
            if let Some(kind) = plan.kind {
                self.markers.push(Marker { git_dir: path.clone(), kind });
            }
            if let (true, Node::Dir(_, c)) = (plan.descend, n) {
                self.list(&path, c);
            }
        }
    }
}

fn discover(root: &[Node], validator: &dyn Fn(&[String]) -> Option<RepositoryKind>, cancel_after: usize) -> Discovery {
    let mut w = Walk { validator, cancel_after, listings: 0, interrupted: false, markers: Vec::new() };
    w.list(&p("root"), root);
    finish_discovery(&w.markers, w.interrupted)
}

fn worktrees(_: &[String]) -> Option<RepositoryKind> {
    Some(WT)
}

fn git_dir() -> Node {
    dir(".git", vec![file("HEAD"), file("config")])
}

fn paths(d: &Discovery) -> Vec<(Vec<String>, RepositoryKind)> {
    d.repositories.iter().map(|r| (r.path.clone(), r.kind)).collect()
}

#[test]
fn marker_name_is_exactly_dot_git() {
    assert!(is_marker_name(&".git".to_string()));
    assert!(!is_marker_name(&"git".to_string()));
    assert!(!is_marker_name(&".gitignore".to_string()));
    assert!(!is_marker_name(&"repo.git".to_string()));
    assert!(!is_marker_name(&String::new()));
}

#[test]
fn validation_only_for_complete_git_directories() {
    let g = ".git".to_string();
    assert!(needs_validation(&g, true, true, true));
    assert!(!needs_validation(&g, false, true, true));
    assert!(!needs_validation(&g, true, false, true));
    assert!(!needs_validation(&g, true, true, false));
    assert!(!needs_validation(&"src".to_string(), true, true, true));
}

#[test]
fn classify_ordinary_entries_as_none() {
    assert_eq!(classify(&facts("src", true, true, true, Some(WT))), None);
    assert_eq!(classify(&facts("README", false, false, false, None)), None);
}

#[test]
fn classify_git_file_as_linked_worktree() {
    assert_eq!(classify(&facts(".git", false, false, false, None)), Some(LINKED));
    assert_eq!(classify(&facts(".git", false, true, true, Some(RepositoryKind::Bare))), Some(LINKED));
}

#[test]
fn classify_incomplete_git_directory_as_none() {
    assert_eq!(classify(&facts(".git", true, false, true, Some(WT))), None);
    assert_eq!(classify(&facts(".git", true, true, false, Some(WT))), None);
    assert_eq!(classify(&facts(".git", true, false, false, None)), None);
}

#[test]
fn classify_git_directory_by_validator() {
    assert_eq!(classify(&facts(".git", true, true, true, Some(WT))), Some(WT));
    assert_eq!(classify(&facts(".git", true, true, true, Some(RepositoryKind::Bare))), Some(RepositoryKind::Bare));
    assert_eq!(classify(&facts(".git", true, true, true, None)), None);
}

#[test]
fn plan_without_markers_keeps_and_descends_all() {
    let r = plan_siblings(&vec![None, None], false);
    assert_eq!(r, vec![SiblingPlan { kind: None, keep: true, descend: true }; 2]);
}

#[test]
fn plan_with_worktree_keeps_only_marker() {
    let r = plan_siblings(&vec![Some(WT), None, None], false);
    assert_eq!(r[0], SiblingPlan { kind: Some(WT), keep: true, descend: false });
    assert_eq!(r[1], SiblingPlan { kind: None, keep: false, descend: false });
    assert_eq!(r[2], SiblingPlan { kind: None, keep: false, descend: false });
}

#[test]
fn plan_with_bare_keeps_siblings() {
    let r = plan_siblings(&vec![None, Some(WT), Some(RepositoryKind::Bare)], false);
    assert_eq!(r[0], SiblingPlan { kind: None, keep: true, descend: true });
    assert_eq!(r[1], SiblingPlan { kind: Some(WT), keep: true, descend: false });
    assert_eq!(r[2], SiblingPlan { kind: Some(RepositoryKind::Bare), keep: true, descend: false });
}

#[test]
fn plan_when_cancelled_descends_nowhere() {
    let r = plan_siblings(&vec![None, None], true);
    assert!(r.iter().all(|s| s.keep && !s.descend));
}

#[test]
fn plan_of_empty_listing_is_empty() {
    assert!(plan_siblings(&Vec::new(), false).is_empty());
    assert!(plan_listing(&Vec::new(), false).is_empty());
}

#[test]
fn plan_listing_classifies_then_prunes() {
    let entries = vec![facts(".git", false, false, false, None), facts("src", true, false, false, None)];
    let r = plan_listing(&entries, false);
    assert_eq!(r[0], SiblingPlan { kind: Some(LINKED), keep: true, descend: false });
    assert_eq!(r[1], SiblingPlan { kind: None, keep: false, descend: false });
}

#[test]
fn plan_does_not_depend_on_sibling_order() {
    let a = plan_siblings(&vec![None, Some(WT)], false);
    let b = plan_siblings(&vec![Some(WT), None], false);
    assert_eq!(a[0], b[1]);
    assert_eq!(a[1], b[0]);
}

#[test]
fn workdir_of_bare_is_itself() {
    let r = resolve_workdir(&p("srv/repo.git"), RepositoryKind::Bare);
    assert_eq!(r, p("srv/repo.git"));
}

#[test]
fn workdir_of_worktree_is_parent() {
    assert_eq!(resolve_workdir(&p("home/me/proj/.git"), WT), p("home/me/proj"));
    assert_eq!(resolve_workdir(&p("home/me/proj/.git"), LINKED), p("home/me/proj"));
}

#[test]
fn same_path_compares_components() {
    assert!(same_path(&p("a/b"), &p("a/b")));
    assert!(!same_path(&p("a/b"), &p("a/c")));
    assert!(!same_path(&p("a/b"), &p("a")));
}

#[test]
fn collect_removes_repeated_workdirs() {
    let markers = vec![
        Marker { git_dir: p("r/a/.git"), kind: WT },
        Marker { git_dir: p("r/a/.git"), kind: LINKED },
        Marker { git_dir: p("r/b"), kind: RepositoryKind::Bare },
        Marker { git_dir: p("r/b/.git"), kind: WT },
    ];
    let r = collect_repositories(&markers);
    assert_eq!(r.len(), 2);
    assert_eq!((r[0].path.clone(), r[0].kind), (p("r/a"), WT));
    assert_eq!((r[1].path.clone(), r[1].kind), (p("r/b"), RepositoryKind::Bare));
}

#[test]
fn collect_scenario_worktree_and_bare() {
    let markers = vec![
        Marker { git_dir: p("root/proj1/.git"), kind: WT },
        Marker { git_dir: p("root/proj2/repo.git"), kind: RepositoryKind::Bare },
    ];
    let d = finish_discovery(&markers, false);
    assert!(!d.interrupted);
    assert_eq!(paths(&d), vec![(p("root/proj1"), WT), (p("root/proj2/repo.git"), RepositoryKind::Bare)]);
}

#[test]
fn walk_finds_worktree_and_prunes_its_contents() {
    let tree = vec![
        dir("proj1", vec![git_dir(), dir("src", vec![git_dir()])]),
        dir("proj2", vec![dir("deep", vec![git_dir()])]),
    ];
    let d = discover(&tree, &worktrees, usize::MAX);
    assert_eq!(paths(&d), vec![(p("root/proj1"), WT), (p("root/proj2/deep"), WT)]);
}

#[test]
fn walk_of_empty_root_finds_nothing() {
    let d = discover(&[], &worktrees, usize::MAX);
    assert!(d.repositories.is_empty());
    assert!(!d.interrupted);
}

#[test]
fn walk_does_not_prune_siblings_of_bare() {
    let bare = |path: &[String]| {
        if path == p("root/a/.git").as_slice() { Some(RepositoryKind::Bare) } else { Some(WT) }
    };
    let tree = vec![
        dir("a", vec![git_dir(), dir("b", vec![file("file.txt"), git_dir()])]),
    ];
    let d = discover(&tree, &bare, usize::MAX);
    assert_eq!(paths(&d), vec![(p("root/a/.git"), RepositoryKind::Bare), (p("root/a/b"), WT)]);
}

#[test]
fn walk_does_not_report_nested_marker_of_worktree() {
    let tree = vec![dir("a", vec![git_dir(), dir("src", vec![git_dir()])])];
    let d = discover(&tree, &worktrees, usize::MAX);
    assert_eq!(paths(&d), vec![(p("root/a"), WT)]);
}

#[test]
fn walk_reports_git_file_as_linked_worktree() {
    let tree = vec![dir("a", vec![file(".git")])];
    let d = discover(&tree, &|_: &[String]| None, usize::MAX);
    assert_eq!(paths(&d), vec![(p("root/a"), LINKED)]);
}

#[test]
fn walk_skips_git_directory_rejected_by_validator() {
    let tree = vec![dir("a", vec![git_dir(), dir("b", vec![file(".git")])])];
    let d = discover(&tree, &|_: &[String]| None, usize::MAX);
    assert_eq!(paths(&d), vec![(p("root/a/b"), LINKED)]);
}

#[test]
fn walk_is_deterministic() {
    let tree = vec![
        dir("z", vec![git_dir()]),
        dir("a", vec![file(".git")]),
        dir("m", vec![dir("n", vec![git_dir()])]),
    ];
    let first = paths(&discover(&tree, &worktrees, usize::MAX));
    let second = paths(&discover(&tree, &worktrees, usize::MAX));
    assert_eq!(first, second);
    assert_eq!(first, vec![(p("root/a"), LINKED), (p("root/m/n"), WT), (p("root/z"), WT)]);
}

#[test]
fn walk_cancelled_midway_returns_partial_result() {
    let tree: Vec<Node> = (0..10_000).map(|i| dir(&format!("d{:05}", i), vec![file(".git")])).collect();
    let total = 10_000;
    let d = discover(&tree, &worktrees, 100);
    assert!(d.interrupted);
    assert!(d.repositories.len() < total);
}

#[test]
fn abbreviate_home_replaces_prefix() {
    let r = abbreviate_home(&"/home/me/src/proj".to_string(), &"/home/me".to_string());
    assert_eq!(r, "~/src/proj");
}

#[test]
fn abbreviate_home_leaves_other_paths() {
    let r = abbreviate_home(&"/srv/repo.git".to_string(), &"/home/me".to_string());
    assert_eq!(r, "/srv/repo.git");
    let r = abbreviate_home(&"/home".to_string(), &"/home/me".to_string());
    assert_eq!(r, "/home");
}

#[test]
fn starts_with_compares_characters() {
    assert!(starts_with("/home/me/x", "/home/me"));
    assert!(starts_with("abc", ""));
    assert!(!starts_with("/home/mf", "/home/me"));
}

#[test]
fn repo_path_from_pair() {
    let r = RepoPath::from((p("a/b"), RepositoryKind::Bare));
    assert_eq!(r.path, p("a/b"));
    assert_eq!(r.kind, RepositoryKind::Bare);
}

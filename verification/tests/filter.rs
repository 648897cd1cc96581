use gitfinder::filter::origin_remote;
use gitfinder::filter::probe_of;
use gitfinder::filter::probe_repository;
use gitfinder::filter::RepoProbe;
use gitfinder::AddToGithub;
use gitfinder::Filter;

fn repo_at(path: &str) -> git2::Repository {
    match git2::Repository::open(path) {
        Ok(repo) => repo,
        Err(_) => git2::Repository::init(path).unwrap(),
    }
}

fn repo_without_origin(path: &str) {
    let repo = repo_at(path);
    assert!(repo.find_remote("origin").is_err());
}

fn repo_with_origin(path: &str) {
    let repo = repo_at(path);
    if repo.find_remote("origin").is_err() {
        repo.remote("origin", "https://example.com/practice.git").unwrap();
    }
}

#[test]
fn test_ignore_zero_paths() {
    repo_without_origin("/tmp/gitfinder_fixture/Users/pete/practice/rust/size");
    let filter_dir = AddToGithub::new(&[]);
    let dir = "/tmp/gitfinder_fixture/Users/pete/practice/rust/size";
    assert!(filter_dir.filter(&dir));
}

#[test]
fn test_ignore_one_path() {
    let filter = AddToGithub::new(&[".build"]);

    let dir = "/Users/pete/projects/net/.build";
    assert_eq!(filter.filter(&dir), false);
}

#[test]
fn test_ignore_multiple_paths() {
    let filter = AddToGithub::new(&[".build", "target"]);

    let dir = "/Users/pete/projects/net/.build";
    assert_eq!(filter.filter(&dir), false);
    let dir = "/Users/pete/projects/net/target";
    assert_eq!(filter.filter(&dir), false);
}

#[test]
fn test_is_not_dir() {
    let filter_dir = AddToGithub::new(&[]);
    let bogus_dir = "/Users/no_such_user/";
    assert_eq!(filter_dir.filter(&bogus_dir), false);
}

#[test]
fn test_is_not_a_repo() {
    repo_without_origin("/tmp/gitfinder_fixture/Users/pete/practice/rust/size");
    let filter_dir = AddToGithub::new(&[]);
    let dir = "/Users/pete/";
    assert_eq!(filter_dir.filter(&dir), false);
    let dir = "/tmp/gitfinder_fixture/Users/pete/";
    assert_eq!(filter_dir.filter(&dir), false);
}

#[test]
fn test_is_a_repo_with_origin() {
    repo_with_origin("/tmp/gitfinder_fixture/Users/pete/practice/practice-rs/");
    let filter_dir = AddToGithub::new(&[]);
    let dir = "/Users/pete/practice/practice-rs/";
    assert_eq!(filter_dir.filter(&dir), false);
    let dir = "/tmp/gitfinder_fixture/Users/pete/practice/practice-rs/";
    assert_eq!(filter_dir.filter(&dir), false);
}

#[test]
fn test_is_a_repo_without_origin() {
    repo_without_origin("/tmp/gitfinder_fixture/Users/pete/practice/rust/size/");
    let filter_dir = AddToGithub::new(&[]);
    let dir = "/tmp/gitfinder_fixture/Users/pete/practice/rust/size/";
    assert!(filter_dir.filter(&dir));
}

#[test]
fn blocked_name_is_rejected_even_for_a_repository_without_origin() {
    repo_without_origin("/tmp/gitfinder_fixture/filter/blocked/target");
    let dir = "/tmp/gitfinder_fixture/filter/blocked/target";
    assert!(AddToGithub::new(&[]).filter(&dir));
    assert_eq!(AddToGithub::new(&["target"]).filter(&dir), false);
    assert_eq!(AddToGithub::new(&["build", "target"]).filter(&dir), false);
}

#[test]
fn blocklist_matches_whole_names_with_case() {
    repo_without_origin("/tmp/gitfinder_fixture/filter/case/Target");
    let dir = "/tmp/gitfinder_fixture/filter/case/Target";
    assert!(AddToGithub::new(&["target"]).filter(&dir));
    assert!(AddToGithub::new(&["Targe"]).filter(&dir));
    assert!(AddToGithub::new(&["case"]).filter(&dir));
    assert_eq!(AddToGithub::new(&["Target"]).filter(&dir), false);
}

#[test]
fn repeated_names_are_held_once() {
    let filter = AddToGithub::new(&["target", "target", ".build", "target"]);
    assert!(filter.is_blocked(&Some("target".to_string())));
    assert!(filter.is_blocked(&Some(".build".to_string())));
    assert!(!filter.is_blocked(&Some("src".to_string())));
    assert!(!filter.is_blocked(&None));
}

#[test]
fn probe_tells_the_three_outcomes_apart() {
    repo_without_origin("/tmp/gitfinder_fixture/filter/probe/plain");
    repo_with_origin("/tmp/gitfinder_fixture/filter/probe/uploaded");
    assert_eq!(probe_repository("/tmp/gitfinder_fixture/filter/probe/plain"), RepoProbe::NoOrigin);
    assert_eq!(probe_repository("/tmp/gitfinder_fixture/filter/probe/uploaded"), RepoProbe::HasOrigin);
    assert_eq!(probe_repository("/tmp/gitfinder_fixture/filter/probe"), RepoProbe::NotARepository);
    assert_eq!(probe_repository("/tmp/gitfinder_fixture/filter/nothing"), RepoProbe::NotARepository);
}

#[test]
fn verdict_for_every_probe() {
    let filter = AddToGithub::new(&["target"]);
    let plain = Some("size".to_string());
    let blocked = Some("target".to_string());
    assert!(filter.qualifies(&plain, RepoProbe::NoOrigin));
    assert!(!filter.qualifies(&plain, RepoProbe::HasOrigin));
    assert!(!filter.qualifies(&plain, RepoProbe::NotARepository));
    assert!(!filter.qualifies(&blocked, RepoProbe::NoOrigin));
    assert!(!filter.qualifies(&blocked, RepoProbe::HasOrigin));
    assert!(!filter.qualifies(&blocked, RepoProbe::NotARepository));
    assert!(filter.qualifies(&None, RepoProbe::NoOrigin));
    assert!(!filter.qualifies(&None, RepoProbe::HasOrigin));
}

#[test]
fn probe_follows_what_was_found() {
    assert_eq!(probe_of(None), RepoProbe::NotARepository);
    assert_eq!(probe_of(Some(true)), RepoProbe::HasOrigin);
    assert_eq!(probe_of(Some(false)), RepoProbe::NoOrigin);
}

#[test]
fn remote_that_counts_is_origin() {
    assert_eq!(origin_remote(), "origin");
}

#[test]
fn only_a_remote_named_origin_disqualifies() {
    let path = "/tmp/gitfinder_fixture/filter/remotes/other";
    let repo = repo_at(path);
    for name in ["upstream", "Origin", "origin2"] {
        if repo.find_remote(name).is_err() {
            repo.remote(name, "https://example.com/other.git").unwrap();
        }
    }
    assert_eq!(probe_repository(path), RepoProbe::NoOrigin);
    assert!(AddToGithub::new(&[]).filter(&path));
}

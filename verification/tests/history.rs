use gitfinder::filter::probe_repository;
use gitfinder::filter::RepoProbe;
use gitfinder::history::commit_times;
use gitfinder::history::date_field;
use gitfinder::history::decimal_text;
use gitfinder::history::git_repo_info;
use gitfinder::history::header;
use gitfinder::history::primary_tip;
use gitfinder::history::primary_branch_names;
use gitfinder::history::repo_match;
use gitfinder::history::report_for;
use gitfinder::history::report_line;
use gitfinder::history::select_tip;
use gitfinder::history::summarize;
use gitfinder::history::CommitSummary;
use gitfinder::history::InspectError;
use gitfinder::history::FIRST_SHOWN_SECOND;
use gitfinder::history::LAST_SHOWN_SECOND;
use gitfinder::walk::classify_entry;
use gitfinder::walk::EntryKind;
use gitfinder::AddToGithub;
use gitfinder::Filter;

/// Noon, universal time, on the first of January 2020.
const NEW_YEAR_2020: i64 = 1_577_880_000;

/// Noon, universal time, on the fourth of July 2020.
const JULY_2020: i64 = 1_593_864_000;

/// Noon, universal time, on the fifteenth of June 2021.
const JUNE_2021: i64 = 1_623_758_400;

fn repo_at(path: &str) -> git2::Repository {
    match git2::Repository::open(path) {
        Ok(repo) => repo,
        Err(_) => git2::Repository::init(path).unwrap(),
    }
}

fn add_commit(repo: &git2::Repository, branch: &str, seconds: i64) {
    let who = git2::Signature::new("walker", "walker@example.com", &git2::Time::new(seconds, 0)).unwrap();
    let tree_id = repo.treebuilder(None).unwrap().write().unwrap();
    let tree = repo.find_tree(tree_id).unwrap();
    let name = format!("refs/heads/{}", branch);
    let parent = match repo.find_branch(branch, git2::BranchType::Local) {
        Ok(found) => Some(repo.find_commit(found.get().target().unwrap()).unwrap()),
        Err(_) => None,
    };
    let parents: Vec<&git2::Commit> = parent.iter().collect();
    repo.commit(Some(&name), &who, &who, "work", &tree, &parents).unwrap();
}

fn repo_with_history(path: &str, branch: &str, times: &[i64]) -> git2::Repository {
    let repo = repo_at(path);
    if repo.find_branch(branch, git2::BranchType::Local).is_err() {
        for seconds in times {
            add_commit(&repo, branch, *seconds);
        }
    }
    repo
}

#[test]
fn header_names_the_columns() {
    assert_eq!(header(), "repository,oldest,newest,count");
}

#[test]
fn summary_of_no_commits_is_empty() {
    let summary = summarize(&Vec::new());
    assert_eq!(summary, CommitSummary { count: 0, earliest: None, latest: None });
    assert_eq!(CommitSummary::new(), summary);
}

#[test]
fn summary_holds_count_and_extremes_in_any_order() {
    let summary = summarize(&vec![JULY_2020, JUNE_2021, NEW_YEAR_2020]);
    assert_eq!(
        summary,
        CommitSummary { count: 3, earliest: Some(NEW_YEAR_2020), latest: Some(JUNE_2021) }
    );
    assert_eq!(summarize(&vec![NEW_YEAR_2020, JULY_2020, JUNE_2021]), summary);
    assert_eq!(summarize(&vec![JUNE_2021, JULY_2020, NEW_YEAR_2020]), summary);
}

#[test]
fn summary_of_one_commit_has_it_at_both_ends() {
    assert_eq!(summarize(&vec![-5]), CommitSummary { count: 1, earliest: Some(-5), latest: Some(-5) });
    assert_eq!(
        summarize(&vec![7, 7, 7]),
        CommitSummary { count: 3, earliest: Some(7), latest: Some(7) }
    );
    assert_eq!(
        summarize(&vec![i64::MAX, i64::MIN, 0]),
        CommitSummary { count: 3, earliest: Some(i64::MIN), latest: Some(i64::MAX) }
    );
}

#[test]
fn record_moves_the_ends_outwards_only() {
    let one = CommitSummary::new().record(10);
    assert_eq!(one, CommitSummary { count: 1, earliest: Some(10), latest: Some(10) });
    let two = one.record(4);
    assert_eq!(two, CommitSummary { count: 2, earliest: Some(4), latest: Some(10) });
    let three = two.record(6);
    assert_eq!(three, CommitSummary { count: 3, earliest: Some(4), latest: Some(10) });
    let four = three.record(11);
    assert_eq!(four, CommitSummary { count: 4, earliest: Some(4), latest: Some(11) });
}

#[test]
fn numbers_are_written_in_decimal() {
    assert_eq!(decimal_text(0), "0");
    assert_eq!(decimal_text(3), "3");
    assert_eq!(decimal_text(9), "9");
    assert_eq!(decimal_text(10), "10");
    assert_eq!(decimal_text(405), "405");
    assert_eq!(decimal_text(1_234_567_890), "1234567890");
    assert_eq!(decimal_text(usize::MAX), usize::MAX.to_string());
}

#[test]
fn date_fields() {
    assert_eq!(date_field(None).unwrap(), None);
    assert_eq!(date_field(Some(NEW_YEAR_2020)).unwrap(), Some("20-01-01".to_string()));
    assert_eq!(date_field(Some(JUNE_2021)).unwrap(), Some("21-06-15".to_string()));
    assert_eq!(date_field(Some(43_200)).unwrap(), Some("70-01-01".to_string()));
}

#[test]
fn commit_before_the_epoch_has_its_own_date() {
    assert_eq!(date_field(Some(-43_200)).unwrap(), Some("69-12-31".to_string()));
    assert_eq!(date_field(Some(-JUNE_2021)).unwrap(), Some("18-07-19".to_string()));
}

#[test]
fn year_is_shown_modulo_one_hundred() {
    // Noon on the first of January of the year 10000.
    assert_eq!(date_field(Some(253_402_344_000)).unwrap(), Some("00-01-01".to_string()));
    // Noon on the first of January of the year 2100.
    assert_eq!(date_field(Some(4_102_488_000)).unwrap(), Some("00-01-01".to_string()));
}

#[test]
fn dates_end_where_they_cannot_be_represented() {
    assert_eq!(FIRST_SHOWN_SECOND, -8_334_601_228_800);
    assert_eq!(LAST_SHOWN_SECOND, 8_210_266_876_799);
    assert!(date_field(Some(LAST_SHOWN_SECOND)).unwrap().is_some());
    assert!(date_field(Some(FIRST_SHOWN_SECOND)).unwrap().is_some());
    assert!(matches!(date_field(Some(LAST_SHOWN_SECOND + 1)), Err(InspectError::DateOutOfRange)));
    assert!(matches!(date_field(Some(FIRST_SHOWN_SECOND - 1)), Err(InspectError::DateOutOfRange)));
    assert!(matches!(date_field(Some(i64::MAX)), Err(InspectError::DateOutOfRange)));
    assert!(matches!(date_field(Some(i64::MIN)), Err(InspectError::DateOutOfRange)));
}

#[test]
fn date_field_has_the_short_shape() {
    for seconds in [
        0,
        1,
        -1,
        86_399,
        951_782_400,
        JULY_2020,
        -JULY_2020,
        4_102_444_800,
        253_402_300_799,
        253_402_300_800,
        -62_167_219_200,
        -100_000_000_000,
        FIRST_SHOWN_SECOND,
        LAST_SHOWN_SECOND,
    ] {
        let text = date_field(Some(seconds)).unwrap().unwrap();
        let chars: Vec<char> = text.chars().collect();
        assert_eq!(chars.len(), 8);
        for at in [0usize, 1, 3, 4, 6, 7] {
            assert!(chars[at].is_ascii_digit());
        }
        assert_eq!(chars[2], '-');
        assert_eq!(chars[5], '-');
    }
}

#[test]
fn lines_hold_path_dates_and_count() {
    let oldest = Some("20-01-01".to_string());
    let newest = Some("21-06-15".to_string());
    assert_eq!(report_line("A", &oldest, &newest, 3), "A,20-01-01,21-06-15,3");
    assert_eq!(report_line("foo/lib", &oldest, &oldest, 1), "foo/lib,20-01-01,20-01-01,1");
    assert_eq!(report_line("", &oldest, &newest, 120), ",20-01-01,21-06-15,120");
}

#[test]
fn line_without_commits_leaves_the_dates_blank() {
    assert_eq!(report_line("a/b", &None, &None, 0), "a/b,,,0");
}

#[test]
fn info_counts_the_commits_of_main() {
    let path = "/tmp/gitfinder_fixture/history/main_only/A";
    repo_with_history(path, "main", &[NEW_YEAR_2020, JULY_2020, JUNE_2021]);
    let line = git_repo_info(path, "/tmp/gitfinder_fixture/history/main_only").unwrap();
    assert_eq!(line, "A,20-01-01,21-06-15,3");
}

#[test]
fn info_takes_the_metadata_directory_too() {
    let path = "/tmp/gitfinder_fixture/history/metadata/deep/er";
    repo_with_history(path, "main", &[JULY_2020]);
    let line = git_repo_info(
        "/tmp/gitfinder_fixture/history/metadata/deep/er/.git",
        "/tmp/gitfinder_fixture/history/metadata",
    )
    .unwrap();
    assert_eq!(line, "deep/er,20-07-04,20-07-04,1");
}

#[test]
fn info_falls_back_to_master() {
    let path = "/tmp/gitfinder_fixture/history/master_only/M";
    repo_with_history(path, "master", &[JUNE_2021, NEW_YEAR_2020]);
    let line = git_repo_info(path, "/tmp/gitfinder_fixture/history/master_only/").unwrap();
    assert_eq!(line, "M,20-01-01,21-06-15,2");
}

#[test]
fn info_prefers_main_to_master() {
    let path = "/tmp/gitfinder_fixture/history/both/B";
    repo_with_history(path, "master", &[NEW_YEAR_2020, JULY_2020]);
    repo_with_history(path, "main", &[JUNE_2021]);
    let line = git_repo_info(path, "/tmp/gitfinder_fixture/history/both").unwrap();
    assert_eq!(line, "B,21-06-15,21-06-15,1");
}

#[test]
fn info_finds_extremes_out_of_order() {
    let path = "/tmp/gitfinder_fixture/history/unordered/U";
    let repo = repo_with_history(path, "main", &[JULY_2020, NEW_YEAR_2020, JUNE_2021, JULY_2020]);
    let tip = primary_tip(&repo).unwrap();
    let mut times = commit_times(&repo, tip).unwrap();
    times.sort();
    assert_eq!(times, vec![NEW_YEAR_2020, JULY_2020, JULY_2020, JUNE_2021]);
    let line = git_repo_info(path, "/tmp/gitfinder_fixture/history/unordered").unwrap();
    assert_eq!(line, "U,20-01-01,21-06-15,4");
}

#[test]
fn info_fails_where_nothing_opens() {
    let info = git_repo_info("/tmp/gitfinder_fixture/history/absent", "/tmp/gitfinder_fixture");
    assert!(matches!(info, Err(InspectError::Open(_))));
}

#[test]
fn info_fails_without_a_primary_branch() {
    let path = "/tmp/gitfinder_fixture/history/unborn/N";
    repo_at(path);
    let info = git_repo_info(path, "/tmp/gitfinder_fixture/history/unborn");
    assert!(matches!(info, Err(InspectError::NoPrimaryBranch(_))));
    let other = "/tmp/gitfinder_fixture/history/other_branch/O";
    repo_with_history(other, "develop", &[JULY_2020]);
    let info = git_repo_info(other, "/tmp/gitfinder_fixture/history/other_branch");
    assert!(matches!(info, Err(InspectError::NoPrimaryBranch(_))));
}

#[test]
fn info_fails_on_a_branch_that_names_another() {
    let path = "/tmp/gitfinder_fixture/history/symbolic/S";
    let repo = repo_with_history(path, "develop", &[JULY_2020]);
    if repo.find_branch("main", git2::BranchType::Local).is_err() {
        repo.reference_symbolic("refs/heads/main", "refs/heads/develop", true, "alias").unwrap();
    }
    let info = git_repo_info(path, "/tmp/gitfinder_fixture/history/symbolic");
    assert!(matches!(info, Err(InspectError::InvalidBranchTarget)));
}

#[test]
fn info_fails_outside_the_root() {
    let path = "/tmp/gitfinder_fixture/history/outside/X";
    repo_with_history(path, "main", &[JULY_2020]);
    let info = git_repo_info(path, "/tmp/gitfinder_fixture/history/elsewhere");
    assert!(matches!(info, Err(InspectError::OutsideRoot)));
}

#[test]
fn end_to_end_reports_only_what_was_never_uploaded() {
    let root = "/tmp/gitfinder_fixture/history/tree";
    let a = "/tmp/gitfinder_fixture/history/tree/A";
    let b = "/tmp/gitfinder_fixture/history/tree/B";
    let c = "/tmp/gitfinder_fixture/history/tree/C";
    let target = "/tmp/gitfinder_fixture/history/tree/C/target";
    repo_with_history(a, "main", &[NEW_YEAR_2020, JULY_2020, JUNE_2021]);
    let uploaded = repo_with_history(b, "main", &[JULY_2020]);
    if uploaded.find_remote("origin").is_err() {
        uploaded.remote("origin", "https://example.com/b.git").unwrap();
    }
    repo_with_history(target, "main", &[JULY_2020]);
    assert_eq!(probe_repository(target), RepoProbe::NoOrigin);

    let filter = AddToGithub::new(&["target"]);
    let mut lines = vec![header()];
    for dir in [a, b, c, target] {
        if filter.filter(dir) {
            lines.push(git_repo_info(dir, root).unwrap());
        }
    }
    assert_eq!(lines, vec!["repository,oldest,newest,count".to_string(), "A,20-01-01,21-06-15,3".to_string()]);
}

#[test]
fn main_is_preferred_to_master() {
    let one = git2::Oid::from_str("1111111111111111111111111111111111111111").unwrap();
    let two = git2::Oid::from_str("2222222222222222222222222222222222222222").unwrap();
    assert_eq!(select_tip(Ok(Some(one)), Ok(Some(two))).unwrap(), one);
    assert_eq!(select_tip(Ok(Some(one)), Ok(None)).unwrap(), one);
    assert_eq!(select_tip(Ok(Some(one)), Err(git2::Error::from_str("gone"))).unwrap(), one);
}

#[test]
fn master_is_taken_where_main_is_missing() {
    let two = git2::Oid::from_str("2222222222222222222222222222222222222222").unwrap();
    assert_eq!(select_tip(Err(git2::Error::from_str("gone")), Ok(Some(two))).unwrap(), two);
}

#[test]
fn branch_that_names_another_is_an_error() {
    let two = git2::Oid::from_str("2222222222222222222222222222222222222222").unwrap();
    assert!(matches!(select_tip(Ok(None), Ok(Some(two))), Err(InspectError::InvalidBranchTarget)));
    assert!(matches!(select_tip(Ok(None), Ok(None)), Err(InspectError::InvalidBranchTarget)));
    assert!(matches!(
        select_tip(Ok(None), Err(git2::Error::from_str("gone"))),
        Err(InspectError::InvalidBranchTarget)
    ));
    assert!(matches!(
        select_tip(Err(git2::Error::from_str("gone")), Ok(None)),
        Err(InspectError::InvalidBranchTarget)
    ));
}

#[test]
fn missing_branches_give_the_message_of_the_second_lookup() {
    let tip = select_tip(Err(git2::Error::from_str("no main")), Err(git2::Error::from_str("no master")));
    match tip {
        Err(InspectError::NoPrimaryBranch(message)) => assert_eq!(message, "no master"),
        other => panic!("{:?}", other),
    }
}

#[test]
fn report_for_a_history_in_any_order() {
    let times = vec![JULY_2020, JUNE_2021, NEW_YEAR_2020];
    let made = report_for("/srv/work/a/b/.git/", "/srv/work", &times).unwrap();
    assert_eq!(made, "a/b,20-01-01,21-06-15,3");
    let made = report_for("/srv/work/a/b", "/srv/work/", &vec![JULY_2020]).unwrap();
    assert_eq!(made, "a/b,20-07-04,20-07-04,1");
}

#[test]
fn report_for_no_commits_leaves_the_dates_blank() {
    assert_eq!(report_for("/srv/work/a/.git", "/srv/work", &Vec::new()).unwrap(), "a,,,0");
}

#[test]
fn report_for_a_location_outside_the_root_fails() {
    let made = report_for("/srv/other/a/.git", "/srv/work", &vec![JULY_2020]);
    assert!(matches!(made, Err(InspectError::OutsideRoot)));
    let made = report_for("/srv/other/a/.git", "/srv/work", &vec![i64::MAX]);
    assert!(matches!(made, Err(InspectError::OutsideRoot)));
}

#[test]
fn report_for_a_date_that_cannot_be_represented_fails() {
    let made = report_for("/srv/work/a", "/srv/work", &vec![JULY_2020, LAST_SHOWN_SECOND + 1]);
    assert!(matches!(made, Err(InspectError::DateOutOfRange)));
    let made = report_for("/srv/work/a", "/srv/work", &vec![FIRST_SHOWN_SECOND - 1, JULY_2020]);
    assert!(matches!(made, Err(InspectError::DateOutOfRange)));
    let made = report_for("/srv/work/a", "/srv/work", &vec![LAST_SHOWN_SECOND, JULY_2020]);
    assert!(made.is_ok());
}

#[test]
fn report_for_a_date_beyond_the_year_9999_is_a_row() {
    let made = report_for("/srv/work/a", "/srv/work", &vec![253_402_344_000]).unwrap();
    assert_eq!(made, "a,00-01-01,00-01-01,1");
    let made = report_for("/srv/work/a", "/srv/work", &vec![JULY_2020, 253_402_344_000]).unwrap();
    assert_eq!(made, "a,20-07-04,00-01-01,2");
}

#[test]
fn report_shows_the_oldest_date_before_the_newest() {
    let made = report_for("/srv/work/a", "/srv/work", &vec![JUNE_2021, -43_200, JULY_2020]).unwrap();
    assert_eq!(made, "a,69-12-31,21-06-15,3");
}

#[test]
fn match_holds_the_plain_values_of_a_row() {
    let found = repo_match("/srv/work/a/b/.git", "/srv/work", &vec![JULY_2020, JUNE_2021, NEW_YEAR_2020]).unwrap();
    assert_eq!(found.path, "a/b");
    assert_eq!(found.oldest, Some(NEW_YEAR_2020));
    assert_eq!(found.newest, Some(JUNE_2021));
    assert_eq!(found.count, 3);
    let found = repo_match("/srv/work/a", "/srv/work", &Vec::new()).unwrap();
    assert_eq!((found.path.as_str(), found.oldest, found.newest, found.count), ("a", None, None, 0));
    let found = repo_match("/srv/work/a", "/srv/work", &vec![i64::MIN, i64::MAX]).unwrap();
    assert_eq!((found.oldest, found.newest, found.count), (Some(i64::MIN), Some(i64::MAX), 2));
    assert!(repo_match("/srv/other/a", "/srv/work", &vec![JULY_2020]).is_none());
}

#[test]
fn primary_branches_are_main_then_master() {
    assert_eq!(primary_branch_names(), ("main", "master"));
}

#[test]
fn info_ignores_branches_named_otherwise() {
    let path = "/tmp/gitfinder_fixture/history/names/T";
    repo_with_history(path, "Main", &[NEW_YEAR_2020]);
    repo_with_history(path, "trunk", &[NEW_YEAR_2020]);
    let info = git_repo_info(path, "/tmp/gitfinder_fixture/history/names");
    assert!(matches!(info, Err(InspectError::NoPrimaryBranch(_))));
    let other = "/tmp/gitfinder_fixture/history/names/R";
    repo_with_history(other, "Main", &[NEW_YEAR_2020]);
    repo_with_history(other, "master", &[JULY_2020, JUNE_2021]);
    let line = git_repo_info(other, "/tmp/gitfinder_fixture/history/names").unwrap();
    assert_eq!(line, "R,20-07-04,21-06-15,2");
}

#[test]
fn directory_passed_over_by_name_is_still_walked() {
    let root = "/tmp/gitfinder_fixture/history/passed";
    let target = "/tmp/gitfinder_fixture/history/passed/C/target";
    let metadata = "/tmp/gitfinder_fixture/history/passed/C/target/.git";
    repo_with_history(target, "main", &[JULY_2020]);
    let filter = AddToGithub::new(&["target"]);
    // The directory itself is not reported, and is walked like any other.
    assert_eq!(classify_entry(&filter, target, true), EntryKind::Directory);
    // Its metadata directory is not on the list, and opens as the repository.
    assert_eq!(classify_entry(&filter, metadata, true), EntryKind::Repository);
    assert_eq!(git_repo_info(metadata, root).unwrap(), "C/target,20-07-04,20-07-04,1");
}

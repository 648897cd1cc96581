//! The summary of a repository's history: how many commits its primary
//! branch reaches, the oldest and the newest of their dates, and the line
//! that reports them.

use vstd::prelude::*;
use vstd::string::*;
use crate::git::branch_tip;
use crate::git::commit_seconds;
use crate::git::error_message;
use crate::git::new_walk;
use crate::git::next_commit;
use crate::git::open_repository;
use crate::git::push_tip;
use crate::git::repository_path;
use crate::paths::opt_view;
use crate::paths::simplified;
use crate::paths::try_simplified_repo_path;

verus! {

/// The first line of a report.
pub open spec fn header_text() -> Seq<char> {
    "repository,oldest,newest,count"@
}

/// The earliest time, in seconds since the epoch, that has a date: the
/// first second of the year 262144 before the common era, the earliest
/// that `chrono` represents.
pub const FIRST_SHOWN_SECOND: i64 = -8_334_601_228_800;

/// The latest time, in seconds since the epoch, that has a date: the last
/// second of the year 262142, the latest that `chrono` represents.
pub const LAST_SHOWN_SECOND: i64 = 8_210_266_876_799;

/// Why a repository could not be reported.
#[derive(Debug)]
pub enum InspectError {
    /// The directory did not open as a repository.
    Open(String),
    /// Neither a local branch `main` nor a local branch `master` was found.
    NoPrimaryBranch(String),
    /// The primary branch does not point to a commit directly.
    InvalidBranchTarget,
    /// The walk over the history failed.
    History(String),
    /// More commits than can be held in memory.
    TooManyCommits,
    /// A commit's time lies outside the dates that can be represented.
    DateOutOfRange,
    /// The repository does not lie under the directory where the walk started.
    OutsideRoot,
}

/// The least of `times`; `times` is not empty.
pub open spec fn least(times: Seq<i64>) -> i64
    recommends
        times.len() > 0,
    decreases times.len(),
{
    if times.len() <= 1 {
        times[0]
    } else {
        let rest = least(times.drop_last());
        if times.last() < rest {
            times.last()
        } else {
            rest
        }
    }
}

/// The greatest of `times`; `times` is not empty.
pub open spec fn greatest(times: Seq<i64>) -> i64
    recommends
        times.len() > 0,
    decreases times.len(),
{
    if times.len() <= 1 {
        times[0]
    } else {
        let rest = greatest(times.drop_last());
        if times.last() > rest {
            times.last()
        } else {
            rest
        }
    }
}

/// What is known of a history after some of its commits were seen.
#[derive(Clone, Copy, Debug, PartialEq, Eq, Structural)]
pub struct CommitSummary {
    /// The number of commits seen.
    pub count: usize,
    /// The time of the oldest commit seen, in seconds since the epoch.
    pub earliest: Option<i64>,
    /// The time of the newest commit seen, in seconds since the epoch.
    pub latest: Option<i64>,
}

impl CommitSummary {
    /// Whether this is the summary of the commit times `times`, in any order.
    pub open spec fn summarizes(&self, times: Seq<i64>) -> bool {
        &&& self.count == times.len()
        &&& self.earliest == if times.len() == 0 {
            None
        } else {
            Some(least(times))
        }
        &&& self.latest == if times.len() == 0 {
            None
        } else {
            Some(greatest(times))
        }
    }

    /// Both dates are there exactly when a commit was seen, and the oldest
    /// is not after the newest.
    pub open spec fn well_formed(&self) -> bool {
        &&& self.count == 0 <==> self.earliest.is_none()
        &&& self.count == 0 <==> self.latest.is_none()
        &&& self.earliest.is_some() && self.latest.is_some() ==> self.earliest.unwrap()
            <= self.latest.unwrap()
    }

    /// The summary of no commits.
    pub fn new() -> (made: Self)
        ensures
            made.summarizes(Seq::empty()),
            made == (CommitSummary { count: 0, earliest: None, latest: None }),
    {
        CommitSummary { count: 0, earliest: None, latest: None }
    }

    /// The summary after one more commit, made at `seconds`, was seen.
    pub fn record(self, seconds: i64) -> (next: Self)
        requires
            self.count < usize::MAX,
        ensures
            next.count == self.count + 1,
            next.earliest == Some(
                if self.earliest.is_some() && self.earliest.unwrap() <= seconds {
                    self.earliest.unwrap()
                } else {
                    seconds
                },
            ),
            next.latest == Some(
                if self.latest.is_some() && self.latest.unwrap() >= seconds {
                    self.latest.unwrap()
                } else {
                    seconds
                },
            ),
            forall|times: Seq<i64>| #[trigger]
                self.summarizes(times) ==> next.summarizes(times.push(seconds)),
    {
        let earliest = match self.earliest {
            Some(old) => if seconds < old {
                seconds
            } else {
                old
            },
            None => seconds,
        };
        let latest = match self.latest {
            Some(old) => if seconds > old {
                seconds
            } else {
                old
            },
            None => seconds,
        };
        let next = CommitSummary {
            count: self.count + 1,
            earliest: Some(earliest),
            latest: Some(latest),
        };
        proof {
            assert forall|times: Seq<i64>| #[trigger]
                self.summarizes(times) implies next.summarizes(times.push(seconds)) by {
                let more = times.push(seconds);
                assert(more.drop_last() =~= times);
                assert(more.last() == seconds);
                if times.len() == 0 {
                    assert(more[0] == seconds);
                }
            }
        }
        next
    }
}

/// The summary of the commit times `times`.
pub fn summarize(times: &Vec<i64>) -> (summary: CommitSummary)
    ensures
        summary.summarizes(times@),
        summary.well_formed(),
{
    let mut summary = CommitSummary::new();
    let mut at: usize = 0;
    while at < times.len()
        invariant
            at <= times.len(),
            summary.summarizes(times@.take(at as int)),
        decreases times.len() - at,
    {
        assert(times@.take(at as int).push(times[at as int]) =~= times@.take(at + 1));
        summary = summary.record(times[at]);
        at = at + 1;
    }
    assert(times@.take(at as int) =~= times@);
    proof {
        lemma_summary_well_formed(summary, times@);
    }
    summary
}

/// The least of some commit times is one of them and no later than any.
pub proof fn lemma_least_is_lower_bound(times: Seq<i64>)
    requires
        times.len() > 0,
    ensures
        times.contains(least(times)),
        forall|i: int| 0 <= i < times.len() ==> least(times) <= #[trigger] times[i],
    decreases times.len(),
{
    if times.len() > 1 {
        let front = times.drop_last();
        lemma_least_is_lower_bound(front);
        let k = choose|k: int| 0 <= k < front.len() && front[k] == least(front);
        assert(times[k] == least(front));
        assert(times[times.len() - 1] == times.last());
        assert forall|i: int| 0 <= i < times.len() implies least(times) <= #[trigger] times[i] by {
            if i < front.len() {
                assert(front[i] == times[i]);
            }
        }
    } else {
        assert(times[0] == least(times));
    }
}

/// The greatest of some commit times is one of them and no earlier than any.
pub proof fn lemma_greatest_is_upper_bound(times: Seq<i64>)
    requires
        times.len() > 0,
    ensures
        times.contains(greatest(times)),
        forall|i: int| 0 <= i < times.len() ==> greatest(times) >= #[trigger] times[i],
    decreases times.len(),
{
    if times.len() > 1 {
        let front = times.drop_last();
        lemma_greatest_is_upper_bound(front);
        let k = choose|k: int| 0 <= k < front.len() && front[k] == greatest(front);
        assert(times[k] == greatest(front));
        assert(times[times.len() - 1] == times.last());
        assert forall|i: int| 0 <= i < times.len() implies greatest(times) >= #[trigger] times[i] by {
            if i < front.len() {
                assert(front[i] == times[i]);
            }
        }
    } else {
        assert(times[0] == greatest(times));
    }
}

/// A summary of commit times is well formed.
pub proof fn lemma_summary_well_formed(summary: CommitSummary, times: Seq<i64>)
    requires
        summary.summarizes(times),
    ensures
        summary.well_formed(),
{
    if times.len() > 0 {
        lemma_least_is_lower_bound(times);
        lemma_greatest_is_upper_bound(times);
        let k = choose|k: int| 0 <= k < times.len() && times[k] == greatest(times);
        assert(least(times) <= times[k]);
    }
}

/// The summary does not depend on the order in which the commits are seen:
/// two runs of the same times have the same summary.
pub proof fn lemma_summary_ignores_order(
    first: Seq<i64>,
    second: Seq<i64>,
    of_first: CommitSummary,
    of_second: CommitSummary,
)
    requires
        first.to_multiset() == second.to_multiset(),
        of_first.summarizes(first),
        of_second.summarizes(second),
    ensures
        of_first == of_second,
{
    vstd::seq_lib::to_multiset_len(first);
    vstd::seq_lib::to_multiset_len(second);
    if first.len() > 0 {
        lemma_least_is_lower_bound(first);
        lemma_least_is_lower_bound(second);
        lemma_greatest_is_upper_bound(first);
        lemma_greatest_is_upper_bound(second);
        vstd::seq_lib::to_multiset_contains(first, least(first));
        vstd::seq_lib::to_multiset_contains(second, least(first));
        vstd::seq_lib::to_multiset_contains(first, least(second));
        vstd::seq_lib::to_multiset_contains(second, least(second));
        vstd::seq_lib::to_multiset_contains(first, greatest(first));
        vstd::seq_lib::to_multiset_contains(second, greatest(first));
        vstd::seq_lib::to_multiset_contains(first, greatest(second));
        vstd::seq_lib::to_multiset_contains(second, greatest(second));
        let a = choose|i: int| 0 <= i < second.len() && second[i] == least(first);
        let b = choose|i: int| 0 <= i < first.len() && first[i] == least(second);
        assert(least(second) <= second[a]);
        assert(least(first) <= first[b]);
        let c = choose|i: int| 0 <= i < second.len() && second[i] == greatest(first);
        let d = choose|i: int| 0 <= i < first.len() && first[i] == greatest(second);
        assert(greatest(second) >= second[c]);
        assert(greatest(first) >= first[d]);
    }
}

/// The character for the digit `d`.
pub open spec fn digit_char(d: nat) -> char
    recommends
        d < 10,
{
    if d == 0 {
        '0'
    } else if d == 1 {
        '1'
    } else if d == 2 {
        '2'
    } else if d == 3 {
        '3'
    } else if d == 4 {
        '4'
    } else if d == 5 {
        '5'
    } else if d == 6 {
        '6'
    } else if d == 7 {
        '7'
    } else if d == 8 {
        '8'
    } else {
        '9'
    }
}

/// `n` in decimal, without leading zeros.
pub open spec fn decimal(n: nat) -> Seq<char>
    decreases n,
{
    if n < 10 {
        seq![digit_char(n)]
    } else {
        decimal(n / 10).push(digit_char(n % 10))
    }
}

/// Whether `c` is a decimal digit.
pub open spec fn is_digit(c: char) -> bool {
    '0' <= c <= '9'
}

/// Whether `text` has the shape of a short date: two digits each for the
/// year, the month and the day, with a hyphen between them.
pub open spec fn is_short_date(text: Seq<char>) -> bool {
    &&& text.len() == 8
    &&& is_digit(text[0])
    &&& is_digit(text[1])
    &&& text[2] == '-'
    &&& is_digit(text[3])
    &&& is_digit(text[4])
    &&& text[5] == '-'
    &&& is_digit(text[6])
    &&& is_digit(text[7])
}

/// Whether a commit made at `seconds` has a date that can be shown: one
/// within the years that `chrono` represents.
pub open spec fn shown(seconds: i64) -> bool {
    FIRST_SHOWN_SECOND <= seconds <= LAST_SHOWN_SECOND
}

/// What stands in a line for a date: the date, or nothing.
pub open spec fn field_of(date: Option<Seq<char>>) -> Seq<char> {
    match date {
        Some(text) => text,
        None => Seq::empty(),
    }
}

/// The line that reports a repository: its path, the dates of its oldest
/// and newest commit, and the number of its commits, with commas between.
pub open spec fn line_of(
    path: Seq<char>,
    oldest: Option<Seq<char>>,
    newest: Option<Seq<char>>,
    count: nat,
) -> Seq<char> {
    path + seq![','] + field_of(oldest) + seq![','] + field_of(newest) + seq![','] + decimal(count)
}

/// Whether `line` reports a repository shown as `path` whose commits were
/// made at `times`: the path, the two dates and the number of the commits.
/// Which dates stand there depends on the time zone, so of each only the
/// shape is said; without commits both are left blank.
pub open spec fn is_report_of(line: Seq<char>, path: Seq<char>, times: Seq<i64>) -> bool {
    exists|oldest: Option<Seq<char>>, newest: Option<Seq<char>>|
        {
            &&& line == #[trigger] line_of(path, oldest, newest, times.len())
            &&& oldest.is_some() == (times.len() > 0)
            &&& newest.is_some() == (times.len() > 0)
            &&& oldest.is_some() ==> is_short_date(oldest.unwrap())
            &&& newest.is_some() ==> is_short_date(newest.unwrap())
        }
}

/// Whether `line` reports some repository that lies under `root`, shown
/// relative to it.
pub open spec fn is_report_under(line: Seq<char>, root: Seq<char>) -> bool {
    exists|location: Seq<char>, times: Seq<i64>|
        simplified(location, root).is_some() && #[trigger] is_report_of(
            line,
            simplified(location, root).unwrap(),
            times,
        )
}

/// Whether both ends of a history made at `times` have a date that is shown.
pub open spec fn dates_shown(times: Seq<i64>) -> bool {
    times.len() > 0 ==> shown(least(times)) && shown(greatest(times))
}

/// Whether `error` is one that the search for the primary branch gives.
pub open spec fn is_branch_error(error: InspectError) -> bool {
    error is NoPrimaryBranch || error is InvalidBranchTarget
}

/// Whether `error` is one that the walk over a history gives.
pub open spec fn is_history_error(error: InspectError) -> bool {
    error is History || error is TooManyCommits
}

/// Converts `seconds` since the epoch, before it or after, to a point in
/// time with `chrono::DateTime::from_timestamp`, which gives none outside
/// the years that `chrono` represents; moves it to the local time zone
/// with `chrono::DateTime::with_timezone` and formats the date with
/// `chrono::DateTime::format` as `%y-%m-%d`. The text depends on the time
/// zone of the machine, so only its shape is claimed: year modulo 100,
/// month and day, each padded to two digits.
#[verifier::external_body]
pub(crate) fn format_local_date(seconds: i64) -> (text: Option<String>)
    ensures
        text.is_some() == shown(seconds),
        text.is_some() ==> is_short_date(text.unwrap()@),
{
    chrono::DateTime::from_timestamp(seconds, 0).map(
        |at| at.with_timezone(&chrono::Local).format("%y-%m-%d").to_string(),
    )
}

/// The first line of a report, which names the columns.
pub fn header() -> (text: String)
    ensures
        text@ == header_text(),
{
    String::from_str("repository,oldest,newest,count")
}

/// The text of one digit.
fn digit_text(d: usize) -> (text: &'static str)
    requires
        d < 10,
    ensures
        text@ == seq![digit_char(d as nat)],
{
    proof {
        reveal_strlit("0");
        reveal_strlit("1");
        reveal_strlit("2");
        reveal_strlit("3");
        reveal_strlit("4");
        reveal_strlit("5");
        reveal_strlit("6");
        reveal_strlit("7");
        reveal_strlit("8");
        reveal_strlit("9");
    }
    let text = if d == 0 {
        "0"
    } else if d == 1 {
        "1"
    } else if d == 2 {
        "2"
    } else if d == 3 {
        "3"
    } else if d == 4 {
        "4"
    } else if d == 5 {
        "5"
    } else if d == 6 {
        "6"
    } else if d == 7 {
        "7"
    } else if d == 8 {
        "8"
    } else {
        "9"
    };
    assert(text@ =~= seq![digit_char(d as nat)]);
    text
}

/// `n` written in decimal.
pub fn decimal_text(n: usize) -> (text: String)
    ensures
        text@ == decimal(n as nat),
    decreases n,
{
    if n < 10 {
        String::from_str(digit_text(n))
    } else {
        let mut text = decimal_text(n / 10);
        text.append(digit_text(n % 10));
        assert(text@ =~= decimal(n as nat));
        text
    }
}

/// The date field for the time of a commit, if there is one: nothing where
/// no commit was seen, the commit's date in local time where the time has
/// one, and an error where it lies outside the dates that can be
/// represented.
pub fn date_field(seconds: Option<i64>) -> (field: Result<Option<String>, InspectError>)
    ensures
        seconds.is_none() ==> field.is_ok() && field.unwrap().is_none(),
        seconds.is_some() && shown(seconds.unwrap()) ==> field.is_ok() && field.unwrap().is_some()
            && is_short_date(field.unwrap().unwrap()@),
        seconds.is_some() && !shown(seconds.unwrap()) ==> field matches Err(
            InspectError::DateOutOfRange,
        ),
{
    match seconds {
        None => Ok(None),
        Some(at) => match format_local_date(at) {
            Some(text) => Ok(Some(text)),
            None => Err(InspectError::DateOutOfRange),
        },
    }
}

/// The line that reports a repository shown as `path`, with `count`
/// commits, the oldest and newest made on the dates given.
pub fn report_line(path: &str, oldest: &Option<String>, newest: &Option<String>, count: usize) -> (line:
    String)
    ensures
        line@ == line_of(path@, opt_view(*oldest), opt_view(*newest), count as nat),
{
    proof {
        reveal_strlit(",");
    }
    let mut line = String::from_str(path);
    line.append(",");
    if let Some(date) = oldest {
        line.append(date.as_str());
    }
    line.append(",");
    if let Some(date) = newest {
        line.append(date.as_str());
    }
    line.append(",");
    let number = decimal_text(count);
    line.append(number.as_str());
    assert(","@ =~= seq![',']);
    assert(line@ =~= line_of(path@, opt_view(*oldest), opt_view(*newest), count as nat));
    line
}

/// The commit that the primary branch of `repo` points to: the local
/// branch `main`, or `master` where there is no `main`. Both are looked up,
/// and `select_tip` decides between what was found.
pub fn primary_tip(repo: &git2::Repository) -> (tip: Result<git2::Oid, InspectError>)
    ensures
        tip.is_err() ==> is_branch_error(tip.unwrap_err()),
{
    let names = primary_branch_names();
    let main = branch_tip(repo, names.0);
    let master = branch_tip(repo, names.1);
    select_tip(main, master)
}

/// The times of the commits that `tip` reaches, in the order in which the
/// walk over the history hands them out. The walk is given up at the first
/// step that fails, and where it hands out more commits than can be held.
pub fn commit_times(repo: &git2::Repository, tip: git2::Oid) -> (times: Result<
    Vec<i64>,
    InspectError,
>)
    ensures
        times.is_ok() ==> times.unwrap().len() < usize::MAX,
        times.is_err() ==> is_history_error(times.unwrap_err()),
{
    let mut walk = match new_walk(repo) {
        Ok(walk) => walk,
        Err(error) => {
            return Err(InspectError::History(error_message(&error)));
        },
    };
    if let Err(error) = push_tip(&mut walk, tip) {
        return Err(InspectError::History(error_message(&error)));
    }
    let mut times: Vec<i64> = Vec::new();
    loop
        decreases usize::MAX - times.len(),
    {
        if times.len() == usize::MAX {
            return Err(InspectError::TooManyCommits);
        }
        let id = match next_commit(&mut walk) {
            None => {
                return Ok(times);
            },
            Some(Err(error)) => {
                return Err(InspectError::History(error_message(&error)));
            },
            Some(Ok(id)) => id,
        };
        match commit_seconds(repo, id) {
            Ok(seconds) => {
                times.push(seconds);
            },
            Err(error) => {
                return Err(InspectError::History(error_message(&error)));
            },
        }
    }
}

/// The line that reports the repository at `repo_path`, shown relative to
/// `root_path`: its commits are those that its primary branch reaches.
///
/// Whether there is a line, and what it holds, depends on what is on disk:
/// `report_for` says what is made of what was read.
pub fn git_repo_info(repo_path: &str, root_path: &str) -> (info: Result<String, InspectError>)
    ensures
        info.is_ok() ==> is_report_under(info.unwrap()@, root_path@),
{
    let repo = match open_repository(repo_path) {
        Ok(repo) => repo,
        Err(error) => {
            return Err(InspectError::Open(error_message(&error)));
        },
    };
    let tip = match primary_tip(&repo) {
        Ok(tip) => tip,
        Err(error) => {
            return Err(error);
        },
    };
    let times = match commit_times(&repo, tip) {
        Ok(times) => times,
        Err(error) => {
            return Err(error);
        },
    };
    let location = repository_path(&repo);
    let info = report_for(location.as_str(), root_path, &times);
    proof {
        if info.is_ok() {
            assert(is_report_of(
                info.unwrap()@,
                simplified(location@, root_path@).unwrap(),
                times@,
            ));
        }
    }
    info
}

/// The commit to start from, given what the lookups of the local branches
/// `main` and `master` gave: what `main` points to where it was found,
/// else what `master` points to. A branch that was found and does not
/// point to a commit directly is an error, whichever it is.
pub fn select_tip(
    main: Result<Option<git2::Oid>, git2::Error>,
    master: Result<Option<git2::Oid>, git2::Error>,
) -> (tip: Result<git2::Oid, InspectError>)
    ensures
        main.is_ok() ==> match main.unwrap() {
            Some(id) => tip == Ok::<git2::Oid, InspectError>(id),
            None => tip matches Err(InspectError::InvalidBranchTarget),
        },
        main.is_err() && master.is_ok() ==> match master.unwrap() {
            Some(id) => tip == Ok::<git2::Oid, InspectError>(id),
            None => tip matches Err(InspectError::InvalidBranchTarget),
        },
        main.is_err() && master.is_err() ==> tip matches Err(InspectError::NoPrimaryBranch(_)),
{
    let found = match main {
        Ok(target) => target,
        Err(_) => match master {
            Ok(target) => target,
            Err(error) => {
                return Err(InspectError::NoPrimaryBranch(error_message(&error)));
            },
        },
    };
    match found {
        Some(id) => Ok(id),
        None => Err(InspectError::InvalidBranchTarget),
    }
}

/// The line that reports a repository found at `location`, shown relative
/// to `root_path`, whose commits were made at `times`, in any order. There
/// is a line exactly when the location lies under the root and both ends
/// of the history have a date that is shown.
pub fn report_for(location: &str, root_path: &str, times: &Vec<i64>) -> (made: Result<
    String,
    InspectError,
>)
    ensures
        simplified(location@, root_path@).is_none() ==> made matches Err(InspectError::OutsideRoot),
        simplified(location@, root_path@).is_some() && !dates_shown(times@) ==> made matches Err(
            InspectError::DateOutOfRange,
        ),
        simplified(location@, root_path@).is_some() && dates_shown(times@) ==> made.is_ok()
            && is_report_of(made.unwrap()@, simplified(location@, root_path@).unwrap(), times@),
{
    let found = match repo_match(location, root_path, times) {
        Some(found) => found,
        None => {
            return Err(InspectError::OutsideRoot);
        },
    };
    let oldest = match date_field(found.oldest) {
        Ok(field) => field,
        Err(error) => {
            return Err(error);
        },
    };
    let newest = match date_field(found.newest) {
        Ok(field) => field,
        Err(error) => {
            return Err(error);
        },
    };
    let line = report_line(found.path.as_str(), &oldest, &newest, found.count);
    assert(line@ == line_of(found.path@, opt_view(oldest), opt_view(newest), times@.len()));
    Ok(line)
}

/// The names of the two local branches that may be a repository's primary
/// branch: the one to take first, and the one to take where the first is
/// missing.
pub fn primary_branch_names() -> (names: (&'static str, &'static str))
    ensures
        names.0@ == "main"@,
        names.1@ == "master"@,
{
    ("main", "master")
}

/// What is reported of one repository: where it is shown, when its oldest
/// and its newest commit were made, in seconds since the epoch, and how
/// many commits it has.
#[derive(Debug)]
pub struct RepoMatch {
    /// The repository's path, relative to where the walk started.
    pub path: String,
    /// The time of the oldest commit, if there is a commit.
    pub oldest: Option<i64>,
    /// The time of the newest commit, if there is a commit.
    pub newest: Option<i64>,
    /// The number of commits.
    pub count: usize,
}

impl RepoMatch {
    /// Whether this is what is reported of a repository shown as `path`
    /// whose commits were made at `times`, in any order.
    pub open spec fn reports(&self, path: Seq<char>, times: Seq<i64>) -> bool {
        &&& self.path@ == path
        &&& self.count == times.len()
        &&& self.oldest == if times.len() == 0 {
            None
        } else {
            Some(least(times))
        }
        &&& self.newest == if times.len() == 0 {
            None
        } else {
            Some(greatest(times))
        }
    }
}

/// What is reported of a repository found at `location`, shown relative to
/// `root_path`, whose commits were made at `times`, in any order: nothing
/// where the location does not lie under the root.
pub fn repo_match(location: &str, root_path: &str, times: &Vec<i64>) -> (found: Option<RepoMatch>)
    ensures
        found.is_some() == simplified(location@, root_path@).is_some(),
        found.is_some() ==> found.unwrap().reports(
            simplified(location@, root_path@).unwrap(),
            times@,
        ),
{
    let summary = summarize(times);
    match try_simplified_repo_path(location, root_path) {
        Some(path) => Some(
            RepoMatch { path, oldest: summary.earliest, newest: summary.latest, count: summary.count },
        ),
        None => None,
    }
}

} // verus!

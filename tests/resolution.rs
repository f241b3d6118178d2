use ach::report::{parse_work_item_ids, report_lines, AchInfo};
use ach::resolver::{PullRequest, PullRequestSearch, SearchStep};

fn pr(id: i32) -> PullRequest {
    PullRequest { id, repository_id: format!("repo-{}", id) }
}

fn texts(items: &[&str]) -> Vec<String> {
    items.iter().map(|s| s.to_string()).collect()
}

/// Runs a search over the pull requests with the given ids and commit lists,
/// and returns the id found and how many commit lists were fetched.
fn run(head: &str, prs: &[(i32, &[&str])]) -> (Option<i32>, usize) {
    let candidates: Vec<PullRequest> = prs.iter().map(|(id, _)| pr(*id)).collect();
    let (mut search, mut step) = PullRequestSearch::new(head.to_string(), candidates);
    let mut fetched = 0;
    loop {
        match step {
            SearchStep::FetchCommits(p) => {
                let commits = prs.iter().find(|(id, _)| *id == p.id).unwrap().1;
                fetched += 1;
                assert!(search.awaits_commits());
                step = search.on_commits(&texts(commits));
            }
            SearchStep::Found(p) => {
                assert!(!search.awaits_commits());
                return (Some(p.id), fetched);
            }
            SearchStep::NotFound => {
                assert!(!search.awaits_commits());
                return (None, fetched);
            }
        }
    }
}

fn refs(items: &[Option<&str>]) -> Vec<Option<String>> {
    items.iter().map(|s| s.map(|t| t.to_string())).collect()
}

#[test]
fn single_match_found_anywhere() {
    let a: &[&str] = &["x1", "x2"];
    let b: &[&str] = &["y1", "abc123"];
    let c: &[&str] = &["z1"];
    assert_eq!(run("abc123", &[(1, b), (2, a), (3, c)]).0, Some(1));
    assert_eq!(run("abc123", &[(2, a), (1, b), (3, c)]).0, Some(1));
    assert_eq!(run("abc123", &[(2, a), (3, c), (1, b)]).0, Some(1));
}

#[test]
fn earlier_match_wins_and_stops() {
    let a: &[&str] = &["abc123"];
    let b: &[&str] = &["q", "abc123"];
    assert_eq!(run("abc123", &[(7, a), (8, b)]), (Some(7), 1));
    assert_eq!(run("abc123", &[(8, b), (7, a)]), (Some(8), 1));
}

#[test]
fn no_match_gives_absence() {
    let a: &[&str] = &["abc12", "ABC123"];
    let b: &[&str] = &[];
    assert_eq!(run("abc123", &[(1, a), (2, b)]), (None, 2));
}

#[test]
fn no_pull_requests_gives_absence() {
    let (search, step) = PullRequestSearch::new("abc123".to_string(), Vec::new());
    assert_eq!(step, SearchStep::NotFound);
    assert!(!search.awaits_commits());
}

#[test]
fn first_step_fetches_first_pull_request() {
    let (search, step) = PullRequestSearch::new("h".to_string(), vec![pr(5), pr(6)]);
    assert_eq!(step, SearchStep::FetchCommits(pr(5)));
    assert!(search.awaits_commits());
}

#[test]
fn commit_comparison_is_exact() {
    let a: &[&str] = &["abc1234", " abc123", "abc"];
    assert_eq!(run("abc123", &[(1, a)]).0, None);
}

#[test]
fn work_item_ids_are_read_in_order() {
    let r = refs(&[Some("101"), None, Some("102"), Some("+7"), Some("-3")]);
    assert_eq!(parse_work_item_ids(&r), Some(vec![101, 102, 7, -3]));
}

#[test]
fn work_item_id_not_numeric_fails() {
    assert_eq!(parse_work_item_ids(&refs(&[Some("101"), Some("abc")])), None);
    assert_eq!(parse_work_item_ids(&refs(&[Some("")])), None);
    assert_eq!(parse_work_item_ids(&refs(&[Some(" 5")])), None);
    assert_eq!(parse_work_item_ids(&refs(&[Some("-")])), None);
}

#[test]
fn work_item_id_out_of_range_fails() {
    assert_eq!(parse_work_item_ids(&refs(&[Some("2147483648")])), None);
    assert_eq!(parse_work_item_ids(&refs(&[Some("2147483647")])), Some(vec![2147483647]));
    assert_eq!(parse_work_item_ids(&refs(&[Some("-2147483648")])), Some(vec![-2147483648]));
}

#[test]
fn no_references_give_no_work_items() {
    assert_eq!(parse_work_item_ids(&Vec::new()), Some(Vec::new()));
}

#[test]
fn partial_success_on_unreadable_work_item() {
    let info = AchInfo::assemble(&pr(42), Some(refs(&[Some("101"), Some("x")])));
    assert_eq!(info, AchInfo { pr: 42, work_items: Vec::new() });
}

#[test]
fn partial_success_on_failed_fetch() {
    let info = AchInfo::assemble(&pr(42), None);
    assert_eq!(info, AchInfo { pr: 42, work_items: Vec::new() });
}

#[test]
fn assembled_report_keeps_service_order() {
    let info = AchInfo::assemble(&pr(9), Some(refs(&[Some("3"), Some("1"), Some("2")])));
    assert_eq!(info, AchInfo { pr: 9, work_items: vec![3, 1, 2] });
}

#[test]
fn end_to_end_report() {
    let a: &[&str] = &["fff000"];
    let b: &[&str] = &["aaa", "abc123"];
    let (found, _) = run("abc123", &[(41, a), (42, b)]);
    assert_eq!(found, Some(42));
    let info = AchInfo::assemble(&pr(42), Some(refs(&[Some("101"), Some("102")])));
    assert_eq!(
        report_lines(&Some(info)),
        vec![
            "Pull-request #42".to_string(),
            "Work-item #101".to_string(),
            "Work-item #102".to_string()
        ]
    );
}

#[test]
fn report_without_work_items() {
    let info = AchInfo { pr: -5, work_items: Vec::new() };
    assert_eq!(info.display_lines(), vec!["Pull-request #-5".to_string()]);
}

#[test]
fn no_match_report_line() {
    assert_eq!(report_lines(&None), vec!["no pr info found".to_string()]);
}

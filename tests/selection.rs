use gitlab_roulette::lookup::{check_issue_id, find_project, validate_issue_id, IdInputError};
use gitlab_roulette::model::{Issue, Milestone, Project, SelectionKind};
use gitlab_roulette::select::{
    distinct_milestones, select_by_milestones, select_by_range, select_manual,
};

fn milestone(id: i32, title: &str) -> Milestone {
    Milestone {
        id,
        project_id: 7,
        title: title.to_string(),
        description: String::new(),
        state: "active".to_string(),
    }
}

fn issue(id: i32, ms: Option<Milestone>) -> Issue {
    Issue {
        id,
        iid: id + 100,
        project_id: 7,
        title: format!("issue {}", id),
        description: String::new(),
        state: "opened".to_string(),
        kind: "issue".to_string(),
        assignees: Vec::new(),
        milestone: ms,
    }
}

fn five_issues() -> Vec<Issue> {
    (1..=5).map(|i| issue(i, None)).collect()
}

#[test]
fn range_is_inclusive_on_both_ends() {
    let issues = five_issues();
    assert_eq!(select_by_range(&issues, 2, 4), vec![1, 2, 3]);
}

#[test]
fn range_reversed_is_empty() {
    let issues = five_issues();
    assert!(select_by_range(&issues, 4, 2).is_empty());
}

#[test]
fn range_equal_bounds_gives_single_issue() {
    let issues = five_issues();
    assert_eq!(select_by_range(&issues, 3, 3), vec![2]);
    assert!(select_by_range(&issues, 9, 9).is_empty());
}

#[test]
fn range_on_no_issues_is_empty() {
    assert!(select_by_range(&Vec::new(), 1, 5).is_empty());
}

#[test]
fn milestones_are_deduplicated_by_id_in_first_seen_order() {
    let issues = vec![
        issue(1, Some(milestone(20, "beta"))),
        issue(2, None),
        issue(3, Some(milestone(10, "alpha"))),
        issue(4, Some(milestone(20, "beta renamed"))),
    ];
    let ms = distinct_milestones(&issues);
    assert_eq!(ms.len(), 2);
    assert_eq!(ms[0].id, 20);
    assert_eq!(ms[0].title, "beta");
    assert_eq!(ms[1].id, 10);
}

#[test]
fn milestone_equality_is_by_id() {
    assert!(milestone(3, "a") == milestone(3, "b"));
    assert!(milestone(3, "a") != milestone(4, "a"));
}

#[test]
fn milestone_strategy_skips_issues_without_milestone() {
    let issues = vec![
        issue(1, Some(milestone(20, "beta"))),
        issue(2, None),
        issue(3, Some(milestone(10, "alpha"))),
        issue(4, Some(milestone(20, "beta"))),
    ];
    let all = distinct_milestones(&issues);
    assert_eq!(select_by_milestones(&issues, &all), vec![0, 2, 3]);
    assert_eq!(select_by_milestones(&issues, &vec![milestone(20, "other title")]), vec![0, 3]);
    assert!(select_by_milestones(&issues, &Vec::new()).is_empty());
}

#[test]
fn manual_selection_comes_back_in_issue_order() {
    assert_eq!(select_manual(5, &vec![4, 0, 2, 2]), vec![0, 2, 4]);
    assert_eq!(select_manual(3, &vec![7, 1]), vec![1]);
    assert!(select_manual(3, &Vec::new()).is_empty());
}

#[test]
fn selection_is_repeatable() {
    let issues = five_issues();
    assert_eq!(select_by_range(&issues, 1, 3), select_by_range(&issues, 1, 3));
    assert_eq!(select_manual(5, &vec![3, 1]), select_manual(5, &vec![3, 1]));
}

#[test]
fn typed_id_must_be_an_existing_issue() {
    let issues = five_issues();
    assert_eq!(validate_issue_id(&issues, "4"), Ok(4));
    assert_eq!(validate_issue_id(&issues, "42"), Err(IdInputError::UnknownIssue));
    assert_eq!(validate_issue_id(&issues, "four"), Err(IdInputError::NotANumber));
    assert_eq!(validate_issue_id(&issues, ""), Err(IdInputError::NotANumber));
    assert_eq!(check_issue_id(&issues, Some(2)), Ok(2));
    assert_eq!(check_issue_id(&issues, Some(0)), Err(IdInputError::UnknownIssue));
    assert_eq!(check_issue_id(&issues, None), Err(IdInputError::NotANumber));
}

#[test]
fn project_is_found_by_web_url() {
    let p = |id: i32, url: &str| Project {
        id,
        name: format!("p{}", id),
        path_with_namespace: format!("group/p{}", id),
        web_url: url.to_string(),
    };
    let projects = vec![p(1, "https://x.org/a"), p(2, "https://x.org/b"), p(3, "https://x.org/b")];
    assert_eq!(find_project(&projects, &"https://x.org/b".to_string()), Some(1));
    assert_eq!(find_project(&projects, &"https://x.org/c".to_string()), None);
}

#[test]
fn selection_kinds_are_offered_in_order() {
    assert_eq!(
        SelectionKind::all(),
        vec![SelectionKind::Milestone, SelectionKind::Range, SelectionKind::Manual]
    );
}

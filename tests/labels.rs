use gitlab_roulette::label::push_decimal;
use gitlab_roulette::model::{Issue, Member, Milestone, SelectionKind};

fn milestone(id: i32, title: &str) -> Milestone {
    Milestone {
        id,
        project_id: 1,
        title: title.to_string(),
        description: String::new(),
        state: "active".to_string(),
    }
}

#[test]
fn issue_label_shows_iid_and_title() {
    let issue = Issue {
        id: 5001,
        iid: 12,
        project_id: 1,
        title: "Fix login".to_string(),
        description: String::new(),
        state: "opened".to_string(),
        kind: "issue".to_string(),
        assignees: Vec::new(),
        milestone: None,
    };
    assert_eq!(issue.label(), "#12: Fix login");
}

#[test]
fn member_label_shows_name_and_username() {
    let m = Member { id: 3, username: "jdoe".to_string(), name: "Jo Doe".to_string() };
    assert_eq!(m.label(), "Jo Doe (jdoe)");
}

#[test]
fn milestone_label_shows_id_and_title() {
    assert_eq!(milestone(40, "v1.0").label(), "%40: v1.0");
}

#[test]
fn selection_kind_labels() {
    assert_eq!(SelectionKind::Milestone.label(), "Milestone");
    assert_eq!(SelectionKind::Range.label(), "Range");
    assert_eq!(SelectionKind::Manual.label(), "Manual");
}

#[test]
fn decimal_text_of_edge_values() {
    for n in [0, 7, 10, 905, -1, -230, i32::MAX, i32::MIN] {
        let mut s = String::from("x");
        push_decimal(&mut s, n);
        assert_eq!(s, format!("x{}", n));
    }
}

use repo_sync::config::{Milestone, Repo};
use repo_sync::milestones::{
    diff_milestone, diff_milestones, issue_reassignments, migration_source, migration_sources,
    milestone_request, Error, Issue, IssuePatch, MilestoneDiscrepancy, MilestoneRequest, MilestoneUpdate,
    RemoteMilestone,
};

fn want(title: &str, replaces: Option<&str>) -> Milestone {
    Milestone {
        title: title.to_string(),
        description: Some("d".to_string()),
        state: Some("open".to_string()),
        due: Some("2024-05-01".to_string()),
        replaces: replaces.map(|r| r.to_string()),
    }
}

fn remote(number: i64, title: &str, open_issues: Option<i64>) -> RemoteMilestone {
    RemoteMilestone {
        number,
        title: title.to_string(),
        description: Some("d".to_string()),
        state: Some("open".to_string()),
        due: Some("2024-05-01".to_string()),
        open_issues,
    }
}

fn repo() -> Repo {
    Repo { org: "acme".to_string(), repo: "widgets".to_string() }
}

#[test]
fn replaced_milestone_with_open_issues_is_a_source() {
    let current = vec![remote(7, "A", Some(3)), remote(8, "B", Some(0))];
    assert!(matches!(migration_source(&want("B", Some("A")), &current), Ok(Some(7))));
    assert!(matches!(migration_source(&want("C", Some("B")), &current), Ok(None)));
    assert!(matches!(migration_source(&want("B", None), &current), Ok(None)));
    let current = vec![remote(7, "A", None)];
    assert!(matches!(migration_source(&want("B", Some("A")), &current), Ok(None)));
}

#[test]
fn absent_replacement_target_is_an_error() {
    let current = vec![remote(7, "A", Some(3))];
    match migration_source(&want("B", Some("Gone")), &current) {
        Err(Error::ReplacementTargetNotFound(t)) => assert_eq!(t, "Gone"),
        _ => panic!("expected an error"),
    }
    let desired = vec![want("B", Some("A")), want("C", Some("Gone")), want("D", Some("Lost"))];
    match migration_sources(&desired, &current) {
        Err(Error::ReplacementTargetNotFound(t)) => assert_eq!(t, "Gone"),
        _ => panic!("expected an error"),
    }
    let desired = vec![want("B", Some("A")), want("C", None)];
    assert_eq!(migration_sources(&desired, &current).ok(), Some(vec![Some(7), None]));
}

#[test]
fn migration_carries_all_open_issues_even_when_in_sync() {
    let current = vec![remote(7, "A", Some(3)), remote(9, "B", Some(0))];
    let issues = vec![Issue { number: 1 }, Issue { number: 2 }, Issue { number: 3 }];
    let desired = vec![want("B", Some("A"))];
    let updates = diff_milestones(&repo(), &desired, &current, &vec![issues.clone()]);
    assert_eq!(updates.len(), 1);
    assert_eq!(updates[0].issues, issues);
    assert!(matches!(updates[0].why, MilestoneDiscrepancy::Changed(_, 9, _)));
    let patches = issue_reassignments(&updates[0], 9);
    assert_eq!(
        patches,
        vec![
            IssuePatch { issue: 1, milestone: 9 },
            IssuePatch { issue: 2, milestone: 9 },
            IssuePatch { issue: 3, milestone: 9 }
        ]
    );
}

#[test]
fn new_replacing_milestone_is_missing_with_issues() {
    let current = vec![remote(7, "A", Some(1))];
    let updates = diff_milestones(&repo(), &vec![want("B", Some("A"))], &current, &vec![vec![Issue { number: 4 }]]);
    assert_eq!(updates.len(), 1);
    assert!(matches!(updates[0].why, MilestoneDiscrepancy::Missing(_)));
    assert_eq!(updates[0].issues, vec![Issue { number: 4 }]);
}

#[test]
fn milestone_in_sync_without_issues_gives_nothing() {
    let current = vec![remote(9, "B", Some(0))];
    assert!(diff_milestone(&want("B", None), &current, &vec![]).is_none());
    let mut other_due = remote(9, "B", Some(0));
    other_due.due = Some("2024-06-01".to_string());
    match diff_milestone(&want("B", None), &vec![other_due], &vec![]) {
        Some(MilestoneDiscrepancy::Changed(w, n, c)) => {
            assert_eq!(n, 9);
            assert_eq!(w.due, Some("2024-05-01".to_string()));
            assert_eq!(c.due, Some("2024-06-01".to_string()));
            assert_eq!(c.replaces, None);
        }
        _ => panic!("expected a change"),
    }
    let mut no_state = want("B", None);
    no_state.state = None;
    assert!(diff_milestone(&no_state, &current, &vec![]).is_some());
}

#[test]
fn milestone_requests_follow_discrepancies() {
    match milestone_request(&MilestoneDiscrepancy::Missing(want("B", None))) {
        MilestoneRequest::Create(p) => {
            assert_eq!(p.title, "B");
            assert_eq!(p.due_on, Some("2024-05-01".to_string()));
        }
        _ => panic!("expected create"),
    }
    match milestone_request(&MilestoneDiscrepancy::Changed(want("B", None), 12, want("B", None))) {
        MilestoneRequest::Update(n, p) => {
            assert_eq!(n, 12);
            assert_eq!(p.state, Some("open".to_string()));
            assert_eq!(p.description, Some("d".to_string()));
        }
        _ => panic!("expected update"),
    }
}

/// Plays the requests against a listing as the tracker would; fields left out
/// of a request keep their value, and moved issues leave the old milestone.
fn apply(current: &mut Vec<RemoteMilestone>, updates: &[MilestoneUpdate], sources: &[&str]) {
    for u in updates {
        let number = match milestone_request(&u.why) {
            MilestoneRequest::Create(p) => {
                let number = 100 + current.len() as i64;
                current.push(RemoteMilestone {
                    number,
                    title: p.title,
                    description: p.description,
                    state: p.state,
                    due: p.due_on,
                    open_issues: Some(0),
                });
                number
            }
            MilestoneRequest::Update(n, p) => {
                for m in current.iter_mut().filter(|m| m.number == n) {
                    if p.description.is_some() {
                        m.description = p.description.clone();
                    }
                    if p.state.is_some() {
                        m.state = p.state.clone();
                    }
                    if p.due_on.is_some() {
                        m.due = p.due_on.clone();
                    }
                }
                n
            }
        };
        let moved = issue_reassignments(u, number).len() as i64;
        for title in sources {
            for m in current.iter_mut().filter(|m| m.title == *title) {
                m.open_issues = m.open_issues.map(|c| c - moved);
            }
        }
    }
}

#[test]
fn milestones_converge_after_applying() {
    let mut current = vec![remote(7, "A", Some(2)), remote(8, "B", Some(0))];
    current[1].description = Some("old".to_string());
    let desired = vec![want("B", Some("A")), want("C", None)];
    let sources = migration_sources(&desired, &current).ok().unwrap();
    assert_eq!(sources, vec![Some(7), None]);
    let issues = vec![vec![Issue { number: 1 }, Issue { number: 2 }], vec![]];
    let updates = diff_milestones(&repo(), &desired, &current, &issues);
    assert_eq!(updates.len(), 2);
    apply(&mut current, &updates, &["A"]);
    assert_eq!(migration_sources(&desired, &current).ok().unwrap(), vec![None, None]);
    assert!(diff_milestones(&repo(), &desired, &current, &vec![vec![], vec![]]).is_empty());
}

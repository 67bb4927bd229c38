use repo_sync::prefix::{PRType, PRTypeError};

struct TestCase {
    pub title: &'static str,
    pub expected_result: Result<PRType, PRTypeError>,
}

#[test]
fn title_cases() {
    let test_cases = vec![
        TestCase {
            title: "WIP: [docs] Update documentation",
            expected_result: Err(("Update documentation".to_string(), None)),
        },
        TestCase {
            title: "WIP: :sparkles: Add new feature",
            expected_result: Ok(PRType::Feature("Add new feature".to_string())),
        },
        TestCase {
            title: "WIP: :warning: Breaking change",
            expected_result: Ok(PRType::Breaking("Breaking change".to_string())),
        },
        TestCase {
            title: "WIP: :bug: Fix bug",
            expected_result: Ok(PRType::BugFix("Fix bug".to_string())),
        },
        TestCase {
            title: ":ghost: Don't put me in release notes",
            expected_result: Ok(PRType::NoNote("Don't put me in release notes".to_string())),
        },
        TestCase {
            title: "WIP: :seedling: Infrastructure change",
            expected_result: Ok(PRType::Infra("Infrastructure change".to_string())),
        },
        TestCase {
            title: "WIP: No prefix in title",
            expected_result: Err(("No prefix in title".to_string(), None)),
        },
        TestCase {
            title: "No prefix in title",
            expected_result: Err(("No prefix in title".to_string(), None)),
        },
        TestCase {
            title: "WIP:",
            expected_result: Err(("".to_string(), None)),
        },
        TestCase {
            title: "",
            expected_result: Err(("".to_string(), None)),
        },
        TestCase {
            title: "WIP: [tag] :sparkles: Add new feature",
            expected_result: Ok(PRType::Feature("Add new feature".to_string())),
        },
        TestCase {
            title: "👻 I should have used the alias",
            expected_result: Err((
                "👻 I should have used the alias".to_string(),
                Some("👻".to_string()),
            )),
        },
    ];

    for tc in test_cases {
        let pr = PRType::from_title(tc.title);
        assert_eq!(tc.expected_result, pr);
    }
}

#[test]
fn wip_bug_fix_is_classified() {
    assert_eq!(
        PRType::from_title("WIP: :bug: Fix bug"),
        Ok(PRType::BugFix("Fix bug".to_string()))
    );
}

#[test]
fn tag_without_marker_is_refused() {
    assert_eq!(
        PRType::from_title("WIP: [docs] Update documentation"),
        Err(("Update documentation".to_string(), None))
    );
}

#[test]
fn emoji_in_place_of_marker_is_named() {
    assert_eq!(
        PRType::from_title("👻 I should have used the alias"),
        Err(("👻 I should have used the alias".to_string(), Some("👻".to_string())))
    );
}

#[test]
fn empty_title_is_refused() {
    assert_eq!(PRType::from_title(""), Err(("".to_string(), None)));
}

#[test]
fn wip_and_tag_are_both_stripped() {
    assert_eq!(
        PRType::from_title("WIP: [tag] :sparkles: Add new feature"),
        Ok(PRType::Feature("Add new feature".to_string()))
    );
}

#[test]
fn wip_marker_is_case_insensitive() {
    assert_eq!(
        PRType::from_title("[wip] :book: Describe it"),
        Ok(PRType::Docs("Describe it".to_string()))
    );
    assert_eq!(
        PRType::from_title("wip :book: Describe it"),
        Ok(PRType::Docs("Describe it".to_string()))
    );
}

#[test]
fn variation_selector_after_marker_is_dropped() {
    assert_eq!(
        PRType::classify(":warning:\u{FE0F}  Careful "),
        Ok(PRType::Breaking("Careful".to_string()))
    );
}

#[test]
fn classify_takes_markers_in_priority_order() {
    assert_eq!(
        PRType::classify(":seedling: build"),
        Ok(PRType::Infra("build".to_string()))
    );
    assert_eq!(
        PRType::classify(":ghost::bug: x"),
        Ok(PRType::NoNote(":bug: x".to_string()))
    );
}

#[test]
fn classify_names_each_emoji() {
    assert_eq!(
        PRType::classify("✨ new"),
        Err(("✨ new".to_string(), Some("✨".to_string())))
    );
    assert_eq!(
        PRType::classify("⚠️ breaking"),
        Err(("⚠️ breaking".to_string(), Some("⚠".to_string())))
    );
    assert_eq!(
        PRType::classify("🐛 bug"),
        Err(("🐛 bug".to_string(), Some("🐛".to_string())))
    );
}

#[test]
fn classify_empty_value() {
    assert_eq!(PRType::classify(""), Err(("".to_string(), None)));
}

#[test]
fn title_returns_remaining_text() {
    let pr = PRType::from_title(":book: Write docs").unwrap();
    assert_eq!(pr.title(), "Write docs".to_string());
}

#[test]
fn describe_names_category_and_title() {
    assert_eq!(
        PRType::BugFix("Fix bug".to_string()).describe(),
        "PR type 'Bug'\n PR title 'Fix bug'"
    );
    assert_eq!(
        PRType::NoNote("x".to_string()).describe(),
        "PR type 'NoNote'\n PR title 'x'"
    );
}

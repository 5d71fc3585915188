use search_util::reconcile::{Action, Phase, Reconciler};

fn strings(items: &[&str]) -> Vec<String> {
    items.iter().map(|s| s.to_string()).collect()
}

/// Drive a run to completion against canned fetch responses, recording every
/// update the machine asks for.
fn run_against(
    desired_searchable: &[&str],
    desired_filterable: &[&str],
    current_searchable: &[&str],
    current_filterable: &[&str],
) -> Vec<(&'static str, Vec<String>)> {
    let mut rec = Reconciler::new(strings(desired_searchable), strings(desired_filterable));
    let current_s = strings(current_searchable);
    let current_f = strings(current_filterable);
    let mut updates = Vec::new();
    loop {
        match rec.next_action() {
            Action::FetchSearchable => rec.on_fetched(&current_s),
            Action::FetchFilterable => rec.on_fetched(&current_f),
            Action::SetSearchable(payload) => {
                updates.push(("searchable", payload));
                rec.on_updated();
            }
            Action::SetFilterable(payload) => {
                updates.push(("filterable", payload));
                rec.on_updated();
            }
            Action::Finish => return updates,
            Action::Abort => panic!("reconciliation failed"),
        }
    }
}

#[test]
fn matching_attributes_issue_no_update() {
    let updates = run_against(
        &["title", "body"],
        &["acl"],
        &["title", "body"],
        &["acl"],
    );
    assert_eq!(updates, Vec::<(&str, Vec<String>)>::new());
}

#[test]
fn differing_searchable_issues_exactly_one_update_with_exact_payload() {
    let updates = run_against(
        &["title", "body", "tags"],
        &["acl"],
        &["title", "body"],
        &["acl"],
    );
    assert_eq!(updates, vec![("searchable", strings(&["title", "body", "tags"]))]);
}

#[test]
fn filterable_is_checked_independently_of_searchable_outcome() {
    let updates = run_against(
        &["title", "body", "tags"],
        &["acl", "series"],
        &["title", "body"],
        &["acl"],
    );
    assert_eq!(
        updates,
        vec![
            ("searchable", strings(&["title", "body", "tags"])),
            ("filterable", strings(&["acl", "series"])),
        ]
    );
}

#[test]
fn only_filterable_differs() {
    let updates = run_against(&["title"], &["acl", "series"], &["title"], &["acl"]);
    assert_eq!(updates, vec![("filterable", strings(&["acl", "series"]))]);
}

#[test]
fn comparison_is_order_sensitive() {
    let updates = run_against(&["title", "body"], &[], &["body", "title"], &[]);
    assert_eq!(updates, vec![("searchable", strings(&["title", "body"]))]);
}

#[test]
fn empty_lists_compare_equal() {
    let updates = run_against(&[], &[], &[], &[]);
    assert_eq!(updates, Vec::<(&str, Vec<String>)>::new());
}

#[test]
fn error_aborts_the_run() {
    let mut rec = Reconciler::new(strings(&["title"]), strings(&[]));
    assert!(matches!(rec.next_action(), Action::FetchSearchable));
    rec.on_error();
    assert_eq!(rec.phase(), Phase::Failed);
    assert!(rec.is_finished());
    assert!(matches!(rec.next_action(), Action::Abort));
}

#[test]
fn searchable_failure_leaves_filterable_unattempted() {
    let mut rec = Reconciler::new(strings(&["title", "tags"]), strings(&["acl"]));
    match rec.next_action() {
        Action::FetchSearchable => rec.on_fetched(&strings(&["title"])),
        other => panic!("unexpected action {:?}", action_name(&other)),
    }
    match rec.next_action() {
        Action::SetSearchable(_) => rec.on_error(),
        other => panic!("unexpected action {:?}", action_name(&other)),
    }
    assert_eq!(rec.phase(), Phase::Failed);
    assert!(matches!(rec.next_action(), Action::Abort));
}

fn action_name(action: &Action) -> &'static str {
    match action {
        Action::FetchSearchable => "FetchSearchable",
        Action::SetSearchable(_) => "SetSearchable",
        Action::FetchFilterable => "FetchFilterable",
        Action::SetFilterable(_) => "SetFilterable",
        Action::Finish => "Finish",
        Action::Abort => "Abort",
    }
}

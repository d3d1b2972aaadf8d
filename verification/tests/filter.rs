use taskboard::domain::Task;
use taskboard::filter::filter_tasks;

fn task(name: &str, done: bool) -> Task {
    Task { name: name.to_string(), done }
}

#[test]
fn filter_keeps_original_indices_and_order() {
    let tasks = vec![task("alpha", false), task("beta", true), task("gamma", false)];
    let visible = filter_tasks(&tasks, true, "");
    assert_eq!(visible.len(), 2);
    assert_eq!(visible[0].0, 0);
    assert_eq!(visible[0].1.name, "alpha");
    assert_eq!(visible[1].0, 2);
    assert_eq!(visible[1].1.name, "gamma");
}

#[test]
fn filter_without_flags_shows_everything() {
    let tasks = vec![task("a", true), task("b", false)];
    let visible = filter_tasks(&tasks, false, "");
    assert_eq!(visible.len(), 2);
}

#[test]
fn filter_search_is_case_insensitive() {
    let tasks = vec![task("Buy MILK", false), task("walk dog", false)];
    let visible = filter_tasks(&tasks, false, "milk");
    assert_eq!(visible.len(), 1);
    assert_eq!(visible[0].0, 0);
    let visible = filter_tasks(&tasks, false, "MILK");
    assert_eq!(visible.len(), 1);
    assert_eq!(visible[0].0, 0);
}

#[test]
fn filter_search_matches_substring() {
    let tasks = vec![task("prepare report", false), task("port code", false)];
    let visible = filter_tasks(&tasks, false, "por");
    assert_eq!(visible.len(), 2);
    let visible = filter_tasks(&tasks, false, "report");
    assert_eq!(visible.len(), 1);
    assert_eq!(visible[0].0, 0);
}

#[test]
fn filter_blank_search_matches_everything() {
    let tasks = vec![task("a", false), task("b", false)];
    let visible = filter_tasks(&tasks, false, "   ");
    assert_eq!(visible.len(), 2);
}

#[test]
fn filter_combines_hide_completed_and_search() {
    let tasks = vec![
        task("pay rent", true),
        task("pay phone", false),
        task("buy milk", false),
    ];
    let visible = filter_tasks(&tasks, true, "pay");
    assert_eq!(visible.len(), 1);
    assert_eq!(visible[0].0, 1);
    assert_eq!(visible[0].1.name, "pay phone");
}

#[test]
fn filter_with_no_match_is_empty() {
    let tasks = vec![task("alpha", false)];
    let visible = filter_tasks(&tasks, false, "zzz");
    assert_eq!(visible.len(), 0);
}

#[test]
fn filter_of_empty_list_is_empty() {
    let tasks: Vec<Task> = Vec::new();
    let visible = filter_tasks(&tasks, false, "x");
    assert_eq!(visible.len(), 0);
}

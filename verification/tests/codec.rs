use taskboard::domain::{Project, Task};
use taskboard::json::{decode_state, encode_state};

fn project(name: &str, tasks: Vec<Task>) -> Project {
    Project { name: name.to_string(), tasks }
}

fn task(name: &str, done: bool) -> Task {
    Task { name: name.to_string(), done }
}

fn assert_same(a: &[Project], b: &[Project]) {
    assert_eq!(a.len(), b.len());
    for (pa, pb) in a.iter().zip(b.iter()) {
        assert_eq!(pa.name, pb.name);
        assert_eq!(pa.tasks.len(), pb.tasks.len());
        for (ta, tb) in pa.tasks.iter().zip(pb.tasks.iter()) {
            assert_eq!(ta.name, tb.name);
            assert_eq!(ta.done, tb.done);
        }
    }
}

#[test]
fn encode_produces_exact_canonical_text() {
    let projects = vec![project("A", vec![task("T", false)])];
    let text = encode_state(&projects);
    assert_eq!(text, "[{\"name\":\"A\",\"tasks\":[{\"name\":\"T\",\"done\":false}]}]");
}

#[test]
fn encode_empty_list_is_empty_array() {
    let projects: Vec<Project> = Vec::new();
    assert_eq!(encode_state(&projects), "[]");
}

#[test]
fn encode_escapes_quotes_backslashes_and_controls() {
    let projects = vec![project("a\"b\\c\nd", Vec::new())];
    let text = encode_state(&projects);
    assert_eq!(text, "[{\"name\":\"a\\\"b\\\\c\\u000ad\",\"tasks\":[]}]");
}

#[test]
fn round_trip_plain_names() {
    let projects = vec![
        project("Home", vec![task("Buy milk", false), task("Walk dog", true)]),
        project("Work", Vec::new()),
    ];
    let decoded = decode_state(&encode_state(&projects));
    assert_same(&projects, &decoded);
}

#[test]
fn round_trip_empty_list() {
    let projects: Vec<Project> = Vec::new();
    let decoded = decode_state(&encode_state(&projects));
    assert_eq!(decoded.len(), 0);
}

#[test]
fn round_trip_awkward_names() {
    let projects = vec![
        project(
            "quotes \" and \\ backslash",
            vec![task("tab\tand\nnewline", true), task("control\u{1}\u{1f}", false)],
        ),
        project("unicode \u{00e9}\u{4e2d}\u{1f600}", vec![task("caf\u{e9}", false)]),
        project("[]{},:\"true\"false", Vec::new()),
    ];
    let decoded = decode_state(&encode_state(&projects));
    assert_same(&projects, &decoded);
}

#[test]
fn round_trip_duplicate_projects() {
    let projects = vec![project("Same", Vec::new()), project("Same", Vec::new())];
    let decoded = decode_state(&encode_state(&projects));
    assert_same(&projects, &decoded);
}

#[test]
fn decode_of_malformed_text_is_empty() {
    assert_eq!(decode_state("").len(), 0);
    assert_eq!(decode_state("not json").len(), 0);
    assert_eq!(decode_state("{").len(), 0);
    assert_eq!(decode_state("[{\"name\":\"A\"}]").len(), 0);
    assert_eq!(decode_state("[{\"name\":\"A\",\"tasks\":[]}] trailing").len(), 0);
    assert_eq!(decode_state("[{\"name\":\"A\",\"tasks\":[]}").len(), 0);
}

#[test]
fn decode_of_canonical_text_builds_the_list() {
    let decoded =
        decode_state("[{\"name\":\"A\",\"tasks\":[{\"name\":\"T\",\"done\":true}]}]");
    assert_eq!(decoded.len(), 1);
    assert_eq!(decoded[0].name, "A");
    assert_eq!(decoded[0].tasks.len(), 1);
    assert_eq!(decoded[0].tasks[0].name, "T");
    assert!(decoded[0].tasks[0].done);
}

#[test]
fn decode_unescapes_control_sequences() {
    let decoded = decode_state("[{\"name\":\"a\\u000ab\",\"tasks\":[]}]");
    assert_eq!(decoded.len(), 1);
    assert_eq!(decoded[0].name, "a\nb");
}

use checkpr::label::{build_note_message, note_line, sort_notes, Label, Note};

fn note(prefix: &str, num: usize, idx: usize, n: usize) -> Note {
    Note {
        url_prefix: prefix.to_string(),
        pr_num: num,
        commit_index: idx,
        n_commits: n,
    }
}

#[test]
fn label_parses_three_fields() {
    let l = Label::from_str("github/pr:master,main:https://example.net/pr/").expect("parses");
    assert_eq!(l.pr_ref, "github/pr");
    assert_eq!(l.master, vec!["master".to_string(), "main".to_string()]);
    assert_eq!(l.url_prefix, "https://example.net/pr/");

    // everything after the second colon belongs to the URL prefix
    let l = Label::from_str("p:m:https://example.net:8080/x").expect("parses");
    assert_eq!(l.url_prefix, "https://example.net:8080/x");
}

#[test]
fn label_reports_missing_fields() {
    assert_eq!(
        Label::from_str("justref").unwrap_err(),
        "missing branches field in justref"
    );
    assert_eq!(
        Label::from_str("ref:master").unwrap_err(),
        "missing url_prefix field in ref:master"
    );
}

#[test]
fn notes_sort_by_prefix_then_number() {
    let notes = vec![
        note("https://b/", 1, 1, 1),
        note("https://a/", 9, 1, 1),
        note("https://a/", 2, 1, 1),
    ];
    let sorted = sort_notes(notes);
    assert_eq!(sorted.len(), 3);
    assert_eq!((sorted[0].url_prefix.as_str(), sorted[0].pr_num), ("https://a/", 2));
    assert_eq!((sorted[1].url_prefix.as_str(), sorted[1].pr_num), ("https://a/", 9));
    assert_eq!((sorted[2].url_prefix.as_str(), sorted[2].pr_num), ("https://b/", 1));
}

#[test]
fn note_lines_and_message() {
    let n = note("https://example.net/pr/", 5, 2, 3);
    assert_eq!(note_line(&n), "PR: https://example.net/pr/5 (2/3)\n");

    let notes = vec![note("https://a/", 1, 1, 2), note("https://a/", 1, 2, 2)];
    assert_eq!(
        build_note_message(&notes),
        "PR: https://a/1 (1/2)\nPR: https://a/1 (2/2)\n"
    );
}

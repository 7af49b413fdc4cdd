use markdown_links::graphapp::GraphAppFlags;
use markdown_links::graphreader::{generate_graph, Diagnostic, RawNote};
use markdown_links::launch::{notes_directory, UsageError};

fn args(items: &[&str]) -> Vec<String> {
    items.iter().map(|s| s.to_string()).collect()
}

#[test]
fn without_an_argument_the_notes_are_in_the_current_directory() {
    assert_eq!(notes_directory(&args(&["program"])), Ok(".".to_string()));
}

#[test]
fn with_one_argument_the_notes_are_where_it_says() {
    assert_eq!(notes_directory(&args(&["program", "/home/me/notes"])), Ok("/home/me/notes".to_string()));
    assert_eq!(notes_directory(&args(&["program", ""])), Ok("".to_string()));
}

#[test]
fn more_arguments_are_an_error() {
    assert_eq!(notes_directory(&args(&["program", "a", "b"])), Err(UsageError::InvalidArguments));
    assert_eq!(notes_directory(&args(&["program", "a", "b", "c"])), Err(UsageError::InvalidArguments));
    assert_eq!(notes_directory(&args(&[])), Err(UsageError::InvalidArguments));
}

#[test]
fn diagnostics_in_words() {
    let dangling = Diagnostic::DanglingLink { source: "C".to_string(), target: "Z".to_string() };
    assert_eq!(dangling.message(), "Z is a bad link from C");
    assert_eq!(Diagnostic::SelfReference { id: "a".to_string() }.message(), "Self reference in a");
    assert_eq!(Diagnostic::Orphan { id: "lonely".to_string() }.message(), "lonely has no neighbors");
    assert_eq!(Diagnostic::Unreadable { id: "bin".to_string() }.message(), "bin could not be read");
}

#[test]
fn flags_hold_the_graph() {
    let notes = vec![
        RawNote { id: "a".to_string(), content: Some(b"[[b]]".to_vec()) },
        RawNote { id: "b".to_string(), content: Some(Vec::new()) },
    ];
    let built = generate_graph(&notes).unwrap();
    let flags = GraphAppFlags::from_graph(built.graph);
    assert_eq!(flags.graph.node_count(), 2);
    assert_eq!(flags.graph.edge_count(), 1);
    let names: Vec<&str> = flags.graph.node_weights().map(|node| node.name.as_str()).collect();
    assert_eq!(names, vec!["a", "b"]);
}

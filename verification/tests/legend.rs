use docsman::legend::{build_legend, has_markdown_extension};

fn comps(parts: &[&str]) -> Vec<String> {
    parts.iter().map(|p| p.to_string()).collect()
}

#[test]
fn legend_lists_markdown_files_only() {
    let root = comps(&["docs"]);
    let files = vec![
        comps(&["docs", "a.md"]),
        comps(&["docs", "sub", "b.md"]),
        comps(&["docs", "c.txt"]),
    ];
    let legend = build_legend(&root, &files);
    // Order-independent set equality.
    assert_eq!(legend.len(), 2);
    assert!(legend.contains(&"a.md".to_string()));
    assert!(legend.contains(&"sub/b.md".to_string()));
    assert!(!legend.contains(&"c.txt".to_string()));
}

#[test]
fn legend_skips_files_outside_the_root() {
    let root = comps(&["docs"]);
    let files = vec![comps(&["elsewhere", "a.md"]), comps(&["docs", "b.md"])];
    let legend = build_legend(&root, &files);
    assert_eq!(legend, vec!["b.md".to_string()]);
}

#[test]
fn legend_of_no_files_is_empty() {
    let root = comps(&["docs"]);
    let legend = build_legend(&root, &Vec::new());
    assert!(legend.is_empty());
}

#[test]
fn markdown_extension_checks_the_last_three_characters() {
    assert!(has_markdown_extension(&"a.md".to_string()));
    assert!(has_markdown_extension(&".md".to_string()));
    assert!(!has_markdown_extension(&"md".to_string()));
    assert!(!has_markdown_extension(&"a.txt".to_string()));
    assert!(!has_markdown_extension(&"a.md.bak".to_string()));
}

#[test]
fn legend_includes_a_newly_created_file() {
    let root = comps(&["docs"]);
    let before = vec![comps(&["docs", "a.md"])];
    assert!(!build_legend(&root, &before).contains(&"new.md".to_string()));
    let after = vec![comps(&["docs", "a.md"]), comps(&["docs", "new.md"])];
    let legend = build_legend(&root, &after);
    assert!(legend.contains(&"new.md".to_string()));
    assert_eq!(legend.len(), 2);
}

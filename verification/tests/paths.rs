use docsman::paths::{check_descendant, join_from, relative_to_root, resolve};
use docsman::DocsmanError;

fn comps(parts: &[&str]) -> Vec<String> {
    parts.iter().map(|p| p.to_string()).collect()
}

#[test]
fn resolve_rejects_paths_outside_the_root() {
    let root = comps(&["home", "docs"]);
    // What `docs/../other/secret.md` canonicalizes to: a sibling of the root.
    let outside = comps(&["home", "other", "secret.md"]);
    match resolve(&root, &outside) {
        Err(e) => assert_eq!(e, DocsmanError::PathEscape),
        Ok(_) => panic!("a path outside the sandbox root must be rejected"),
    }
}

#[test]
fn resolve_rejects_a_proper_prefix_of_the_root() {
    let root = comps(&["home", "docs"]);
    let parent = comps(&["home"]);
    assert!(resolve(&root, &parent).is_err());
}

#[test]
fn resolve_accepts_files_under_the_root() {
    let root = comps(&["home", "docs"]);
    let inside = comps(&["home", "docs", "sub", "guide.md"]);
    let resolved = resolve(&root, &inside).expect("a descendant resolves");
    assert_eq!(resolved.file_name(), Some("guide.md".to_string()));
}

#[test]
fn resolve_accepts_the_root_itself() {
    let root = comps(&["home", "docs"]);
    let resolved = resolve(&root, &root).expect("the root is its own descendant");
    assert_eq!(resolved.file_name(), Some("docs".to_string()));
}

#[test]
fn check_descendant_matches_component_prefixes() {
    let root = comps(&["a", "b"]);
    assert!(check_descendant(&root, &comps(&["a", "b", "c"])));
    assert!(check_descendant(&root, &comps(&["a", "b"])));
    assert!(!check_descendant(&root, &comps(&["a", "bb", "c"])));
    assert!(!check_descendant(&root, &comps(&["a"])));
    assert!(check_descendant(&comps(&[]), &comps(&["x"])));
}

#[test]
fn join_from_joins_with_slashes() {
    let parts = comps(&["docs", "sub", "b.md"]);
    assert_eq!(join_from(&parts, 0), "docs/sub/b.md");
    assert_eq!(join_from(&parts, 1), "sub/b.md");
    assert_eq!(join_from(&parts, 2), "b.md");
    assert_eq!(join_from(&parts, 3), "");
}

#[test]
fn error_messages_are_generic() {
    assert_eq!(
        DocsmanError::PathEscape.message(),
        "Accessing path outside of base directory is not allowed"
    );
    assert_eq!(DocsmanError::NotFound.message(), "Failed to read file");
    assert_eq!(DocsmanError::Render.message(), "Failed to render page");
    assert_eq!(
        DocsmanError::IndexScan.message(),
        "Failed to scan root directory"
    );
    assert_eq!(DocsmanError::WatchSetup.message(), "Failed to watch");
    assert_eq!(DocsmanError::SendFailed.message(), "Failed to send to client");
}

#[test]
fn relative_to_root_strips_the_root() {
    let root = comps(&["docs"]);
    let full = comps(&["docs", "sub", "guide.md"]);
    assert_eq!(relative_to_root(&root, &full), Some("sub/guide.md".to_string()));
    assert_eq!(relative_to_root(&root, &root), None);
    assert_eq!(relative_to_root(&root, &comps(&["elsewhere", "guide.md"])), None);
}

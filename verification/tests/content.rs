use base64::Engine;

use docsman::content::{assemble_page, render_page, requested_page};
use docsman::paths::resolve;
use docsman::template::{make_token, replace_token};

fn comps(parts: &[&str]) -> Vec<String> {
    parts.iter().map(|p| p.to_string()).collect()
}

fn bytes(s: &str) -> Vec<u8> {
    s.as_bytes().to_vec()
}

#[test]
fn requested_page_aliases_the_root_to_index() {
    assert_eq!(requested_page(&String::new()), "index.md");
    assert_eq!(requested_page(&"guide.md".to_string()), "guide.md");
    assert_eq!(requested_page(&"sub/b.md".to_string()), "sub/b.md");
}

#[test]
fn replace_token_replaces_every_occurrence_left_to_right() {
    let t = bytes("x%%k%%y%%k%%z");
    let out = replace_token(&t, &bytes("%%k%%"), &bytes("V"));
    assert_eq!(out, bytes("xVyVz"));

    // Left-to-right, non-overlapping.
    let out = replace_token(&bytes("ababa"), &bytes("aba"), &bytes("X"));
    assert_eq!(out, bytes("Xba"));

    // No occurrence: unchanged.
    let out = replace_token(&bytes("plain"), &bytes("%%k%%"), &bytes("V"));
    assert_eq!(out, bytes("plain"));
}

#[test]
fn make_token_frames_the_name_with_percent_signs() {
    assert_eq!(make_token(&bytes("title")), bytes("%%title%%"));
}

#[test]
fn assemble_page_fills_all_four_placeholders() {
    let template = bytes("<t>%%title%%|%%content%%|%%page%%|%%legend%%</t>");
    let out = assemble_page(
        &template,
        &"index.md".to_string(),
        &"Qq".to_string(),
        &"index.md".to_string(),
        &"Ww".to_string(),
    );
    assert_eq!(out, bytes("<t>index.md|Qq|index.md|Ww</t>"));
}

#[test]
fn rendered_root_page_contains_the_heading_and_the_page_path() {
    let root = comps(&["docs"]);
    let canonical = comps(&["docs", "index.md"]);
    let resolved = resolve(&root, &canonical).expect("inside the sandbox");

    let template = bytes("<html>%%title%%|%%content%%|%%page%%|%%legend%%</html>");
    let page = requested_page(&String::new());
    let out = render_page(
        &template,
        &resolved,
        &page,
        &"# Hi".to_string(),
        &vec!["index.md".to_string()],
        true,
    )
    .expect("rendering succeeds");

    let text = String::from_utf8(out).unwrap();
    let inner = text
        .strip_prefix("<html>")
        .unwrap()
        .strip_suffix("</html>")
        .unwrap();
    let fields: Vec<&str> = inner.split('|').collect();
    assert_eq!(fields.len(), 4);
    assert_eq!(fields[0], "index.md");
    let html = base64::engine::general_purpose::STANDARD
        .decode(fields[1])
        .unwrap();
    let html = String::from_utf8(html).unwrap();
    assert!(html.contains("<h1>Hi</h1>"));
    // The page field equals the request path exactly.
    assert_eq!(fields[2], "index.md");
    // The legend rides along base64-encoded.
    assert_eq!(fields[3], "WyJpbmRleC5tZCJd");
}

#[test]
fn rendered_page_echoes_the_request_path_exactly() {
    let root = comps(&["docs"]);
    let canonical = comps(&["docs", "sub", "guide.md"]);
    let resolved = resolve(&root, &canonical).unwrap();
    let template = bytes("%%page%%");
    let page = "sub/guide.md".to_string();
    let out = render_page(&template, &resolved, &page, &"text".to_string(), &Vec::new(), false)
        .unwrap();
    assert_eq!(out, bytes("sub/guide.md"));
}

#[test]
fn disabled_legend_renders_an_empty_listing() {
    let root = comps(&["docs"]);
    let canonical = comps(&["docs", "a.md"]);
    let resolved = resolve(&root, &canonical).unwrap();
    let template = bytes("%%legend%%");
    let out = render_page(
        &template,
        &resolved,
        &"a.md".to_string(),
        &"x".to_string(),
        &vec!["a.md".to_string()],
        false,
    )
    .unwrap();
    // base64 of the JSON text []
    assert_eq!(out, bytes("W10="));
}

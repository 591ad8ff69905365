use typster_core::cmd::{compileMdx, compileToHtml, greet, output_or_fallback};

#[test]
fn greet_names_the_caller() {
    assert_eq!(greet("Ada"), "Hello, Ada! You've been greeted from Rust!");
}

#[test]
fn markdown_compiles_to_html() {
    assert_eq!(compileToHtml("# Hi"), "<h1>Hi</h1>");
    assert_eq!(compileToHtml("~~old~~"), "<p><del>old</del></p>");
}

#[test]
fn mdx_compiles_to_javascript_or_falls_back() {
    let js = compileMdx("# Hi");
    assert!(js.contains("Hi"));
    assert!(js.contains("MDXContent"));
    assert_eq!(compileMdx("{"), "rtt");
}

#[test]
fn fallback_replaces_missing_output() {
    assert_eq!(output_or_fallback(None), "rtt");
    assert_eq!(output_or_fallback(Some("x".to_string())), "x");
}

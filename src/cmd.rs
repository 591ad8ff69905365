//! Commands that turn text into text: a greeting, Markdown to HTML, and MDX
//! to JavaScript.
use vstd::prelude::*;

use crate::text::{opt_view, push_str};

verus! {

/// What a compile command returns when compilation fails.
pub const FALLBACK_OUTPUT: &'static str = "rtt";

/// The HTML of a Markdown text under GitHub-flavoured options, or `None`
/// where the text is refused.
pub uninterp spec fn gfm_html(text: Seq<char>) -> Option<Seq<char>>;

/// Relies on markdown's `to_html_with_options` with `Options::gfm()`: its
/// outcome depends on the text alone.
#[verifier::external_body]
fn markdown_to_html(text: &str) -> (r: Option<String>)
    ensures
        opt_view(&r) == gfm_html(text@),
{
    markdown::to_html_with_options(text, &markdown::Options::gfm()).ok()
}

/// The JavaScript of an MDX text under default options, or `None` where the
/// text is refused.
pub uninterp spec fn mdx_program(text: Seq<char>) -> Option<Seq<char>>;

/// Relies on mdxjs's `compile` with `Options::default()`: its outcome
/// depends on the text alone.
#[verifier::external_body]
fn mdx_to_js(text: &str) -> (r: Option<String>)
    ensures
        opt_view(&r) == mdx_program(text@),
{
    mdxjs::compile(text, &mdxjs::Options::default()).ok()
}

/// A compiler's output, or the fallback text where there is none.
pub open spec fn output_spec(compiled: Option<Seq<char>>) -> Seq<char> {
    match compiled {
        Some(s) => s,
        None => FALLBACK_OUTPUT@,
    }
}

/// A compiler's output, or the fallback text where compilation failed.
pub fn output_or_fallback(compiled: Option<String>) -> (r: String)
    ensures
        r@ == output_spec(opt_view(&compiled)),
{
    match compiled {
        Some(s) => s,
        None => FALLBACK_OUTPUT.to_owned(),
    }
}

/// A greeting for `name`.
pub fn greet(name: &str) -> (r: String)
    ensures
        r@ == "Hello, "@ + name@ + "! You've been greeted from Rust!"@,
{
    let mut out = "Hello, ".to_owned();
    push_str(&mut out, name);
    push_str(&mut out, "! You've been greeted from Rust!");
    out
}

/// The HTML of a Markdown text, or the fallback text.
#[allow(non_snake_case)]
pub fn compileToHtml(text: &str) -> (r: String)
    ensures
        r@ == output_spec(gfm_html(text@)),
{
    output_or_fallback(markdown_to_html(text))
}

/// The JavaScript of an MDX text, or the fallback text.
#[allow(non_snake_case)]
pub fn compileMdx(text: &str) -> (r: String)
    ensures
        r@ == output_spec(mdx_program(text@)),
{
    output_or_fallback(mdx_to_js(text))
}

} // verus!

//! Code-block syntax highlighting through syntect's classed HTML generator.

use vstd::prelude::*;

verus! {

/// What syntect's classed HTML generator produces for `source` under the
/// grammar the bundled newline syntax set resolves `token` to.
pub uninterp spec fn highlight_of(token: Seq<char>, source: Seq<char>) -> Seq<char>;

/// What syntect's classed HTML generator produces for `source` under the
/// plain-text grammar.
pub uninterp spec fn plain_highlight_of(source: Seq<char>) -> Seq<char>;

/// Whether the bundled syntax set resolves `token` to a grammar.
pub uninterp spec fn syntax_token_known(token: Seq<char>) -> bool;

/// Highlights `source` line by line with the grammar selected by `token`,
/// falling back to the plain-text grammar for a token the syntax set does not
/// know — an unresolvable token is never an error.
///
/// Relies on syntect's `SyntaxSet::load_defaults_newlines`,
/// `find_syntax_by_token`, `find_syntax_plain_text` and
/// `ClassedHTMLGenerator`: the bundled grammars are fixed, so the result is a
/// function of the token and the source text alone, and of the source text
/// alone when the token resolves to no grammar.
#[allow(deprecated)]
#[verifier::external_body]
pub fn highlight_code(source: &str, token: &str) -> (r: String)
    ensures
        r@ == highlight_of(token@, source@),
        !syntax_token_known(token@) ==> r@ == plain_highlight_of(source@),
{
    let syntax_set = syntect::parsing::SyntaxSet::load_defaults_newlines();
    let syntax = syntax_set
        .find_syntax_by_token(token)
        .unwrap_or_else(|| syntax_set.find_syntax_plain_text());
    let mut generator = syntect::html::ClassedHTMLGenerator::new_with_class_style(
        syntax,
        &syntax_set,
        syntect::html::ClassStyle::SpacedPrefixed { prefix: "code-" },
    );
    for line in source.lines() {
        generator.parse_html_for_line(line);
    }
    generator.finalize()
}

} // verus!

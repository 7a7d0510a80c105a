//! Terminal DOM.
//!
//! Instead of handing raw ANSI control sequences to a language model, the
//! output is classified by its colour and turned into tagged nodes: red text
//! becomes `<error>`, green text `<success>`, anything else plain `<text>`.

use vstd::prelude::*;

use crate::text::{chars_of, contains_chars, has_substr, replace_chars, replace_spec, string_of};

verus! {

/// A node of the terminal's abstract syntax tree.
#[derive(Debug, Clone)]
pub struct DomNode {
    pub tag: String,
    pub content: String,
}

/// Parses coloured terminal output into DOM nodes.
pub struct TerminalDomParser;

/// `raw` with every occurrence of `colour`, and then of the reset sequence
/// `ESC[0m`, removed.
pub open spec fn strip_colour(raw: Seq<char>, colour: Seq<char>) -> Seq<char> {
    replace_spec(replace_spec(raw, colour, Seq::empty()), "\x1b[0m"@, Seq::empty())
}

/// The tag of the node for `raw`: red text (`ESC[31m`) is an error, otherwise
/// green text (`ESC[32m`) a success, otherwise plain text.
pub open spec fn dom_tag_spec(raw: Seq<char>) -> Seq<char> {
    if has_substr(raw, "\x1b[31m"@) {
        "error"@
    } else if has_substr(raw, "\x1b[32m"@) {
        "success"@
    } else {
        "text"@
    }
}

/// The content of the node for `raw`: the text with the colour that decided
/// the tag and the reset sequences removed; plain text is kept as it is.
pub open spec fn dom_content_spec(raw: Seq<char>) -> Seq<char> {
    if has_substr(raw, "\x1b[31m"@) {
        strip_colour(raw, "\x1b[31m"@)
    } else if has_substr(raw, "\x1b[32m"@) {
        strip_colour(raw, "\x1b[32m"@)
    } else {
        raw
    }
}

/// Removes `colour` and then the reset sequence from `raw`.
fn strip_colour_chars(raw: &Vec<char>, colour: &Vec<char>) -> (s: String)
    requires
        colour.len() > 0,
    ensures
        s@ == strip_colour(raw@, colour@),
{
    let empty: Vec<char> = Vec::new();
    let reset = chars_of("\x1b[0m");
    proof {
        reveal_strlit("\x1b[0m");
    }
    let uncoloured = replace_chars(raw, colour, &empty);
    let plain = replace_chars(&uncoloured, &reset, &empty);
    string_of(&plain)
}

impl TerminalDomParser {
    /// Classifies a paragraph of terminal output by its dominant colour and
    /// returns it as a single tagged node.
    pub fn parse(raw_ansi_text: &str) -> (nodes: Vec<DomNode>)
        ensures
            nodes.len() == 1,
            nodes[0].tag@ == dom_tag_spec(raw_ansi_text@),
            nodes[0].content@ == dom_content_spec(raw_ansi_text@),
    {
        let raw = chars_of(raw_ansi_text);
        let red = chars_of("\x1b[31m");
        let green = chars_of("\x1b[32m");
        proof {
            reveal_strlit("\x1b[31m");
            reveal_strlit("\x1b[32m");
        }
        let mut nodes: Vec<DomNode> = Vec::new();
        if contains_chars(&raw, &red) {
            nodes.push(DomNode { tag: "error".to_owned(), content: strip_colour_chars(&raw, &red) });
        } else if contains_chars(&raw, &green) {
            nodes.push(
                DomNode { tag: "success".to_owned(), content: strip_colour_chars(&raw, &green) },
            );
        } else {
            nodes.push(DomNode { tag: "text".to_owned(), content: raw_ansi_text.to_owned() });
        }
        nodes
    }
}

/// Any red text makes the node an error, whatever else it holds; its content
/// is the text with every red code and then every reset code removed.
pub proof fn law_red_is_error(raw: Seq<char>)
    requires
        has_substr(raw, "\x1b[31m"@),
    ensures
        dom_tag_spec(raw) == "error"@,
        dom_content_spec(raw) == replace_spec(
            replace_spec(raw, "\x1b[31m"@, Seq::empty()),
            "\x1b[0m"@,
            Seq::empty(),
        ),
{
}

/// Green text without red makes the node a success; its content is the text
/// with every green code and then every reset code removed.
pub proof fn law_green_is_success(raw: Seq<char>)
    requires
        !has_substr(raw, "\x1b[31m"@),
        has_substr(raw, "\x1b[32m"@),
    ensures
        dom_tag_spec(raw) == "success"@,
        dom_content_spec(raw) == replace_spec(
            replace_spec(raw, "\x1b[32m"@, Seq::empty()),
            "\x1b[0m"@,
            Seq::empty(),
        ),
{
}

/// Text with neither red nor green is plain text, kept exactly as it is.
pub proof fn law_uncoloured_is_text(raw: Seq<char>)
    requires
        !has_substr(raw, "\x1b[31m"@),
        !has_substr(raw, "\x1b[32m"@),
    ensures
        dom_tag_spec(raw) == "text"@,
        dom_content_spec(raw) == raw,
{
}

} // verus!

//! Directives in prose: `{{#rustdoc package::Type}}` stands where the
//! documentation of the item is to be put.

use vstd::prelude::*;
use vstd::string::*;
use crate::resolver::Resolution;

verus! {

/// The pattern of a directive. Its one group is the path of the item.
pub const DIRECTIVE_PATTERN: &'static str = r"\{\{\s*#rustdoc\s+([\w:]+)\s*\}\}";

/// A directive in a text, with the text around it.
#[derive(Debug, PartialEq, Eq)]
pub struct Directive {
    /// The text before the directive.
    pub before: String,
    /// The directive as it is written, braces included.
    pub written: String,
    /// The path that the directive names.
    pub path: String,
    /// The text after the directive.
    pub after: String,
}

/// What a `Directive` holds.
pub struct DirectiveView {
    pub before: Seq<char>,
    pub written: Seq<char>,
    pub path: Seq<char>,
    pub after: Seq<char>,
}

impl View for Directive {
    type V = DirectiveView;

    open spec fn view(&self) -> DirectiveView {
        DirectiveView {
            before: self.before@,
            written: self.written@,
            path: self.path@,
            after: self.after@,
        }
    }
}

/// The leftmost match of the regular expression `pattern` in `text`: what
/// stands before it, the match, what the first group of the pattern took of
/// it, and what stands after it. `None` where the text has no match, where
/// the first group took part in none, and where `pattern` is no regular
/// expression.
pub uninterp spec fn first_match(pattern: Seq<char>, text: Seq<char>) -> Option<DirectiveView>;

/// Compiles the pattern with `regex::Regex::new` and searches the text with
/// `regex::Regex::captures`. The match lies in the text: what stands before
/// it, the match and what stands after it make up the text.
#[verifier::external_body]
fn search_pattern(pattern: &str, text: &str) -> (r: Option<Directive>)
    ensures
        match r {
            Some(found) => first_match(pattern@, text@) == Some(found@) && found@.before
                + found@.written + found@.after == text@,
            None => first_match(pattern@, text@) is None,
        },
{
    let compiled = regex::Regex::new(pattern).ok()?;
    let captures = compiled.captures(text)?;
    let whole = captures.get(0)?;
    let group = captures.get(1)?;
    Some(
        Directive {
            before: text[..whole.start()].to_string(),
            written: whole.as_str().to_string(),
            path: group.as_str().to_string(),
            after: text[whole.end()..].to_string(),
        },
    )
}

/// The first directive in `text`, if it holds one.
pub fn find_directive(text: &str) -> (r: Option<Directive>)
    ensures
        match r {
            Some(directive) => first_match(DIRECTIVE_PATTERN@, text@) == Some(directive@)
                && directive.replaced(directive@.written) == text@,
            None => first_match(DIRECTIVE_PATTERN@, text@) is None,
        },
{
    search_pattern(DIRECTIVE_PATTERN, text)
}

impl Directive {
    /// The text with `replacement` in the place of the directive.
    pub open spec fn replaced(&self, replacement: Seq<char>) -> Seq<char> {
        self@.before + replacement + self@.after
    }

    /// The text with `replacement` in the place of the directive.
    pub fn replace_with(&self, replacement: &str) -> (r: String)
        ensures
            r@ == self.replaced(replacement@),
    {
        let mut out = self.before.clone();
        out.append(replacement);
        out.append(self.after.as_str());
        out
    }
}

/// The text with the documentation in the place of the directive, where
/// the search for the item that the directive names has found one. Where it
/// has found nothing, or has failed, there is no text.
pub fn substitute(directive: &Directive, found: &Resolution) -> (r: Option<String>)
    ensures
        match *found {
            Ok(Some(doc)) => r matches Some(text) && text@ == directive.replaced(doc@),
            _ => r is None,
        },
{
    match found {
        Ok(Some(doc)) => Some(directive.replace_with(doc.as_str())),
        _ => None,
    }
}

} // verus!

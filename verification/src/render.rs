//! Rendering of template text through the embedded templating engine,
//! against the resolved value set.
use vstd::prelude::*;
use vstd::string::StrSliceExecFns;
use vstd::string::StringExecFnsIsAscii;

use crate::values::{SpecValue, Value, ValueMap};

verus! {

/// Whether `s` holds templating syntax: an object opener `{{` or a tag
/// opener `{%`. Everything else is literal text for the engine.
pub open spec fn spec_has_template_markers(s: Seq<char>) -> bool {
    exists|i: int|
        0 <= i && i + 1 < s.len() && #[trigger] s[i] == '{' && (s[i + 1] == '{' || s[i + 1] == '%')
}

/// That `rendered` is an outcome the templating engine can make of `text`
/// under the resolved values. It is a relation, not a function: a filter of
/// the engine's standard library can read the clock, so two renderings of
/// the same text may differ.
pub uninterp spec fn render_outcome(
    text: Seq<char>,
    ctx: Map<Seq<char>, SpecValue>,
    rendered: Seq<char>,
) -> bool;

/// An engine outcome that is moreover the identity on text without
/// templating syntax: such text is literal for the engine's grammar.
pub open spec fn spec_renders_to(
    text: Seq<char>,
    ctx: Map<Seq<char>, SpecValue>,
    rendered: Seq<char>,
) -> bool {
    &&& render_outcome(text, ctx, rendered)
    &&& (!spec_has_template_markers(text) ==> rendered == text)
}

/// Relies on liquid's Parser::parse and Template::render (stdlib loaded,
/// every resolved variable a global): whatever comes back is one of the
/// engine's outcomes for this text and context, and text without an object
/// or tag opener is literal for the engine's grammar, so it always renders,
/// as itself.
///
/// The parse-error formatter of this liquid line slices a source line by
/// bytes at a character-counted column, so malformed liquid past a
/// multi-byte character panics; the precondition admits only text that is
/// ASCII or free of templating syntax, where no such slice happens.
#[verifier::external_body]
fn liquid_render(text: &str, values: &ValueMap) -> (r: Option<String>)
    requires
        vstd::string::is_ascii(text) || !spec_has_template_markers(text@),
    ensures
        match r {
            Some(s) => render_outcome(text@, values@, s@) && (!spec_has_template_markers(text@)
                ==> s@ == text@),
            None => spec_has_template_markers(text@),
        },
{
    let parser = liquid::ParserBuilder::with_stdlib().build().ok()?;
    let template = parser.parse(text).ok()?;
    let mut obj = liquid::Object::new();
    for (k, v) in values.entries().iter() {
        let val = match v {
            Value::Str(s) => liquid_core::Value::scalar(s.clone()),
            Value::Bool(b) => liquid_core::Value::scalar(*b),
        };
        obj.insert(k.clone().into(), val);
    }
    template.render(&obj).ok()
}

/// Renders `text` against the resolved values: the result is one of the
/// engine's outcomes for exactly this text and context, and text that holds
/// no templating syntax comes back byte for byte, whatever the values.
pub fn render_content(text: &str, values: &ValueMap) -> (r: Option<String>)
    ensures
        match r {
            Some(s) => spec_renders_to(text@, values@, s@),
            None => spec_has_template_markers(text@),
        },
{
    if has_template_markers(text) && !text.is_ascii() {
        return None;
    }
    liquid_render(text, values)
}

/// Whether the text holds an object or tag opener.
fn has_template_markers(s: &str) -> (r: bool)
    ensures
        r == spec_has_template_markers(s@),
{
    let n = s.unicode_len();
    if n < 2 {
        proof {
            assert(!spec_has_template_markers(s@));
        }
        return false;
    }
    let mut i: usize = 0;
    while i + 1 < n
        invariant
            n == s@.len(),
            i + 1 <= n,
            forall|j: int|
                0 <= j < i ==> !(#[trigger] s@[j] == '{' && (s@[j + 1] == '{' || s@[j + 1]
                    == '%')),
        decreases n - i,
    {
        if s.get_char(i) == '{' {
            let c = s.get_char(i + 1);
            if c == '{' || c == '%' {
                return true;
            }
        }
        i += 1;
    }
    false
}

} // verus!

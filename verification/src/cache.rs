//! Rendering layer: produces syntax-highlighted views of stored entries
//! on demand, resolving them through the storage layer.
//!
//! The highlighting engine is an external collaborator: a pure function
//! of the text and the chosen extension with no failure mode visible to
//! the core (an unknown extension or an engine fault degrades to plain
//! output inside the collaborator).

use vstd::prelude::*;
use crate::Entry;
use crate::Error;
use crate::id::Key;
use crate::id::opt_string_view;
use crate::store::Layer;
use crate::store::spec_get_result;
use crate::store::spec_get_state;
use crate::store::DELETION_WINDOW;

verus! {

/// The markup the highlighting collaborator returns for a text and an
/// extension. The collaborator is deterministic, so the result is a
/// function of its two arguments alone.
pub uninterp spec fn highlighted(text: Seq<char>, extension: Seq<char>) -> Seq<char>;

/// Relies on syntect: `SyntaxSet::load_defaults_newlines`,
/// `SyntaxSet::find_syntax_by_extension` (falling back to
/// `SyntaxSet::find_syntax_plain_text` on an unknown extension),
/// `ThemeSet::load_defaults` and `html::highlighted_html_for_string`.
/// The default syntax and theme sets are fixed data compiled into the
/// crate, so the markup depends on the text and the extension alone; a
/// highlighting failure degrades to the unchanged text.
#[verifier::external_body]
fn highlight_markup(text: &str, extension: &str) -> (r: String)
    ensures
        r@ == highlighted(text@, extension@),
{
    let syntaxes = syntect::parsing::SyntaxSet::load_defaults_newlines();
    let themes = syntect::highlighting::ThemeSet::load_defaults();
    let syntax = syntaxes
        .find_syntax_by_extension(extension)
        .unwrap_or_else(|| syntaxes.find_syntax_plain_text());
    match themes.themes.get("InspiredGitHub") {
        Some(theme) => syntect::html::highlighted_html_for_string(text, &syntaxes, syntax, theme)
            .unwrap_or_else(|_| text.to_string()),
        None => text.to_string(),
    }
}

/// The extension used for rendering: the key's override when present,
/// else the entry's own, else the plain-text sentinel.
pub open spec fn spec_effective_extension(
    key_ext: Option<Seq<char>>,
    entry_ext: Option<Seq<char>>,
) -> Seq<char> {
    match key_ext {
        Some(e) => e,
        None => match entry_ext {
            Some(e) => e,
            None => "txt"@,
        },
    }
}

/// An entry-derived view whose text has been replaced by highlighted
/// markup; carries the same seconds since creation, used for
/// deletion-window checks.
#[derive(Clone, Debug)]
pub struct FormattedEntry {
    /// The highlighted markup.
    pub formatted: String,
    /// Seconds elapsed since the underlying entry was created.
    pub seconds_since_creation: u32,
}

impl FormattedEntry {
    /// Whether the paste could still be deleted by its creator at the
    /// moment this view was produced.
    pub fn deletion_possible(&self) -> (r: bool)
        ensures
            r == (self.seconds_since_creation < DELETION_WINDOW),
    {
        self.seconds_since_creation < DELETION_WINDOW
    }
}

impl Layer {
    /// Resolves the key through `get` and renders the entry's text with
    /// the effective extension. The record set changes exactly as under
    /// `get`; rendering itself never fails a request whose stored
    /// content is valid.
    pub fn get_formatted(&mut self, key: Key, now: u64) -> (r: Result<FormattedEntry, Error>)
        ensures
            final(self)@ == spec_get_state(old(self)@, key.id.spec_value(), now),
            match spec_get_result(old(self)@, key.id.spec_value(), now) {
                Err(e) => r == Err::<FormattedEntry, Error>(e),
                Ok(en) => {
                    &&& r matches Ok(f)
                    &&& r.unwrap().formatted@ == highlighted(
                        en.text@,
                        spec_effective_extension(
                            opt_string_view(key.extension),
                            opt_string_view(en.extension),
                        ),
                    )
                    &&& r.unwrap().seconds_since_creation == en.seconds_since_creation
                },
            },
    {
        let entry = match self.get(key.id, now) {
            Ok(e) => e,
            Err(e) => {
                return Err(e);
            },
        };
        let formatted = match &key.extension {
            Some(e) => highlight_markup(entry.text.as_str(), e.as_str()),
            None => match &entry.extension {
                Some(e) => highlight_markup(entry.text.as_str(), e.as_str()),
                None => highlight_markup(entry.text.as_str(), "txt"),
            },
        };
        Ok(FormattedEntry { formatted, seconds_since_creation: entry.seconds_since_creation })
    }
}

} // verus!

//! The prompt record.

use vstd::prelude::*;

verus! {

/// A named text snippet. At most one prompt of a table is meant to be
/// enabled; its content is the one mirrored into the external file.
#[derive(Debug, PartialEq, Eq)]
pub struct Prompt {
    pub id: String,
    pub name: String,
    pub content: String,
    pub description: Option<String>,
    pub enabled: bool,
    /// Seconds since the Unix epoch.
    pub created_at: Option<i64>,
    /// Seconds since the Unix epoch.
    pub updated_at: Option<i64>,
}

/// The mathematical value of a [`Prompt`].
pub struct PromptView {
    pub id: Seq<char>,
    pub name: Seq<char>,
    pub content: Seq<char>,
    pub description: Option<Seq<char>>,
    pub enabled: bool,
    pub created_at: Option<i64>,
    pub updated_at: Option<i64>,
}

/// The characters of an optional text.
pub open spec fn text_view(o: Option<String>) -> Option<Seq<char>> {
    match o {
        Some(s) => Some(s@),
        None => None,
    }
}

impl View for Prompt {
    type V = PromptView;

    open spec fn view(&self) -> PromptView {
        PromptView {
            id: self.id@,
            name: self.name@,
            content: self.content@,
            description: text_view(self.description),
            enabled: self.enabled,
            created_at: self.created_at,
            updated_at: self.updated_at,
        }
    }
}

impl Clone for Prompt {
    fn clone(&self) -> (r: Prompt)
        ensures
            r@ == self@,
    {
        Prompt {
            id: self.id.clone(),
            name: self.name.clone(),
            content: self.content.clone(),
            description: match &self.description {
                Some(d) => Some(d.clone()),
                None => None,
            },
            enabled: self.enabled,
            created_at: self.created_at,
            updated_at: self.updated_at,
        }
    }
}

} // verus!

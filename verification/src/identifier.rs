//! How an application's `id` string is matched against a live window.

use vstd::prelude::*;
use crate::text::same_text;

verus! {

/// The attribute of a window that a rule's `id` is compared with.
#[derive(Clone, Copy, Debug, PartialEq, Eq, Structural)]
pub enum ApplicationIdentifier {
    Exe,
    Class,
    Title,
    Path,
}

impl ApplicationIdentifier {
    /// The lowercase spelling that stands for this kind in documents and in
    /// generated command lines.
    pub open spec fn surface(self) -> Seq<char> {
        match self {
            ApplicationIdentifier::Exe => "exe"@,
            ApplicationIdentifier::Class => "class"@,
            ApplicationIdentifier::Title => "title"@,
            ApplicationIdentifier::Path => "path"@,
        }
    }

    /// The kind that `text` spells, if it spells one.
    pub open spec fn spelled(text: Seq<char>) -> Option<ApplicationIdentifier> {
        if text == ApplicationIdentifier::Exe.surface() {
            Some(ApplicationIdentifier::Exe)
        } else if text == ApplicationIdentifier::Class.surface() {
            Some(ApplicationIdentifier::Class)
        } else if text == ApplicationIdentifier::Title.surface() {
            Some(ApplicationIdentifier::Title)
        } else if text == ApplicationIdentifier::Path.surface() {
            Some(ApplicationIdentifier::Path)
        } else {
            None
        }
    }

    /// No two kinds are spelled alike: reading what a kind spells gives
    /// that kind back, and nothing else is read as it.
    pub proof fn lemma_spelled_surface(self, text: Seq<char>)
        ensures
            ApplicationIdentifier::spelled(text) == Some(self) <==> text == self.surface(),
    {
        reveal_strlit("exe");
        reveal_strlit("class");
        reveal_strlit("title");
        reveal_strlit("path");
        if text == self.surface() {
            assert(text[0] == self.surface()[0]);
        }
    }

    /// Reads a kind from its spelling.
    pub fn parse(text: &str) -> (kind: Option<ApplicationIdentifier>)
        ensures
            kind == ApplicationIdentifier::spelled(text@),
    {
        if same_text(text, "exe") {
            Some(ApplicationIdentifier::Exe)
        } else if same_text(text, "class") {
            Some(ApplicationIdentifier::Class)
        } else if same_text(text, "title") {
            Some(ApplicationIdentifier::Title)
        } else if same_text(text, "path") {
            Some(ApplicationIdentifier::Path)
        } else {
            None
        }
    }

    /// Spells this kind out.
    pub fn as_str(&self) -> (s: &'static str)
        ensures
            s@ == self.surface(),
    {
        match self {
            ApplicationIdentifier::Exe => "exe",
            ApplicationIdentifier::Class => "class",
            ApplicationIdentifier::Title => "title",
            ApplicationIdentifier::Path => "path",
        }
    }
}

} // verus!

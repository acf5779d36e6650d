//! Per-application behaviour overrides and the command lines that apply them.

use vstd::prelude::*;
use vstd::string::StringExecFns;
use crate::identifier::ApplicationIdentifier;
use crate::text::same_text;

verus! {

/// A behaviour override that can be switched on for one application.
#[derive(Clone, Copy, Debug, PartialEq, Eq, Structural)]
pub enum ApplicationOptions {
    ObjectNameChange,
    Layered,
    BorderOverflow,
    TrayAndMultiWindow,
    Force,
}

/// The arguments handed to the window manager's command-line tool: its
/// executable, a subcommand, and the rule's kind and id.
pub open spec fn invocation(
    subcommand: Seq<char>,
    kind: ApplicationIdentifier,
    id: Seq<char>,
) -> Seq<char> {
    "komorebic.exe "@ + subcommand + " "@ + kind.surface() + " "@ + id
}

/// The script line that runs `invocation` without showing a window.
pub open spec fn run_line(invocation: Seq<char>) -> Seq<char> {
    "Run, "@ + invocation + ", , Hide"@
}

/// The script line that runs `subcommand` on the rule `kind`, `id`.
pub open spec fn command_line(
    subcommand: Seq<char>,
    kind: ApplicationIdentifier,
    id: Seq<char>,
) -> Seq<char> {
    run_line(invocation(subcommand, kind, id))
}

/// Writes out [`command_line`].
pub fn render_command(subcommand: &str, kind: &ApplicationIdentifier, id: &str) -> (line: String)
    ensures
        line@ == command_line(subcommand@, *kind, id@),
{
    let mut line = String::from_str("Run, ");
    line.append("komorebic.exe ");
    line.append(subcommand);
    line.append(" ");
    line.append(kind.as_str());
    line.append(" ");
    line.append(id);
    line.append(", , Hide");
    line
}

impl ApplicationOptions {
    /// The lowercase spelling, words joined by underscores, that stands for
    /// this option in documents.
    pub open spec fn surface(self) -> Seq<char> {
        match self {
            ApplicationOptions::ObjectNameChange => "object_name_change"@,
            ApplicationOptions::Layered => "layered"@,
            ApplicationOptions::BorderOverflow => "border_overflow"@,
            ApplicationOptions::TrayAndMultiWindow => "tray_and_multi_window"@,
            ApplicationOptions::Force => "force"@,
        }
    }

    /// The option that `text` spells, if it spells one.
    pub open spec fn spelled(text: Seq<char>) -> Option<ApplicationOptions> {
        if text == ApplicationOptions::ObjectNameChange.surface() {
            Some(ApplicationOptions::ObjectNameChange)
        } else if text == ApplicationOptions::Layered.surface() {
            Some(ApplicationOptions::Layered)
        } else if text == ApplicationOptions::BorderOverflow.surface() {
            Some(ApplicationOptions::BorderOverflow)
        } else if text == ApplicationOptions::TrayAndMultiWindow.surface() {
            Some(ApplicationOptions::TrayAndMultiWindow)
        } else if text == ApplicationOptions::Force.surface() {
            Some(ApplicationOptions::Force)
        } else {
            None
        }
    }

    /// No two options are spelled alike: reading what an option spells gives
    /// that option back, and nothing else is read as it.
    pub proof fn lemma_spelled_surface(self, text: Seq<char>)
        ensures
            ApplicationOptions::spelled(text) == Some(self) <==> text == self.surface(),
    {
        reveal_strlit("object_name_change");
        reveal_strlit("layered");
        reveal_strlit("border_overflow");
        reveal_strlit("tray_and_multi_window");
        reveal_strlit("force");
        if text == self.surface() {
            assert(text[0] == self.surface()[0]);
        }
    }

    /// Spells this option out.
    pub fn as_str(&self) -> (s: &'static str)
        ensures
            s@ == self.surface(),
    {
        match self {
            ApplicationOptions::ObjectNameChange => "object_name_change",
            ApplicationOptions::Layered => "layered",
            ApplicationOptions::BorderOverflow => "border_overflow",
            ApplicationOptions::TrayAndMultiWindow => "tray_and_multi_window",
            ApplicationOptions::Force => "force",
        }
    }

    /// Reads an option from its spelling.
    pub fn parse(text: &str) -> (option: Option<ApplicationOptions>)
        ensures
            option == ApplicationOptions::spelled(text@),
    {
        if same_text(text, "object_name_change") {
            Some(ApplicationOptions::ObjectNameChange)
        } else if same_text(text, "layered") {
            Some(ApplicationOptions::Layered)
        } else if same_text(text, "border_overflow") {
            Some(ApplicationOptions::BorderOverflow)
        } else if same_text(text, "tray_and_multi_window") {
            Some(ApplicationOptions::TrayAndMultiWindow)
        } else if same_text(text, "force") {
            Some(ApplicationOptions::Force)
        } else {
            None
        }
    }

    /// The subcommand of the command-line tool that applies this option.
    pub open spec fn subcommand(self) -> Seq<char> {
        match self {
            ApplicationOptions::ObjectNameChange => "identify-object-name-change-application"@,
            ApplicationOptions::Layered => "identify-layered-application"@,
            ApplicationOptions::BorderOverflow => "identify-border-overflow-application"@,
            ApplicationOptions::TrayAndMultiWindow => "identify-tray-application"@,
            ApplicationOptions::Force => "manage-rule"@,
        }
    }

    /// The script line that applies this option to the windows matched by
    /// `kind` and `id`.
    pub open spec fn line(self, kind: ApplicationIdentifier, id: Seq<char>) -> Seq<char> {
        command_line(self.subcommand(), kind, id)
    }

    /// Names the subcommand that applies this option.
    pub fn subcommand_str(&self) -> (s: &'static str)
        ensures
            s@ == self.subcommand(),
    {
        match self {
            ApplicationOptions::ObjectNameChange => "identify-object-name-change-application",
            ApplicationOptions::Layered => "identify-layered-application",
            ApplicationOptions::BorderOverflow => "identify-border-overflow-application",
            ApplicationOptions::TrayAndMultiWindow => "identify-tray-application",
            ApplicationOptions::Force => "manage-rule",
        }
    }

    /// Renders the script line that applies this option to the windows
    /// matched by `kind` and `id`.
    #[must_use]
    pub fn cfgen(&self, kind: &ApplicationIdentifier, id: &str) -> (line: String)
        ensures
            line@ == self.line(*kind, id@),
    {
        render_command(self.subcommand_str(), kind, id)
    }
}

} // verus!

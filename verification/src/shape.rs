//! What the lines of a script look like: where their fixed parts end, and
//! which characters tell one kind of line from another.

use vstd::prelude::*;
use crate::identifier::ApplicationIdentifier;
use crate::options::{command_line, ApplicationOptions};
use crate::script::{comment_line, header, tray_warning};

verus! {

/// The number of characters of a command line before its subcommand.
pub open spec fn subcommand_start() -> int {
    19
}

/// `line` is the command line of some option.
pub open spec fn is_option_line(line: Seq<char>) -> bool {
    exists|option: ApplicationOptions, kind: ApplicationIdentifier, id: Seq<char>|
        line == #[trigger] option.line(kind, id)
}

/// `line` applies [`ApplicationOptions::TrayAndMultiWindow`] to some rule.
pub open spec fn is_tray_line(line: Seq<char>) -> bool {
    exists|kind: ApplicationIdentifier, id: Seq<char>|
        line == #[trigger] ApplicationOptions::TrayAndMultiWindow.line(kind, id)
}

/// `line` is the command line of some float rule.
pub open spec fn is_float_rule_line(line: Seq<char>) -> bool {
    exists|kind: ApplicationIdentifier, id: Seq<char>|
        line == #[trigger] command_line("float-rule"@, kind, id)
}

/// `line` is a comment: a semicolon, a space, and what it says.
pub open spec fn is_comment(line: Seq<char>) -> bool {
    line.len() >= 2 && line[0] == ';' && line[1] == ' '
}

/// `line` has one of the forms of a script line: it is blank, a comment, or
/// the command line of an option or of a float rule.
pub open spec fn is_script_line(line: Seq<char>) -> bool {
    line.len() == 0 || is_comment(line) || is_option_line(line) || is_float_rule_line(line)
}

/// `line` runs a command: it opens with `R`.
pub open spec fn is_command(line: Seq<char>) -> bool {
    line.len() > subcommand_start() && line[0] == 'R'
}

/// The spellings of the four kinds differ in their first character.
pub proof fn lemma_kind_surfaces()
    ensures
        ApplicationIdentifier::Exe.surface().len() == 3,
        ApplicationIdentifier::Class.surface().len() == 5,
        ApplicationIdentifier::Title.surface().len() == 5,
        ApplicationIdentifier::Path.surface().len() == 4,
        ApplicationIdentifier::Exe.surface()[0] == 'e',
        ApplicationIdentifier::Class.surface()[0] == 'c',
        ApplicationIdentifier::Title.surface()[0] == 't',
        ApplicationIdentifier::Path.surface()[0] == 'p',
{
    reveal_strlit("exe");
    reveal_strlit("class");
    reveal_strlit("title");
    reveal_strlit("path");
}

/// The subcommands of the options, and that of float rules, differ from one
/// another in their first or in their tenth character.
pub proof fn lemma_subcommands()
    ensures
        ApplicationOptions::ObjectNameChange.subcommand().len() == 39,
        ApplicationOptions::Layered.subcommand().len() == 28,
        ApplicationOptions::BorderOverflow.subcommand().len() == 36,
        ApplicationOptions::TrayAndMultiWindow.subcommand().len() == 25,
        ApplicationOptions::Force.subcommand().len() == 11,
        "float-rule"@.len() == 10,
        ApplicationOptions::ObjectNameChange.subcommand()[0] == 'i',
        ApplicationOptions::Layered.subcommand()[0] == 'i',
        ApplicationOptions::BorderOverflow.subcommand()[0] == 'i',
        ApplicationOptions::TrayAndMultiWindow.subcommand()[0] == 'i',
        ApplicationOptions::Force.subcommand()[0] == 'm',
        "float-rule"@[0] == 'f',
        ApplicationOptions::ObjectNameChange.subcommand()[9] == 'o',
        ApplicationOptions::Layered.subcommand()[9] == 'l',
        ApplicationOptions::BorderOverflow.subcommand()[9] == 'b',
        ApplicationOptions::TrayAndMultiWindow.subcommand()[9] == 't',
{
    reveal_strlit("identify-object-name-change-application");
    reveal_strlit("identify-layered-application");
    reveal_strlit("identify-border-overflow-application");
    reveal_strlit("identify-tray-application");
    reveal_strlit("manage-rule");
    reveal_strlit("float-rule");
}

/// A command line is its fixed opening, the subcommand, a space, the kind,
/// a space, the id, and its fixed ending.
pub proof fn lemma_command_line_layout(
    subcommand: Seq<char>,
    kind: ApplicationIdentifier,
    id: Seq<char>,
)
    ensures
        command_line(subcommand, kind, id).len() == 29 + subcommand.len() + kind.surface().len()
            + id.len(),
        command_line(subcommand, kind, id)[0] == 'R',
        command_line(subcommand, kind, id).subrange(
            subcommand_start(),
            subcommand_start() + subcommand.len(),
        ) == subcommand,
        command_line(subcommand, kind, id).subrange(
            subcommand_start() + subcommand.len() + 1,
            subcommand_start() + subcommand.len() + 1 + kind.surface().len(),
        ) == kind.surface(),
        command_line(subcommand, kind, id).subrange(
            subcommand_start() + subcommand.len() + kind.surface().len() + 2,
            command_line(subcommand, kind, id).len() - 8,
        ) == id,
{
    reveal_strlit("Run, ");
    reveal_strlit("komorebic.exe ");
    reveal_strlit(" ");
    reveal_strlit(", , Hide");
}

/// A command line tells which rule it was rendered for.
pub proof fn lemma_command_line_injective(
    subcommand: Seq<char>,
    kind: ApplicationIdentifier,
    id: Seq<char>,
    other_kind: ApplicationIdentifier,
    other_id: Seq<char>,
)
    requires
        command_line(subcommand, kind, id) == command_line(subcommand, other_kind, other_id),
    ensures
        kind == other_kind,
        id == other_id,
{
    lemma_command_line_layout(subcommand, kind, id);
    lemma_command_line_layout(subcommand, other_kind, other_id);
    lemma_kind_surfaces();
}

/// The characters by which a line that applies
/// [`ApplicationOptions::TrayAndMultiWindow`] is known.
pub open spec fn has_tray_marks(line: Seq<char>) -> bool {
    is_command(line) && line.len() > subcommand_start() + 9 && line[subcommand_start()] == 'i'
        && line[subcommand_start() + 9] == 't'
}

/// The characters by which the command line of a float rule is known.
pub open spec fn has_float_rule_marks(line: Seq<char>) -> bool {
    is_command(line) && line[subcommand_start()] == 'f'
}

/// The command line of an option is a command; it bears the marks of a tray
/// line only where the option is
/// [`ApplicationOptions::TrayAndMultiWindow`], and never those of a float
/// rule.
pub proof fn lemma_option_line_marks(
    option: ApplicationOptions,
    kind: ApplicationIdentifier,
    id: Seq<char>,
)
    ensures
        is_command(option.line(kind, id)),
        has_tray_marks(option.line(kind, id)) <==> option
            == ApplicationOptions::TrayAndMultiWindow,
        !has_float_rule_marks(option.line(kind, id)),
{
    lemma_subcommands();
    lemma_command_line_layout(option.subcommand(), kind, id);
}

/// The command line of a float rule is a command that bears the marks of a
/// float rule, and not those of a tray line.
pub proof fn lemma_float_rule_line_marks(kind: ApplicationIdentifier, id: Seq<char>)
    ensures
        has_float_rule_marks(command_line("float-rule"@, kind, id)),
        !has_tray_marks(command_line("float-rule"@, kind, id)),
{
    lemma_subcommands();
    lemma_command_line_layout("float-rule"@, kind, id);
}

/// Every line that applies the tray option bears the marks of one.
pub proof fn lemma_tray_line_marks(line: Seq<char>)
    requires
        is_tray_line(line),
    ensures
        has_tray_marks(line),
{
    let (kind, id) = choose|kind: ApplicationIdentifier, id: Seq<char>|
        line == #[trigger] ApplicationOptions::TrayAndMultiWindow.line(kind, id);
    lemma_option_line_marks(ApplicationOptions::TrayAndMultiWindow, kind, id);
}

/// Every command line of an option is a command without the marks of a
/// float rule.
pub proof fn lemma_is_option_line_marks(line: Seq<char>)
    requires
        is_option_line(line),
    ensures
        is_command(line),
        !has_float_rule_marks(line),
{
    let (option, kind, id) = choose|
        option: ApplicationOptions,
        kind: ApplicationIdentifier,
        id: Seq<char>,
    |
        line == #[trigger] option.line(kind, id);
    lemma_option_line_marks(option, kind, id);
}

/// Every command line of a float rule bears the marks of one.
pub proof fn lemma_is_float_rule_line_marks(line: Seq<char>)
    requires
        is_float_rule_line(line),
    ensures
        has_float_rule_marks(line),
        !has_tray_marks(line),
{
    let (kind, id) = choose|kind: ApplicationIdentifier, id: Seq<char>|
        line == #[trigger] command_line("float-rule"@, kind, id);
    lemma_float_rule_line_marks(kind, id);
}

/// A comment is no command, whatever it says.
pub proof fn lemma_comment_line_is_comment(text: Seq<char>)
    ensures
        is_comment(comment_line(text)),
        !is_command(comment_line(text)),
{
    reveal_strlit("; ");
}

/// Every comment is the rendering of what stands behind its first two
/// characters.
pub proof fn lemma_comment_says(line: Seq<char>)
    requires
        is_comment(line),
    ensures
        line == comment_line(line.subrange(2, line.len() as int)),
{
    reveal_strlit("; ");
    assert(line =~= comment_line(line.subrange(2, line.len() as int)));
}

/// The warning above a tray line is a comment.
pub proof fn lemma_tray_warning_is_comment()
    ensures
        is_comment(tray_warning()),
        !is_command(tray_warning()),
{
    reveal_strlit(
        "; If you have disabled minimize/close to tray for this application, you can delete/comment out the next line",
    );
}

/// The header holds four lines: three comments and a blank line.
pub proof fn lemma_header_shape()
    ensures
        header().len() == 4,
        is_comment(header()[0]),
        is_comment(header()[1]),
        is_comment(header()[2]),
        header()[3].len() == 0,
        forall|i: int| 0 <= i < header().len() ==> !is_command(#[trigger] header()[i]),
{
    reveal_strlit("; Generated by komorebic.exe");
    reveal_strlit(
        "; To use this file, add the line below to the top of your komorebi.ahk configuration file",
    );
    reveal_strlit("; #Include %A_ScriptDir%\\komorebi.generated.ahk");
}

} // verus!

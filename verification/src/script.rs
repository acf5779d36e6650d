//! The automation script of a document, line by line.
//!
//! A script opens with a fixed header. Then each application, in canonical
//! order, contributes a block: a comment with its name, the command lines of
//! its options, the command lines of those float rules that no earlier place
//! of the document has declared, and a blank line.

use vstd::prelude::*;
use vstd::string::StringExecFns;
use crate::config::{
    document_view, float_views, ApplicationConfiguration, ApplicationConfigurationView,
    IdWithIdentifier, IdWithIdentifierAndComment, IdWithIdentifierAndCommentView,
    IdWithIdentifierView,
};
use crate::options::{command_line, render_command, ApplicationOptions};
use crate::sort::sorted_by_name;

verus! {

/// What a list of lines says, line by line.
pub open spec fn lines_view(lines: Seq<String>) -> Seq<Seq<char>> {
    lines.map_values(|line: String| line@)
}

/// The lines that open every script.
pub open spec fn header() -> Seq<Seq<char>> {
    seq![
        "; Generated by komorebic.exe"@,
        "; To use this file, add the line below to the top of your komorebi.ahk configuration file"@,
        "; #Include %A_ScriptDir%\\komorebi.generated.ahk"@,
        Seq::empty(),
    ]
}

/// A comment that says `text`.
pub open spec fn comment_line(text: Seq<char>) -> Seq<char> {
    "; "@ + text
}

/// The comment that stands above every line that applies
/// [`ApplicationOptions::TrayAndMultiWindow`].
pub open spec fn tray_warning() -> Seq<char> {
    "; If you have disabled minimize/close to tray for this application, you can delete/comment out the next line"@
}

/// The lines of one option of an application matched by `rule`.
pub open spec fn option_lines(option: ApplicationOptions, rule: IdWithIdentifierView) -> Seq<
    Seq<char>,
> {
    if option == ApplicationOptions::TrayAndMultiWindow {
        seq![tray_warning(), option.line(rule.kind, rule.id)]
    } else {
        seq![option.line(rule.kind, rule.id)]
    }
}

/// The lines of the options of an application matched by `rule`, in the
/// order in which they were declared.
pub open spec fn options_lines(options: Seq<ApplicationOptions>, rule: IdWithIdentifierView) -> Seq<
    Seq<char>,
>
    decreases options.len(),
{
    if options.len() == 0 {
        Seq::empty()
    } else {
        options_lines(options.drop_last(), rule) + option_lines(options.last(), rule)
    }
}

/// The command line that makes the windows matched by `float` float.
pub open spec fn float_rule_line(float: IdWithIdentifierAndCommentView) -> Seq<char> {
    command_line("float-rule"@, float.kind, float.id)
}

/// The lines of a float rule that is written out: its remark, if it has one,
/// and its command line.
pub open spec fn float_entry_lines(float: IdWithIdentifierAndCommentView) -> Seq<Seq<char>> {
    match float.comment {
        Some(text) => seq![comment_line(text), float_rule_line(float)],
        None => seq![float_rule_line(float)],
    }
}

/// The command lines of all of `floats`.
pub open spec fn float_rules(floats: Seq<IdWithIdentifierAndCommentView>) -> Set<Seq<char>> {
    Set::new(
        |line: Seq<char>|
            exists|i: int| 0 <= i < floats.len() && float_rule_line(#[trigger] floats[i]) == line,
    )
}

/// The lines of the float rules of one application, where the command lines
/// in `emitted` stand in the script already: a rule whose command line is in
/// `emitted`, or is that of an earlier rule of `floats`, is left out together
/// with its remark.
pub open spec fn floats_lines(
    floats: Seq<IdWithIdentifierAndCommentView>,
    emitted: Set<Seq<char>>,
) -> Seq<Seq<char>>
    decreases floats.len(),
{
    if floats.len() == 0 {
        Seq::empty()
    } else {
        let earlier = floats.drop_last();
        let line = float_rule_line(floats.last());
        if emitted.contains(line) || float_rules(earlier).contains(line) {
            floats_lines(earlier, emitted)
        } else {
            floats_lines(earlier, emitted) + float_entry_lines(floats.last())
        }
    }
}

/// The lines of the options of `app`; none where it declares no options.
pub open spec fn app_options_lines(app: ApplicationConfigurationView) -> Seq<Seq<char>> {
    match app.options {
        Some(options) => options_lines(options, app.identifier),
        None => Seq::empty(),
    }
}

/// The lines of the float rules of `app`; none where it declares no rules.
pub open spec fn app_floats_lines(
    app: ApplicationConfigurationView,
    emitted: Set<Seq<char>>,
) -> Seq<Seq<char>> {
    match app.float_identifiers {
        Some(floats) => floats_lines(floats, emitted),
        None => Seq::empty(),
    }
}

/// The command lines of the float rules of `app`.
pub open spec fn app_float_rules(app: ApplicationConfigurationView) -> Set<Seq<char>> {
    match app.float_identifiers {
        Some(floats) => float_rules(floats),
        None => Set::empty(),
    }
}

/// The command lines of the float rules of all of `apps`.
pub open spec fn document_float_rules(apps: Seq<ApplicationConfigurationView>) -> Set<Seq<char>> {
    Set::new(
        |line: Seq<char>|
            exists|i: int|
                0 <= i < apps.len() && app_float_rules(#[trigger] apps[i]).contains(line),
    )
}

/// The block of one application, where the command lines in `emitted` stand
/// in the script already.
pub open spec fn app_block(app: ApplicationConfigurationView, emitted: Set<Seq<char>>) -> Seq<
    Seq<char>,
> {
    seq![comment_line(app.name)] + app_options_lines(app) + app_floats_lines(app, emitted)
        + seq![Seq::empty()]
}

/// The blocks of `apps`, one after the other: each application leaves out
/// the float rules that those before it have declared.
pub open spec fn blocks(apps: Seq<ApplicationConfigurationView>) -> Seq<Seq<char>>
    decreases apps.len(),
{
    if apps.len() == 0 {
        Seq::empty()
    } else {
        blocks(apps.drop_last()) + app_block(apps.last(), document_float_rules(apps.drop_last()))
    }
}

/// The script of a document whose applications stand in the order `apps`.
pub open spec fn script_in_order(apps: Seq<ApplicationConfigurationView>) -> Seq<Seq<char>> {
    header() + blocks(apps)
}

/// The script of the document `apps`: that of its canonical arrangement.
pub open spec fn script(apps: Seq<ApplicationConfigurationView>) -> Seq<Seq<char>> {
    script_in_order(sorted_by_name(apps))
}

/// Pushing a line extends what the list says by that line.
proof fn lemma_lines_view_push(lines: Seq<String>, line: String)
    ensures
        lines_view(lines.push(line)) == lines_view(lines).push(line@),
{
}

/// The rules of a list that grew by one are those it had and the new one.
pub proof fn lemma_float_rules_push(
    floats: Seq<IdWithIdentifierAndCommentView>,
    float: IdWithIdentifierAndCommentView,
)
    ensures
        float_rules(floats.push(float)) == float_rules(floats).insert(float_rule_line(float)),
{
    let grown = floats.push(float);
    assert forall|line: Seq<char>|
        float_rules(grown).contains(line) <==> float_rules(floats).insert(
            float_rule_line(float),
        ).contains(line) by {
        if float_rules(grown).contains(line) {
            let i = choose|i: int|
                0 <= i < grown.len() && float_rule_line(#[trigger] grown[i]) == line;
            if i < floats.len() {
                assert(float_rule_line(floats[i]) == line);
            }
        }
        if float_rules(floats).contains(line) {
            let i = choose|i: int|
                0 <= i < floats.len() && float_rule_line(#[trigger] floats[i]) == line;
            assert(float_rule_line(grown[i]) == line);
        }
        if line == float_rule_line(float) {
            assert(float_rule_line(grown[floats.len() as int]) == line);
        }
    }
}

/// The rules of a document that grew by one application are those it had
/// and those of the new application.
pub proof fn lemma_document_float_rules_push(
    apps: Seq<ApplicationConfigurationView>,
    app: ApplicationConfigurationView,
)
    ensures
        document_float_rules(apps.push(app)) == document_float_rules(apps).union(
            app_float_rules(app),
        ),
{
    let grown = apps.push(app);
    assert forall|line: Seq<char>|
        document_float_rules(grown).contains(line) <==> document_float_rules(apps).union(
            app_float_rules(app),
        ).contains(line) by {
        if document_float_rules(grown).contains(line) {
            let i = choose|i: int|
                0 <= i < grown.len() && app_float_rules(#[trigger] grown[i]).contains(line);
            if i < apps.len() {
                assert(app_float_rules(apps[i]).contains(line));
            }
        }
        if document_float_rules(apps).contains(line) {
            let i = choose|i: int|
                0 <= i < apps.len() && app_float_rules(#[trigger] apps[i]).contains(line);
            assert(app_float_rules(grown[i]).contains(line));
        }
        if app_float_rules(app).contains(line) {
            assert(app_float_rules(grown[apps.len() as int]).contains(line));
        }
    }
}

/// Whether `line` is one of `lines`.
fn contains_line(lines: &Vec<String>, line: &String) -> (found: bool)
    ensures
        found == lines_view(lines@).contains(line@),
{
    let mut i: usize = 0;
    while i < lines.len()
        invariant
            i <= lines.len(),
            forall|j: int| 0 <= j < i ==> lines_view(lines@)[j] != line@,
        decreases lines.len() - i,
    {
        if lines[i] == *line {
            assert(lines_view(lines@)[i as int] == line@);
            return true;
        }
        i += 1;
    }
    false
}

/// Renders a comment that says `text`.
fn render_comment(text: &str) -> (line: String)
    ensures
        line@ == comment_line(text@),
{
    let mut line = String::from_str("; ");
    line.append(text);
    line
}

/// Appends the lines of `options` to `lines`.
fn push_options_lines(
    lines: &mut Vec<String>,
    options: &Vec<ApplicationOptions>,
    rule: &IdWithIdentifier,
)
    ensures
        lines_view(final(lines)@) == lines_view(old(lines)@) + options_lines(options@, rule@),
{
    let ghost before = lines_view(lines@);
    let mut i: usize = 0;
    while i < options.len()
        invariant
            i <= options.len(),
            lines_view(lines@) == before + options_lines(options@.take(i as int), rule@),
        decreases options.len() - i,
    {
        let option = options[i];
        if option == ApplicationOptions::TrayAndMultiWindow {
            let warning = String::from_str(
                "; If you have disabled minimize/close to tray for this application, you can delete/comment out the next line",
            );
            proof {
                lemma_lines_view_push(lines@, warning);
            }
            lines.push(warning);
        }
        let line = option.cfgen(&rule.kind, rule.id.as_str());
        proof {
            lemma_lines_view_push(lines@, line);
            assert(options@.take(i + 1).drop_last() =~= options@.take(i as int));
        }
        lines.push(line);
        i += 1;
    }
    assert(options@.take(options.len() as int) =~= options@);
}

/// Appends to `lines` the lines of those of `floats` whose command line is
/// not in `emitted`, and enters each such command line in `emitted`.
fn push_floats_lines(
    lines: &mut Vec<String>,
    emitted: &mut Vec<String>,
    floats: &Vec<IdWithIdentifierAndComment>,
)
    ensures
        lines_view(final(lines)@) == lines_view(old(lines)@) + floats_lines(
            float_views(floats@),
            lines_view(old(emitted)@).to_set(),
        ),
        lines_view(final(emitted)@).to_set() == lines_view(old(emitted)@).to_set().union(
            float_rules(float_views(floats@)),
        ),
{
    let ghost before = lines_view(lines@);
    let ghost known = lines_view(emitted@).to_set();
    let ghost all = float_views(floats@);
    let mut i: usize = 0;
    while i < floats.len()
        invariant
            i <= floats.len(),
            all == float_views(floats@),
            lines_view(lines@) == before + floats_lines(all.take(i as int), known),
            lines_view(emitted@).to_set() == known.union(float_rules(all.take(i as int))),
        decreases floats.len() - i,
    {
        let float = &floats[i];
        let rule = render_command("float-rule", &float.kind, float.id.as_str());
        proof {
            assert(all.take(i + 1).drop_last() =~= all.take(i as int));
            lemma_float_rules_push(all.take(i as int), float@);
            assert(lines_view(emitted@).to_set().contains(rule@) <==> lines_view(
                emitted@,
            ).contains(rule@));
        }
        if !contains_line(emitted, &rule) {
            proof {
                lemma_lines_view_push(emitted@, rule);
                lines_view(emitted@).lemma_push_to_set_commute(rule@);
            }
            emitted.push(rule.clone());
            if let Some(text) = &float.comment {
                let remark = render_comment(text.as_str());
                proof {
                    lemma_lines_view_push(lines@, remark);
                }
                lines.push(remark);
            }
            proof {
                lemma_lines_view_push(lines@, rule);
            }
            lines.push(rule);
        }
        i += 1;
    }
    assert(all.take(floats.len() as int) =~= all);
}

/// Appends the block of `app` to `lines`, and enters the command lines of
/// its float rules in `emitted`.
fn push_block(lines: &mut Vec<String>, emitted: &mut Vec<String>, app: &ApplicationConfiguration)
    ensures
        lines_view(final(lines)@) == lines_view(old(lines)@) + app_block(
            app@,
            lines_view(old(emitted)@).to_set(),
        ),
        lines_view(final(emitted)@).to_set() == lines_view(old(emitted)@).to_set().union(
            app_float_rules(app@),
        ),
{
    let title = render_comment(app.name.as_str());
    proof {
        lemma_lines_view_push(lines@, title);
    }
    lines.push(title);
    if let Some(options) = &app.options {
        push_options_lines(lines, options, &app.identifier);
    }
    if let Some(floats) = &app.float_identifiers {
        push_floats_lines(lines, emitted, floats);
    }
    let blank = String::new();
    proof {
        lemma_lines_view_push(lines@, blank);
    }
    lines.push(blank);
}

/// Writes the script of a document whose applications stand in the order
/// `apps`.
pub fn render_script(apps: &Vec<ApplicationConfiguration>) -> (lines: Vec<String>)
    ensures
        lines_view(lines@) == script_in_order(document_view(apps@)),
{
    let mut lines: Vec<String> = Vec::new();
    lines.push(String::from_str("; Generated by komorebic.exe"));
    lines.push(
        String::from_str(
            "; To use this file, add the line below to the top of your komorebi.ahk configuration file",
        ),
    );
    lines.push(String::from_str("; #Include %A_ScriptDir%\\komorebi.generated.ahk"));
    lines.push(String::new());
    let mut emitted: Vec<String> = Vec::new();
    let ghost all = document_view(apps@);
    let mut i: usize = 0;
    while i < apps.len()
        invariant
            i <= apps.len(),
            all == document_view(apps@),
            lines_view(lines@) == header() + blocks(all.take(i as int)),
            lines_view(emitted@).to_set() == document_float_rules(all.take(i as int)),
        decreases apps.len() - i,
    {
        let app = &apps[i];
        proof {
            assert(all.take(i + 1).drop_last() =~= all.take(i as int));
            lemma_document_float_rules_push(all.take(i as int), app@);
        }
        push_block(&mut lines, &mut emitted, app);
        i += 1;
    }
    assert(all.take(apps.len() as int) =~= all);
    lines
}

} // verus!

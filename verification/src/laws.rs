//! What holds of every script, whatever the document.

use vstd::prelude::*;
use crate::config::{
    ApplicationConfigurationView, IdWithIdentifierAndCommentView, IdWithIdentifierView,
};
use crate::options::ApplicationOptions;
use crate::script::{
    app_block, app_float_rules, app_floats_lines, app_options_lines, blocks, comment_line,
    document_float_rules, float_entry_lines, float_rule_line, float_rules, floats_lines, header,
    lemma_document_float_rules_push, lemma_float_rules_push, option_lines, options_lines, script,
    script_in_order, tray_warning,
};
use crate::shape::{
    is_command, is_comment, is_float_rule_line, is_option_line, is_script_line, is_tray_line,
    lemma_command_line_injective,
    lemma_comment_line_is_comment, lemma_float_rule_line_marks, lemma_header_shape,
    lemma_is_float_rule_line_marks, lemma_is_option_line_marks, lemma_option_line_marks,
    lemma_tray_line_marks, lemma_tray_warning_is_comment,
};
use crate::sort::{lemma_sorted_keeps_entries, sorted_by_name};

verus! {

/// Every line of `lines` has one of the forms of a script line.
pub open spec fn well_formed(lines: Seq<Seq<char>>) -> bool {
    forall|i: int| 0 <= i < lines.len() ==> is_script_line(#[trigger] lines[i])
}

/// `part` stands in `lines`, line for line, from place `at` on.
pub open spec fn stands_at(lines: Seq<Seq<char>>, at: int, part: Seq<Seq<char>>) -> bool {
    0 <= at && at + part.len() <= lines.len() && lines.subrange(at, at + part.len()) == part
}

/// How often `line` stands in `lines`.
pub open spec fn occurrences(lines: Seq<Seq<char>>, line: Seq<char>) -> nat {
    lines.to_multiset().count(line)
}

/// No line of `lines` is the command line of a float rule.
pub open spec fn free_of_float_rule_lines(lines: Seq<Seq<char>>) -> bool {
    forall|i: int| 0 <= i < lines.len() ==> !is_float_rule_line(#[trigger] lines[i])
}

/// Every line of `lines` that applies the tray option stands directly below
/// the warning.
pub open spec fn tray_lines_warned(lines: Seq<Seq<char>>) -> bool {
    forall|i: int|
        0 <= i < lines.len() && is_tray_line(#[trigger] lines[i]) ==> i > 0 && lines[i - 1]
            == tray_warning()
}

/// No line of `lines` is the command line of an option.
pub open spec fn free_of_option_lines(lines: Seq<Seq<char>>) -> bool {
    forall|i: int| 0 <= i < lines.len() ==> !is_option_line(#[trigger] lines[i])
}

/// Two lists in which every tray line is warned of make one such list.
proof fn lemma_warned_concat(front: Seq<Seq<char>>, back: Seq<Seq<char>>)
    requires
        tray_lines_warned(front),
        tray_lines_warned(back),
    ensures
        tray_lines_warned(front + back),
{
    let all = front + back;
    assert forall|i: int| 0 <= i < all.len() && is_tray_line(#[trigger] all[i]) implies i > 0
        && all[i - 1] == tray_warning() by {
        if i >= front.len() {
            assert(all[i] == back[i - front.len()]);
        }
    }
}

/// Two lists without option lines make one such list.
proof fn lemma_free_of_option_lines_concat(front: Seq<Seq<char>>, back: Seq<Seq<char>>)
    requires
        free_of_option_lines(front),
        free_of_option_lines(back),
    ensures
        free_of_option_lines(front + back),
{
    let all = front + back;
    assert forall|i: int| 0 <= i < all.len() implies !is_option_line(#[trigger] all[i]) by {
        if i >= front.len() {
            assert(all[i] == back[i - front.len()]);
        }
    }
}

/// A list without commands holds no tray line and no option line.
proof fn lemma_no_commands(lines: Seq<Seq<char>>)
    requires
        forall|i: int| 0 <= i < lines.len() ==> !is_command(#[trigger] lines[i]),
    ensures
        tray_lines_warned(lines),
        free_of_option_lines(lines),
{
    assert forall|i: int| 0 <= i < lines.len() implies !is_tray_line(#[trigger] lines[i])
        && !is_option_line(lines[i]) by {
        if is_tray_line(lines[i]) {
            lemma_tray_line_marks(lines[i]);
        }
        if is_option_line(lines[i]) {
            lemma_is_option_line_marks(lines[i]);
        }
    }
}

/// Only the tray option brings the warning, and it brings it directly above
/// its command line; every other option brings its command line alone.
pub proof fn lemma_option_lines_warned(option: ApplicationOptions, rule: IdWithIdentifierView)
    ensures
        option == ApplicationOptions::TrayAndMultiWindow ==> option_lines(option, rule) == seq![
            tray_warning(),
            option.line(rule.kind, rule.id),
        ],
        option != ApplicationOptions::TrayAndMultiWindow ==> option_lines(option, rule) == seq![
            option.line(rule.kind, rule.id),
        ],
        is_tray_line(option.line(rule.kind, rule.id)) <==> option
            == ApplicationOptions::TrayAndMultiWindow,
        tray_lines_warned(option_lines(option, rule)),
{
    let line = option.line(rule.kind, rule.id);
    lemma_option_line_marks(option, rule.kind, rule.id);
    lemma_tray_warning_is_comment();
    if is_tray_line(line) {
        lemma_tray_line_marks(line);
    }
    if is_tray_line(tray_warning()) {
        lemma_tray_line_marks(tray_warning());
    }
}

/// In the lines of a list of options every tray line is warned of.
proof fn lemma_options_lines_warned(options: Seq<ApplicationOptions>, rule: IdWithIdentifierView)
    ensures
        tray_lines_warned(options_lines(options, rule)),
    decreases options.len(),
{
    if options.len() > 0 {
        lemma_options_lines_warned(options.drop_last(), rule);
        lemma_option_lines_warned(options.last(), rule);
        lemma_warned_concat(
            options_lines(options.drop_last(), rule),
            option_lines(options.last(), rule),
        );
    }
}

/// A float rule that is written out brings no option line.
proof fn lemma_float_entry_lines_plain(float: IdWithIdentifierAndCommentView)
    ensures
        tray_lines_warned(float_entry_lines(float)),
        free_of_option_lines(float_entry_lines(float)),
{
    let lines = float_entry_lines(float);
    lemma_float_rule_line_marks(float.kind, float.id);
    if float.comment is Some {
        lemma_comment_line_is_comment(float.comment->0);
    }
    assert forall|i: int| 0 <= i < lines.len() implies !is_tray_line(#[trigger] lines[i])
        && !is_option_line(lines[i]) by {
        if is_tray_line(lines[i]) {
            lemma_tray_line_marks(lines[i]);
        }
        if is_option_line(lines[i]) {
            lemma_is_option_line_marks(lines[i]);
        }
    }
}

/// The lines of a list of float rules hold no option line.
proof fn lemma_floats_lines_plain(
    floats: Seq<IdWithIdentifierAndCommentView>,
    emitted: Set<Seq<char>>,
)
    ensures
        tray_lines_warned(floats_lines(floats, emitted)),
        free_of_option_lines(floats_lines(floats, emitted)),
    decreases floats.len(),
{
    if floats.len() > 0 {
        lemma_floats_lines_plain(floats.drop_last(), emitted);
        lemma_float_entry_lines_plain(floats.last());
        lemma_warned_concat(
            floats_lines(floats.drop_last(), emitted),
            float_entry_lines(floats.last()),
        );
        lemma_free_of_option_lines_concat(
            floats_lines(floats.drop_last(), emitted),
            float_entry_lines(floats.last()),
        );
    }
}

/// In the block of an application every tray line is warned of.
proof fn lemma_app_block_warned(app: ApplicationConfigurationView, emitted: Set<Seq<char>>)
    ensures
        tray_lines_warned(app_block(app, emitted)),
{
    let title = seq![comment_line(app.name)];
    let blank = seq![Seq::<char>::empty()];
    lemma_comment_line_is_comment(app.name);
    lemma_no_commands(title);
    lemma_no_commands(blank);
    if app.options is Some {
        lemma_options_lines_warned(app.options->0, app.identifier);
    }
    if app.float_identifiers is Some {
        lemma_floats_lines_plain(app.float_identifiers->0, emitted);
    }
    lemma_warned_concat(title, app_options_lines(app));
    lemma_warned_concat(title + app_options_lines(app), app_floats_lines(app, emitted));
    lemma_warned_concat(
        title + app_options_lines(app) + app_floats_lines(app, emitted),
        blank,
    );
}

/// In the blocks of a document every tray line is warned of.
proof fn lemma_blocks_warned(apps: Seq<ApplicationConfigurationView>)
    ensures
        tray_lines_warned(blocks(apps)),
    decreases apps.len(),
{
    if apps.len() > 0 {
        lemma_blocks_warned(apps.drop_last());
        lemma_app_block_warned(apps.last(), document_float_rules(apps.drop_last()));
        lemma_warned_concat(
            blocks(apps.drop_last()),
            app_block(apps.last(), document_float_rules(apps.drop_last())),
        );
    }
}

/// In a script, every line that applies the tray option stands directly
/// below the warning.
pub proof fn lemma_script_tray_lines_warned(apps: Seq<ApplicationConfigurationView>)
    ensures
        tray_lines_warned(script_in_order(apps)),
        tray_lines_warned(script(apps)),
{
    lemma_header_shape();
    lemma_no_commands(header());
    lemma_blocks_warned(apps);
    lemma_warned_concat(header(), blocks(apps));
    lemma_blocks_warned(sorted_by_name(apps));
    lemma_warned_concat(header(), blocks(sorted_by_name(apps)));
}

/// An application that declares no options contributes its name, the lines
/// of its float rules and a blank line: no line of its block is the command
/// line of an option.
pub proof fn lemma_no_options_no_option_lines(
    app: ApplicationConfigurationView,
    emitted: Set<Seq<char>>,
)
    requires
        app.options is None,
    ensures
        app_options_lines(app) == Seq::<Seq<char>>::empty(),
        app_block(app, emitted) == seq![comment_line(app.name)] + app_floats_lines(app, emitted)
            + seq![Seq::<char>::empty()],
        free_of_option_lines(app_block(app, emitted)),
{
    let title = seq![comment_line(app.name)];
    let blank = seq![Seq::<char>::empty()];
    let floats = app_floats_lines(app, emitted);
    lemma_comment_line_is_comment(app.name);
    lemma_no_commands(title);
    lemma_no_commands(blank);
    if app.float_identifiers is Some {
        lemma_floats_lines_plain(app.float_identifiers->0, emitted);
    }
    lemma_free_of_option_lines_concat(title, floats);
    lemma_free_of_option_lines_concat(title + floats, blank);
}

/// An application that declares no float rules contributes its name, the
/// lines of its options and a blank line: no line of its block is the
/// command line of a float rule.
pub proof fn lemma_no_float_rules_no_rule_lines(
    app: ApplicationConfigurationView,
    emitted: Set<Seq<char>>,
)
    requires
        app.float_identifiers is None,
    ensures
        app_floats_lines(app, emitted) == Seq::<Seq<char>>::empty(),
        app_float_rules(app) == Set::<Seq<char>>::empty(),
        app_block(app, emitted) == seq![comment_line(app.name)] + app_options_lines(app) + seq![
            Seq::<char>::empty(),
        ],
        free_of_float_rule_lines(app_block(app, emitted)),
{
    let block = app_block(app, emitted);
    assert(block =~= seq![comment_line(app.name)] + app_options_lines(app) + seq![
        Seq::<char>::empty(),
    ]);
    assert forall|i: int| 0 <= i < block.len() implies !is_float_rule_line(
        #[trigger] block[i],
    ) by {
        if is_float_rule_line(block[i]) {
            lemma_app_block_holds_rule_once(app, emitted, block[i]);
            vstd::seq_lib::to_multiset_contains(block, block[i]);
        }
    }
}

/// Two lists of script lines make one such list.
proof fn lemma_well_formed_concat(front: Seq<Seq<char>>, back: Seq<Seq<char>>)
    requires
        well_formed(front),
        well_formed(back),
    ensures
        well_formed(front + back),
{
    let all = front + back;
    assert forall|i: int| 0 <= i < all.len() implies is_script_line(#[trigger] all[i]) by {
        if i >= front.len() {
            assert(all[i] == back[i - front.len()]);
        }
    }
}

/// The lines of a list of options are script lines.
proof fn lemma_options_lines_well_formed(
    options: Seq<ApplicationOptions>,
    rule: IdWithIdentifierView,
)
    ensures
        well_formed(options_lines(options, rule)),
    decreases options.len(),
{
    if options.len() > 0 {
        let last = options.last();
        lemma_options_lines_well_formed(options.drop_last(), rule);
        lemma_tray_warning_is_comment();
        assert(is_option_line(last.line(rule.kind, rule.id)));
        lemma_well_formed_concat(
            options_lines(options.drop_last(), rule),
            option_lines(last, rule),
        );
    }
}

/// The lines of a list of float rules are script lines.
proof fn lemma_floats_lines_well_formed(
    floats: Seq<IdWithIdentifierAndCommentView>,
    emitted: Set<Seq<char>>,
)
    ensures
        well_formed(floats_lines(floats, emitted)),
    decreases floats.len(),
{
    if floats.len() > 0 {
        let last = floats.last();
        lemma_floats_lines_well_formed(floats.drop_last(), emitted);
        if last.comment is Some {
            lemma_comment_line_is_comment(last.comment->0);
        }
        assert(is_float_rule_line(float_rule_line(last)));
        lemma_well_formed_concat(
            floats_lines(floats.drop_last(), emitted),
            float_entry_lines(last),
        );
    }
}

/// The blocks of a document hold script lines only.
proof fn lemma_blocks_well_formed(apps: Seq<ApplicationConfigurationView>)
    ensures
        well_formed(blocks(apps)),
    decreases apps.len(),
{
    if apps.len() > 0 {
        let app = apps.last();
        let emitted = document_float_rules(apps.drop_last());
        let title = seq![comment_line(app.name)];
        let blank = seq![Seq::<char>::empty()];
        lemma_blocks_well_formed(apps.drop_last());
        lemma_comment_line_is_comment(app.name);
        if app.options is Some {
            lemma_options_lines_well_formed(app.options->0, app.identifier);
        }
        if app.float_identifiers is Some {
            lemma_floats_lines_well_formed(app.float_identifiers->0, emitted);
        }
        lemma_well_formed_concat(title, app_options_lines(app));
        lemma_well_formed_concat(title + app_options_lines(app), app_floats_lines(app, emitted));
        lemma_well_formed_concat(
            title + app_options_lines(app) + app_floats_lines(app, emitted),
            blank,
        );
        lemma_well_formed_concat(blocks(apps.drop_last()), app_block(app, emitted));
    }
}

/// A script opens with the header, and each of its lines is blank, a
/// comment, or the command line of an option or of a float rule.
pub proof fn lemma_script_well_formed(apps: Seq<ApplicationConfigurationView>)
    ensures
        stands_at(script_in_order(apps), 0, header()),
        stands_at(script(apps), 0, header()),
        well_formed(script_in_order(apps)),
        well_formed(script(apps)),
{
    lemma_header_shape();
    assert(script_in_order(apps).subrange(0, 4) =~= header());
    assert(script(apps).subrange(0, 4) =~= header());
    lemma_blocks_well_formed(apps);
    lemma_well_formed_concat(header(), blocks(apps));
    lemma_blocks_well_formed(sorted_by_name(apps));
    lemma_well_formed_concat(header(), blocks(sorted_by_name(apps)));
}

/// A line has at most one of the forms of a script line.
pub proof fn lemma_line_forms_apart(line: Seq<char>)
    ensures
        is_comment(line) ==> line.len() > 0 && !is_option_line(line) && !is_float_rule_line(line),
        is_option_line(line) ==> line.len() > 0 && !is_float_rule_line(line),
        is_float_rule_line(line) ==> line.len() > 0,
{
    if is_option_line(line) {
        lemma_is_option_line_marks(line);
    }
    if is_float_rule_line(line) {
        lemma_is_float_rule_line_marks(line);
    }
}

/// A line stands in two lists taken together as often as in one and in the
/// other.
proof fn lemma_occurrences_concat(front: Seq<Seq<char>>, back: Seq<Seq<char>>, line: Seq<char>)
    ensures
        occurrences(front + back, line) == occurrences(front, line) + occurrences(back, line),
{
    broadcast use vstd::multiset::group_multiset_axioms;

    vstd::seq_lib::lemma_multiset_commutative(front, back);
}

/// A list that does not hold a line holds it no times.
proof fn lemma_occurrences_absent(lines: Seq<Seq<char>>, line: Seq<char>)
    requires
        forall|i: int| 0 <= i < lines.len() ==> #[trigger] lines[i] != line,
    ensures
        occurrences(lines, line) == 0,
{
    vstd::seq_lib::to_multiset_contains(lines, line);
}

/// A list of one line holds that line once.
proof fn lemma_occurrences_single(line: Seq<char>)
    ensures
        occurrences(seq![line], line) == 1,
{
    broadcast use vstd::multiset::group_multiset_axioms;

    let none = Seq::<Seq<char>>::empty();
    lemma_occurrences_absent(none, line);
    vstd::seq_lib::to_multiset_build(none, line);
}

/// The command line of a float rule stands among the lines of a list of
/// options no times.
proof fn lemma_options_lines_hold_no_float_rule(
    options: Seq<ApplicationOptions>,
    rule: IdWithIdentifierView,
    line: Seq<char>,
)
    requires
        is_float_rule_line(line),
    ensures
        occurrences(options_lines(options, rule), line) == 0,
    decreases options.len(),
{
    if options.len() == 0 {
        lemma_occurrences_absent(options_lines(options, rule), line);
    } else {
        let last = option_lines(options.last(), rule);
        lemma_options_lines_hold_no_float_rule(options.drop_last(), rule, line);
        lemma_is_float_rule_line_marks(line);
        lemma_option_line_marks(options.last(), rule.kind, rule.id);
        lemma_tray_warning_is_comment();
        lemma_occurrences_absent(last, line);
        lemma_occurrences_concat(options_lines(options.drop_last(), rule), last, line);
    }
}

/// The command line of a float rule stands among the lines of a list of
/// float rules once where the list declares it and `emitted` does not hold
/// it, and no times elsewhere.
proof fn lemma_floats_lines_hold_rule_once(
    floats: Seq<IdWithIdentifierAndCommentView>,
    emitted: Set<Seq<char>>,
    line: Seq<char>,
)
    requires
        is_float_rule_line(line),
    ensures
        occurrences(floats_lines(floats, emitted), line) == if !emitted.contains(line)
            && float_rules(floats).contains(line) {
            1nat
        } else {
            0nat
        },
    decreases floats.len(),
{
    if floats.len() == 0 {
        lemma_occurrences_absent(floats_lines(floats, emitted), line);
    } else {
        let earlier = floats.drop_last();
        let float = floats.last();
        let own = float_rule_line(float);
        lemma_floats_lines_hold_rule_once(earlier, emitted, line);
        lemma_float_rules_push(earlier, float);
        assert(earlier.push(float) =~= floats);
        if !(emitted.contains(own) || float_rules(earlier).contains(own)) {
            let entry = float_entry_lines(float);
            lemma_is_float_rule_line_marks(line);
            if float.comment is Some {
                lemma_comment_line_is_comment(float.comment->0);
            }
            if own == line {
                if float.comment is Some {
                    let remark = seq![comment_line(float.comment->0)];
                    lemma_occurrences_absent(remark, line);
                    lemma_occurrences_single(line);
                    lemma_occurrences_concat(remark, seq![line], line);
                    assert(remark + seq![line] =~= entry);
                } else {
                    lemma_occurrences_single(line);
                }
            } else {
                lemma_occurrences_absent(entry, line);
            }
            lemma_occurrences_concat(floats_lines(earlier, emitted), entry, line);
        }
    }
}

/// The command line of a float rule stands in the block of an application
/// once where the application declares it and `emitted` does not hold it,
/// and no times elsewhere.
proof fn lemma_app_block_holds_rule_once(
    app: ApplicationConfigurationView,
    emitted: Set<Seq<char>>,
    line: Seq<char>,
)
    requires
        is_float_rule_line(line),
    ensures
        occurrences(app_block(app, emitted), line) == if !emitted.contains(line)
            && app_float_rules(app).contains(line) {
            1nat
        } else {
            0nat
        },
{
    let title = seq![comment_line(app.name)];
    let blank = seq![Seq::<char>::empty()];
    let options = app_options_lines(app);
    let floats = app_floats_lines(app, emitted);
    lemma_is_float_rule_line_marks(line);
    lemma_comment_line_is_comment(app.name);
    lemma_occurrences_absent(title, line);
    lemma_occurrences_absent(blank, line);
    if app.options is Some {
        lemma_options_lines_hold_no_float_rule(app.options->0, app.identifier, line);
    } else {
        lemma_occurrences_absent(options, line);
    }
    if app.float_identifiers is Some {
        lemma_floats_lines_hold_rule_once(app.float_identifiers->0, emitted, line);
    } else {
        lemma_occurrences_absent(floats, line);
    }
    lemma_occurrences_concat(title, options, line);
    lemma_occurrences_concat(title + options, floats, line);
    lemma_occurrences_concat(title + options + floats, blank, line);
}

/// The command line of a float rule stands among the blocks of a document
/// once where the document declares it, and no times elsewhere.
proof fn lemma_blocks_hold_rule_once(apps: Seq<ApplicationConfigurationView>, line: Seq<char>)
    requires
        is_float_rule_line(line),
    ensures
        occurrences(blocks(apps), line) == if document_float_rules(apps).contains(line) {
            1nat
        } else {
            0nat
        },
    decreases apps.len(),
{
    if apps.len() == 0 {
        lemma_occurrences_absent(blocks(apps), line);
    } else {
        let earlier = apps.drop_last();
        let emitted = document_float_rules(earlier);
        lemma_blocks_hold_rule_once(earlier, line);
        lemma_app_block_holds_rule_once(apps.last(), emitted, line);
        lemma_document_float_rules_push(earlier, apps.last());
        assert(earlier.push(apps.last()) =~= apps);
        lemma_occurrences_concat(blocks(earlier), app_block(apps.last(), emitted), line);
    }
}

/// The canonical arrangement of a document declares the float rules that
/// the document declares.
pub proof fn lemma_sorted_declares_the_same(apps: Seq<ApplicationConfigurationView>)
    ensures
        document_float_rules(sorted_by_name(apps)) == document_float_rules(apps),
{
    let sorted = sorted_by_name(apps);
    lemma_sorted_keeps_entries(apps);
    assert forall|line: Seq<char>|
        document_float_rules(sorted).contains(line) <==> document_float_rules(apps).contains(
            line,
        ) by {
        if document_float_rules(sorted).contains(line) {
            let i = choose|i: int|
                0 <= i < sorted.len() && app_float_rules(#[trigger] sorted[i]).contains(line);
            vstd::seq_lib::to_multiset_contains(sorted, sorted[i]);
            vstd::seq_lib::to_multiset_contains(apps, sorted[i]);
            let j = choose|j: int| 0 <= j < apps.len() && apps[j] == sorted[i];
            assert(app_float_rules(apps[j]).contains(line));
        }
        if document_float_rules(apps).contains(line) {
            let i = choose|i: int|
                0 <= i < apps.len() && app_float_rules(#[trigger] apps[i]).contains(line);
            vstd::seq_lib::to_multiset_contains(apps, apps[i]);
            vstd::seq_lib::to_multiset_contains(sorted, apps[i]);
            let j = choose|j: int| 0 <= j < sorted.len() && sorted[j] == apps[i];
            assert(app_float_rules(sorted[j]).contains(line));
        }
    }
}

/// However many applications declare a float rule, and however often, its
/// command line stands in the script exactly once; the command line of a
/// float rule that no application declares does not stand in it.
pub proof fn lemma_float_rule_written_once(
    apps: Seq<ApplicationConfigurationView>,
    line: Seq<char>,
)
    requires
        is_float_rule_line(line),
    ensures
        occurrences(script_in_order(apps), line) == if document_float_rules(apps).contains(line) {
            1nat
        } else {
            0nat
        },
        occurrences(script(apps), line) == if document_float_rules(apps).contains(line) {
            1nat
        } else {
            0nat
        },
{
    lemma_header_shape();
    lemma_is_float_rule_line_marks(line);
    lemma_occurrences_absent(header(), line);
    lemma_blocks_hold_rule_once(apps, line);
    lemma_occurrences_concat(header(), blocks(apps), line);
    lemma_blocks_hold_rule_once(sorted_by_name(apps), line);
    lemma_occurrences_concat(header(), blocks(sorted_by_name(apps)), line);
    lemma_sorted_declares_the_same(apps);
}

/// Two float rules have the same command line exactly where they agree in
/// kind and id, whatever their remarks say.
pub proof fn lemma_float_rule_line_tells_rule(
    float: IdWithIdentifierAndCommentView,
    other: IdWithIdentifierAndCommentView,
)
    ensures
        float_rule_line(float) == float_rule_line(other) <==> float.kind == other.kind
            && float.id == other.id,
{
    if float_rule_line(float) == float_rule_line(other) {
        lemma_command_line_injective("float-rule"@, float.kind, float.id, other.kind, other.id);
    }
}

/// A float rule whose command line stands in the script already, or is that
/// of an earlier rule of the same application, adds no line: neither its
/// command line nor its remark.
pub proof fn lemma_declared_rule_left_out(
    floats: Seq<IdWithIdentifierAndCommentView>,
    float: IdWithIdentifierAndCommentView,
    emitted: Set<Seq<char>>,
)
    requires
        emitted.contains(float_rule_line(float)) || float_rules(floats).contains(
            float_rule_line(float),
        ),
    ensures
        floats_lines(floats.push(float), emitted) == floats_lines(floats, emitted),
{
    assert(floats.push(float).drop_last() =~= floats);
}

/// A float rule whose command line is new adds its remark, if it has one,
/// and directly below it its command line.
pub proof fn lemma_new_rule_written(
    floats: Seq<IdWithIdentifierAndCommentView>,
    float: IdWithIdentifierAndCommentView,
    emitted: Set<Seq<char>>,
)
    requires
        !emitted.contains(float_rule_line(float)),
        !float_rules(floats).contains(float_rule_line(float)),
    ensures
        floats_lines(floats.push(float), emitted) == floats_lines(floats, emitted)
            + float_entry_lines(float),
{
    assert(floats.push(float).drop_last() =~= floats);
}

/// Where the lines of the float rule `j` of the application `a` begin in
/// the script of `apps`, if they are written: below the header, the blocks
/// of the applications before `a`, the name and the options of `a`, and the
/// lines of its float rules before `j`.
pub open spec fn float_entry_place(apps: Seq<ApplicationConfigurationView>, a: int, j: int) -> nat {
    let written = floats_lines(
        apps[a].float_identifiers->0.take(j),
        document_float_rules(apps.take(a)),
    );
    header().len() + blocks(apps.take(a)).len() + 1 + app_options_lines(apps[a]).len()
        + written.len()
}

/// What stands in a part of a list stands in the list.
proof fn lemma_stands_within(
    lines: Seq<Seq<char>>,
    at: int,
    part: Seq<Seq<char>>,
    within: int,
    piece: Seq<Seq<char>>,
)
    requires
        stands_at(lines, at, part),
        stands_at(part, within, piece),
    ensures
        stands_at(lines, at + within, piece),
{
    assert(lines.subrange(at + within, at + within + piece.len()) =~= lines.subrange(
        at,
        at + part.len(),
    ).subrange(within, within + piece.len()));
}

/// The lines of a float rule whose command line is new stand among the
/// lines of its list, behind those of the rules before it.
proof fn lemma_entry_stands_in_floats_lines(
    floats: Seq<IdWithIdentifierAndCommentView>,
    emitted: Set<Seq<char>>,
    j: int,
)
    requires
        0 <= j < floats.len(),
        !emitted.contains(float_rule_line(floats[j])),
        !float_rules(floats.take(j)).contains(float_rule_line(floats[j])),
    ensures
        stands_at(
            floats_lines(floats, emitted),
            floats_lines(floats.take(j), emitted).len() as int,
            float_entry_lines(floats[j]),
        ),
    decreases floats.len(),
{
    let earlier = floats.drop_last();
    let entry = float_entry_lines(floats[j]);
    let at = floats_lines(floats.take(j), emitted).len() as int;
    if j == floats.len() - 1 {
        assert(floats.take(j) =~= earlier);
        assert(floats_lines(floats, emitted).subrange(at, at + entry.len()) =~= entry);
    } else {
        assert(earlier.take(j) =~= floats.take(j));
        lemma_entry_stands_in_floats_lines(earlier, emitted, j);
        let before = floats_lines(earlier, emitted);
        assert(floats_lines(floats, emitted).subrange(at, at + entry.len()) =~= before.subrange(
            at,
            at + entry.len(),
        ));
    }
}

/// The block of each application stands among the blocks of the document,
/// behind those of the applications before it.
proof fn lemma_block_stands_in_blocks(apps: Seq<ApplicationConfigurationView>, a: int)
    requires
        0 <= a < apps.len(),
    ensures
        stands_at(
            blocks(apps),
            blocks(apps.take(a)).len() as int,
            app_block(apps[a], document_float_rules(apps.take(a))),
        ),
    decreases apps.len(),
{
    let earlier = apps.drop_last();
    let block = app_block(apps[a], document_float_rules(apps.take(a)));
    let at = blocks(apps.take(a)).len() as int;
    if a == apps.len() - 1 {
        assert(apps.take(a) =~= earlier);
        assert(blocks(apps).subrange(at, at + block.len()) =~= block);
    } else {
        assert(earlier.take(a) =~= apps.take(a));
        lemma_block_stands_in_blocks(earlier, a);
        assert(blocks(apps).subrange(at, at + block.len()) =~= blocks(earlier).subrange(
            at,
            at + block.len(),
        ));
    }
}

/// A float rule that no earlier place of the document declares is written
/// where it was declared: its remark, if it has one, and directly below it
/// its command line stand in the block of its application, at
/// [`float_entry_place`].
pub proof fn lemma_first_declaration_written(
    apps: Seq<ApplicationConfigurationView>,
    a: int,
    j: int,
)
    requires
        0 <= a < apps.len(),
        apps[a].float_identifiers is Some,
        0 <= j < apps[a].float_identifiers->0.len(),
        !document_float_rules(apps.take(a)).contains(
            float_rule_line(apps[a].float_identifiers->0[j]),
        ),
        !float_rules(apps[a].float_identifiers->0.take(j)).contains(
            float_rule_line(apps[a].float_identifiers->0[j]),
        ),
    ensures
        stands_at(
            script_in_order(apps),
            float_entry_place(apps, a, j) as int,
            float_entry_lines(apps[a].float_identifiers->0[j]),
        ),
{
    let app = apps[a];
    let floats = app.float_identifiers->0;
    let emitted = document_float_rules(apps.take(a));
    let entry = float_entry_lines(floats[j]);
    let block = app_block(app, emitted);
    let lead = seq![comment_line(app.name)] + app_options_lines(app);
    let in_floats = floats_lines(floats.take(j), emitted).len() as int;
    lemma_entry_stands_in_floats_lines(floats, emitted, j);
    assert(stands_at(block, lead.len() + in_floats, entry)) by {
        assert(block.subrange(lead.len() + in_floats, lead.len() + in_floats + entry.len())
            =~= floats_lines(floats, emitted).subrange(in_floats, in_floats + entry.len()));
    }
    lemma_block_stands_in_blocks(apps, a);
    lemma_stands_within(
        blocks(apps),
        blocks(apps.take(a)).len() as int,
        block,
        lead.len() + in_floats,
        entry,
    );
    let in_blocks = blocks(apps.take(a)).len() + lead.len() + in_floats;
    assert(script_in_order(apps).subrange(
        header().len() + in_blocks,
        header().len() + in_blocks + entry.len(),
    ) =~= blocks(apps).subrange(in_blocks, in_blocks + entry.len()));
}

} // verus!

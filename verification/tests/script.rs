use komorebi_core::ApplicationConfiguration;
use komorebi_core::ApplicationConfigurationGenerator;
use komorebi_core::ApplicationIdentifier;
use komorebi_core::ApplicationOptions;
use komorebi_core::IdWithIdentifier;
use komorebi_core::IdWithIdentifierAndComment;

const WARNING: &str = "; If you have disabled minimize/close to tray for this application, you can delete/comment out the next line";

fn app(
    name: &str,
    kind: ApplicationIdentifier,
    id: &str,
    options: Option<Vec<ApplicationOptions>>,
    float_identifiers: Option<Vec<IdWithIdentifierAndComment>>,
) -> ApplicationConfiguration {
    ApplicationConfiguration {
        name: name.to_string(),
        identifier: IdWithIdentifier { kind, id: id.to_string() },
        options,
        float_identifiers,
    }
}

fn float(
    kind: ApplicationIdentifier,
    id: &str,
    comment: Option<&str>,
) -> IdWithIdentifierAndComment {
    IdWithIdentifierAndComment {
        kind,
        id: id.to_string(),
        comment: comment.map(|text| text.to_string()),
    }
}

fn with_header(rest: &[&str]) -> Vec<String> {
    let mut lines = vec![
        "; Generated by komorebic.exe".to_string(),
        "; To use this file, add the line below to the top of your komorebi.ahk configuration file"
            .to_string(),
        "; #Include %A_ScriptDir%\\komorebi.generated.ahk".to_string(),
        String::new(),
    ];
    for line in rest {
        lines.push(line.to_string());
    }
    lines
}

fn count(lines: &[String], line: &str) -> usize {
    lines.iter().filter(|l| l.as_str() == line).count()
}

#[test]
fn empty_document_gives_the_header_alone() {
    let lines = ApplicationConfigurationGenerator::generate_ahk(vec![]);
    assert_eq!(lines.len(), 4);
    assert_eq!(lines[0], "; Generated by komorebic.exe");
    assert_eq!(
        lines[1],
        "; To use this file, add the line below to the top of your komorebi.ahk configuration file"
    );
    assert_eq!(lines[2], "; #Include %A_ScriptDir%\\komorebi.generated.ahk");
    assert_eq!(lines[3], "");
}

#[test]
fn zeta_and_alpha_end_to_end() {
    let zeta = app(
        "Zeta",
        ApplicationIdentifier::Exe,
        "zeta.exe",
        Some(vec![ApplicationOptions::Force]),
        None,
    );
    let alpha = app(
        "Alpha",
        ApplicationIdentifier::Title,
        "Alpha Window",
        None,
        Some(vec![float(ApplicationIdentifier::Class, "Alpha.Class", Some("popup"))]),
    );
    let lines = ApplicationConfigurationGenerator::generate_ahk(vec![zeta, alpha]);
    assert_eq!(
        lines,
        with_header(&[
            "; Alpha",
            "; popup",
            "Run, komorebic.exe float-rule class Alpha.Class, , Hide",
            "",
            "; Zeta",
            "Run, komorebic.exe manage-rule exe zeta.exe, , Hide",
            "",
        ])
    );
}

#[test]
fn application_without_options_or_rules_gives_name_and_blank() {
    let lines = ApplicationConfigurationGenerator::generate_ahk(vec![app(
        "Solo",
        ApplicationIdentifier::Exe,
        "solo.exe",
        None,
        None,
    )]);
    assert_eq!(lines, with_header(&["; Solo", ""]));
}

#[test]
fn empty_lists_give_no_lines() {
    let lines = ApplicationConfigurationGenerator::generate_ahk(vec![app(
        "Solo",
        ApplicationIdentifier::Exe,
        "solo.exe",
        Some(vec![]),
        Some(vec![]),
    )]);
    assert_eq!(lines, with_header(&["; Solo", ""]));
}

#[test]
fn no_options_means_no_option_lines() {
    let lines = ApplicationConfigurationGenerator::generate_ahk(vec![app(
        "Plain",
        ApplicationIdentifier::Class,
        "PlainClass",
        None,
        Some(vec![float(ApplicationIdentifier::Exe, "plain.exe", None)]),
    )]);
    assert_eq!(
        lines,
        with_header(&["; Plain", "Run, komorebic.exe float-rule exe plain.exe, , Hide", ""])
    );
    assert!(lines.iter().all(|line| !line.contains("identify-")));
    assert!(lines.iter().all(|line| !line.contains("manage-rule")));
    assert_eq!(count(&lines, WARNING), 0);
}

#[test]
fn options_come_in_declared_order() {
    let lines = ApplicationConfigurationGenerator::generate_ahk(vec![app(
        "Many",
        ApplicationIdentifier::Path,
        "C:\\Program Files\\Many\\many.exe",
        Some(vec![
            ApplicationOptions::Force,
            ApplicationOptions::ObjectNameChange,
            ApplicationOptions::Layered,
            ApplicationOptions::BorderOverflow,
            ApplicationOptions::Force,
        ]),
        None,
    )]);
    assert_eq!(
        lines,
        with_header(&[
            "; Many",
            "Run, komorebic.exe manage-rule path C:\\Program Files\\Many\\many.exe, , Hide",
            "Run, komorebic.exe identify-object-name-change-application path C:\\Program Files\\Many\\many.exe, , Hide",
            "Run, komorebic.exe identify-layered-application path C:\\Program Files\\Many\\many.exe, , Hide",
            "Run, komorebic.exe identify-border-overflow-application path C:\\Program Files\\Many\\many.exe, , Hide",
            "Run, komorebic.exe manage-rule path C:\\Program Files\\Many\\many.exe, , Hide",
            "",
        ])
    );
}

#[test]
fn tray_option_is_warned_of() {
    let lines = ApplicationConfigurationGenerator::generate_ahk(vec![app(
        "Tray",
        ApplicationIdentifier::Exe,
        "tray.exe",
        Some(vec![
            ApplicationOptions::Layered,
            ApplicationOptions::TrayAndMultiWindow,
            ApplicationOptions::Force,
        ]),
        None,
    )]);
    assert_eq!(
        lines,
        with_header(&[
            "; Tray",
            "Run, komorebic.exe identify-layered-application exe tray.exe, , Hide",
            WARNING,
            "Run, komorebic.exe identify-tray-application exe tray.exe, , Hide",
            "Run, komorebic.exe manage-rule exe tray.exe, , Hide",
            "",
        ])
    );
}

#[test]
fn every_tray_line_follows_the_warning() {
    let lines = ApplicationConfigurationGenerator::generate_ahk(vec![
        app(
            "B",
            ApplicationIdentifier::Exe,
            "b.exe",
            Some(vec![
                ApplicationOptions::TrayAndMultiWindow,
                ApplicationOptions::TrayAndMultiWindow,
            ]),
            None,
        ),
        app(
            "A",
            ApplicationIdentifier::Title,
            "A",
            Some(vec![ApplicationOptions::Force, ApplicationOptions::TrayAndMultiWindow]),
            Some(vec![float(ApplicationIdentifier::Exe, "a.exe", Some("identify-tray-application"))]),
        ),
    ]);
    let mut tray_lines = 0;
    for (i, line) in lines.iter().enumerate() {
        if line.starts_with("Run, komorebic.exe identify-tray-application ") {
            tray_lines += 1;
            assert!(i > 0);
            assert_eq!(lines[i - 1], WARNING);
        }
    }
    assert_eq!(tray_lines, 3);
    assert_eq!(count(&lines, WARNING), 3);
}

#[test]
fn other_options_bring_no_warning() {
    let lines = ApplicationConfigurationGenerator::generate_ahk(vec![app(
        "Quiet",
        ApplicationIdentifier::Exe,
        "quiet.exe",
        Some(vec![
            ApplicationOptions::ObjectNameChange,
            ApplicationOptions::Layered,
            ApplicationOptions::BorderOverflow,
            ApplicationOptions::Force,
        ]),
        None,
    )]);
    assert_eq!(count(&lines, WARNING), 0);
    assert_eq!(lines.len(), 4 + 1 + 4 + 1);
}

#[test]
fn float_rule_without_comment_gives_one_line() {
    let lines = ApplicationConfigurationGenerator::generate_ahk(vec![app(
        "Bare",
        ApplicationIdentifier::Exe,
        "bare.exe",
        None,
        Some(vec![
            float(ApplicationIdentifier::Title, "Bare Settings", None),
            float(ApplicationIdentifier::Class, "BareDialog", Some("dialogs")),
        ]),
    )]);
    assert_eq!(
        lines,
        with_header(&[
            "; Bare",
            "Run, komorebic.exe float-rule title Bare Settings, , Hide",
            "; dialogs",
            "Run, komorebic.exe float-rule class BareDialog, , Hide",
            "",
        ])
    );
}

#[test]
fn float_rule_shared_by_two_applications_is_written_once() {
    let first = app(
        "First",
        ApplicationIdentifier::Exe,
        "first.exe",
        None,
        Some(vec![float(ApplicationIdentifier::Class, "Shared", Some("from first"))]),
    );
    let second = app(
        "Second",
        ApplicationIdentifier::Exe,
        "second.exe",
        None,
        Some(vec![float(ApplicationIdentifier::Class, "Shared", Some("from second"))]),
    );
    let lines = ApplicationConfigurationGenerator::generate_ahk(vec![second, first]);
    assert_eq!(
        lines,
        with_header(&[
            "; First",
            "; from first",
            "Run, komorebic.exe float-rule class Shared, , Hide",
            "",
            "; Second",
            "",
        ])
    );
    assert_eq!(count(&lines, "Run, komorebic.exe float-rule class Shared, , Hide"), 1);
    assert_eq!(count(&lines, "; from second"), 0);
}

#[test]
fn first_declaration_without_comment_wins_over_later_comment() {
    let first = app(
        "A",
        ApplicationIdentifier::Exe,
        "a.exe",
        None,
        Some(vec![float(ApplicationIdentifier::Exe, "shared.exe", None)]),
    );
    let second = app(
        "B",
        ApplicationIdentifier::Exe,
        "b.exe",
        None,
        Some(vec![float(ApplicationIdentifier::Exe, "shared.exe", Some("late remark"))]),
    );
    let lines = ApplicationConfigurationGenerator::generate_ahk(vec![first, second]);
    assert_eq!(
        lines,
        with_header(&[
            "; A",
            "Run, komorebic.exe float-rule exe shared.exe, , Hide",
            "",
            "; B",
            "",
        ])
    );
}

#[test]
fn float_rule_repeated_within_one_application_is_written_once() {
    let lines = ApplicationConfigurationGenerator::generate_ahk(vec![app(
        "Twice",
        ApplicationIdentifier::Exe,
        "twice.exe",
        None,
        Some(vec![
            float(ApplicationIdentifier::Title, "Popup", Some("one")),
            float(ApplicationIdentifier::Class, "Other", None),
            float(ApplicationIdentifier::Title, "Popup", Some("two")),
        ]),
    )]);
    assert_eq!(
        lines,
        with_header(&[
            "; Twice",
            "; one",
            "Run, komorebic.exe float-rule title Popup, , Hide",
            "Run, komorebic.exe float-rule class Other, , Hide",
            "",
        ])
    );
}

#[test]
fn float_rules_that_differ_in_kind_or_id_are_both_written() {
    let lines = ApplicationConfigurationGenerator::generate_ahk(vec![
        app(
            "A",
            ApplicationIdentifier::Exe,
            "a.exe",
            None,
            Some(vec![float(ApplicationIdentifier::Title, "Popup", None)]),
        ),
        app(
            "B",
            ApplicationIdentifier::Exe,
            "b.exe",
            None,
            Some(vec![
                float(ApplicationIdentifier::Class, "Popup", None),
                float(ApplicationIdentifier::Title, "popup", None),
            ]),
        ),
    ]);
    assert_eq!(
        lines,
        with_header(&[
            "; A",
            "Run, komorebic.exe float-rule title Popup, , Hide",
            "",
            "; B",
            "Run, komorebic.exe float-rule class Popup, , Hide",
            "Run, komorebic.exe float-rule title popup, , Hide",
            "",
        ])
    );
}

#[test]
fn option_line_does_not_suppress_a_float_rule() {
    let lines = ApplicationConfigurationGenerator::generate_ahk(vec![app(
        "Both",
        ApplicationIdentifier::Exe,
        "both.exe",
        Some(vec![ApplicationOptions::Force]),
        Some(vec![float(ApplicationIdentifier::Exe, "both.exe", None)]),
    )]);
    assert_eq!(
        lines,
        with_header(&[
            "; Both",
            "Run, komorebic.exe manage-rule exe both.exe, , Hide",
            "Run, komorebic.exe float-rule exe both.exe, , Hide",
            "",
        ])
    );
}

#[test]
fn dedup_follows_sorted_order_not_input_order() {
    let late = app(
        "Zulu",
        ApplicationIdentifier::Exe,
        "zulu.exe",
        None,
        Some(vec![float(ApplicationIdentifier::Path, "C:\\shared.exe", Some("zulu says"))]),
    );
    let early = app(
        "Able",
        ApplicationIdentifier::Exe,
        "able.exe",
        None,
        Some(vec![float(ApplicationIdentifier::Path, "C:\\shared.exe", Some("able says"))]),
    );
    let lines = ApplicationConfigurationGenerator::generate_ahk(vec![late, early]);
    assert_eq!(
        lines,
        with_header(&[
            "; Able",
            "; able says",
            "Run, komorebic.exe float-rule path C:\\shared.exe, , Hide",
            "",
            "; Zulu",
            "",
        ])
    );
}

#[test]
fn applications_with_one_name_keep_their_order() {
    let lines = ApplicationConfigurationGenerator::generate_ahk(vec![
        app("Same", ApplicationIdentifier::Exe, "second.exe", Some(vec![ApplicationOptions::Force]), None),
        app("Other", ApplicationIdentifier::Exe, "other.exe", None, None),
        app("Same", ApplicationIdentifier::Exe, "first.exe", Some(vec![ApplicationOptions::Force]), None),
    ]);
    assert_eq!(
        lines,
        with_header(&[
            "; Other",
            "",
            "; Same",
            "Run, komorebic.exe manage-rule exe second.exe, , Hide",
            "",
            "; Same",
            "Run, komorebic.exe manage-rule exe first.exe, , Hide",
            "",
        ])
    );
}

#[test]
fn every_application_ends_with_a_blank_line() {
    let lines = ApplicationConfigurationGenerator::generate_ahk(vec![
        app("C", ApplicationIdentifier::Exe, "c.exe", None, None),
        app("A", ApplicationIdentifier::Exe, "a.exe", None, None),
        app("B", ApplicationIdentifier::Exe, "b.exe", None, None),
    ]);
    assert_eq!(lines, with_header(&["; A", "", "; B", "", "; C", ""]));
}

#[test]
fn every_line_is_blank_a_comment_or_a_command() {
    let lines = ApplicationConfigurationGenerator::generate_ahk(vec![
        app(
            "One",
            ApplicationIdentifier::Exe,
            "one.exe",
            Some(vec![ApplicationOptions::TrayAndMultiWindow, ApplicationOptions::Force]),
            Some(vec![
                float(ApplicationIdentifier::Title, "One, , Hide", Some("Run, not a command")),
                float(ApplicationIdentifier::Class, "OneClass", None),
            ]),
        ),
        app("", ApplicationIdentifier::Path, "", Some(vec![ApplicationOptions::Layered]), None),
    ]);
    assert_eq!(lines.len(), 4 + 3 + 8);
    for line in &lines {
        let blank = line.is_empty();
        let comment = line.starts_with("; ");
        let command = line.starts_with("Run, komorebic.exe ") && line.ends_with(", , Hide");
        assert!(blank || comment || command);
        assert_eq!([blank, comment, command].iter().filter(|form| **form).count(), 1);
    }
}

#[test]
fn script_opens_with_the_header_whatever_the_document() {
    let lines = ApplicationConfigurationGenerator::generate_ahk(vec![app(
        "; Generated by komorebic.exe",
        ApplicationIdentifier::Exe,
        "x.exe",
        None,
        None,
    )]);
    assert_eq!(lines, with_header(&["; ; Generated by komorebic.exe", ""]));
}

#[test]
fn no_float_rules_means_no_rule_lines() {
    let lines = ApplicationConfigurationGenerator::generate_ahk(vec![app(
        "float-rule",
        ApplicationIdentifier::Exe,
        "float-rule",
        Some(vec![ApplicationOptions::BorderOverflow]),
        None,
    )]);
    assert_eq!(
        lines,
        with_header(&[
            "; float-rule",
            "Run, komorebic.exe identify-border-overflow-application exe float-rule, , Hide",
            "",
        ])
    );
    assert!(lines.iter().all(|line| !line.starts_with("Run, komorebic.exe float-rule ")));
}

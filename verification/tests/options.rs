use komorebi_core::options::render_command;
use komorebi_core::ApplicationIdentifier;
use komorebi_core::ApplicationOptions;

#[test]
fn cfgen_object_name_change() {
    assert_eq!(
        ApplicationOptions::ObjectNameChange.cfgen(&ApplicationIdentifier::Exe, "chrome.exe"),
        "Run, komorebic.exe identify-object-name-change-application exe chrome.exe, , Hide"
    );
}

#[test]
fn cfgen_layered() {
    assert_eq!(
        ApplicationOptions::Layered.cfgen(&ApplicationIdentifier::Class, "SunAwtFrame"),
        "Run, komorebic.exe identify-layered-application class SunAwtFrame, , Hide"
    );
}

#[test]
fn cfgen_border_overflow() {
    assert_eq!(
        ApplicationOptions::BorderOverflow.cfgen(&ApplicationIdentifier::Title, "Control Panel"),
        "Run, komorebic.exe identify-border-overflow-application title Control Panel, , Hide"
    );
}

#[test]
fn cfgen_tray_and_multi_window() {
    assert_eq!(
        ApplicationOptions::TrayAndMultiWindow.cfgen(&ApplicationIdentifier::Exe, "Discord.exe"),
        "Run, komorebic.exe identify-tray-application exe Discord.exe, , Hide"
    );
}

#[test]
fn cfgen_force() {
    assert_eq!(
        ApplicationOptions::Force.cfgen(&ApplicationIdentifier::Path, "C:\\Tools\\tool.exe"),
        "Run, komorebic.exe manage-rule path C:\\Tools\\tool.exe, , Hide"
    );
}

#[test]
fn cfgen_keeps_the_id_as_it_is() {
    assert_eq!(
        ApplicationOptions::Force.cfgen(&ApplicationIdentifier::Title, ""),
        "Run, komorebic.exe manage-rule title , , Hide"
    );
    assert_eq!(
        ApplicationOptions::Force.cfgen(&ApplicationIdentifier::Title, "a, b  c"),
        "Run, komorebic.exe manage-rule title a, b  c, , Hide"
    );
    assert_eq!(
        ApplicationOptions::Layered.cfgen(&ApplicationIdentifier::Title, "Füße – 窓"),
        "Run, komorebic.exe identify-layered-application title Füße – 窓, , Hide"
    );
}

#[test]
fn render_command_fills_the_template() {
    assert_eq!(
        render_command("float-rule", &ApplicationIdentifier::Class, "Popup"),
        "Run, komorebic.exe float-rule class Popup, , Hide"
    );
}

#[test]
fn subcommands_of_the_options() {
    assert_eq!(
        ApplicationOptions::ObjectNameChange.subcommand_str(),
        "identify-object-name-change-application"
    );
    assert_eq!(ApplicationOptions::Layered.subcommand_str(), "identify-layered-application");
    assert_eq!(
        ApplicationOptions::BorderOverflow.subcommand_str(),
        "identify-border-overflow-application"
    );
    assert_eq!(
        ApplicationOptions::TrayAndMultiWindow.subcommand_str(),
        "identify-tray-application"
    );
    assert_eq!(ApplicationOptions::Force.subcommand_str(), "manage-rule");
}

#[test]
fn options_are_spelled_in_snake_case() {
    assert_eq!(ApplicationOptions::ObjectNameChange.as_str(), "object_name_change");
    assert_eq!(ApplicationOptions::Layered.as_str(), "layered");
    assert_eq!(ApplicationOptions::BorderOverflow.as_str(), "border_overflow");
    assert_eq!(ApplicationOptions::TrayAndMultiWindow.as_str(), "tray_and_multi_window");
    assert_eq!(ApplicationOptions::Force.as_str(), "force");
}

#[test]
fn kinds_are_spelled_in_lower_case() {
    assert_eq!(ApplicationIdentifier::Exe.as_str(), "exe");
    assert_eq!(ApplicationIdentifier::Class.as_str(), "class");
    assert_eq!(ApplicationIdentifier::Title.as_str(), "title");
    assert_eq!(ApplicationIdentifier::Path.as_str(), "path");
}

#[test]
fn options_are_read_back_from_their_spelling() {
    let all = [
        ApplicationOptions::ObjectNameChange,
        ApplicationOptions::Layered,
        ApplicationOptions::BorderOverflow,
        ApplicationOptions::TrayAndMultiWindow,
        ApplicationOptions::Force,
    ];
    for option in all {
        assert_eq!(ApplicationOptions::parse(option.as_str()), Some(option));
    }
}

#[test]
fn kinds_are_read_back_from_their_spelling() {
    let all = [
        ApplicationIdentifier::Exe,
        ApplicationIdentifier::Class,
        ApplicationIdentifier::Title,
        ApplicationIdentifier::Path,
    ];
    for kind in all {
        assert_eq!(ApplicationIdentifier::parse(kind.as_str()), Some(kind));
    }
}

#[test]
fn other_spellings_are_not_read() {
    assert_eq!(ApplicationOptions::parse(""), None);
    assert_eq!(ApplicationOptions::parse("Force"), None);
    assert_eq!(ApplicationOptions::parse("force "), None);
    assert_eq!(ApplicationOptions::parse("tray-and-multi-window"), None);
    assert_eq!(ApplicationOptions::parse("TrayAndMultiWindow"), None);
    assert_eq!(ApplicationOptions::parse("exe"), None);
    assert_eq!(ApplicationIdentifier::parse(""), None);
    assert_eq!(ApplicationIdentifier::parse("Exe"), None);
    assert_eq!(ApplicationIdentifier::parse("ex"), None);
    assert_eq!(ApplicationIdentifier::parse("exes"), None);
    assert_eq!(ApplicationIdentifier::parse("layered"), None);
}

use komorebi_core::sort::sort_by_name;
use komorebi_core::text::bytes_precede;
use komorebi_core::text::name_precedes;
use komorebi_core::text::same_text;
use komorebi_core::ApplicationConfiguration;
use komorebi_core::ApplicationConfigurationGenerator;
use komorebi_core::ApplicationIdentifier;
use komorebi_core::IdWithIdentifier;

fn named(name: &str, id: &str) -> ApplicationConfiguration {
    ApplicationConfiguration {
        name: name.to_string(),
        identifier: IdWithIdentifier { kind: ApplicationIdentifier::Exe, id: id.to_string() },
        options: None,
        float_identifiers: None,
    }
}

fn names_and_ids(apps: &[ApplicationConfiguration]) -> Vec<(String, String)> {
    apps.iter().map(|app| (app.name.clone(), app.identifier.id.clone())).collect()
}

fn pairs(expected: &[(&str, &str)]) -> Vec<(String, String)> {
    expected.iter().map(|(name, id)| (name.to_string(), id.to_string())).collect()
}

#[test]
fn format_orders_by_name() {
    let canonical = ApplicationConfigurationGenerator::format(vec![
        named("Zeta", "z"),
        named("Alpha", "a"),
        named("Mid", "m"),
    ]);
    assert_eq!(names_and_ids(&canonical), pairs(&[("Alpha", "a"), ("Mid", "m"), ("Zeta", "z")]));
}

#[test]
fn format_of_nothing_is_nothing() {
    assert!(ApplicationConfigurationGenerator::format(vec![]).is_empty());
}

#[test]
fn format_output_is_non_decreasing() {
    let canonical = ApplicationConfigurationGenerator::format(vec![
        named("delta", "1"),
        named("Bravo", "2"),
        named("alpha", "3"),
        named("Charlie", "4"),
        named("bravo", "5"),
        named("", "6"),
        named("Bravo", "7"),
    ]);
    assert_eq!(canonical.len(), 7);
    for i in 1..canonical.len() {
        assert!(canonical[i - 1].name <= canonical[i].name);
    }
}

#[test]
fn format_keeps_the_order_of_equal_names() {
    let canonical = ApplicationConfigurationGenerator::format(vec![
        named("Same", "first"),
        named("Aaa", "x"),
        named("Same", "second"),
        named("Zzz", "y"),
        named("Same", "third"),
    ]);
    assert_eq!(
        names_and_ids(&canonical),
        pairs(&[
            ("Aaa", "x"),
            ("Same", "first"),
            ("Same", "second"),
            ("Same", "third"),
            ("Zzz", "y"),
        ])
    );
}

#[test]
fn format_twice_is_format_once() {
    let once = ApplicationConfigurationGenerator::format(vec![
        named("b", "1"),
        named("a", "2"),
        named("b", "3"),
        named("C", "4"),
    ]);
    let expected = names_and_ids(&once);
    let twice = ApplicationConfigurationGenerator::format(once);
    assert_eq!(names_and_ids(&twice), expected);
    assert_eq!(expected, pairs(&[("C", "4"), ("a", "2"), ("b", "1"), ("b", "3")]));
}

#[test]
fn format_leaves_a_canonical_document_alone() {
    let canonical = ApplicationConfigurationGenerator::format(vec![
        named("Alpha", "a"),
        named("Beta", "b"),
        named("Beta", "c"),
        named("Gamma", "d"),
    ]);
    assert_eq!(
        names_and_ids(&canonical),
        pairs(&[("Alpha", "a"), ("Beta", "b"), ("Beta", "c"), ("Gamma", "d")])
    );
}

#[test]
fn format_keeps_every_field() {
    let mut app = named("Only", "only.exe");
    app.options = Some(vec![komorebi_core::ApplicationOptions::Layered]);
    app.float_identifiers = Some(vec![komorebi_core::IdWithIdentifierAndComment {
        kind: ApplicationIdentifier::Class,
        id: "Popup".to_string(),
        comment: Some("remark".to_string()),
    }]);
    let canonical = ApplicationConfigurationGenerator::format(vec![named("Zed", "z"), app]);
    assert_eq!(canonical[0].name, "Only");
    assert_eq!(canonical[0].identifier.kind, ApplicationIdentifier::Exe);
    assert_eq!(canonical[0].identifier.id, "only.exe");
    assert_eq!(canonical[0].options, Some(vec![komorebi_core::ApplicationOptions::Layered]));
    let floats = canonical[0].float_identifiers.as_ref().unwrap();
    assert_eq!(floats.len(), 1);
    assert_eq!(floats[0].kind, ApplicationIdentifier::Class);
    assert_eq!(floats[0].id, "Popup");
    assert_eq!(floats[0].comment.as_deref(), Some("remark"));
    assert_eq!(canonical[1].name, "Zed");
}

#[test]
fn upper_case_comes_before_lower_case() {
    let canonical = sort_by_name(vec![named("alpha", "1"), named("Zeta", "2"), named("Alpha", "3")]);
    assert_eq!(names_and_ids(&canonical), pairs(&[("Alpha", "3"), ("Zeta", "2"), ("alpha", "1")]));
}

#[test]
fn a_prefix_comes_before_its_extensions() {
    let canonical = sort_by_name(vec![named("ab", "1"), named("a", "2"), named("", "3"), named("abc", "4")]);
    assert_eq!(
        names_and_ids(&canonical),
        pairs(&[("", "3"), ("a", "2"), ("ab", "1"), ("abc", "4")])
    );
}

#[test]
fn names_outside_ascii_follow_their_bytes() {
    let canonical = sort_by_name(vec![named("éclair", "1"), named("zebra", "2"), named("窓", "3"), named("Ωmega", "4")]);
    assert_eq!(
        names_and_ids(&canonical),
        pairs(&[("zebra", "2"), ("éclair", "1"), ("Ωmega", "4"), ("窓", "3")])
    );
}

#[test]
fn name_precedes_is_the_order_of_strings() {
    let names = ["", "A", "Alpha", "Alpha ", "Alphabet", "Zeta", "a", "alpha", "é", "窓", "😀"];
    for a in names {
        for b in names {
            assert_eq!(name_precedes(a, b), a <= b);
        }
    }
}

#[test]
fn bytes_precede_compares_position_by_position() {
    assert!(bytes_precede(&[], &[]));
    assert!(bytes_precede(&[], &[0]));
    assert!(!bytes_precede(&[0], &[]));
    assert!(bytes_precede(&[1, 2, 3], &[1, 2, 3]));
    assert!(bytes_precede(&[1, 2], &[1, 2, 0]));
    assert!(!bytes_precede(&[1, 2, 0], &[1, 2]));
    assert!(bytes_precede(&[1, 2, 255], &[1, 3]));
    assert!(!bytes_precede(&[1, 3], &[1, 2, 255]));
    assert!(bytes_precede(&[127], &[128]));
}

#[test]
fn same_text_is_equality() {
    let texts = ["", "a", "A", "ab", "a ", "é", "e\u{301}", "窓"];
    for a in texts {
        for b in texts {
            assert_eq!(same_text(a, b), a == b);
        }
    }
}

use printers::configure::{
    printer_name_from_display_name, truncate_name, truncate_name_with_suffix,
    unique_printer_name, MAX_NAME_ATTEMPTS, MAX_PRINTER_NAME_LENGTH,
};
use printers::printers::ConfiguredPrinter;

fn configured(name: &str) -> ConfiguredPrinter {
    ConfiguredPrinter {
        printer_id: Some(1),
        name: name.to_string(),
        device_uri: None,
        printer_uri: None,
        printer_uuid: None,
        web_interface_uri: None,
    }
}

#[test]
fn configure_spaces_become_underscores() {
    assert_eq!(
        printer_name_from_display_name("HP LaserJet 4050"),
        "HP_LaserJet_4050"
    );
}

#[test]
fn configure_characters_a_printer_application_rejects_are_removed() {
    assert_eq!(
        printer_name_from_display_name("Acme/Laser #2 (front)"),
        "AcmeLaser_2_front"
    );
    assert_eq!(printer_name_from_display_name("Acme\u{7}Laser"), "AcmeLaser");
}

#[test]
fn configure_runs_of_separators_collapse() {
    assert_eq!(
        printer_name_from_display_name("Acme   Test    Laser"),
        "Acme_Test_Laser"
    );
    assert_eq!(printer_name_from_display_name("__Acme__"), "Acme");
}

#[test]
fn configure_a_name_always_starts_with_a_letter_or_underscore() {
    assert_eq!(printer_name_from_display_name("4050 Laser"), "_4050_Laser");
}

#[test]
fn configure_an_unusable_display_name_still_yields_a_name() {
    assert_eq!(printer_name_from_display_name(""), "printer");
    assert_eq!(printer_name_from_display_name("///"), "printer");
    assert_eq!(printer_name_from_display_name("测试打印机"), "printer");
}

#[test]
fn configure_names_stay_within_the_length_a_printer_application_accepts() {
    let name = printer_name_from_display_name(&"a".repeat(300));

    assert_eq!(name.len(), MAX_PRINTER_NAME_LENGTH);
}

#[test]
fn configure_normalization_is_stable() {
    let once = printer_name_from_display_name("HP LaserJet 4050");
    let twice = printer_name_from_display_name(&once);

    assert_eq!(once, twice);
}

#[test]
fn configure_a_free_name_is_used_unchanged() {
    assert_eq!(
        unique_printer_name("HP_LaserJet_4050", &vec![]).as_deref(),
        Some("HP_LaserJet_4050")
    );
}

#[test]
fn configure_a_name_used_by_another_device_gets_a_suffix() {
    let printers = vec![configured("HP_LaserJet_4050")];

    assert_eq!(
        unique_printer_name("HP_LaserJet_4050", &printers).as_deref(),
        Some("HP_LaserJet_4050_2")
    );

    let printers = vec![
        configured("HP_LaserJet_4050"),
        configured("HP_LaserJet_4050_2"),
    ];
    assert_eq!(
        unique_printer_name("HP_LaserJet_4050", &printers).as_deref(),
        Some("HP_LaserJet_4050_3")
    );
}

#[test]
fn configure_suffixing_keeps_the_name_within_the_length_limit() {
    let base = "a".repeat(MAX_PRINTER_NAME_LENGTH);
    let printers = vec![configured(&base)];
    let name = unique_printer_name(&base, &printers).expect("a unique name");

    assert!(name.len() <= MAX_PRINTER_NAME_LENGTH);
    assert!(name.ends_with("_2"));
}

#[test]
fn configure_giving_up_is_reported_rather_than_looping() {
    let mut printers = vec![configured("printer")];
    printers.extend((2..=MAX_NAME_ATTEMPTS).map(|suffix| configured(&format!("printer_{suffix}"))));

    assert_eq!(unique_printer_name("printer", &printers), None);
}

#[test]
fn a_taken_name_is_matched_without_case() {
    let printers = vec![configured("hp_laserjet_4050")];

    assert_eq!(
        unique_printer_name("HP_LaserJet_4050", &printers).as_deref(),
        Some("HP_LaserJet_4050_2")
    );
}

#[test]
fn the_tenth_try_makes_room_for_two_digits() {
    let base = "b".repeat(MAX_PRINTER_NAME_LENGTH);
    assert_eq!(truncate_name_with_suffix(&base, 10).len(), MAX_PRINTER_NAME_LENGTH);
    assert!(truncate_name_with_suffix(&base, 10).ends_with("b_10"));
    assert_eq!(truncate_name_with_suffix("short", 7), "short_7");
}

#[test]
fn truncation_drops_trailing_underscores() {
    assert_eq!(truncate_name("abc__".to_string()), "abc");
    let mut long = "x".repeat(126);
    long.push_str("_y");
    assert_eq!(truncate_name(long), "x".repeat(126));
}

#[test]
fn a_name_of_only_separators_and_digits_keeps_its_digits() {
    assert_eq!(printer_name_from_display_name("--42--"), "_42");
}

#[test]
fn spaces_become_underscores() {
    assert_eq!(
        printer_name_from_display_name("HP LaserJet 4050"),
        "HP_LaserJet_4050"
    );
}

#[test]
fn characters_a_printer_application_rejects_are_removed() {
    assert_eq!(
        printer_name_from_display_name("Acme/Laser #2 (front)"),
        "AcmeLaser_2_front"
    );
    assert_eq!(printer_name_from_display_name("Acme\u{7}Laser"), "AcmeLaser");
}

#[test]
fn runs_of_separators_collapse() {
    assert_eq!(
        printer_name_from_display_name("Acme   Test    Laser"),
        "Acme_Test_Laser"
    );
    assert_eq!(printer_name_from_display_name("__Acme__"), "Acme");
}

#[test]
fn a_name_always_starts_with_a_letter_or_underscore() {
    assert_eq!(printer_name_from_display_name("4050 Laser"), "_4050_Laser");
}

#[test]
fn an_unusable_display_name_still_yields_a_name() {
    assert_eq!(printer_name_from_display_name(""), "printer");
    assert_eq!(printer_name_from_display_name("///"), "printer");
    assert_eq!(printer_name_from_display_name("测试打印机"), "printer");
}

#[test]
fn names_stay_within_the_length_a_printer_application_accepts() {
    let name = printer_name_from_display_name(&"a".repeat(300));

    assert_eq!(name.len(), MAX_PRINTER_NAME_LENGTH);
}

#[test]
fn normalization_is_stable() {
    let once = printer_name_from_display_name("HP LaserJet 4050");
    let twice = printer_name_from_display_name(&once);

    assert_eq!(once, twice);
}

#[test]
fn a_free_name_is_used_unchanged() {
    assert_eq!(
        unique_printer_name("HP_LaserJet_4050", &vec![]).as_deref(),
        Some("HP_LaserJet_4050")
    );
}

#[test]
fn a_name_used_by_another_device_gets_a_suffix() {
    let printers = vec![configured("HP_LaserJet_4050")];

    assert_eq!(
        unique_printer_name("HP_LaserJet_4050", &printers).as_deref(),
        Some("HP_LaserJet_4050_2")
    );

    let printers = vec![
        configured("HP_LaserJet_4050"),
        configured("HP_LaserJet_4050_2"),
    ];
    assert_eq!(
        unique_printer_name("HP_LaserJet_4050", &printers).as_deref(),
        Some("HP_LaserJet_4050_3")
    );
}

#[test]
fn suffixing_keeps_the_name_within_the_length_limit() {
    let base = "a".repeat(MAX_PRINTER_NAME_LENGTH);
    let printers = vec![configured(&base)];
    let name = unique_printer_name(&base, &printers).expect("a unique name");

    assert!(name.len() <= MAX_PRINTER_NAME_LENGTH);
    assert!(name.ends_with("_2"));
}

#[test]
fn giving_up_is_reported_rather_than_looping() {
    let mut printers = vec![configured("printer")];
    printers.extend((2..=MAX_NAME_ATTEMPTS).map(|suffix| configured(&format!("printer_{suffix}"))));

    assert_eq!(unique_printer_name("printer", &printers), None);
}

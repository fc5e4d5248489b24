use i18n_embed::fluent::FluentLanguageLoader;
use printers::details::{
    known_supply_color_message, media_label, media_name_and_size, percentage_label,
    percentage_text, pretty_media_name, selected_option_idx, sides_message, supply_name,
    supply_name_message, supply_row_ranges, supply_rows, SupplyLevel, SupplyRgb, SUPPLY_COLUMNS,
};

fn loader() -> FluentLanguageLoader {
    FluentLanguageLoader::new("printers", "en-US".parse().unwrap())
}

fn supply(name: &str, colors: Vec<SupplyRgb>) -> SupplyLevel {
    SupplyLevel {
        name: name.to_string(),
        level_percent: Some(50),
        colors,
    }
}

#[test]
fn supplies_fill_rows_two_at_a_time() {
    assert_eq!((1..=5).map(supply_rows).collect::<Vec<_>>(), [1, 1, 2, 2, 3]);
}

#[test]
fn rows_keep_the_order_the_printer_reported() {
    let supplies = [0, 1, 2, 3, 4];
    let rows = supplies
        .chunks(SUPPLY_COLUMNS)
        .map(<[i32]>::to_vec)
        .collect::<Vec<_>>();

    assert_eq!(rows, [vec![0, 1], vec![2, 3], vec![4]]);
    assert_eq!(rows.concat(), supplies);
    assert_eq!(supply_row_ranges(5), vec![(0, 2), (2, 4), (4, 5)]);
}

#[test]
fn a_full_supply_is_written_without_a_decimal() {
    let loader = loader();
    assert_eq!(percentage_label(Some(100), &loader), "100%");
    assert_eq!(percentage_label(Some(92), &loader), "92.0%");
    assert_eq!(percentage_label(Some(0), &loader), "0.0%");
    assert_eq!(percentage_text(Some(250)).as_deref(), Some("100%"));
    assert_eq!(percentage_text(None), None);
}

#[test]
fn known_single_colors_replace_the_reported_supply_name() {
    let known = [
        ((0x00, 0x00, 0x00), "supply-color-black"),
        ((0x00, 0xFF, 0xFF), "supply-color-cyan"),
        ((0xFF, 0x00, 0xFF), "supply-color-magenta"),
        ((0xFF, 0xFF, 0x00), "supply-color-yellow"),
        ((0xE0, 0xFF, 0xFF), "supply-color-light-cyan"),
        ((0xFF, 0xE0, 0xFF), "supply-color-light-magenta"),
        ((0x80, 0x80, 0x80), "supply-color-gray"),
        ((0xFF, 0x00, 0x00), "supply-color-red"),
        ((0x00, 0xFF, 0x00), "supply-color-green"),
        ((0x00, 0x00, 0xFF), "supply-color-blue"),
        ((0xFF, 0xA5, 0x00), "supply-color-orange"),
        ((0xEE, 0x82, 0xEE), "supply-color-violet"),
        ((0xFF, 0xFF, 0xFF), "supply-color-white"),
    ];

    for ((red, green, blue), expected) in known {
        let item = supply(
            "Cartridge ink-cartridge S/N:123456",
            vec![SupplyRgb { red, green, blue }],
        );
        assert_eq!(supply_name_message(&item), Some(expected));
        assert_eq!(known_supply_color_message(SupplyRgb { red, green, blue }), Some(expected));
    }
}

#[test]
fn unknown_and_multiple_colors_keep_the_reported_supply_name() {
    let loader = loader();
    let unknown = supply(
        "Vendor spot ink S/N:123456",
        vec![SupplyRgb { red: 0x12, green: 0x34, blue: 0x56 }],
    );
    assert_eq!(supply_name(&unknown, &loader), "Vendor spot ink S/N:123456");

    let multiple = supply(
        "Combined color cartridge S/N:654321",
        vec![
            SupplyRgb { red: 0x00, green: 0xFF, blue: 0xFF },
            SupplyRgb { red: 0xFF, green: 0x00, blue: 0xFF },
        ],
    );
    assert_eq!(supply_name(&multiple, &loader), "Combined color cartridge S/N:654321");
    assert_eq!(supply_name_message(&supply("", vec![])), Some("supply-unnamed"));
}

#[test]
fn the_default_option_is_selected_when_offered() {
    let values = vec!["a4".to_string(), "letter".to_string(), "legal".to_string()];
    assert_eq!(selected_option_idx(&values, Some("letter"), 0), 1);
    assert_eq!(selected_option_idx(&values, Some("tabloid"), 2), 2);
    assert_eq!(selected_option_idx(&values, None, 7), 2);
    assert_eq!(selected_option_idx(&Vec::new(), Some("x"), 3), 0);
}

#[test]
fn sides_read_as_one_or_both() {
    assert_eq!(sides_message("one-sided"), Some("print-one-side"));
    assert_eq!(sides_message("two-sided-long-edge"), Some("print-both-sides"));
    assert_eq!(sides_message("two-sided-short-edge"), Some("print-both-sides"));
    assert_eq!(sides_message("something"), None);
}

#[test]
fn a_self_describing_media_name_reads_as_its_name_and_size() {
    assert_eq!(media_label("iso_a4_210x297mm"), "A4 (210 x 297 mm)");
    assert_eq!(media_label("na_letter_8.5x11in"), "Letter (8.5 x 11 inches)");
    assert_eq!(media_label("iso_dl_110x220mm"), "DL (110 x 220 mm)");
    assert_eq!(media_label("om_small-photo_100x150mm"), "Small Photo (100 x 150 mm)");
    assert_eq!(media_label("jis_b5_182x257mm"), "B5 (182 x 257 mm)");
}

#[test]
fn a_media_name_without_a_size_reads_as_it_is() {
    assert_eq!(media_label("custom-paper"), "custom-paper");
    assert_eq!(media_label("a4mm"), "a4mm");
    assert_eq!(media_name_and_size("photo"), None);
}

#[test]
fn media_words_are_capitalised_where_they_have_letters() {
    assert_eq!(pretty_media_name("a4"), "A4");
    assert_eq!(pretty_media_name("c5"), "C5");
    assert_eq!(pretty_media_name("a7"), "A7");
    assert_eq!(pretty_media_name("index-card__4"), "Index Card 4");
    assert_eq!(pretty_media_name("élan"), "Élan");
}

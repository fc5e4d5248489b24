use printers::destinations::Destinations;
use printers::entry::PrinterEntry;

fn destination(id: &str, location: &str) -> PrinterEntry {
    PrinterEntry::new(
        id,
        id,
        false,
        vec![("printer-location".to_string(), location.to_string())],
    )
}

fn none() -> Vec<String> {
    Vec::new()
}

#[test]
fn destination_changes_update_cache_and_emit_once() {
    let mut context = Destinations::new();

    assert!(context.update_available_destination(destination("office", "first floor")));
    assert!(!context.update_available_destination(destination("office", "first floor")));
    assert!(context.update_available_destination(destination("office", "second floor")));
    assert_eq!(
        context.available_destinations_cached()[0].location(),
        Some("second floor")
    );

    assert!(context.remove_available_destination("office"));
    assert!(context.available_destinations_cached().is_empty());
    assert!(!context.remove_available_destination("office"));
}

#[test]
fn a_destination_missing_from_one_pass_is_kept() {
    let mut context = Destinations::new();
    context.update_available_destination(destination("office", "first floor"));

    let removed = context.retain_available_destinations(&none());

    assert!(removed.is_empty());
    assert_eq!(context.available_destinations_cached().len(), 1);
}

#[test]
fn a_destination_missing_from_two_passes_running_is_dropped() {
    let mut context = Destinations::new();
    context.update_available_destination(destination("office", "first floor"));

    context.retain_available_destinations(&none());
    let removed = context.retain_available_destinations(&none());

    assert_eq!(removed, vec!["office".to_string()]);
    assert!(context.available_destinations_cached().is_empty());
}

#[test]
fn being_seen_again_starts_the_count_over() {
    let mut context = Destinations::new();
    context.update_available_destination(destination("office", "first floor"));
    let present = vec!["office".to_string()];

    for _ in 0..4 {
        context.retain_available_destinations(&none());
        context.retain_available_destinations(&present);
    }

    assert_eq!(context.available_destinations_cached().len(), 1);
}

#[test]
fn pruning_leaves_the_destinations_a_pass_did_see() {
    let mut context = Destinations::new();
    context.update_available_destination(destination("office", "first floor"));
    context.update_available_destination(destination("studio", "attic"));

    let present = vec!["studio".to_string()];
    context.retain_available_destinations(&present);
    context.retain_available_destinations(&present);

    let cached = context.available_destinations_cached();
    assert_eq!(cached.len(), 1);
    assert_eq!(cached[0].id, "studio");
}

#[test]
fn destinations_come_back_in_order_of_identifier() {
    let mut context = Destinations::new();
    context.update_available_destination(destination("studio", "attic"));
    context.update_available_destination(destination("annex", "garden"));
    context.update_available_destination(destination("office", "first floor"));

    let ids: Vec<String> = context
        .available_destinations_cached()
        .into_iter()
        .map(|entry| entry.id)
        .collect();
    assert_eq!(ids, vec!["annex", "office", "studio"]);
    assert_eq!(
        context.available_destination_cached("office").unwrap().location(),
        Some("first floor")
    );
    assert!(context.available_destination_cached("cellar").is_none());
}

#[test]
fn forgetting_a_destination_forgets_its_misses() {
    let mut context = Destinations::new();
    context.update_available_destination(destination("office", "first floor"));
    context.retain_available_destinations(&none());
    context.remove_available_destination("office");

    context.update_available_destination(destination("office", "first floor"));
    let removed = context.retain_available_destinations(&none());

    assert!(removed.is_empty());
    assert_eq!(context.available_destinations_cached().len(), 1);
}

use printers::drivers::PaDriverMatch;
use printers::memory::{
    same_application_printer, Memory, CONFIGURED_DEVICE_MEMORY_MS, DRIVER_ANSWER_MEMORY_MS,
};
use printers::printers::ConfiguredPrinter;

fn printer(name: &str, device_uri: &str) -> ConfiguredPrinter {
    ConfiguredPrinter {
        printer_id: Some(1),
        name: name.to_string(),
        device_uri: Some(device_uri.to_string()),
        printer_uri: Some(format!("ipp://localhost:8000/ipp/print/{name}")),
        printer_uuid: None,
        web_interface_uri: None,
    }
}

#[test]
fn removing_one_cached_application_printer_keeps_the_other_cached_printers() {
    let mut context = Memory::new();
    let deleted = printer("Deleted", "socket://192.0.2.10");
    let kept = printer("Kept", "socket://192.0.2.11");

    context.remember_application_printers("app", vec![deleted.clone(), kept.clone()], 0);
    context.remember_configured_devices(
        "app",
        vec![
            (
                deleted.device_uri.clone().expect("test printer has URI"),
                deleted.name.clone(),
            ),
            (
                kept.device_uri.clone().expect("test printer has URI"),
                kept.name.clone(),
            ),
        ],
        0,
    );

    context.remove_cached_application_printer("app", &deleted);

    assert_eq!(context.remembered_application_printers("app", 0), vec![kept]);
    assert_eq!(
        context.remembered_configured_devices("app", 0),
        vec![("socket://192.0.2.11".to_string(), "Kept".to_string())]
    );
}

#[test]
fn removing_the_last_cached_printer_forgets_the_application() {
    let mut memory = Memory::new();
    let only = printer("Only", "socket://192.0.2.10");
    memory.remember_application_printers("app", vec![only.clone()], 0);

    memory.remove_cached_application_printer("app", &only);

    assert!(memory.remembered_application_printers("app", 0).is_empty());
}

#[test]
fn old_printer_lists_are_forgotten() {
    let mut memory = Memory::new();
    memory.remember_application_printers("app", vec![printer("P", "usb://x/y")], 1_000);

    assert_eq!(
        memory
            .remembered_application_printers("app", 1_000 + CONFIGURED_DEVICE_MEMORY_MS - 1)
            .len(),
        1
    );
    assert!(memory
        .remembered_application_printers("app", 1_000 + CONFIGURED_DEVICE_MEMORY_MS)
        .is_empty());
    assert!(memory.remembered_application_printers("other", 1_000).is_empty());
}

#[test]
fn driver_answers_are_remembered_briefly_and_replaced() {
    let mut memory = Memory::new();
    memory.remember_driver_answers(
        "app",
        vec![("MFG:A;MDL:B;".to_string(), PaDriverMatch::Unsupported)],
        0,
    );
    memory.remember_driver_answers(
        "app",
        vec![(
            "MFG:A;MDL:B;".to_string(),
            PaDriverMatch::Supported { drivers: Vec::new() },
        )],
        10,
    );

    let answers = memory.remembered_driver_answers("app", 20);
    assert_eq!(answers.len(), 1);
    assert_eq!(answers[0].1, PaDriverMatch::Supported { drivers: Vec::new() });
    assert!(memory
        .remembered_driver_answers("app", 10 + DRIVER_ANSWER_MEMORY_MS)
        .is_empty());
}

#[test]
fn no_answers_change_nothing() {
    let mut memory = Memory::new();
    memory.remember_driver_answers("app", Vec::new(), 0);

    assert!(memory.remembered_driver_answers("app", 0).is_empty());
}

#[test]
fn printers_of_one_application_are_the_same_by_name_or_uri() {
    let a = printer("Office", "socket://192.0.2.10");
    let mut b = printer("OFFICE", "socket://192.0.2.99");
    b.printer_uri = None;
    assert!(same_application_printer(&a, &b));

    let c = printer("Lab", "socket://192.0.2.10");
    assert!(same_application_printer(&a, &c));

    let d = printer("Lab", "socket://192.0.2.12");
    assert!(!same_application_printer(&a, &d));
}

#[test]
fn forgetting_an_application_keeps_its_printers_and_the_others() {
    let mut context = Memory::new();
    let kept = printer("Kept", "socket://192.0.2.11");
    context.remember_application_printers("app", vec![kept.clone()], 0);
    context.remember_configured_devices(
        "app",
        vec![("socket://192.0.2.11".to_string(), "Kept".to_string())],
        0,
    );
    context.remember_driver_answers(
        "app",
        vec![("MFG:Acme;MDL:Laser;".to_string(), PaDriverMatch::Unsupported)],
        0,
    );
    context.remember_driver_answers(
        "other",
        vec![("MFG:Acme;MDL:Laser;".to_string(), PaDriverMatch::Unsupported)],
        0,
    );

    context.forget_application("app");

    assert!(context.remembered_configured_devices("app", 1).is_empty());
    assert!(context.remembered_driver_answers("app", 1).is_empty());
    assert_eq!(context.remembered_application_printers("app", 1).len(), 1);
    assert_eq!(context.remembered_driver_answers("other", 1).len(), 1);
}

use printers::client::{IppStatus, PaError};
use printers::drivers::{
    ask_for_drivers, drivers_from, keep_asking, usable_device_id, DriverCollectionAttribute,
    DriverRecord, PaDriver, PaDriverMatch, AUTOMATIC_DRIVER,
};

fn driver(id: &str) -> PaDriver {
    PaDriver {
        id: id.to_string(),
        display_name: id.to_string(),
        supported_device_id: None,
    }
}

#[test]
fn a_single_driver_is_named_explicitly() {
    let matched = PaDriverMatch::Supported {
        drivers: vec![driver("acme-laser")],
    };

    assert_eq!(matched.driver_for_creation(), Some("acme-laser"));
}

#[test]
fn several_drivers_let_the_application_choose() {
    let matched = PaDriverMatch::Supported {
        drivers: vec![driver("acme-laser"), driver("acme-laser-pcl")],
    };

    assert_eq!(matched.driver_for_creation(), Some(AUTOMATIC_DRIVER));
}

#[test]
fn unresolved_states_never_name_a_driver() {
    for state in [
        PaDriverMatch::Unchecked,
        PaDriverMatch::Unsupported,
        PaDriverMatch::AuthenticationRequired,
        PaDriverMatch::Unavailable,
        PaDriverMatch::MalformedResponse,
    ] {
        assert_eq!(state.driver_for_creation(), None, "{state:?}");
    }
}

#[test]
fn a_device_without_an_id_cannot_be_matched() {
    assert_eq!(usable_device_id(None), None);
    assert_eq!(usable_device_id(Some("   ")), None);
    assert_eq!(usable_device_id(Some(" MFG:Acme; ")).as_deref(), Some("MFG:Acme;"));
}

#[test]
fn auto_is_not_offered_as_a_driver() {
    let matched = ask_for_drivers(Ok(vec![driver("AUTO"), driver("acme-laser")]));
    assert_eq!(
        matched,
        PaDriverMatch::Supported { drivers: vec![driver("acme-laser")] }
    );
    assert_eq!(ask_for_drivers(Ok(vec![driver("auto")])), PaDriverMatch::Unsupported);
    assert_eq!(ask_for_drivers(Ok(vec![])), PaDriverMatch::Unsupported);
}

#[test]
fn failures_to_answer_are_told_apart_from_answers() {
    assert_eq!(
        ask_for_drivers(Err(PaError::AuthenticationRequired)),
        PaDriverMatch::AuthenticationRequired
    );
    assert_eq!(
        ask_for_drivers(Err(PaError::OperationNotSupported)),
        PaDriverMatch::Unsupported
    );
    assert_eq!(
        ask_for_drivers(Err(PaError::Malformed { why: "x".to_string() })),
        PaDriverMatch::MalformedResponse
    );
    assert_eq!(
        ask_for_drivers(Err(PaError::Unreachable { why: "x".to_string() })),
        PaDriverMatch::Unavailable
    );
}

#[test]
fn only_silence_is_asked_about_again() {
    assert!(keep_asking(&PaDriverMatch::Unavailable, 1));
    assert!(keep_asking(&PaDriverMatch::MalformedResponse, 2));
    assert!(!keep_asking(&PaDriverMatch::Unavailable, 3));
    assert!(!keep_asking(&PaDriverMatch::Unsupported, 1));
    assert!(!keep_asking(&PaDriverMatch::AuthenticationRequired, 1));
    assert!(PaDriverMatch::Unsupported.is_an_answer());
    assert!(!PaDriverMatch::Unchecked.is_an_answer());
}

fn record(driver: Option<&str>, info: Option<&str>, device_id: Option<&str>) -> DriverRecord {
    DriverRecord {
        driver: driver.map(ToString::to_string),
        driver_info: info.map(ToString::to_string),
        device_id: device_id.map(ToString::to_string),
    }
}

fn driver_attribute(collections: Vec<DriverRecord>) -> DriverCollectionAttribute {
    DriverCollectionAttribute {
        in_system_group: true,
        is_collection: true,
        collections,
    }
}

#[test]
fn a_driver_answer_lists_each_driver_once_with_its_description() {
    let attributes = vec![driver_attribute(vec![
        record(Some("acme-laser"), Some("Acme Laser"), Some("MFG:Acme;MDL:Laser;")),
        record(Some("acme-laser"), Some("Acme Laser again"), None),
        record(None, Some("nameless"), None),
        record(Some("acme-pcl"), None, None),
    ])];

    let drivers = drivers_from(IppStatus::Success, 0, &Vec::new(), &attributes).unwrap();

    assert_eq!(drivers.len(), 2);
    assert_eq!(drivers[0].id, "acme-laser");
    assert_eq!(drivers[0].display_name, "Acme Laser");
    assert_eq!(drivers[0].supported_device_id.as_deref(), Some("MFG:Acme;MDL:Laser;"));
    assert_eq!(drivers[1].id, "acme-pcl");
    assert_eq!(drivers[1].display_name, "acme-pcl");
    assert_eq!(drivers[1].supported_device_id, None);
}

#[test]
fn not_found_is_an_answer_with_no_driver() {
    let attributes = vec![driver_attribute(vec![record(Some("acme-laser"), None, None)])];

    let drivers = drivers_from(IppStatus::ErrorNotFound, 0x0406, &Vec::new(), &attributes).unwrap();

    assert!(drivers.is_empty());
}

#[test]
fn a_failing_driver_answer_is_an_error() {
    let result = drivers_from(IppStatus::ErrorInternalError, 0x0500, &Vec::new(), &Vec::new());

    assert!(result.is_err());
}

#[test]
fn driver_collections_outside_the_system_group_are_not_read() {
    let attributes = vec![DriverCollectionAttribute {
        in_system_group: false,
        is_collection: true,
        collections: vec![record(Some("acme-laser"), None, None)],
    }];

    let drivers = drivers_from(IppStatus::Success, 0, &Vec::new(), &attributes).unwrap();

    assert!(drivers.is_empty());
}

use printers::device_id::DeviceId;
use printers::devices::{evidence, DeviceTransport, PaDeviceObservation};
use printers::identity::{collapse_observations, group_candidates, stable_key};

fn observation(
    application: &str,
    index: usize,
    device_uri: &str,
    device_id: Option<&str>,
) -> PaDeviceObservation {
    let device_id = device_id.map(DeviceId::parse);
    let identity = evidence(device_id.as_ref(), device_uri);

    PaDeviceObservation {
        id: format!("{application}:1:{index}"),
        printer_application_id: application.to_string(),
        device_uri: device_uri.to_string(),
        device_id,
        display_name: device_uri.to_string(),
        identity,
        transport: DeviceTransport::from_uri(device_uri),
    }
}

#[test]
fn one_printer_reached_two_ways_is_one_candidate_with_two_endpoints() {
    let device_id = "MFG:Acme;MDL:Test Laser 9000;SN:ABC123;";
    let candidates = collapse_observations(vec![
        observation("pa-a", 0, "socket://192.0.2.10:9100", Some(device_id)),
        observation("pa-a", 1, "usb://Acme/Test%20Laser%209000", Some(device_id)),
    ]);

    assert_eq!(candidates.len(), 1);
    assert_eq!(candidates[0].endpoints.len(), 2);
    assert_eq!(
        candidates[0]
            .preferred_endpoint()
            .map(|endpoint| endpoint.transport),
        Some(DeviceTransport::Usb)
    );
    assert_eq!(candidates[0].fallback_endpoints().len(), 1);
}

#[test]
fn the_same_model_with_different_serials_stays_two_candidates() {
    let candidates = collapse_observations(vec![
        observation(
            "pa-a",
            0,
            "socket://192.0.2.10:9100",
            Some("MFG:Acme;MDL:Test Laser;SN:FIRST;"),
        ),
        observation(
            "pa-a",
            1,
            "socket://192.0.2.11:9100",
            Some("MFG:Acme;MDL:Test Laser;SN:SECOND;"),
        ),
    ]);

    assert_eq!(candidates.len(), 2);
}

#[test]
fn the_same_model_without_a_serial_stays_two_candidates() {
    let candidates = collapse_observations(vec![
        observation(
            "pa-a",
            0,
            "socket://192.0.2.10:9100",
            Some("MFG:Acme;MDL:Test Laser;"),
        ),
        observation(
            "pa-a",
            1,
            "socket://192.0.2.11:9100",
            Some("MFG:Acme;MDL:Test Laser;"),
        ),
    ]);

    assert_eq!(candidates.len(), 2);
}

#[test]
fn one_service_reported_under_two_schemes_is_one_candidate() {
    let device_id = "MFG:4BARCODE;MDL:4B-2054A;CMD:CEZD;";
    let candidates = collapse_observations(vec![
        observation(
            "pa-a",
            0,
            "cups:dnssd://Fake%20Arkscan%202054A%20%40%20pop-os._pdl-datastream._tcp.local/?uuid=6f42764b-8be5-4b23-842e-f36be28fa103",
            Some(device_id),
        ),
        observation(
            "pa-a",
            1,
            "dnssd://Fake%5C032Arkscan%5C0322054A%5C032%5C064%5C032pop-os._pdl-datastream._tcp.local/",
            Some(device_id),
        ),
    ]);

    assert_eq!(candidates.len(), 1);
    assert_eq!(candidates[0].endpoints.len(), 2);
    assert_eq!(
        candidates[0]
            .preferred_endpoint()
            .map(|endpoint| endpoint.device_uri.as_str()),
        Some(
            "cups:dnssd://Fake%20Arkscan%202054A%20%40%20pop-os._pdl-datastream._tcp.local/?uuid=6f42764b-8be5-4b23-842e-f36be28fa103"
        )
    );
}

#[test]
fn a_repeated_observation_does_not_add_a_second_endpoint() {
    let device_id = "MFG:Acme;MDL:Test Laser;SN:ABC123;";
    let candidates = collapse_observations(vec![
        observation("pa-a", 0, "socket://192.0.2.10:9100", Some(device_id)),
        observation("pa-a", 1, "socket://192.0.2.10:9100", Some(device_id)),
    ]);

    assert_eq!(candidates.len(), 1);
    assert_eq!(candidates[0].endpoints.len(), 1);
}

#[test]
fn two_applications_finding_one_printer_produce_one_row() {
    let device_id = "MFG:Acme;MDL:Test Laser 9000;SN:ABC123;";
    let candidates = [
        collapse_observations(vec![observation(
            "pa-a",
            0,
            "socket://192.0.2.10:9100",
            Some(device_id),
        )]),
        collapse_observations(vec![observation(
            "pa-b",
            0,
            "hp:/net/Test_Laser?ip=192.0.2.10",
            Some(device_id),
        )]),
    ]
    .concat();

    let printers = group_candidates(candidates);

    assert_eq!(printers.len(), 1);
    assert_eq!(printers[0].candidates.len(), 2);
    assert_eq!(
        printers[0].make_and_model.as_deref(),
        Some("Acme Test Laser 9000")
    );
    let uris = printers[0]
        .candidates
        .iter()
        .filter_map(|candidate| candidate.preferred_endpoint())
        .map(|endpoint| endpoint.device_uri.as_str())
        .collect::<Vec<_>>();
    assert!(uris.contains(&"socket://192.0.2.10:9100"));
    assert!(uris.contains(&"hp:/net/Test_Laser?ip=192.0.2.10"));
}

#[test]
fn two_printers_on_one_print_server_stay_two_rows() {
    let printers = group_candidates(
        [
            collapse_observations(vec![observation(
                "pa-a",
                0,
                "socket://192.0.2.50:9100",
                None,
            )]),
            collapse_observations(vec![observation(
                "pa-a",
                1,
                "socket://192.0.2.50:9101",
                None,
            )]),
        ]
        .concat(),
    );

    assert_eq!(printers.len(), 2);
}

#[test]
fn two_usb_printers_of_one_make_stay_two_rows() {
    let printers = group_candidates(
        [
            collapse_observations(vec![observation(
                "pa-a",
                0,
                "usb://Brother/HL-L2350DW",
                None,
            )]),
            collapse_observations(vec![observation(
                "pa-a",
                1,
                "usb://Brother/MFC-L2710DW",
                None,
            )]),
        ]
        .concat(),
    );

    assert_eq!(printers.len(), 2);
}

#[test]
fn row_identity_is_stable_when_another_application_joins() {
    let device_id = "MFG:Acme;MDL:Test Laser;SN:ABC123;";
    let first = collapse_observations(vec![observation(
        "pa-a",
        0,
        "socket://192.0.2.10:9100",
        Some(device_id),
    )]);
    let alone = group_candidates(first.iter().map(|c| c.duplicate()).collect());

    let joined = group_candidates(
        [
            first,
            collapse_observations(vec![observation(
                "pa-b",
                0,
                "hp:/net/Test_Laser",
                Some(device_id),
            )]),
        ]
        .concat(),
    );

    assert_eq!(alone[0].id, joined[0].id);
}

#[test]
fn grouping_is_independent_of_application_order() {
    let device_id = "MFG:Acme;MDL:Test Laser;SN:ABC123;";
    let build = || {
        [
            collapse_observations(vec![observation(
                "pa-a",
                0,
                "socket://192.0.2.10:9100",
                Some(device_id),
            )]),
            collapse_observations(vec![observation(
                "pa-b",
                0,
                "hp:/net/Test_Laser",
                Some(device_id),
            )]),
        ]
        .concat()
    };

    let forward = group_candidates(build());
    let mut input = build();
    input.reverse();
    let reversed = group_candidates(input);

    assert_eq!(forward.len(), reversed.len());
    assert_eq!(forward[0].id, reversed[0].id);
    assert_eq!(forward[0].candidates.len(), reversed[0].candidates.len());
}

#[test]
fn a_row_is_keyed_by_the_serial_number_and_named_after_the_make_and_model() {
    let device_id = "MFG:Acme;MDL:Test Laser;SN:ABC123;";
    let printers = group_candidates(collapse_observations(vec![observation(
        "pa-a",
        0,
        "socket://192.0.2.10:9100",
        Some(device_id),
    )]));

    assert_eq!(printers[0].id, "physical:serial:ABC123");
    assert_eq!(printers[0].display_name, "Acme Test Laser");
}

#[test]
fn a_device_without_serial_is_keyed_by_its_endpoint() {
    let identity = evidence(None, "socket://192.0.2.50:9101");
    let key: String = stable_key(&identity).unwrap().into_iter().collect();

    assert_eq!(key, "endpoint:192.0.2.50:9101");
}

#[test]
fn rows_are_listed_by_name() {
    let printers = group_candidates(
        [
            collapse_observations(vec![observation("pa-a", 0, "usb://Zeta/One", None)]),
            collapse_observations(vec![observation("pa-a", 1, "usb://Alpha/Two", None)]),
        ]
        .concat(),
    );

    assert_eq!(printers.len(), 2);
    assert_eq!(printers[0].display_name, "usb://Alpha/Two");
    assert_eq!(printers[1].display_name, "usb://Zeta/One");
    assert_eq!(printers[0].id, "physical:uri:usb://alpha/Two");
}

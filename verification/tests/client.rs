use printers::client::{
    bounded, check_status, error_from_transport, status_label, status_message, IppStatus,
    OperationCost, PaError, TransportFailure, CONNECT_TIMEOUT_MS, MAX_STRING_LENGTH,
};
use printers::ipp::{IppAttribute, IppGroup};

fn text(group: IppGroup, name: &str, value: &str) -> IppAttribute {
    IppAttribute {
        name: Some(name.to_string()),
        group,
        text: Some(value.to_string()),
        integer: 0,
    }
}

#[test]
fn over_long_values_are_truncated_on_a_character_boundary() {
    let value = "é".repeat(MAX_STRING_LENGTH);
    let bounded = bounded(value);

    assert!(bounded.len() <= MAX_STRING_LENGTH);
    assert!(bounded.chars().all(|character| character == 'é'));
}

#[test]
fn values_within_the_limit_are_untouched() {
    assert_eq!(bounded("device".to_string()), "device");
}

#[test]
fn device_scans_are_allowed_far_longer_than_queries() {
    assert!(
        OperationCost::DeviceScan.timeouts().response_ms
            > OperationCost::Query.timeouts().response_ms
    );
    assert_eq!(OperationCost::Query.timeouts().connect_ms, CONNECT_TIMEOUT_MS);
}

#[test]
fn a_cut_keeps_every_whole_character_that_fits() {
    let mut value = "a".repeat(MAX_STRING_LENGTH - 1);
    value.push('é');
    let kept = bounded(value);
    assert_eq!(kept.len(), MAX_STRING_LENGTH - 1);
}

#[test]
fn a_rejection_names_the_status_and_its_code() {
    assert_eq!(
        status_label(IppStatus::ErrorBadRequest, 0x0400),
        "ErrorBadRequest (0x0400)"
    );
    let attrs = vec![text(IppGroup::Operation, "status-message", "  bad driver  ")];
    match check_status(IppStatus::ErrorNotPossible, 0x040a, &attrs) {
        Err(PaError::Rejected { status, why }) => {
            assert_eq!(status, "ErrorNotPossible (0x040a)");
            assert_eq!(why, "bad driver");
        }
        other => panic!("unexpected {other:?}"),
    }
}

#[test]
fn each_failing_status_maps_to_its_error() {
    let none = Vec::new();
    assert!(check_status(IppStatus::Success, 0, &none).is_ok());
    assert!(check_status(IppStatus::OkConflicting, 2, &none).is_ok());
    assert!(matches!(
        check_status(IppStatus::ErrorNotAuthenticated, 0x0402, &none),
        Err(PaError::AuthenticationRequired)
    ));
    assert!(matches!(
        check_status(IppStatus::ErrorForbidden, 0x0401, &none),
        Err(PaError::Forbidden { why }) if why.is_empty()
    ));
    assert!(matches!(
        check_status(IppStatus::ErrorOperationNotSupported, 0x0501, &none),
        Err(PaError::OperationNotSupported)
    ));
}

#[test]
fn a_blank_status_message_says_nothing() {
    let attrs = vec![text(IppGroup::Operation, "status-message", "   ")];
    assert_eq!(status_message(&attrs), None);
    let attrs = vec![text(IppGroup::Operation, "status-message", " busy ")];
    assert_eq!(status_message(&attrs).as_deref(), Some("busy"));
}

#[test]
fn a_request_that_got_no_answer_counts_as_unreachable() {
    assert!(matches!(
        error_from_transport(TransportFailure::Other { why: "eof".to_string() }),
        PaError::Unreachable { .. }
    ));
    assert!(matches!(
        error_from_transport(TransportFailure::PermissionDenied { why: "no".to_string() }),
        PaError::AuthenticationRequired
    ));
}

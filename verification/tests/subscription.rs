use printers::client::IppStatus;
use printers::ipp::{IppAttribute, IppGroup};
use printers::subscription::{
    after_scheduler, after_system, created, first_request, resubscribe_delay, SubscribeStep,
    SubscriptionError, CREATE_SYSTEM_SUBSCRIPTIONS, LEASE_SECONDS, MAX_RESUBSCRIBE_DELAY_MS,
    RESUBSCRIBE_DELAY_MS,
};

fn id_attribute(value: i32) -> IppAttribute {
    IppAttribute {
        name: Some("notify-subscription-id".into()),
        group: IppGroup::Subscription,
        text: None,
        integer: value,
    }
}

#[test]
fn the_scheduler_is_asked_first_for_the_events_worth_reporting() {
    let request = first_request();

    assert_eq!(request.uri, "ipp://localhost/");
    assert_eq!(request.uri_attribute, "printer-uri");
    assert_eq!(request.lease_seconds, LEASE_SECONDS);
    assert!(request.notify_events.contains(&"printer-state-changed"));
    assert_eq!(request.notify_events.len(), 10);
}

#[test]
fn a_created_subscription_keeps_its_number_and_place() {
    let request = first_request();
    let subscription = created(&request, IppStatus::Success, &vec![id_attribute(42)]).unwrap();

    assert_eq!(subscription.id(), 42);
    assert_eq!(subscription.uri(), "ipp://localhost/");
    let renew = subscription.renew_request();
    assert_eq!(renew.subscription_id, 42);
    assert_eq!(renew.uri_attribute, "printer-uri");
}

#[test]
fn a_reply_without_a_number_is_an_error() {
    let request = first_request();

    assert_eq!(
        created(&request, IppStatus::Success, &Vec::new()).err(),
        Some(SubscriptionError::MissingId)
    );
    assert!(matches!(
        created(&request, IppStatus::ErrorForbidden, &Vec::new()).err(),
        Some(SubscriptionError::PermissionDenied { .. })
    ));
}

#[test]
fn a_refused_scheduler_sends_the_request_to_the_system_service() {
    let refused = Err(SubscriptionError::MissingId);

    match after_scheduler(refused) {
        SubscribeStep::Ask(request) => {
            assert_eq!(request.operation, CREATE_SYSTEM_SUBSCRIPTIONS);
            assert_eq!(request.uri_attribute, "system-uri");
            assert_eq!(request.uri, "ipp://localhost/ipp/system");
        }
        other => panic!("expected a second request, got {other:?}"),
    }

    let scheduler_error = SubscriptionError::Transport { why: "down".into() };
    assert_eq!(
        after_system(Err(SubscriptionError::MissingId), scheduler_error.clone()).err(),
        Some(scheduler_error)
    );
}

#[test]
fn resubscribing_backs_off_and_starts_over_after_a_healthy_run() {
    assert_eq!(resubscribe_delay(RESUBSCRIBE_DELAY_MS, 0), (5000, 10000));
    assert_eq!(resubscribe_delay(200000, 1000), (200000, MAX_RESUBSCRIBE_DELAY_MS));
    assert_eq!(resubscribe_delay(200000, 60000), (5000, 10000));
}

use pricecast::connection::{
    count_failures, keeps_listening, on_delivery, reconnect_wait, Delivery, ForwardStep, Inbound,
};

#[test]
fn messages_are_sent_on_and_lag_is_passed_over() {
    assert_eq!(on_delivery(Delivery::Message), ForwardStep::Send);
    assert_eq!(on_delivery(Delivery::Lagged), ForwardStep::Skip);
    assert_eq!(on_delivery(Delivery::Closed), ForwardStep::Stop);
}

#[test]
fn only_a_frame_keeps_the_connection() {
    assert!(keeps_listening(Inbound::Frame));
    assert!(!keeps_listening(Inbound::Failed));
    assert!(!keeps_listening(Inbound::Ended));
    assert!(!keeps_listening(Inbound::TimedOut));
}

#[test]
fn wait_grows_with_failures_up_to_the_ceiling() {
    assert_eq!(reconnect_wait(0), 0);
    assert_eq!(reconnect_wait(1), 1);
    assert_eq!(reconnect_wait(14), 14);
    assert_eq!(reconnect_wait(15), 15);
    assert_eq!(reconnect_wait(16), 15);
    assert_eq!(reconnect_wait(u32::MAX), 15);
}

#[test]
fn failures_are_counted_until_a_success() {
    assert_eq!(count_failures(0, false), 1);
    assert_eq!(count_failures(7, false), 8);
    assert_eq!(count_failures(7, true), 0);
    assert_eq!(count_failures(0, true), 0);
    assert_eq!(count_failures(u32::MAX, false), u32::MAX);
}

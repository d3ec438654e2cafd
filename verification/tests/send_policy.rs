use nativechat::send_policy::{plan_send, Busy, OnSend, SendPlan};

#[test]
fn idle_posts_whatever_the_preference_or_chord() {
    for on_send in [OnSend::Queue, OnSend::Steer] {
        for force in [false, true] {
            assert_eq!(plan_send(Busy::Idle, on_send, force), SendPlan::Post);
        }
    }
}

#[test]
fn parked_always_steers() {
    for on_send in [OnSend::Queue, OnSend::Steer] {
        for force in [false, true] {
            assert_eq!(plan_send(Busy::Parked, on_send, force), SendPlan::Steer);
        }
    }
}

#[test]
fn running_queues_by_default_and_steers_on_request() {
    assert_eq!(plan_send(Busy::Running, OnSend::Queue, false), SendPlan::Queue);
    assert_eq!(plan_send(Busy::Running, OnSend::Queue, true), SendPlan::Steer);
    assert_eq!(plan_send(Busy::Running, OnSend::Steer, false), SendPlan::Steer);
    assert_eq!(plan_send(Busy::Running, OnSend::Steer, true), SendPlan::Steer);
}

#[test]
fn preference_words_round_trip_and_unknown_means_queue() {
    assert_eq!(OnSend::parse("steer"), OnSend::Steer);
    assert_eq!(OnSend::parse(" Interrupt "), OnSend::Steer);
    assert_eq!(OnSend::parse("queue"), OnSend::Queue);
    assert_eq!(OnSend::parse("auto"), OnSend::Queue);
    assert_eq!(OnSend::parse(""), OnSend::Queue);
    for on_send in [OnSend::Queue, OnSend::Steer] {
        assert_eq!(OnSend::parse(on_send.as_str()), on_send);
    }
    assert_eq!(OnSend::default(), OnSend::Queue);
}

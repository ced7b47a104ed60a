use netbird_exporter::delivery::Transport;
use netbird_exporter::readiness::{
    probe_ready, ProbeAction, Readiness, READY_ATTEMPTS, READY_NOTICE_EVERY, READY_SPACING_SECS,
    READY_TIMEOUT_SECS,
};

#[test]
fn readiness_constants() {
    assert_eq!(READY_ATTEMPTS, 60);
    assert_eq!(READY_SPACING_SECS, 2);
    assert_eq!(READY_TIMEOUT_SECS, 2);
    assert_eq!(READY_NOTICE_EVERY, 10);
}

#[test]
fn ready_on_first_probe() {
    let mut wait = Readiness::new();
    assert_eq!(wait.attempt(), 1);
    assert_eq!(wait.on_probe(true), ProbeAction::Proceed);
    assert_eq!(wait.attempt(), 1);
}

#[test]
fn gives_up_after_sixty_probes() {
    let mut wait = Readiness::new();
    for attempt in 1..=59u32 {
        assert_eq!(wait.attempt(), attempt);
        assert_eq!(wait.on_probe(false), ProbeAction::Retry { announce: attempt % 10 == 0 });
    }
    assert_eq!(wait.attempt(), 60);
    assert_eq!(wait.on_probe(false), ProbeAction::GiveUp { announce: true });
    assert_eq!(wait.attempt(), 60);
    assert_eq!(wait.on_probe(false), ProbeAction::GiveUp { announce: true });
}

#[test]
fn notice_every_tenth_failed_probe() {
    let mut wait = Readiness::new();
    let mut announced: Vec<u32> = Vec::new();
    for attempt in 1..=60u32 {
        match wait.on_probe(false) {
            ProbeAction::Retry { announce } | ProbeAction::GiveUp { announce } => {
                if announce {
                    announced.push(attempt);
                }
            }
            ProbeAction::Proceed => panic!("never ready"),
        }
    }
    assert_eq!(announced, vec![10, 20, 30, 40, 50, 60]);
}

#[test]
fn ready_late() {
    let mut wait = Readiness::new();
    for _ in 0..25 {
        wait.on_probe(false);
    }
    assert_eq!(wait.attempt(), 26);
    assert_eq!(wait.on_probe(true), ProbeAction::Proceed);
    let mut last = Readiness::new();
    for _ in 0..59 {
        last.on_probe(false);
    }
    assert_eq!(last.on_probe(true), ProbeAction::Proceed);
}

#[test]
fn probe_is_ready_on_success_status_only() {
    assert!(probe_ready(&Transport::Answered { status: 200, body: "ready".to_string() }));
    assert!(probe_ready(&Transport::Answered { status: 299, body: String::new() }));
    assert!(!probe_ready(&Transport::Answered { status: 503, body: "Ingester not ready".to_string() }));
    assert!(!probe_ready(&Transport::Answered { status: 199, body: String::new() }));
    assert!(!probe_ready(&Transport::Answered { status: 300, body: String::new() }));
    assert!(!probe_ready(&Transport::Failed { detail: "refused".to_string() }));
}

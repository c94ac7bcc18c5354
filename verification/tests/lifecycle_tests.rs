use lirik::config::Config;
use lirik::lifecycle::{connect_step, stop_step, ConnectPhase, StopPhase};

#[test]
fn immediate_connect_succeeds_without_spawn() {
    assert_eq!(connect_step(ConnectPhase::Start, true), ConnectPhase::Connected);
}

#[test]
fn failed_first_attempt_spawns_with_full_budget() {
    assert_eq!(
        connect_step(ConnectPhase::Start, false),
        ConnectPhase::Spawned { attempts_left: 20 }
    );
}

#[test]
fn retry_succeeds_within_budget_after_spawn() {
    let mut phase = connect_step(ConnectPhase::Start, false);
    for _ in 0..5 {
        phase = connect_step(phase, false);
    }
    assert_eq!(phase, ConnectPhase::Spawned { attempts_left: 15 });
    phase = connect_step(phase, true);
    assert_eq!(phase, ConnectPhase::Connected);
}

#[test]
fn exhausted_budget_fails() {
    let mut phase = connect_step(ConnectPhase::Start, false);
    for _ in 0..19 {
        phase = connect_step(phase, false);
        assert!(matches!(phase, ConnectPhase::Spawned { .. }));
    }
    phase = connect_step(phase, false);
    assert_eq!(phase, ConnectPhase::Failed);
}

#[test]
fn terminal_phases_absorb() {
    assert_eq!(connect_step(ConnectPhase::Connected, false), ConnectPhase::Connected);
    assert_eq!(connect_step(ConnectPhase::Failed, true), ConnectPhase::Failed);
}

#[test]
fn graceful_exit_finishes_the_stop() {
    assert_eq!(stop_step(StopPhase::WaitingExit { polls_left: 20 }, false), StopPhase::Finished);
    assert_eq!(stop_step(StopPhase::WaitingExit { polls_left: 1 }, false), StopPhase::Finished);
}

#[test]
fn stubborn_daemon_escalates_after_the_poll_budget() {
    let mut phase = StopPhase::WaitingExit { polls_left: 20 };
    for _ in 0..19 {
        phase = stop_step(phase, true);
        assert!(matches!(phase, StopPhase::WaitingExit { .. }));
    }
    phase = stop_step(phase, true);
    assert_eq!(phase, StopPhase::Escalated);
    assert_eq!(stop_step(phase, true), StopPhase::Finished);
}

#[test]
fn config_defaults_match_the_documented_values() {
    let c = Config::default();
    assert_eq!(c.client_id, "");
    assert_eq!(c.client_secret, "");
    assert_eq!(c.redirect_uri, "http://127.0.0.1:8888/callback");
    assert_eq!(c.poll_interval_secs, 5);
    assert_eq!(c.lyrics_offset_ms, 0);
}

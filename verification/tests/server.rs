use plexpaper::config::{Config, RuntimeEnv};
use plexpaper::server::{
    process_crashed, stop_methods, OnlinePlayers, ProcessExit, Server, ServerStatus,
    ServerVersion, State, StopMethod,
};

fn no_env() -> RuntimeEnv {
    RuntimeEnv { server_port: None, mc_version: None, protocol_number: None, server_jarfile: None }
}

fn test_config() -> Config {
    let mut config = Config::runtime(&[], &no_env());
    config.server.command = "true".to_owned();
    config
}

fn dummy_status() -> ServerStatus {
    ServerStatus {
        version: ServerVersion { name: "1.20.4".to_string(), protocol: 765 },
        players: OnlinePlayers { online: 0, max: 20, sample: vec![] },
        description: String::new(),
        favicon: None,
    }
}

fn status_with_players(online: u32) -> ServerStatus {
    let mut status = dummy_status();
    status.players.online = online;
    status
}

#[test]
fn detecting_already_started_server_resets_idle_timer() {
    let mut server = Server::new();
    let config = test_config();
    let now: u64 = 10_000_000;

    server.last_active = Some(now - 3600 * 1000);

    assert_eq!(server.state(), State::Stopped);

    server.update_status(&config, Some(dummy_status()), now);

    assert_eq!(server.state(), State::Started);

    assert!(
        !server.should_sleep(&config, now),
        "server should not be considered idle immediately after being detected as started"
    );
}

#[test]
fn state_numbers_roundtrip() {
    for state in [State::Stopped, State::Starting, State::Started, State::Stopping] {
        assert_eq!(State::from_u8(state.to_u8()), state);
    }
    assert_eq!(State::Stopped.to_u8(), 0);
    assert_eq!(State::Starting.to_u8(), 1);
    assert_eq!(State::Started.to_u8(), 2);
    assert_eq!(State::Stopping.to_u8(), 3);
}

#[test]
fn start_only_from_stopped_and_sets_kill_deadline() {
    let config = test_config();
    let mut server = Server::new();
    assert!(server.start(&config, 1000));
    assert_eq!(server.state(), State::Starting);
    assert_eq!(server.kill_at, Some(1000 + 120 * 1000));
    assert!(!server.start(&config, 2000));
    assert!(!server.should_kill(120_999));
    assert!(server.should_kill(121_000));
}

#[test]
fn conditional_update_only_from_given_state() {
    let config = test_config();
    let mut server = Server::new();
    assert!(!server.update_state_from(Some(State::Started), State::Stopping, &config, 5));
    assert_eq!(server.state(), State::Stopped);
    assert!(!server.update_state(State::Stopped, &config, 5));
    assert!(server.update_state(State::Stopping, &config, 5));
    assert_eq!(server.kill_at, Some(5 + 60 * 1000));
    assert!(server.update_state(State::Stopped, &config, 6));
    assert_eq!(server.kill_at, None);
}

#[test]
fn sleep_after_idle_time() {
    let config = test_config();
    let mut server = Server::new();
    server.update_status(&config, Some(dummy_status()), 0);
    assert_eq!(server.state(), State::Started);
    assert_eq!(server.keep_online_until, Some(60_000));
    assert!(!server.should_sleep(&config, 59_999));
    assert!(!server.should_sleep(&config, 60_000));
    assert!(server.should_sleep(&config, 60_001));
    // players online keep it awake and mark it active
    server.update_status(&config, Some(status_with_players(2)), 70_000);
    assert!(!server.should_sleep(&config, 200_000));
    server.update_status(&config, Some(status_with_players(0)), 80_000);
    assert!(!server.should_sleep(&config, 129_999));
    assert!(server.should_sleep(&config, 130_000));
}

#[test]
fn missing_status_stops_started_server() {
    let config = test_config();
    let mut server = Server::new();
    server.update_status(&config, Some(dummy_status()), 0);
    server.update_status(&config, None, 10);
    assert_eq!(server.state(), State::Stopped);
    // the last status is kept
    assert!(server.status.is_some());
}

#[test]
fn stop_and_freeze_transitions() {
    let config = test_config();
    let mut server = Server::new();
    server.after_stop_signal(&config, 0);
    assert_eq!(server.state(), State::Stopped);
    server.start(&config, 0);
    server.after_stop_signal(&config, 10);
    assert_eq!(server.state(), State::Stopping);
    server.after_unfreeze(&config, 20);
    assert_eq!(server.state(), State::Starting);
    server.after_freeze(&config, 30);
    assert_eq!(server.state(), State::Stopped);
    assert_eq!(server.kill_at, None);
}

#[test]
fn rcon_cooldown() {
    let config = test_config();
    let mut server = Server::new();
    assert!(server.rcon_cooled_down(0));
    server.update_status(&config, Some(dummy_status()), 0);
    server.record_rcon_stop(&config, 1000);
    assert_eq!(server.state(), State::Stopping);
    assert!(!server.rcon_cooled_down(15_999));
    assert!(server.rcon_cooled_down(16_000));
}

#[test]
fn process_exit_and_crash() {
    assert!(!process_crashed(ProcessExit::Success, State::Started));
    assert!(!process_crashed(ProcessExit::Failed(Some(130)), State::Started));
    assert!(!process_crashed(ProcessExit::Failed(Some(143)), State::Started));
    assert!(process_crashed(ProcessExit::Failed(Some(1)), State::Started));
    assert!(process_crashed(ProcessExit::Failed(None), State::Started));
    assert!(!process_crashed(ProcessExit::Failed(Some(1)), State::Stopping));
    assert!(!process_crashed(ProcessExit::WaitError, State::Started));

    let mut config = test_config();
    let mut server = Server::new();
    server.set_pid(Some(42));
    server.update_status(&config, Some(dummy_status()), 0);
    assert!(!server.on_process_exit(true, &config, 100));
    assert_eq!(server.pid(), None);
    assert_eq!(server.state(), State::Stopped);
    config.server.wake_on_crash = true;
    assert!(server.on_process_exit(true, &config, 200));
    assert!(!server.on_process_exit(false, &config, 200));
}

#[test]
fn stop_method_order() {
    let mut config = test_config();
    assert_eq!(stop_methods(&config, State::Started), vec![StopMethod::Rcon, StopMethod::Signal]);
    assert_eq!(stop_methods(&config, State::Starting), vec![StopMethod::Signal]);
    config.server.freeze_process = true;
    assert_eq!(
        stop_methods(&config, State::Started),
        vec![StopMethod::Freeze, StopMethod::Rcon, StopMethod::Signal]
    );
}

#[test]
fn keep_online_for_zero_lifts_it() {
    let mut server = Server::new();
    server.keep_online_for(Some(5), 100);
    assert_eq!(server.keep_online_until, Some(5100));
    server.keep_online_for(Some(0), 100);
    assert_eq!(server.keep_online_until, None);
    server.keep_online_for(None, 100);
    assert_eq!(server.keep_online_until, None);
}

#[test]
fn stays_up_for_min_online_time() {
    let mut config = test_config();
    config.time.min_online_time = 60;
    config.time.sleep_after = 0;
    let mut server = Server::new();
    let now: u64 = 1_000;
    assert!(server.update_state(State::Started, &config, now));
    assert!(!server.should_sleep(&config, now));
    assert!(!server.should_sleep(&config, now + 60_000));
    assert!(server.should_sleep(&config, now + 60_001));
}

#[test]
fn sleeps_exactly_after_idle_time() {
    let mut config = test_config();
    config.time.min_online_time = 0;
    config.time.sleep_after = 30;
    let mut server = Server::new();
    assert!(server.update_state(State::Started, &config, 5_000));
    assert!(!server.should_sleep(&config, 34_999));
    assert!(server.should_sleep(&config, 35_000));
}

use std::time::Duration;

use minecraft_k8s::dashboard::{
    collect_status, execute_command, is_allowed_command, DashboardConfig, StatusCollector,
    StatusStep,
};
use minecraft_k8s::error::AppError;

fn test_config(minecraft_port: u16, rcon_port: u16) -> DashboardConfig {
    DashboardConfig {
        bind_host: "127.0.0.1".into(),
        bind_port: 0,
        minecraft_host: "127.0.0.1".into(),
        minecraft_port,
        rcon_host: "127.0.0.1".into(),
        rcon_port,
        rcon_password: "secret".into(),
        max_players: 20,
        motd: "Test MOTD".into(),
        probe_timeout: Duration::from_secs(2),
    }
}

#[test]
fn collect_status_offline() {
    let config = test_config(1, 1);
    let mut collector = StatusCollector::new();
    assert_eq!(collector.step, StatusStep::CheckPort);
    // Nothing listens on port 1: the port check comes back closed.
    collector.port_checked(&Ok(false));
    assert_eq!(collector.step, StatusStep::Report);
    let status = collect_status(&config, &collector);
    assert!(!status.online);
    assert!(!status.rcon_available);
}

#[test]
fn collect_status_online_with_players() {
    let config = test_config(25565, 25575);
    let mut collector = StatusCollector::new();
    collector.port_checked(&Ok(true));
    assert_eq!(collector.step, StatusStep::ConnectRcon);
    collector.rcon_connected(true);
    assert_eq!(collector.step, StatusStep::ListPlayers);
    collector.players_listed(&Ok("There are 2 of a max of 20 players online: a, b".to_string()));
    let status = collect_status(&config, &collector);
    assert!(status.online);
    assert!(status.rcon_available);
    assert_eq!(status.player_count, 2);
    assert_eq!(status.players, vec!["a", "b"]);
    assert_eq!(status.max_players, 20);
    assert_eq!(status.motd, "Test MOTD");
}

#[test]
fn collect_status_rcon_down() {
    let config = test_config(25565, 25575);
    let mut collector = StatusCollector::new();
    collector.port_checked(&Ok(true));
    collector.rcon_connected(false);
    assert_eq!(collector.step, StatusStep::Report);
    let status = collect_status(&config, &collector);
    assert!(status.online);
    assert!(!status.rcon_available);
    assert_eq!(status.player_count, 0);
}

#[test]
fn collect_status_ignores_out_of_order_events() {
    let mut collector = StatusCollector::new();
    collector.rcon_connected(true);
    collector.players_listed(&Ok("x: a".to_string()));
    assert_eq!(collector.step, StatusStep::CheckPort);
    assert!(!collector.rcon_available);
    collector.port_checked(&Err(AppError::Config("invalid address".into())));
    assert_eq!(collector.step, StatusStep::Report);
    assert!(!collector.online);
}

#[test]
fn command_allowlist() {
    assert!(is_allowed_command("list"));
    assert!(is_allowed_command("say hello"));
    assert!(!is_allowed_command("op steve"));
    assert!(!is_allowed_command(""));
}

#[test]
fn command_allowlist_ignores_case_and_leading_space() {
    assert!(is_allowed_command("LIST"));
    assert!(is_allowed_command("  Save-All flush"));
    assert!(is_allowed_command("ban\tsomeone"));
    assert!(!is_allowed_command("listen"));
    assert!(!is_allowed_command("   "));
}

#[test]
fn execute_command_rejects_disallowed() {
    let config = test_config(25565, 25575);
    let err = execute_command(&config, "op x").unwrap_err();
    assert!(matches!(err, AppError::Dashboard(_)));
}

#[test]
fn execute_command_rejects_empty() {
    let config = test_config(25565, 25575);
    let err = execute_command(&config, "  ").unwrap_err();
    assert!(matches!(err, AppError::Dashboard(_)));
}

#[test]
fn execute_command_prepares_rcon_call() {
    let config = test_config(25565, 25575);
    let call = execute_command(&config, "  list \n").unwrap();
    assert_eq!(call.command, "list");
    assert_eq!(call.host, "127.0.0.1");
    assert_eq!(call.port, 25575);
    assert_eq!(call.password, "secret");
    assert_eq!(call.timeout, Duration::from_secs(2));
    assert_eq!(
        execute_command(&config, " op x ").unwrap_err(),
        AppError::Dashboard("command not allowed: op x".into())
    );
    assert_eq!(
        execute_command(&config, "").unwrap_err(),
        AppError::Dashboard("command must not be empty".into())
    );
}

#[test]
fn dashboard_config_clones() {
    let cfg = test_config(25565, 25575);
    let copy = cfg.clone();
    assert_eq!(copy.minecraft_port, 25565);
    assert_eq!(copy.rcon_port, 25575);
    assert_eq!(copy.probe_timeout, cfg.probe_timeout);
    assert_eq!(copy.rcon_password, cfg.rcon_password);
}

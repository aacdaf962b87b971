use mole::config::Config;
use mole::probe::{Block, Reachable};
use mole::serve::{
    after_remeasure, canary_for, fail_threshold, health_interval_secs, health_step,
    naps_per_interval, run_end, serve_step, HealthStep, Remeasure, RunEnd, ServeStep,
};

#[test]
fn the_canary_defaults_when_blank() {
    let c = Config::new("split:sni", "Cloudflare");
    assert_eq!(canary_for(&c), "www.roblox.com");
    assert_eq!(canary_for(&c.clone().canary("  \t")), "www.roblox.com");
    assert_eq!(canary_for(&c.canary(" discord.com ")), " discord.com ");
}

#[test]
fn health_settings_read_with_floors() {
    assert_eq!(health_interval_secs(None), 180);
    assert_eq!(health_interval_secs(Some("1")), 3);
    assert_eq!(health_interval_secs(Some("600")), 600);
    assert_eq!(health_interval_secs(Some("soon")), 180);
    assert_eq!(fail_threshold(None), 3);
    assert_eq!(fail_threshold(Some("0")), 1);
    assert_eq!(fail_threshold(Some("7")), 7);
    assert_eq!(naps_per_interval(180), 720);
    assert_eq!(naps_per_interval(0), 1);
}

#[test]
fn blocked_checks_count_up_to_a_remeasure() {
    let blocked = Reachable::Blocked(Block::Reset);
    assert_eq!(health_step(0, 3, &blocked), HealthStep::Watch(1));
    assert_eq!(health_step(1, 3, &blocked), HealthStep::Watch(2));
    assert_eq!(health_step(2, 3, &blocked), HealthStep::Remeasure);
    assert_eq!(health_step(2, 3, &Reachable::Yes), HealthStep::Watch(0));
    assert_eq!(health_step(2, 3, &Reachable::IpBlocked), HealthStep::Watch(2));
    assert_eq!(health_step(1, 3, &Reachable::DnsFailed("x".to_string())), HealthStep::Watch(1));
    assert_eq!(health_step(0, 1, &blocked), HealthStep::Remeasure);
}

#[test]
fn the_service_loop_backs_off_then_gives_up() {
    assert_eq!(run_end(true, true), RunEnd::Stopped);
    assert_eq!(run_end(false, true), RunEnd::Remeasured);
    assert_eq!(run_end(false, false), RunEnd::Failed);
    assert_eq!(serve_step(0, RunEnd::Stopped), ServeStep::Stop);
    assert_eq!(serve_step(3, RunEnd::Remeasured), ServeStep::Again { failures: 0, pause_ms: 0 });
    assert_eq!(serve_step(0, RunEnd::Failed), ServeStep::Again { failures: 1, pause_ms: 500 });
    assert_eq!(serve_step(3, RunEnd::Failed), ServeStep::Again { failures: 4, pause_ms: 2000 });
    assert_eq!(serve_step(4, RunEnd::Failed), ServeStep::GiveUp);
}

#[test]
fn a_new_winner_switches_the_configuration() {
    let cfg = Config::new("split:sni", "Google").quic(true).canary("old.example");
    match after_remeasure(&cfg, "discord.com", Some("fake:badsum".to_string())) {
        Remeasure::Switch(c) => {
            assert_eq!(c.strategy, "fake:badsum");
            assert_eq!(c.resolver, "Google");
            assert!(c.block_quic);
            assert_eq!(c.canary, "discord.com");
        }
        _ => panic!("expected a switch"),
    }
    assert!(matches!(after_remeasure(&cfg, "x", Some("split:sni".to_string())), Remeasure::Same));
    assert!(matches!(after_remeasure(&cfg, "x", None), Remeasure::NothingWorks));
}

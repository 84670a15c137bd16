use esp32s3_collector::commands::{command_overflows, parse_command, plan_command, Command, SessionStart};
use esp32s3_collector::types::SessionLabel;

fn cmd(s: &str) -> Command {
    assert!(!command_overflows(s.as_bytes()));
    parse_command(s.as_bytes())
}

#[test]
fn list_sessions() {
    assert_eq!(cmd("LIST_SESSIONS"), Command::ListSessions);
    assert_eq!(cmd("SESSIONS"), Command::ListSessions);
    assert_eq!(cmd("SESSIONS,REPLAY,1,2,3,4,5,6,7"), Command::ListSessions);
}

#[test]
fn replay_target() {
    assert_eq!(cmd("REPLAY,3"), Command::Replay { session: 3 });
    assert_eq!(cmd("REPLAY"), Command::Replay { session: 1 });
    assert_eq!(cmd("REPLAY, 12 "), Command::Replay { session: 12 });
    assert_eq!(cmd("REPLAY,abc"), Command::Replay { session: 1 });
    assert_eq!(cmd("REPLAY,2,5"), Command::Replay { session: 5 });
    assert_eq!(cmd("REPLAY,70000"), Command::Replay { session: 1 });
    assert_eq!(cmd("X REPLAY,+9"), Command::Replay { session: 9 });
}

#[test]
fn stop_and_time() {
    assert_eq!(cmd("STOP"), Command::Stop);
    assert_eq!(cmd("STOP,anything"), Command::Stop);
    assert_eq!(cmd("TIME,1700000000000"), Command::SetTime { epoch: 1_700_000_000_000 });
    assert_eq!(cmd("TIME, 42 "), Command::SetTime { epoch: 42 });
    assert_eq!(cmd("TIME,abc"), Command::Ignored);
    assert_eq!(cmd("TIME,"), Command::Ignored);
}

#[test]
fn session_commands() {
    assert_eq!(
        cmd("ECO"),
        Command::Session { wipe: false, duration_min: 0, epoch_ms: None, profile: Some(SessionLabel::Economico) }
    );
    assert_eq!(
        cmd("SPT,30,1700000000000"),
        Command::Session {
            wipe: false,
            duration_min: 30,
            epoch_ms: Some(1_700_000_000_000),
            profile: Some(SessionLabel::Esportivo)
        }
    );
    assert_eq!(
        cmd("RESET"),
        Command::Session { wipe: true, duration_min: 0, epoch_ms: None, profile: None }
    );
    assert_eq!(
        cmd("RESET,NOR, 1440"),
        Command::Session { wipe: true, duration_min: 1440, epoch_ms: None, profile: Some(SessionLabel::Normal) }
    );
    // Out-of-range durations and the epoch threshold itself are ignored.
    assert_eq!(
        cmd("NOR,2000,1000000000000,0"),
        Command::Session { wipe: false, duration_min: 0, epoch_ms: None, profile: Some(SessionLabel::Normal) }
    );
    // ECO wins over SPT and NOR.
    assert_eq!(
        cmd("SPT,ECO"),
        Command::Session { wipe: false, duration_min: 0, epoch_ms: None, profile: Some(SessionLabel::Economico) }
    );
    assert_eq!(
        cmd("hello"),
        Command::Session { wipe: false, duration_min: 0, epoch_ms: None, profile: None }
    );
}

#[test]
fn non_utf8_and_long_payloads() {
    assert_eq!(cmd_bytes(&[0xFF, 0x45]), Command::Ignored);
    let long = format!("ECO,{}", "5".repeat(200));
    assert_eq!(
        cmd(&long),
        Command::Session { wipe: false, duration_min: 0, epoch_ms: None, profile: None }
    );
}

fn cmd_bytes(b: &[u8]) -> Command {
    assert!(!command_overflows(b));
    parse_command(b)
}

#[test]
fn overflowing_field_lists() {
    assert!(command_overflows(b"REPLAY,1,2,3,4"));
    assert!(!command_overflows(b"REPLAY,1,2,3"));
    assert!(command_overflows(b"ECO,1,2,3,4,5,6"));
    assert!(!command_overflows(b"ECO,1,2,3,4,5"));
    assert!(!command_overflows(b"STOP,1,2,3,4,5,6,7"));
    assert!(!command_overflows(b"TIME,1,2,3,4,5,6,7"));
    assert!(!command_overflows(b"LIST_SESSIONS,,,,,,,,"));
    assert!(!command_overflows(&[0xFF; 10]));
}

#[test]
fn documented_command_examples() {
    assert_eq!(
        cmd("RESET,ECO,10,1724498400000"),
        Command::Session {
            wipe: true,
            duration_min: 10,
            epoch_ms: Some(1_724_498_400_000),
            profile: Some(SessionLabel::Economico)
        }
    );
    assert_eq!(
        cmd("SPT,10"),
        Command::Session { wipe: false, duration_min: 10, epoch_ms: None, profile: Some(SessionLabel::Esportivo) }
    );
    assert_eq!(
        cmd("NOR,0"),
        Command::Session { wipe: false, duration_min: 0, epoch_ms: None, profile: Some(SessionLabel::Normal) }
    );
    assert_eq!(cmd("REPLAY,SESSION,1"), Command::Replay { session: 1 });
}

#[test]
fn command_plans() {
    let p = plan_command(Command::Replay { session: 3 }, true);
    assert!(p.stop_session);
    assert_eq!(p.replay, Some(3));
    assert!(!plan_command(Command::Replay { session: 3 }, false).stop_session);
    assert!(plan_command(Command::Stop, false).stop_session);
    assert!(plan_command(Command::ListSessions, true).list_sessions);
    assert_eq!(plan_command(Command::SetTime { epoch: 7 }, true).set_time, Some(7));
    let p = plan_command(cmd("RESET,ECO,10,1724498400000"), true);
    assert!(p.wipe);
    assert!(!p.stop_session);
    assert_eq!(
        p.start,
        Some(SessionStart { label: SessionLabel::Economico, duration_min: 10, epoch_ms: Some(1_724_498_400_000) })
    );
    let p = plan_command(Command::Ignored, true);
    assert!(!p.stop_session && !p.list_sessions && !p.wipe && p.replay.is_none() && p.start.is_none());
}

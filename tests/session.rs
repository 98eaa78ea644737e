use debug_tui::config::load_config;
use debug_tui::config::Config;
use debug_tui::dbgp::ContinuationStatus;
use debug_tui::session::apply_scroll;
use debug_tui::session::take_motion;
use debug_tui::session::ContinuationKind;
use debug_tui::session::ListenStatus;
use debug_tui::session::Phase;
use debug_tui::session::Scheduler;
use debug_tui::session::SchedulerAction;
use debug_tui::session::SchedulerEvent;
use debug_tui::theme::Solarized;
use debug_tui::theme::Theme;

#[test]
fn step_into_three_times() {
    let mut digits = vec!['3'];
    let count = take_motion(&mut digits);
    assert_eq!(3, count);
    assert!(digits.is_empty());
    let (mut s, mut action) = Scheduler::start(ContinuationKind::StepInto, count);
    let mut issued = 0;
    let mut snapshots = 0;
    loop {
        action = match action {
            SchedulerAction::Issue(kind) => {
                assert_eq!(ContinuationKind::StepInto, kind);
                assert_eq!(issued, snapshots);
                issued += 1;
                s.on_event(SchedulerEvent::Reply(ContinuationStatus::Break))
            }
            SchedulerAction::Snapshot => {
                snapshots += 1;
                s.on_event(SchedulerEvent::SnapshotDone)
            }
            SchedulerAction::Finish(last) => {
                assert!(matches!(last, Some(ContinuationStatus::Break)));
                break;
            }
            other => panic!("unexpected {:?}", other),
        };
    }
    assert_eq!(3, issued);
    assert_eq!(3, snapshots);
    assert_eq!(Phase::Done, s.phase);
}

#[test]
fn stopping_ends_the_run() {
    let (mut s, action) = Scheduler::start(ContinuationKind::Run, 5);
    assert!(matches!(action, SchedulerAction::Issue(ContinuationKind::Run)));
    let a = s.on_event(SchedulerEvent::Reply(ContinuationStatus::Stopping));
    assert!(matches!(a, SchedulerAction::Finish(Some(ContinuationStatus::Stopping))));
    assert_eq!(1, s.issued);
    assert!(matches!(s.on_event(SchedulerEvent::SnapshotDone), SchedulerAction::Wait));
}

#[test]
fn unknown_status_continues_without_snapshot() {
    let (mut s, _) = Scheduler::start(ContinuationKind::StepOver, 2);
    let a = s.on_event(SchedulerEvent::Reply(ContinuationStatus::Unknown("starting".to_string())));
    assert!(matches!(a, SchedulerAction::Issue(ContinuationKind::StepOver)));
    let a = s.on_event(SchedulerEvent::Reply(ContinuationStatus::Unknown("starting".to_string())));
    assert!(matches!(a, SchedulerAction::Finish(Some(ContinuationStatus::Unknown(_)))));
    assert_eq!(0, s.snapshots);
}

#[test]
fn transport_failure_disconnects() {
    let (mut s, _) = Scheduler::start(ContinuationKind::StepOut, 2);
    assert!(matches!(s.on_event(SchedulerEvent::Reply(ContinuationStatus::Break)), SchedulerAction::Snapshot));
    assert!(matches!(s.on_event(SchedulerEvent::SnapshotDone), SchedulerAction::Issue(_)));
    let a = s.on_event(SchedulerEvent::TransportFailed);
    assert!(matches!(a, SchedulerAction::Disconnect(Some(ContinuationStatus::Break))));
    assert_eq!(Phase::Done, s.phase);
}

#[test]
fn zero_count_finishes_at_once() {
    let (s, a) = Scheduler::start(ContinuationKind::Run, 0);
    assert!(matches!(a, SchedulerAction::Finish(None)));
    assert_eq!(0, s.issued);
}

#[test]
fn motion_prefix() {
    assert_eq!(1, take_motion(&mut vec![]));
    assert_eq!(12, take_motion(&mut vec!['1', '2']));
    assert_eq!(255, take_motion(&mut vec!['3', '0', '0']));
    assert_eq!(255, take_motion(&mut vec!['7', '0', '0', '0', '0']));
    assert_eq!(255, take_motion(&mut vec!['9'; 30]));
    assert_eq!(255, take_motion(&mut vec!['2', '5', '5']));
    assert_eq!(254, take_motion(&mut vec!['0', '2', '5', '4']));
    assert_eq!(1, take_motion(&mut vec!['x']));
}

#[test]
fn scrolling_saturates() {
    assert_eq!((5, 0), apply_scroll((2, 1), (1, -1), 3));
    assert_eq!((0, 10), apply_scroll((2, 0), (-1, 1), 10));
    assert_eq!((32767, 0), apply_scroll((32760, 0), (100, 0), 100));
}

#[test]
fn states_and_themes() {
    assert!(ListenStatus::Connected.is_connected());
    assert!(!ListenStatus::Refusing.is_connected());
    assert_eq!(Theme::SolarizedDark, Theme::Dark.next());
    assert_eq!(Theme::Dark, Theme::SolarizedLight.next());
    assert_eq!((0, 43, 54), Solarized::Base03.rgb());
}

#[test]
fn configuration_defaults() {
    let c = load_config(None, None, None);
    assert_eq!("0.0.0.0:9003", c.listen);
    let c = load_config(Some("127.0.0.1:9000".to_string()), Some("log".to_string()), None);
    assert_eq!("127.0.0.1:9000", c.listen);
    assert_eq!(Some("log".to_string()), c.log_path);
    assert_eq!("x", Config::new("x".to_string()).listen);
}

use debug_tui::notification::Notification;
use debug_tui::notification::NotificationLevel;

fn now_ms() -> u64 {
    std::time::SystemTime::now()
        .duration_since(std::time::UNIX_EPOCH)
        .unwrap()
        .as_millis() as u64
}

#[test]
fn notification_test_countdown_char() {
    let notification = Notification::info("hello".to_string());
    assert_eq!('█', notification.countdown_char());

    let notification = Notification {
        message: "hello".to_string(),
        level: NotificationLevel::Info,
        expires: now_ms(),
    };
    assert_eq!(' ', notification.countdown_char());

    let notification = Notification {
        message: "hello".to_string(),
        level: NotificationLevel::Info,
        expires: now_ms() - 10_000,
    };
    assert_eq!(' ', notification.countdown_char());
}

#[test]
fn config_test_countdown_char() {
    let notification = Notification::info("Hello".to_string());
    notification.countdown_char();
}

#[test]
fn countdown_steps_by_eighths() {
    let n = Notification { message: String::new(), level: NotificationLevel::Error, expires: 10_000 };
    assert_eq!('█', n.countdown_char_at(5_000));
    assert_eq!('▇', n.countdown_char_at(5_625));
    assert_eq!('▁', n.countdown_char_at(9_999));
    assert_eq!('▁', n.countdown_char_at(9_375));
    assert_eq!('▂', n.countdown_char_at(9_374));
    assert_eq!(' ', n.countdown_char_at(10_000));
    assert!(n.is_visible_at(9_999));
    assert!(!n.is_visible_at(10_000));
}

#[test]
fn levels_and_visibility() {
    assert_eq!(NotificationLevel::Error, Notification::error("e".to_string()).level);
    assert_eq!(NotificationLevel::Warning, Notification::warning("w".to_string()).level);
    assert!(Notification::error("e".to_string()).is_visible());
    assert!(!Notification::none().is_visible());
    assert_eq!(NotificationLevel::Silent, Notification::none().level);
}

#[test]
fn constructors_at_a_given_time() {
    let n = Notification::expiring_at("m".to_string(), NotificationLevel::Info, 1_000);
    assert_eq!(6_000, n.expires);
    assert_eq!('█', n.countdown_char_at(1_000));
    assert!(n.is_visible_at(5_999));
    let late = Notification::expiring_at("m".to_string(), NotificationLevel::Info, u64::MAX - 1);
    assert_eq!(u64::MAX, late.expires);
    let none = Notification::none_at(7);
    assert!(!none.is_visible_at(7));
}

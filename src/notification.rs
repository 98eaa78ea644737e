//! Transient notifications with an expiry time.
use vstd::prelude::*;

verus! {

/// How a notification is styled.
#[derive(PartialEq, Eq, Structural, Clone, Copy, Debug)]
pub enum NotificationLevel {
    Error,
    Silent,
    Info,
    Warning,
}

/// A message shown until `expires`, in milliseconds since the Unix epoch.
#[derive(Debug)]
pub struct Notification {
    pub message: String,
    pub level: NotificationLevel,
    pub expires: u64,
}

/// How long a notification stays, in milliseconds.
pub const DURATION_MS: u64 = 5000;

/// Relies on std's `SystemTime::now` and `duration_since(UNIX_EPOCH)`: the current
/// time in milliseconds (0 for a clock set before the epoch). Nothing is known of
/// the value.
#[verifier::external_body]
fn now_millis() -> (r: u64) {
    match std::time::SystemTime::now().duration_since(std::time::UNIX_EPOCH) {
        Ok(d) => d.as_millis() as u64,
        Err(_) => 0,
    }
}

/// The eight blocks of the countdown, from lowest to full.
pub open spec fn block(i: int) -> char {
    if i == 0 {
        '▁'
    } else if i == 1 {
        '▂'
    } else if i == 2 {
        '▃'
    } else if i == 3 {
        '▄'
    } else if i == 4 {
        '▅'
    } else if i == 5 {
        '▆'
    } else if i == 6 {
        '▇'
    } else {
        '█'
    }
}

/// The countdown glyph at time `now`: a space once expired, else one of eight
/// blocks by the eighth of the duration that is left, rounded up.
pub open spec fn countdown_spec(expires: u64, now: u64) -> char {
    if expires <= now {
        ' '
    } else {
        let eighths = (8 * (expires - now) + DURATION_MS - 1) / DURATION_MS as int;
        block(if eighths > 8 { 7 } else { eighths - 1 })
    }
}

/// Whether a notification expiring at `expires` is shown at time `now`.
pub open spec fn visible_spec(expires: u64, now: u64) -> bool {
    now < expires
}

/// When a notification made at `now` expires: five seconds later, saturating.
pub open spec fn expiry(now: u64) -> u64 {
    if now <= u64::MAX - DURATION_MS {
        (now + DURATION_MS) as u64
    } else {
        u64::MAX
    }
}

impl Notification {
    /// No notification at time `now`: it is already expired.
    pub fn none_at(now: u64) -> (r: Notification)
        ensures
            r.message@.len() == 0,
            r.level == NotificationLevel::Silent,
            r.expires == now,
    {
        Notification { message: String::new(), level: NotificationLevel::Silent, expires: now }
    }

    /// A notification made at time `now`, shown for five seconds.
    pub fn expiring_at(message: String, level: NotificationLevel, now: u64) -> (r: Notification)
        ensures
            r.message == message,
            r.level == level,
            r.expires == expiry(now),
    {
        let expires = if now <= u64::MAX - DURATION_MS { now + DURATION_MS } else { u64::MAX };
        Notification { message, level, expires }
    }

    /// No notification: nothing to show.
    pub fn none() -> (r: Notification)
        ensures
            r.message@.len() == 0,
            r.level == NotificationLevel::Silent,
    {
        Self::none_at(now_millis())
    }

    /// An error shown for five seconds from now.
    pub fn error(message: String) -> (r: Notification)
        ensures
            r.message == message,
            r.level == NotificationLevel::Error,
            exists|now: u64| r.expires == #[trigger] expiry(now),
    {
        Self::expiring_at(message, NotificationLevel::Error, now_millis())
    }

    /// An informative message shown for five seconds from now.
    pub fn info(message: String) -> (r: Notification)
        ensures
            r.message == message,
            r.level == NotificationLevel::Info,
            exists|now: u64| r.expires == #[trigger] expiry(now),
    {
        Self::expiring_at(message, NotificationLevel::Info, now_millis())
    }

    /// A warning shown for five seconds from now.
    pub fn warning(message: String) -> (r: Notification)
        ensures
            r.message == message,
            r.level == NotificationLevel::Warning,
            exists|now: u64| r.expires == #[trigger] expiry(now),
    {
        Self::expiring_at(message, NotificationLevel::Warning, now_millis())
    }

    /// The countdown glyph at time `now`.
    pub fn countdown_char_at(&self, now: u64) -> (r: char)
        ensures
            r == countdown_spec(self.expires, now),
    {
        if self.expires <= now {
            return ' ';
        }
        let left: u128 = (self.expires - now) as u128;
        let eighths: u128 = (8 * left + DURATION_MS as u128 - 1) / DURATION_MS as u128;
        let i: u128 = if eighths > 8 { 7 } else { eighths - 1 };
        if i == 0 {
            '▁'
        } else if i == 1 {
            '▂'
        } else if i == 2 {
            '▃'
        } else if i == 3 {
            '▄'
        } else if i == 4 {
            '▅'
        } else if i == 5 {
            '▆'
        } else if i == 6 {
            '▇'
        } else {
            '█'
        }
    }

    /// The countdown glyph now.
    pub fn countdown_char(&self) -> (r: char)
        ensures
            exists|now: u64| r == #[trigger] countdown_spec(self.expires, now),
    {
        self.countdown_char_at(now_millis())
    }

    /// Whether the notification has not expired at time `now`.
    pub fn is_visible_at(&self, now: u64) -> (r: bool)
        ensures
            r == visible_spec(self.expires, now),
    {
        now < self.expires
    }

    /// Whether the notification has not expired yet.
    pub fn is_visible(&self) -> (r: bool)
        ensures
            exists|now: u64| r == #[trigger] visible_spec(self.expires, now),
    {
        self.is_visible_at(now_millis())
    }
}

} // verus!

use degen_pov::rate_limiter::RateLimiter;
use degen_pov::pending::PendingTable;
use degen_pov::queue::{Queue, QueueItem};
use degen_pov::engine::{largest_variant, PhotoDim};
use degen_pov::dispatch::{classify_text, classify_message, TextClass, MessageAction};
use degen_pov::config::Config;
use degen_pov::SessionKey;

fn key(chat: i64, user: u64) -> SessionKey {
    SessionKey { chat, user }
}

#[test]
fn rate_limiter_admits_first_five_then_denies() {
    let mut rl = RateLimiter::new(5, 60_000);
    let k = key(1, 1);
    for i in 0..5u64 {
        assert!(rl.check_rate_limit(k, i * 1_000));
    }
    assert!(!rl.check_rate_limit(k, 9_000));
    assert!(!rl.check_rate_limit(k, 59_000));
}

#[test]
fn rate_limiter_window_rolls_over() {
    let mut rl = RateLimiter::new(5, 60_000);
    let k = key(1, 1);
    for _ in 0..5u32 {
        assert!(rl.check_rate_limit(k, 0));
    }
    assert!(!rl.check_rate_limit(k, 60_000)); // exactly one window: not yet lapsed
    assert!(rl.check_rate_limit(k, 60_001)); // past the window: admitted again
}

#[test]
fn rate_limiter_keys_are_independent() {
    let mut rl = RateLimiter::new(1, 60_000);
    assert!(rl.check_rate_limit(key(1, 1), 0));
    assert!(!rl.check_rate_limit(key(1, 1), 1));
    assert!(rl.check_rate_limit(key(1, 2), 2)); // same chat, other user
    assert!(rl.check_rate_limit(key(2, 1), 3)); // same user, other chat
}

#[test]
fn queue_is_first_in_first_out() {
    let mut q: Queue<&str> = Queue::new();
    assert!(q.is_empty());
    assert!(q.dequeue().is_none());
    q.enqueue(QueueItem { chat_id: 1, user_id: 1, data: "a" });
    q.enqueue(QueueItem { chat_id: 1, user_id: 2, data: "b" });
    q.enqueue(QueueItem { chat_id: 2, user_id: 1, data: "c" });
    assert!(!q.is_empty());
    assert_eq!(q.dequeue().unwrap().data, "a");
    assert_eq!(q.dequeue().unwrap().data, "b");
    assert_eq!(q.dequeue().unwrap().data, "c");
    assert!(q.dequeue().is_none());
}

#[test]
fn pending_table_replaces_and_removes() {
    let mut t = PendingTable::new();
    let k = key(3, 4);
    assert_eq!(t.get(k), None);
    t.insert_replacing(k, 10, 100);
    assert_eq!(t.get(k), Some((10, 100)));
    t.insert_replacing(k, 20, 200);
    assert_eq!(t.get(k), Some((20, 200)));
    let other = key(3, 5);
    t.insert_replacing(other, 30, 300);
    assert_eq!(t.get(k), Some((20, 200)));
    assert_eq!(t.remove(k), Some((20, 200)));
    assert_eq!(t.get(k), None);
    assert_eq!(t.get(other), Some((30, 300)));
    assert_eq!(t.remove(k), None);
}

#[test]
fn scan_expired_takes_exactly_the_old_entries() {
    let mut t = PendingTable::new();
    t.insert_replacing(key(1, 1), 11, 0); // age 200_000: out
    t.insert_replacing(key(1, 2), 12, 50_000); // age 150_000: kept
    t.insert_replacing(key(1, 3), 13, 20_000); // age 180_000 exactly: kept
    t.insert_replacing(key(1, 4), 14, 19_999); // age 180_001: out
    let evicted = t.scan_expired(200_000, 180_000);
    assert_eq!(evicted.len(), 2);
    assert!(evicted.contains(&(key(1, 1), 11)));
    assert!(evicted.contains(&(key(1, 4), 14)));
    assert_eq!(t.get(key(1, 1)), None);
    assert_eq!(t.get(key(1, 2)), Some((12, 50_000)));
    assert_eq!(t.get(key(1, 3)), Some((13, 20_000)));
    assert_eq!(t.get(key(1, 4)), None);
}

#[test]
fn largest_variant_picks_most_pixels_last_on_tie() {
    let dims = vec![
        PhotoDim { width: 10, height: 10 },
        PhotoDim { width: 20, height: 20 },
        PhotoDim { width: 5, height: 5 },
    ];
    assert_eq!(largest_variant(&dims), Some(1));
    let ties = vec![
        PhotoDim { width: 10, height: 10 },
        PhotoDim { width: 4, height: 25 },
    ];
    assert_eq!(largest_variant(&ties), Some(1));
    let empty: Vec<PhotoDim> = Vec::new();
    assert_eq!(largest_variant(&empty), None);
}

#[test]
fn commands_are_parsed_from_the_first_token() {
    assert_eq!(classify_text("/start"), TextClass::Start);
    assert_eq!(classify_text("/start@degen_bot"), TextClass::Start);
    assert_eq!(classify_text("/degenme"), TextClass::Degenme);
    assert_eq!(classify_text("/degenme@degen_bot please"), TextClass::Degenme);
    assert_eq!(classify_text("/degenme now"), TextClass::Degenme);
    assert_eq!(classify_text("/degenmenow"), TextClass::OtherCommand);
    assert_eq!(classify_text("/help"), TextClass::OtherCommand);
    assert_eq!(classify_text("/"), TextClass::OtherCommand);
    assert_eq!(classify_text("hello"), TextClass::NotCommand);
    assert_eq!(classify_text(""), TextClass::NotCommand);
    assert_eq!(classify_text("start"), TextClass::NotCommand);
}

#[test]
fn messages_route_to_commands_photos_or_nothing() {
    assert_eq!(classify_message(Some("/start"), false), MessageAction::ReplyWelcome);
    assert_eq!(classify_message(Some("/degenme"), false), MessageAction::HandleDegenme);
    assert_eq!(classify_message(Some("/otherbotcmd"), false), MessageAction::Ignore);
    assert_eq!(classify_message(Some("just text"), true), MessageAction::Ignore);
    assert_eq!(classify_message(None, true), MessageAction::EnqueuePhoto);
    assert_eq!(classify_message(None, false), MessageAction::Ignore);
}

#[test]
fn config_carries_the_enabled_flag() {
    let on = Config::new(true);
    assert!(on.telegram.enabled);
    let off = Config::new(false);
    assert!(!off.telegram.enabled);
}

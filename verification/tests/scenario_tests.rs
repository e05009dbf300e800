use degen_pov::engine::{Engine, DegenmeOutcome, PhotoOutcome};
use degen_pov::SessionKey;

fn key(chat: i64, user: u64) -> SessionKey {
    SessionKey { chat, user }
}

fn prompt_of(engine: &mut Engine, k: SessionKey, who: &str, now: u64) -> (String, bool) {
    match engine.on_degenme(k, who, now) {
        DegenmeOutcome::Prompt { text, replaced } => (text, replaced),
        DegenmeOutcome::RateLimited => panic!("unexpectedly rate limited"),
    }
}

#[test]
fn happy_path() {
    let mut engine = Engine::new();
    let k = key(7, 42);
    let (text, replaced) = prompt_of(&mut engine, k, "@U", 0);
    assert!(!replaced);
    assert_eq!(
        text,
        "Hey, @U! Please reply within 3 minutes to this message with an image to see the Degen Point of View!"
    );
    engine.record_prompt(k, 100, 0);
    let r = engine.on_photo(k, Some(100), 5_000);
    assert_eq!(r, PhotoOutcome::Matched { prompt: 100 });
    // the entry is gone: a second identical reply is ignored
    let r2 = engine.on_photo(k, Some(100), 5_500);
    assert_eq!(r2, PhotoOutcome::Ignored);
}

#[test]
fn expired_on_reply() {
    let mut engine = Engine::new();
    let k = key(7, 42);
    let _ = prompt_of(&mut engine, k, "@U", 0);
    engine.record_prompt(k, 100, 0);
    // 200 s later the matching reply finds the request expired
    let r = engine.on_photo(k, Some(100), 200_000);
    assert_eq!(r, PhotoOutcome::Expired);
    let r2 = engine.on_photo(k, Some(100), 200_500);
    assert_eq!(r2, PhotoOutcome::Ignored);
}

#[test]
fn expired_by_sweeper() {
    let mut engine = Engine::new();
    let k = key(7, 42);
    let _ = prompt_of(&mut engine, k, "@U", 0);
    engine.record_prompt(k, 100, 0);
    // at 60 s the sweeper does nothing
    let evicted = engine.sweep(60_000);
    assert!(evicted.is_empty());
    // just past 180 s it evicts the entry and reports the stale prompt
    let evicted = engine.sweep(180_001);
    assert_eq!(evicted.len(), 1);
    assert_eq!(evicted[0], (k, 100));
    let r = engine.on_photo(k, Some(100), 180_002);
    assert_eq!(r, PhotoOutcome::Ignored);
}

#[test]
fn sweeper_exact_deadline_is_kept() {
    let mut engine = Engine::new();
    let k = key(7, 42);
    let _ = prompt_of(&mut engine, k, "@U", 0);
    engine.record_prompt(k, 100, 0);
    // an age of exactly 180 s does not exceed the deadline
    let evicted = engine.sweep(180_000);
    assert!(evicted.is_empty());
    let r = engine.on_photo(k, Some(100), 180_000);
    assert_eq!(r, PhotoOutcome::Matched { prompt: 100 });
}

#[test]
fn replacement() {
    let mut engine = Engine::new();
    let k = key(7, 42);
    let (_, replaced1) = prompt_of(&mut engine, k, "@U", 0);
    assert!(!replaced1);
    engine.record_prompt(k, 10, 0);
    let (text2, replaced2) = prompt_of(&mut engine, k, "@U", 10_000);
    assert!(replaced2);
    assert_eq!(
        text2,
        "Previous request cancelled. Hey, @U! Please reply within 3 minutes to this message with an image to see the Degen Point of View!"
    );
    engine.record_prompt(k, 20, 10_000);
    // a reply to the first, orphaned prompt is ignored
    let r1 = engine.on_photo(k, Some(10), 15_000);
    assert_eq!(r1, PhotoOutcome::Ignored);
    // a reply to the live prompt is composed
    let r2 = engine.on_photo(k, Some(20), 20_000);
    assert_eq!(r2, PhotoOutcome::Matched { prompt: 20 });
}

#[test]
fn rate_limit_sixth_denied() {
    let mut engine = Engine::new();
    let k = key(7, 42);
    let mut prompt: i32 = 0;
    for i in 0..5u64 {
        let now = i * 2_000; // six calls inside ten seconds
        let (_, _) = prompt_of(&mut engine, k, "@U", now);
        prompt += 1;
        engine.record_prompt(k, prompt, now);
    }
    match engine.on_degenme(k, "@U", 10_000) {
        DegenmeOutcome::RateLimited => {},
        DegenmeOutcome::Prompt { .. } => panic!("sixth command must be denied"),
    }
    // the denial left the pending table untouched: the fifth prompt is live
    let r = engine.on_photo(k, Some(5), 11_000);
    assert_eq!(r, PhotoOutcome::Matched { prompt: 5 });
}

#[test]
fn cross_user_isolation() {
    let mut engine = Engine::new();
    let u1 = key(7, 1);
    let u2 = key(7, 2);
    let _ = prompt_of(&mut engine, u1, "@U1", 0);
    engine.record_prompt(u1, 11, 0);
    let (_, replaced) = prompt_of(&mut engine, u2, "@U2", 1_000);
    // both sessions live at once, independently
    assert!(!replaced);
    engine.record_prompt(u2, 22, 1_000);
    // U1 replying to U2's prompt is ignored
    let r1 = engine.on_photo(u1, Some(22), 2_000);
    assert_eq!(r1, PhotoOutcome::Ignored);
    // U1 replying to U1's prompt is composed
    let r2 = engine.on_photo(u1, Some(11), 3_000);
    assert_eq!(r2, PhotoOutcome::Matched { prompt: 11 });
    // U2's session was untouched throughout
    let r3 = engine.on_photo(u2, Some(22), 4_000);
    assert_eq!(r3, PhotoOutcome::Matched { prompt: 22 });
}

#[test]
fn photo_without_any_session_is_ignored() {
    let mut engine = Engine::new();
    let r = engine.on_photo(key(7, 42), Some(5), 1_000);
    assert_eq!(r, PhotoOutcome::Ignored);
}

#[test]
fn photo_that_is_not_a_reply_is_ignored() {
    let mut engine = Engine::new();
    let k = key(7, 42);
    let _ = prompt_of(&mut engine, k, "@U", 0);
    engine.record_prompt(k, 100, 0);
    let r = engine.on_photo(k, None, 1_000);
    assert_eq!(r, PhotoOutcome::Ignored);
    // the session is still live afterwards
    let r2 = engine.on_photo(k, Some(100), 2_000);
    assert_eq!(r2, PhotoOutcome::Matched { prompt: 100 });
}

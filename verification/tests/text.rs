use std::collections::VecDeque;

use drill_above::collider::Collider;
use drill_above::dialogue::{start_dialogue, update_dialogue, Dialogue};
use drill_above::geom::{Aabb2, Vec2};
use drill_above::id::{Id, IdGen};
use drill_above::placeable::{Npc, Sprite};
use drill_above::player::{Coyote, Player, PlayerControl, PlayerState};
use drill_above::text_input::{key_to_text_action, Key, TextAction, TextInput};
use drill_above::text_scroller::{drain, ScrollEvent, ScrollerState, TextConfig, TextEvent, TextScroller};
use drill_above::geom::UVec2;
use drill_above::util::{parse_size, report_err, report_warn};

fn pushes(events: Vec<ScrollEvent>) -> Vec<String> {
    events.into_iter().map(|ScrollEvent::Push(s)| s).collect()
}

fn config() -> TextConfig {
    let mut events = VecDeque::new();
    events.push_back(TextEvent::Text("ae\u{301}b".to_string()));
    events.push_back(TextEvent::Delay(500));
    events.push_back(TextEvent::Text("!".to_string()));
    TextConfig { char_delay: 100, events }
}

fn aabb(x0: i64, y0: i64, x1: i64, y1: i64) -> Aabb2 {
    Aabb2 { min: Vec2 { x: x0, y: y0 }, max: Vec2 { x: x1, y: y1 } }
}

#[test]
fn scroller_reveals_graphemes_in_time() {
    let mut s = TextScroller::new(config());
    // The first update only starts the text.
    assert!(pushes(s.update(1)).is_empty());
    assert_eq!(pushes(s.update(0)), vec!["a"]);
    assert!(pushes(s.update(50)).is_empty());
    // A letter with a combining accent is one grapheme.
    assert_eq!(pushes(s.update(50)), vec!["e\u{301}"]);
    assert_eq!(pushes(s.update(250)), vec!["b"]);
    // Then the pause: nothing until it is over.
    assert!(pushes(s.update(400)).is_empty());
    assert!(pushes(s.update(100)).is_empty());
    assert_eq!(pushes(s.update(0)), vec!["!"]);
}

#[test]
fn scroller_catches_up_after_a_long_frame() {
    let mut s = TextScroller::new(config());
    s.update(0);
    assert_eq!(pushes(s.update(1000)), vec!["a", "e\u{301}", "b"]);
}

#[test]
fn dialogue_collects_the_text() {
    let mut d = Dialogue::new(config(), Collider::new(aabb(0, 0, 10, 10)));
    assert_eq!(d.text, "");
    d.update(0);
    d.update(1000);
    assert_eq!(d.text, "ae\u{301}b");
    d.update(2000);
    d.update(0);
    assert_eq!(d.text, "ae\u{301}b!");
}

#[test]
fn dialogue_starts_near_a_character_and_ends_away() {
    let npc = Npc {
        interact_collider: Collider::new(aabb(100, 0, 200, 100)),
        text: config(),
        sprite: Sprite::new(aabb(100, 0, 200, 100)),
        npc_type: "guide".to_string(),
    };
    let npcs = vec![npc];
    assert!(start_dialogue(&Collider::new(aabb(0, 0, 50, 50)), &npcs).is_none());
    let near = Collider::new(aabb(150, 10, 160, 20));
    let d = start_dialogue(&near, &npcs).expect("a dialogue starts");
    assert_eq!(d.collider.raw(), aabb(100, 0, 200, 100));
    let d = update_dialogue(&near, d, 0).expect("still near");
    let d = update_dialogue(&near, d, 1000).expect("still near");
    assert_eq!(d.text, "ae\u{301}b");
    assert!(update_dialogue(&Collider::new(aabb(0, 0, 50, 50)), d, 10).is_none());
}

#[test]
fn ids_count_up() {
    let mut gen = IdGen::new();
    assert_eq!(gen.gen(), Id(0));
    assert_eq!(gen.gen(), Id(1));
    assert_eq!(gen.gen(), Id(2));
}

#[test]
fn control_is_taken_once() {
    let mut c = PlayerControl::default();
    c.jump = true;
    c.move_dir = Vec2 { x: -1, y: 0 };
    let taken = c.take();
    assert!(taken.jump);
    assert_eq!(taken.move_dir, Vec2 { x: -1, y: 0 });
    assert_eq!(c, PlayerControl::default());
}

#[test]
fn timers_run_down_and_stop() {
    let mut p = Player::new(Id(1));
    p.coyote_time = Some((Coyote::Ground, 100));
    p.jump_buffer = Some(50);
    p.control_timeout = Some(300);
    p.state = PlayerState::AirDrill { dash: Some(80) };
    p.update_timers(60);
    assert_eq!(p.coyote_time, Some((Coyote::Ground, 40)));
    assert_eq!(p.jump_buffer, None);
    assert_eq!(p.control_timeout, Some(240));
    assert!(matches!(p.state, PlayerState::AirDrill { dash: Some(20) }));
    p.update_timers(40);
    assert_eq!(p.coyote_time, None);
    assert!(matches!(p.state, PlayerState::AirDrill { dash: None }));
}

#[test]
fn hurtbox_hangs_from_the_head() {
    let p = Player::new(Id(0));
    let c = p.hurtbox(Vec2 { x: 16000, y: 32000 });
    assert_eq!(c.raw(), aabb(16000 - 7200, 32000 - 12800, 16000 + 7200, 32000));
}

#[test]
fn finished_state_is_kept() {
    let s = PlayerState::Finished { time: 5, next_heart: 2 };
    assert!(matches!(s.finished_state(), Some(PlayerState::Finished { time: 5, next_heart: 2 })));
    assert!(PlayerState::Airborn.finished_state().is_none());
    assert!(PlayerState::Drilling.using_drill());
    assert!(!PlayerState::Airborn.using_drill());
}

#[test]
fn report_passes_values_and_hides_errors() {
    let ok: Result<u8, String> = Ok(3);
    assert_eq!(report_err(ok, "loading"), Ok(3));
    let err: Result<u8, String> = Err("broken".to_string());
    assert_eq!(report_err(err, "loading"), Err(()));
    let warn: Result<(), &str> = Err("odd");
    assert_eq!(report_warn(warn, "checking"), Err(()));
}

#[test]
fn sizes_are_parsed() {
    assert_eq!(parse_size("16x8"), Some(UVec2 { x: 16, y: 8 }));
    assert_eq!(parse_size("+3x+04"), Some(UVec2 { x: 3, y: 4 }));
    assert_eq!(parse_size("16"), None);
    assert_eq!(parse_size("1x2x3"), None);
    assert_eq!(parse_size("x2"), None);
    assert_eq!(parse_size("1x-2"), None);
    assert_eq!(parse_size("99999999999999999999999x1"), None);
}

#[test]
fn keys_type_text() {
    assert_eq!(key_to_text_action(Key::Letter(0), false), Some(TextAction::Append('a')));
    assert_eq!(key_to_text_action(Key::Letter(25), true), Some(TextAction::Append('Z')));
    assert_eq!(key_to_text_action(Key::Digit(7), true), Some(TextAction::Append('7')));
    assert_eq!(key_to_text_action(Key::Minus, true), Some(TextAction::Append('_')));
    assert_eq!(key_to_text_action(Key::Apostrophe, true), Some(TextAction::Append('"')));
    assert_eq!(key_to_text_action(Key::Delete, false), Some(TextAction::Pop));
    assert_eq!(key_to_text_action(Key::Enter, false), None);
    assert_eq!(key_to_text_action(Key::Letter(26), false), None);
    let mut input = TextInput::new("ro".to_string());
    input.mouse_down();
    assert!(input.is_focused());
    input.key_down(Key::Letter(14), false);
    input.key_down(Key::Letter(12), true);
    assert_eq!(input.get_text(), "rooM");
    input.key_down(Key::Backspace, false);
    assert_eq!(input.get_text(), "roo");
    input.key_down(Key::Enter, false);
    assert!(!input.is_focused());
    let mut empty = TextInput::new(String::new());
    empty.perform(TextAction::Pop);
    assert_eq!(empty.get_text(), "");
}

#[test]
fn revealed_text_is_always_a_prefix_of_the_script() {
    let total = "ae\u{301}b!";
    let mut s = TextScroller::new(config());
    let mut revealed = String::new();
    for _ in 0..40 {
        for piece in pushes(s.update(37)) {
            revealed.push_str(&piece);
        }
        assert!(total.starts_with(revealed.as_str()));
    }
    assert_eq!(revealed, total);
}

#[test]
fn one_generator_never_repeats_an_id() {
    let mut gen = IdGen::new();
    let mut last = gen.gen();
    for _ in 0..100 {
        let next = gen.gen();
        assert!(next > last);
        last = next;
    }
}

#[test]
fn drain_reveals_while_the_clock_allows() {
    let text: VecDeque<String> = vec!["a".to_string(), "b".to_string(), "c".to_string()].into();
    let (shown, state) = drain(text, -150, 100);
    // Two graphemes fit: at -150 and at -50; the next waits until 50 more.
    assert_eq!(pushes(shown), vec!["a", "b"]);
    match state {
        ScrollerState::Text { text, next } => {
            assert_eq!(text, VecDeque::from(vec!["c".to_string()]));
            assert_eq!(next, 50);
        },
        _ => panic!("the text is not over"),
    }
    let (shown, state) = drain(VecDeque::from(vec!["z".to_string()]), 0, 100);
    assert_eq!(pushes(shown), vec!["z"]);
    // The clock has not run out again, so the text is not known to be over yet.
    match state {
        ScrollerState::Text { text, next } => {
            assert!(text.is_empty());
            assert_eq!(next, 100);
        },
        _ => panic!("the scroller still waits on the text"),
    }
    let (shown, state) = drain(VecDeque::new(), 0, 100);
    assert!(shown.is_empty());
    assert!(matches!(state, ScrollerState::Event { next: 0 }));
}

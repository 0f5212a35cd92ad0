use doodle_remap::avatar::{Avatar, AvatarMap};
use doodle_remap::session::{
    apply_pick, page_window, Cursor, Keys, Phase, PickOutcome, Session, PAGE_ROWS, REPEAT_DELAY,
    REPEAT_RATE,
};
use doodle_remap::table::IdMap;

fn table(entries: &[(u32, &str, u64)]) -> AvatarMap {
    let mut t = IdMap::new();
    for (id, name, key) in entries {
        t.insert(*id, Avatar { name: name.to_string(), key: *key });
    }
    t
}

fn idle() -> Keys {
    Keys {
        up_pressed: false,
        down_pressed: false,
        up_held: false,
        down_held: false,
        confirm: false,
        cancel: false,
        clear: false,
        start: false,
    }
}

fn confirm() -> Keys {
    Keys { confirm: true, ..idle() }
}

fn down() -> Keys {
    Keys { down_pressed: true, down_held: true, ..idle() }
}

fn held_down() -> Keys {
    Keys { down_held: true, ..idle() }
}

fn scenario() -> Session {
    let roster = table(&[(1, "Alice", 0xAA), (2, "Bob", 0xBB)]);
    let senders = table(&[(10, "A", 0xAA), (20, "C", 0xCC)]);
    Session::new(roster, senders)
}

fn pairs(s: &Session) -> Vec<(u32, u32)> {
    s.mapping.entries.clone()
}

/// Opens the picker on the second sender (id 20).
fn open_picker_on_20(s: &mut Session) {
    s.frame(&down());
    s.frame(&confirm());
    assert_eq!(s.phase, Phase::Picking { sender: 20 });
}

#[test]
fn session_starts_with_auto_match() {
    let mut s = scenario();
    assert_eq!(pairs(&s), vec![(10, 1)]);
    assert_eq!(s.phase, Phase::Main);
    assert!(s.take_redraw());
    assert!(!s.take_redraw());
}

#[test]
fn clear_on_unmapped_sender_changes_nothing() {
    let mut s = scenario();
    open_picker_on_20(&mut s);
    s.frame(&Keys { clear: true, ..idle() });
    assert_eq!(s.phase, Phase::Main);
    assert_eq!(pairs(&s), vec![(10, 1)]);
    assert!(s.mapping.get(20).is_none());
}

#[test]
fn cancel_after_setting_keeps_mapping() {
    let mut s = scenario();
    open_picker_on_20(&mut s);
    s.frame(&down());
    s.frame(&confirm());
    assert_eq!(s.phase, Phase::Main);
    assert_eq!(pairs(&s), vec![(10, 1), (20, 2)]);
    s.frame(&confirm());
    assert_eq!(s.phase, Phase::Picking { sender: 20 });
    s.frame(&Keys { cancel: true, ..idle() });
    assert_eq!(s.phase, Phase::Main);
    assert_eq!(pairs(&s), vec![(10, 1), (20, 2)]);
}

#[test]
fn clear_removes_existing_mapping() {
    let mut s = scenario();
    s.frame(&confirm());
    assert_eq!(s.phase, Phase::Picking { sender: 10 });
    s.frame(&Keys { clear: true, ..idle() });
    assert!(pairs(&s).is_empty());
}

#[test]
fn start_in_main_is_done() {
    let mut s = scenario();
    s.frame(&Keys { start: true, down_pressed: true, ..idle() });
    assert_eq!(s.phase, Phase::Done);
    assert!(s.finished());
    assert_eq!(s.main_cursor.hover, 0);
    s.frame(&down());
    assert_eq!(s.phase, Phase::Done);
    assert_eq!(s.main_cursor.hover, 0);
}

#[test]
fn start_while_picking_cancels_without_mutation() {
    let mut s = scenario();
    open_picker_on_20(&mut s);
    s.frame(&Keys { start: true, confirm: true, ..idle() });
    assert_eq!(s.phase, Phase::Cancelled);
    assert!(s.finished());
    assert_eq!(pairs(&s), vec![(10, 1)]);
}

#[test]
fn abort_cancels() {
    let mut s = scenario();
    s.abort();
    assert_eq!(s.phase, Phase::Cancelled);
    assert_eq!(pairs(&s), vec![(10, 1)]);
}

#[test]
fn cursor_clamps_at_both_ends() {
    let mut c = Cursor::new();
    assert!(!c.step(3, &Keys { up_pressed: true, up_held: true, ..idle() }));
    assert_eq!(c.hover, 0);
    assert_eq!(c.wait, REPEAT_DELAY);
    let mut c = Cursor { hover: 2, wait: 0 };
    assert!(!c.step(3, &down()));
    assert_eq!(c.hover, 2);
    assert!(c.step(3, &Keys { up_pressed: true, ..idle() }));
    assert_eq!(c.hover, 1);
}

#[test]
fn cursor_on_empty_list_does_not_move() {
    let mut c = Cursor::new();
    for keys in [down(), held_down(), Keys { up_pressed: true, ..idle() }] {
        assert!(!c.step(0, &keys));
        assert_eq!(c, Cursor::new());
    }
}

#[test]
fn empty_lists_ignore_navigation_and_confirm() {
    let mut s = Session::new(table(&[]), table(&[]));
    s.frame(&down());
    s.frame(&confirm());
    assert_eq!(s.phase, Phase::Main);
    assert_eq!(s.main_cursor.hover, 0);
    assert!(pairs(&s).is_empty());
}

#[test]
fn held_direction_repeats_after_delay_then_fast() {
    let mut c = Cursor::new();
    let len = 100;
    assert!(c.step(len, &down()));
    assert_eq!(c.hover, 1);
    let mut moves = Vec::new();
    for frame in 1..=40 {
        if c.step(len, &held_down()) {
            moves.push(frame);
        }
    }
    assert_eq!(moves, vec![20, 25, 30, 35, 40]);
    assert_eq!(c.hover, 6);
    assert_eq!(REPEAT_RATE, 5);
}

#[test]
fn hover_stays_in_bounds_under_any_keys() {
    let mut c = Cursor::new();
    let len = 4;
    let all = [
        down(),
        held_down(),
        Keys { up_pressed: true, ..idle() },
        Keys { up_held: true, ..idle() },
        idle(),
    ];
    for i in 0..500 {
        c.step(len, &all[(i * 7 + i / 3) % all.len()]);
        assert!(c.hover < len);
    }
}

#[test]
fn pages_of_a_long_list() {
    let w = page_window(60, 30);
    assert_eq!((w.start, w.end, w.more), (28, 56, true));
    let w = page_window(56, 30);
    assert_eq!((w.start, w.end, w.more), (28, 56, false));
    let w = page_window(10, 9);
    assert_eq!((w.start, w.end, w.more), (0, 10, false));
    let w = page_window(0, 0);
    assert_eq!((w.start, w.end, w.more), (0, 0, false));
    assert_eq!(PAGE_ROWS, 28);
}

#[test]
fn mapping_page_rows() {
    let s = scenario();
    let page = s.mapping_page();
    assert!(!page.more);
    assert_eq!(page.rows.len(), 2);
    assert_eq!(page.rows[0].sender, 10);
    assert_eq!(page.rows[0].contact, Some(1));
    assert!(page.rows[0].hovered);
    assert_eq!(page.rows[1].sender, 20);
    assert_eq!(page.rows[1].contact, None);
    assert!(!page.rows[1].hovered);
}

#[test]
fn picker_page_follows_cursor() {
    let entries: Vec<(u32, String, u64)> =
        (0..40u32).map(|i| (i + 1, format!("F{i}"), i as u64)).collect();
    let mut roster = IdMap::new();
    for (id, name, key) in entries {
        roster.insert(id, Avatar { name, key });
    }
    let mut s = Session::new(roster, table(&[(10, "A", 999)]));
    s.frame(&confirm());
    for _ in 0..30 {
        s.frame(&down());
    }
    let page = s.picker_page();
    assert!(!page.more);
    assert_eq!(page.rows.len(), 12);
    assert_eq!(page.rows[0].contact, 29);
    assert!(page.rows[2].hovered);
    assert_eq!(page.rows.iter().filter(|r| r.hovered).count(), 1);
}

#[test]
fn apply_pick_outcomes() {
    let mut m = IdMap::new();
    apply_pick(&mut m, 20, PickOutcome::Selected(2));
    assert_eq!(m.entries, vec![(20, 2)]);
    apply_pick(&mut m, 20, PickOutcome::Cancelled);
    assert_eq!(m.entries, vec![(20, 2)]);
    apply_pick(&mut m, 20, PickOutcome::Cleared);
    assert!(m.entries.is_empty());
}

#[test]
fn navigation_marks_redraw() {
    let mut s = scenario();
    assert!(s.take_redraw());
    s.frame(&idle());
    assert!(!s.take_redraw());
    s.frame(&down());
    assert!(s.take_redraw());
    s.frame(&down());
    assert!(!s.take_redraw());
}

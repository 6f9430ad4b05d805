use sprint::entry_box::Action;
use sprint::input_box::InputBox;
use sprint::launcher::{Key, Launcher};
use sprint::repeat::RepeatEmulator;
use sprint::results::AppDescriptor;
use sprint::sprint_config::{SprintConfig, SprintConfigRaw};

#[test]
fn cursor_editing() {
    let mut b = InputBox::new("", "Search...");
    assert_eq!(b.placeholder(), "Search...");
    assert_eq!(b.push_at_cursor('a'), "a");
    assert_eq!(b.push_at_cursor('c'), "ac");
    b.reel_cursor();
    assert_eq!(b.push_at_cursor('b'), "abc");
    assert_eq!(b.cursor_pos(), 2);
    assert_eq!(b.pop_at_cursor(), Some("ac".to_string()));
    b.set_cursor_to_home();
    assert_eq!(b.pop_at_cursor(), None);
    b.reel_cursor();
    assert_eq!(b.cursor_pos(), 0);
    b.set_cursor_to_end();
    b.advance_cursor();
    assert_eq!(b.cursor_pos(), 2);
    b.set_cursor_pos(99);
    assert_eq!(b.cursor_pos(), 2);
    b.set_text("é");
    assert_eq!(b.cursor_pos(), 1);
    assert_eq!(b.push_at_cursor('ß'), "éß");
    assert_eq!(b.text(), "éß");
}

fn app(name: &str) -> AppDescriptor {
    AppDescriptor { name: name.to_string(), exec_line: Some(name.to_lowercase()), no_display: false, only_show_in: None, not_show_in: None }
}

fn launcher(order: &[&str]) -> Launcher {
    let mut raw = SprintConfigRaw::default();
    raw.result_order = order.iter().map(|s| s.to_string()).collect();
    Launcher::new(SprintConfig::from_raw(raw), vec![app("Firefox"), app("Files"), app("Fish")], None)
}

#[test]
fn selection_is_clamped_when_the_list_shrinks() {
    let mut l = launcher(&["desktop"]);
    assert_eq!(l.filter_results_cache.len(), 3);
    l.key_press_handle(Key::Down);
    l.key_press_handle(Key::Down);
    l.key_press_handle(Key::Down);
    assert_eq!(l.selected, 2);
    l.key_press_handle(Key::Char('f'));
    l.key_press_handle(Key::Char('i'));
    l.key_press_handle(Key::Char('r'));
    assert_eq!(l.filter, "fir");
    assert_eq!(l.filter_results_cache.len(), 1);
    assert_eq!(l.selected, 0);
    l.key_press_handle(Key::Char('q'));
    assert_eq!(l.filter_results_cache.len(), 0);
    assert_eq!(l.selected, 0);
    l.key_press_handle(Key::Down);
    l.key_press_handle(Key::Up);
    assert_eq!(l.selected, 0);
    assert!(matches!(l.key_press_handle(Key::Return), Action::Nothing));
    assert!(!l.close);
    l.key_press_handle(Key::BackSpace);
    assert_eq!(l.filter, "fir");
    assert_eq!(l.filter_results_cache.len(), 1);
}

#[test]
fn return_confirms_the_selected_entry() {
    let mut l = launcher(&["desktop", "search"]);
    l.key_press_handle(Key::Char('f'));
    l.key_press_handle(Key::Char('i'));
    l.key_press_handle(Key::Down);
    assert_eq!(l.selected, 1);
    match l.key_press_handle(Key::Return) {
        Action::Launch(cmd) => assert_eq!(cmd, "firefox"),
        other => panic!("unexpected {other:?}"),
    }
    assert!(l.close);
}

#[test]
fn escape_closes_and_cursor_keys_do_not_resolve() {
    let mut l = launcher(&["search"]);
    l.key_press_handle(Key::Char('a'));
    l.key_press_handle(Key::Char('b'));
    l.key_press_handle(Key::Home);
    l.key_press_handle(Key::Right);
    l.key_press_handle(Key::Char('x'));
    assert_eq!(l.filter, "axb");
    l.key_press_handle(Key::End);
    l.key_press_handle(Key::Left);
    l.key_press_handle(Key::Other);
    assert_eq!(l.filter_input.cursor_pos(), 2);
    assert!(!l.close);
    l.key_press_handle(Key::Escape);
    assert!(l.close);
}

fn held_fires(delay: u32, rate: u32, hold_ms: u64) -> usize {
    let mut e = RepeatEmulator::new();
    e.update_repeat_info(rate, delay);
    e.press_key(7, 0);
    let mut fires = Vec::new();
    for now in 0..=hold_ms {
        if let Some(k) = e.tick(now) {
            assert_eq!(k, 7);
            fires.push(now);
        }
    }
    fires.len()
}

#[test]
fn repeat_fires_after_delay_then_at_rate() {
    assert_eq!(held_fires(500, 2, 1600), 3);
    assert_eq!(held_fires(500, 2, 400), 0);
    let mut e = RepeatEmulator::new();
    e.update_repeat_info(2, 500);
    e.press_key(7, 0);
    let fired: Vec<u64> = (0..=1600).filter(|&t| e.tick(t).is_some()).collect();
    assert_eq!(fired, vec![500, 1000, 1500]);
}

#[test]
fn release_and_disable_stop_repeat() {
    let mut e = RepeatEmulator::new();
    e.press_key(1, 0);
    assert!(e.tick(10_000).is_none());
    e.update_repeat_info(25, 600);
    e.press_key(1, 0);
    assert_eq!(e.time_to_next_repeat(100), Some(500));
    e.release_key(2);
    assert_eq!(e.tick(600), Some(1));
    assert_eq!(e.time_to_next_repeat(610), Some(30));
    e.release_key(1);
    assert!(e.tick(2000).is_none());
    assert_eq!(e.time_to_next_repeat(2000), None);
    e.press_key(3, 0);
    e.disable_repeat();
    assert!(e.tick(5000).is_none());
}

#[test]
fn reresolving_an_unchanged_query_gives_the_same_list() {
    let mut l = launcher(&["prefixes", "math", "desktop", "search"]);
    for c in "fi".chars() {
        l.key_press_handle(Key::Char(c));
    }
    let first: Vec<(String, usize)> = l.filter_results_cache.iter().map(|e| (e.label.clone(), e.slot)).collect();
    l.recreate_results_cache();
    let second: Vec<(String, usize)> = l.filter_results_cache.iter().map(|e| (e.label.clone(), e.slot)).collect();
    assert_eq!(first, second);
    assert_eq!(first.iter().map(|p| p.0.as_str()).collect::<Vec<_>>(), vec!["Files", "Firefox", "Fish", "Search \"fi\" on the web..."]);
}

#[test]
fn typing_a_space_first_resolves_quietly() {
    let mut l = launcher(&["math", "search"]);
    l.key_press_handle(Key::Char(' '));
    assert_eq!(l.filter, " ");
    assert!(l.filter_results.math_result.is_none());
    assert_eq!(l.filter_results_cache.len(), 1);
}

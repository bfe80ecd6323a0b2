use noice::actions::{Effect, FileOp};
use noice::state::{dispatch_keys, handle_action, handle_filter_input, Event};
use noice::{run, Action, Entry, SortMode, State};

fn entry(name: &str, is_dir: bool, size: u64, mtime: i128) -> Entry {
    Entry {
        name: name.to_string(),
        path: format!("/d/{}", name),
        is_dir,
        is_exec: false,
        is_link: false,
        size,
        marked: false,
        mtime,
    }
}

fn names(s: &State) -> Vec<String> {
    s.entries().iter().map(|e| e.name.clone()).collect()
}

fn state_with(list: Vec<Entry>) -> State {
    let mut s = State::new("/d".to_string(), false, false, None);
    s.load_entries(list);
    s
}

#[test]
fn new_state_has_configured_defaults() {
    let s = State::new("/tmp".to_string(), true, false, None);
    assert_eq!(s.dir(), "/tmp");
    assert_eq!(s.cursor(), 0);
    assert_eq!(s.term_height(), 24);
    assert_eq!(s.term_width(), 80);
    assert_eq!(s.sort_mode(), SortMode::Version);
    assert!(!s.show_hidden());
    assert!(s.dirs_first());
    assert!(s.cache_dirty());
}

#[test]
fn listing_puts_directories_first_then_version_order() {
    let s = state_with(vec![
        entry("file10", false, 1, 0),
        entry("file2", false, 1, 0),
        entry("zdir", true, 1, 0),
        entry("adir", true, 1, 0),
    ]);
    assert_eq!(names(&s), vec!["zdir", "adir", "file2", "file10"]);
}

#[test]
fn listing_by_name_lowercases() {
    let mut s = State::new("/d".to_string(), false, false, None);
    handle_action(Action::SortByName, &mut s, b's');
    handle_action(Action::ToggleDirsFirst, &mut s, b'd');
    s.load_entries(vec![
        entry("beta", false, 1, 0),
        entry("Alpha", false, 1, 0),
        entry("gamma", true, 1, 0),
    ]);
    assert_eq!(names(&s), vec!["Alpha", "beta", "gamma"]);
}

#[test]
fn listing_by_size_and_time_puts_largest_and_newest_first() {
    let mut s = State::new("/d".to_string(), false, false, None);
    handle_action(Action::SortBySize, &mut s, b'S');
    s.load_entries(vec![entry("a", false, 5, 1), entry("b", false, 50, 3), entry("c", false, 7, 2)]);
    assert_eq!(names(&s), vec!["b", "c", "a"]);
    handle_action(Action::SortByTime, &mut s, b't');
    s.load_entries(vec![entry("a", false, 5, 1), entry("b", false, 50, 3), entry("c", false, 7, 2)]);
    assert_eq!(names(&s), vec!["b", "c", "a"]);
}

#[test]
fn listing_is_stable_for_equal_keys() {
    let mut s = State::new("/d".to_string(), false, false, None);
    handle_action(Action::SortBySize, &mut s, b'S');
    s.load_entries(vec![entry("x", false, 5, 0), entry("y", false, 5, 0), entry("w", false, 5, 0)]);
    assert_eq!(names(&s), vec!["x", "y", "w"]);
}

#[test]
fn hidden_entries_are_left_out_until_shown() {
    let raw = || vec![entry(".hidden", false, 1, 0), entry("shown", false, 1, 0)];
    let mut s = state_with(raw());
    assert_eq!(names(&s), vec!["shown"]);
    let e = handle_action(Action::ToggleHidden, &mut s, b'.');
    assert!(matches!(e, Effect::Reload));
    s.load_entries(raw());
    assert_eq!(names(&s), vec![".hidden", "shown"]);
}

#[test]
fn filter_typed_then_applied_keeps_matching_names() {
    let mut s = state_with(vec![entry("Report.txt", false, 1, 0), entry("notes", false, 1, 0)]);
    handle_action(Action::Filter, &mut s, b'/');
    assert_eq!(s.filter_input().as_deref(), Some(""));
    assert!(!handle_filter_input(&mut s, b'r'));
    assert!(!handle_filter_input(&mut s, b'E'));
    assert!(!handle_filter_input(&mut s, b'x'));
    assert!(!handle_filter_input(&mut s, 127));
    assert_eq!(s.filter_input().as_deref(), Some("rE"));
    assert!(handle_filter_input(&mut s, 10));
    assert_eq!(s.filter().as_deref(), Some("rE"));
    assert!(s.filter_input().is_none());
    s.load_entries(vec![entry("Report.txt", false, 1, 0), entry("notes", false, 1, 0)]);
    assert_eq!(names(&s), vec!["Report.txt"]);
}

#[test]
fn empty_filter_clears_and_escape_cancels() {
    let mut s = state_with(vec![entry("a", false, 1, 0)]);
    handle_action(Action::Filter, &mut s, b'/');
    assert!(handle_filter_input(&mut s, 13));
    assert!(s.filter().is_none());
    handle_action(Action::Filter, &mut s, b'/');
    handle_filter_input(&mut s, b'q');
    assert!(!handle_filter_input(&mut s, 27));
    assert!(s.filter_input().is_none());
    assert!(s.filter().is_none());
}

#[test]
fn marks_survive_a_reload_by_path() {
    let mut s = state_with(vec![entry("a", false, 1, 0), entry("b", false, 1, 0)]);
    handle_action(Action::Mark, &mut s, b' ');
    assert!(s.entries()[0].marked);
    assert_eq!(s.cursor(), 1);
    s.load_entries(vec![entry("b", false, 1, 0), entry("a", false, 1, 0), entry("c", false, 1, 0)]);
    let marked: Vec<String> = s.entries().iter().filter(|e| e.marked).map(|e| e.name.clone()).collect();
    assert_eq!(marked, vec!["a"]);
}

#[test]
fn navigation_moves_and_clamps() {
    let mut s = state_with((0..10).map(|i| entry(&format!("f{}", i), false, 1, 0)).collect());
    handle_action(Action::Next, &mut s, b'j');
    handle_action(Action::Next, &mut s, b'j');
    assert_eq!(s.cursor(), 2);
    handle_action(Action::Previous, &mut s, b'k');
    assert_eq!(s.cursor(), 1);
    handle_action(Action::End, &mut s, b'G');
    assert_eq!(s.cursor(), 9);
    handle_action(Action::Next, &mut s, b'j');
    assert_eq!(s.cursor(), 9);
    handle_action(Action::Home, &mut s, 0);
    assert_eq!(s.cursor(), 0);
    assert_eq!(s.view_offset(), 0);
    handle_action(Action::HalfPageDown, &mut s, 4);
    assert_eq!(s.cursor(), 9);
    handle_action(Action::HalfPageUp, &mut s, 21);
    assert_eq!(s.cursor(), 0);
}

#[test]
fn view_follows_the_selection_on_a_small_terminal() {
    let mut s = state_with((0..30).map(|i| entry(&format!("f{:02}", i), false, 1, 0)).collect());
    assert!(s.resize(10, 40));
    assert!(!s.resize(10, 40));
    for _ in 0..8 {
        handle_action(Action::Next, &mut s, b'j');
    }
    assert_eq!(s.cursor(), 8);
    assert_eq!(s.view_offset(), 3);
    handle_action(Action::PageDown, &mut s, 0);
    assert_eq!(s.cursor(), 14);
    assert_eq!(s.view_offset(), 9);
}

#[test]
fn yank_takes_marked_or_selected_and_unyank_clears() {
    let mut s = state_with(vec![entry("a", false, 1, 0), entry("b", false, 1, 0)]);
    handle_action(Action::Yank, &mut s, b'y');
    assert_eq!(s.yanked(), &vec!["/d/a".to_string()]);
    assert_eq!(s.message().as_deref(), Some("Yanked 1 item(s)"));
    handle_action(Action::Mark, &mut s, b' ');
    handle_action(Action::Mark, &mut s, b' ');
    handle_action(Action::Yank, &mut s, b'y');
    assert_eq!(s.yanked(), &vec!["/d/a".to_string(), "/d/b".to_string()]);
    assert_eq!(s.message().as_deref(), Some("Yanked 2 item(s)"));
    handle_action(Action::UnYank, &mut s, b'U');
    assert!(s.yanked().is_empty());
    assert_eq!(s.message().as_deref(), Some("Cleared yanked items"));
    let e = handle_action(Action::Paste, &mut s, b'p');
    assert!(matches!(e, Effect::Stay));
    assert_eq!(s.message().as_deref(), Some("Nothing to paste"));
}

#[test]
fn delete_asks_for_marked_or_selected_paths() {
    let mut s = state_with(vec![entry("a", false, 1, 0), entry("b", false, 1, 0)]);
    match handle_action(Action::Delete, &mut s, b'D') {
        Effect::Delete(p) => assert_eq!(p, vec!["/d/a".to_string()]),
        _ => panic!("expected a deletion"),
    }
    let mut empty = state_with(vec![]);
    assert!(matches!(handle_action(Action::Delete, &mut empty, b'D'), Effect::Stay));
}

#[test]
fn enter_asks_to_enter_a_directory_or_open_a_file() {
    let mut s = state_with(vec![entry("dir", true, 1, 0), entry("file", false, 1, 0)]);
    assert!(matches!(handle_action(Action::Enter, &mut s, b'l'), Effect::EnterDir(p) if p == "/d/dir"));
    handle_action(Action::Next, &mut s, b'j');
    assert!(matches!(handle_action(Action::Enter, &mut s, b'l'), Effect::OpenFile(p) if p == "/d/file"));
    s.enter_dir("/d/dir".to_string());
    assert_eq!(s.dir(), "/d/dir");
    assert_eq!(s.cursor(), 0);
}

#[test]
fn jump_back_swaps_directories_and_twice_returns() {
    let mut s = state_with(vec![]);
    assert!(matches!(handle_action(Action::Jump(b'\''), &mut s, b'\''), Effect::Stay));
    assert_eq!(s.message().as_deref(), Some("No previous directory"));
    s.jump_to("/etc".to_string());
    assert_eq!(s.dir(), "/etc");
    assert_eq!(s.last_dir().as_deref(), Some("/d"));
    handle_action(Action::Jump(b'\''), &mut s, b'\'');
    assert_eq!(s.dir(), "/d");
    handle_action(Action::Jump(b'\''), &mut s, b'\'');
    assert_eq!(s.dir(), "/etc");
    assert_eq!(s.last_dir().as_deref(), Some("/d"));
}

#[test]
fn jump_keys_name_their_directories() {
    let mut s = state_with(vec![]);
    let expected = [
        (b'/', "/"),
        (b'~', "~"),
        (b'c', "~/.config"),
        (b'd', "~/Downloads"),
        (b'D', "~/Documents"),
        (b't', "/tmp"),
    ];
    for (key, dir) in expected {
        assert!(matches!(handle_action(Action::Jump(key), &mut s, key), Effect::JumpTo(p) if p == dir));
    }
    assert!(matches!(handle_action(Action::Jump(b'x'), &mut s, b'x'), Effect::Stay));
    s.jump_missing("/nowhere");
    assert_eq!(s.message().as_deref(), Some("Directory not found: /nowhere"));
}

#[test]
fn toggles_say_what_they_did_and_undo_themselves() {
    let mut s = state_with(vec![]);
    handle_action(Action::ToggleSize, &mut s, b'i');
    assert!(s.show_size());
    assert_eq!(s.message().as_deref(), Some("Show size: on"));
    handle_action(Action::ToggleSize, &mut s, b'i');
    assert!(!s.show_size());
    assert_eq!(s.message().as_deref(), Some("Show size: off"));
    match handle_action(Action::ToggleVersionSort, &mut s, b'v') {
        Effect::ReloadAndSay(m) => assert_eq!(m, "Version sort: off"),
        _ => panic!("expected a reload"),
    }
    assert_eq!(s.sort_mode(), SortMode::Name);
    match handle_action(Action::Reload, &mut s, b'R') {
        Effect::ReloadAndSay(m) => assert_eq!(m, "Reloaded"),
        _ => panic!("expected a reload"),
    }
}

#[test]
fn keys_go_through_pending_combos() {
    let mut s = state_with(vec![entry("a", false, 1, 0), entry("b", false, 1, 0)]);
    handle_action(Action::End, &mut s, b'G');
    dispatch_keys(&mut s, &[b'g']);
    assert_eq!(s.cursor(), 0);
    assert!(matches!(dispatch_keys(&mut s, &[b'\'']), Effect::Stay));
    assert_eq!(s.pending_key(), Some(b'\''));
    assert!(matches!(dispatch_keys(&mut s, &[b'/']), Effect::JumpTo(p) if p == "/"));
    assert_eq!(s.pending_key(), None);
    assert!(matches!(dispatch_keys(&mut s, &[b'n']), Effect::MakeDir));
    assert!(matches!(dispatch_keys(&mut s, &[b'D']), Effect::Delete(_)));
    assert!(matches!(dispatch_keys(&mut s, &[b'q']), Effect::Quit));
    assert!(matches!(dispatch_keys(&mut s, &[27, b'[', b'B']), Effect::Stay));
    assert_eq!(s.cursor(), 1);
}

#[test]
fn run_takes_events() {
    let mut s = state_with(vec![entry("a", false, 1, 0)]);
    assert!(matches!(run(&mut s, Event::Changed), Effect::Reload));
    assert!(matches!(run(&mut s, Event::Resize(30, 100)), Effect::ClearScreen));
    assert!(matches!(run(&mut s, Event::Resize(30, 100)), Effect::Stay));
    assert!(matches!(run(&mut s, Event::Keys(vec![b'q'])), Effect::Quit));
}

#[test]
fn back_goes_to_the_parent_and_selects_the_directory_left() {
    let mut s = State::new("/d/sub".to_string(), false, false, None);
    assert!(matches!(handle_action(Action::Back, &mut s, b'h'), Effect::GoBack));
    let left = s.go_back();
    assert_eq!(left, Some(Some("sub".to_string())));
    assert_eq!(s.dir(), "/d");
    s.load_entries(vec![entry("a", false, 1, 0), entry("sub", true, 1, 0)]);
    s.select_name("sub");
    assert_eq!(s.cursor(), 0);
    let mut root = State::new("/".to_string(), false, false, None);
    assert_eq!(root.go_back(), None);
    assert_eq!(root.dir(), "/");
    let mut top = State::new("/top".to_string(), false, false, None);
    assert_eq!(top.go_back(), Some(Some("top".to_string())));
    assert_eq!(top.dir(), "/");
}

#[test]
fn file_operations_report_counts_or_errors() {
    let mut s = state_with(vec![entry("a", false, 1, 0)]);
    handle_action(Action::Yank, &mut s, b'y');
    s.file_op_done(FileOp::Copy, 1, &vec![]);
    assert_eq!(s.message().as_deref(), Some("Pasted 1 item(s)"));
    assert_eq!(s.yanked().len(), 1);
    s.file_op_done(FileOp::Link, 3, &vec![]);
    assert_eq!(s.message().as_deref(), Some("Created 3 link(s)"));
    s.file_op_done(FileOp::Move, 0, &vec!["x: e1".to_string(), "y: e2".to_string()]);
    assert_eq!(s.message().as_deref(), Some("Errors: x: e1, y: e2"));
    assert_eq!(s.yanked().len(), 1);
    s.file_op_done(FileOp::Move, 1, &vec![]);
    assert_eq!(s.message().as_deref(), Some("Moved 1 item(s)"));
    assert!(s.yanked().is_empty());
    s.delete_done(&vec![]);
    assert_eq!(s.message().as_deref(), Some("Deleted"));
}

#[test]
fn selection_stays_on_a_shrinking_listing() {
    let mut s = state_with(vec![entry("a", false, 1, 0), entry("b", false, 1, 0), entry("c", false, 1, 0)]);
    handle_action(Action::End, &mut s, b'G');
    s.load_entries(vec![entry("a", false, 1, 0)]);
    assert_eq!(s.cursor(), 0);
    s.load_entries(vec![]);
    assert_eq!(s.cursor(), 0);
}

#[test]
fn back_step_lists_the_parent_and_selects_the_directory_left() {
    let mut s = State::new("/tmp/".to_string(), false, false, None);
    s.load_entries(vec![entry("inner", false, 1, 0)]);
    assert_eq!(s.parent_dir(), Some("/".to_string()));
    let listing = vec![entry("usr", true, 1, 0), entry("tmp", true, 1, 0), entry(".hid", true, 1, 0)];
    assert!(s.back_listed(Ok(listing)));
    assert_eq!(s.dir(), "/");
    assert_eq!(names(&s), vec!["usr", "tmp"]);
    assert_eq!(s.cursor(), 1);
    assert!(s.filter().is_none());
    let mut root = State::new("/".to_string(), false, false, None);
    assert_eq!(root.parent_dir(), None);
    let mut trailing = State::new("/d/sub//".to_string(), false, false, None);
    assert_eq!(trailing.parent_dir(), Some("/d".to_string()));
    assert!(trailing.back_listed(Ok(vec![entry("sub", true, 1, 0)])));
    assert_eq!(trailing.dir(), "/d");
    assert!(!root.back_listed(Ok(vec![entry("x", false, 1, 0)])));
    assert_eq!(root.dir(), "/");
    assert!(root.entries().is_empty());
}

#[test]
fn back_step_keeps_the_old_listing_when_the_read_fails() {
    let mut s = State::new("/d/sub".to_string(), false, false, None);
    s.load_entries(vec![entry("a", false, 1, 0), entry("sub", false, 1, 0)]);
    assert!(s.back_listed(Err("denied".to_string())));
    assert_eq!(s.dir(), "/d");
    assert_eq!(s.message().as_deref(), Some("Error reading directory: denied"));
    assert_eq!(names(&s), vec!["a", "sub"]);
    assert_eq!(s.cursor(), 1);
}

#[test]
fn enter_step_lists_the_new_directory_from_the_top() {
    let mut s = state_with(vec![entry("a", false, 1, 0), entry("b", false, 1, 0)]);
    handle_action(Action::End, &mut s, b'G');
    s.enter_listed("/d/b".to_string(), Ok(vec![entry("y", false, 1, 0), entry("x", false, 1, 0)]));
    assert_eq!(s.dir(), "/d/b");
    assert_eq!(names(&s), vec!["y", "x"]);
    assert_eq!(s.cursor(), 0);
    s.take_listing(Err("gone".to_string()));
    assert_eq!(names(&s), vec!["y", "x"]);
    assert_eq!(s.message().as_deref(), Some("Error reading directory: gone"));
}

#[test]
fn paths_in_the_directory() {
    let s = state_with(vec![]);
    assert_eq!(s.path_in_dir("new"), "/d/new");
    assert_eq!(s.destination("/x/y/file.txt"), Some("/d/file.txt".to_string()));
    assert_eq!(s.destination("/"), None);
}

#[test]
fn large_listings_sort_stably_and_keep_marks() {
    let mut list = Vec::new();
    for i in 0..300u64 {
        list.push(entry(&format!("f{}", i), i % 5 == 0, (i * 37) % 11, 0));
    }
    let mut s = state_with(list.clone());
    handle_action(Action::SortBySize, &mut s, b'S');
    handle_action(Action::Mark, &mut s, b' ');
    let marked_path = s.entries()[0].path.clone();
    s.load_entries(list.clone());
    let mut expected = list.clone();
    expected.sort_by(|a, b| b.is_dir.cmp(&a.is_dir).then(b.size.cmp(&a.size)));
    let want: Vec<String> = expected.iter().map(|e| e.name.clone()).collect();
    assert_eq!(names(&s), want);
    let marked: Vec<String> = s.entries().iter().filter(|e| e.marked).map(|e| e.path.clone()).collect();
    assert_eq!(marked, vec![marked_path]);
}

#[test]
fn jump_step_lists_the_new_directory_and_remembers_the_old() {
    let mut s = state_with(vec![entry("a", false, 1, 0), entry("b", false, 1, 0)]);
    handle_action(Action::End, &mut s, b'G');
    s.jump_listed("/tmp".to_string(), Ok(vec![entry("t", false, 1, 0)]));
    assert_eq!(s.dir(), "/tmp");
    assert_eq!(s.last_dir().as_deref(), Some("/d"));
    assert_eq!(names(&s), vec!["t"]);
    assert_eq!(s.cursor(), 0);
}

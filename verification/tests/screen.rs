use noice::render::render;
use noice::state::handle_action;
use noice::{Action, Entry, State};

fn entry(name: &str, is_dir: bool, size: u64) -> Entry {
    Entry {
        name: name.to_string(),
        path: format!("/home/u/{}", name),
        is_dir,
        is_exec: false,
        is_link: false,
        size,
        marked: false,
        mtime: 0,
    }
}

#[test]
fn screen_without_color() {
    let mut s = State::new("/home/u".to_string(), false, true, None);
    s.load_entries(vec![entry("docs", true, 0), entry("a.txt", false, 1536)]);
    assert!(s.resize(8, 10));
    let screen = render(&mut s, Some("/home/u"));
    let expected = format!(
        "\x1b[H\x1b[2J ~\n{}\n > docs/\n   a.txt\n\n 1/2",
        "\u{2500}".repeat(10)
    );
    assert_eq!(screen, expected);
    assert_eq!(s.dir_display_cache().as_deref(), Some("~"));
}

#[test]
fn screen_shows_marks_sizes_and_counts() {
    let mut s = State::new("/srv".to_string(), false, false, None);
    s.load_entries(vec![entry("d", true, 0), entry("big", false, 2048)]);
    handle_action(Action::ToggleSize, &mut s, b'i');
    handle_action(Action::Mark, &mut s, b' ');
    handle_action(Action::Redraw, &mut s, 12);
    assert!(s.resize(7, 3));
    let screen = render(&mut s, None);
    let expected = format!(
        "\x1b[H\x1b[2J /srv\n{}\n  * d/          \n > big     2.0K\n 2/2 [1*]",
        "\u{2500}".repeat(3)
    );
    assert_eq!(screen, expected);
}

#[test]
fn screen_with_color_and_message() {
    let mut s = State::new("/srv".to_string(), true, false, None);
    s.load_entries(vec![entry("x", false, 1)]);
    s.say("hello");
    assert!(s.resize(6, 1));
    let screen = render(&mut s, None);
    let expected = "\x1b[H\x1b[2J \x1b[1m/srv\x1b[0m\n\u{2500}\n > \x1b[0mx\x1b[0m\n \x1b[31mhello\x1b[0m";
    assert_eq!(screen, expected);
}

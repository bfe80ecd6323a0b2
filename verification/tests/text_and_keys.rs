use std::cmp::Ordering;

use noice::args::{parse_args, ArgError};
use noice::config::{dir_jumps, file_rules, keybinds};
use noice::keys::{file_command, handle_two_key_combo, keys_to_action, simple_match};
use noice::paths::expand_tilde;
use noice::prompts::{confirms, entered_name, error_line, rename_target, split_command};
use noice::session::{session_settings_exec, SessionKey};
use noice::size::format_size;
use noice::sort::{is_executable, time_value};
use noice::version::{extract_numbers, version_compare};
use noice::Action;

/// The size text as computed with floating point.
fn float_size(size: u64) -> String {
    const UNITS: &[&str] = &["B", "K", "M", "G", "T"];
    let mut size = size as f64;
    let mut unit_index = 0;
    while size >= 1024.0 && unit_index < UNITS.len() - 1 {
        size /= 1024.0;
        unit_index += 1;
    }
    if unit_index == 0 {
        format!("{:.0}{}", size, UNITS[unit_index])
    } else {
        format!("{:.1}{}", size, UNITS[unit_index])
    }
}

#[test]
fn format_size_exact_values() {
    assert_eq!(format_size(0), "0B");
    assert_eq!(format_size(1023), "1023B");
    assert_eq!(format_size(1024), "1.0K");
    assert_eq!(format_size(1536), "1.5K");
    assert_eq!(format_size(1280), "1.2K");
    assert_eq!(format_size(1048575), "1024.0K");
    assert_eq!(format_size(1048576), "1.0M");
    assert_eq!(format_size(5 * 1073741824), "5.0G");
    assert_eq!(format_size(1099511627776), "1.0T");
    assert_eq!(format_size(u64::MAX), "16777216.0T");
}

#[test]
fn format_size_agrees_with_floating_point() {
    let mut samples: Vec<u64> = Vec::new();
    for k in 0..64u32 {
        let p = 1u64 << k;
        for d in [0u64, 1, 2, 3, 5, 7, 11, 51, 102, 103, 511, 512, 513] {
            samples.push(p.wrapping_add(d));
            samples.push(p.wrapping_sub(d));
            samples.push(p.wrapping_mul(3).wrapping_add(d));
            samples.push((p / 10).wrapping_mul(7).wrapping_add(d));
        }
    }
    let mut x: u64 = 0x9E3779B97F4A7C15;
    for _ in 0..20000 {
        x ^= x << 13;
        x ^= x >> 7;
        x ^= x << 17;
        samples.push(x >> (x % 64));
        samples.push((x % 2000) * 1024 / 20);
    }
    for n in 0..5000u64 {
        samples.push(n * 1024 / 20);
        samples.push(n * 1048576 / 20 + 1048576 * 1000);
    }
    for s in samples {
        assert_eq!(format_size(s), float_size(s), "size {}", s);
    }
}

#[test]
fn version_numbers_skip_overflowing_runs() {
    assert_eq!(extract_numbers("v1.20-rc3"), vec![1, 20, 3]);
    assert_eq!(extract_numbers("abc"), Vec::<u32>::new());
    assert_eq!(extract_numbers("x99999999999y7"), vec![7]);
    assert_eq!(extract_numbers("4294967295"), vec![4294967295]);
    assert_eq!(extract_numbers("007"), vec![7]);
}

#[test]
fn version_compare_orders_by_numbers() {
    assert_eq!(version_compare("file2", "file10"), Ordering::Less);
    assert_eq!(version_compare("v1.10", "v1.9"), Ordering::Greater);
    assert_eq!(version_compare("a1", "b1"), Ordering::Equal);
    assert_eq!(version_compare("x1", "x1.1"), Ordering::Less);
    assert_eq!(version_compare("plain", "7"), Ordering::Less);
}

#[test]
fn keys_map_to_actions() {
    assert_eq!(keys_to_action(&[b'j']), Some(Action::Next));
    assert_eq!(keys_to_action(&[b'q']), Some(Action::Quit));
    assert_eq!(keys_to_action(&[27]), Some(Action::Quit));
    assert_eq!(keys_to_action(&[b'r']), Some(Action::Rename));
    assert_eq!(keys_to_action(&[b'Z']), None);
    assert_eq!(keys_to_action(&[27, b'[', b'A']), Some(Action::Previous));
    assert_eq!(keys_to_action(&[27, b'[', b'F']), Some(Action::End));
    assert_eq!(keys_to_action(&[27, b'[', b'Q']), None);
    assert_eq!(keys_to_action(&[27, b'[']), None);
    assert_eq!(keybinds().len(), 43);
    assert_eq!(dir_jumps().len(), 7);
    assert_eq!(file_rules().len(), 26);
}

#[test]
fn keys_follow_the_documented_bindings() {
    let expected = [
        (b'j', Action::Next),
        (b'k', Action::Previous),
        (b'l', Action::Enter),
        (10, Action::Enter),
        (b'h', Action::Back),
        (127, Action::Back),
        (b'g', Action::Home),
        (b'G', Action::End),
        (b'[', Action::PageUp),
        (b']', Action::PageDown),
        (b' ', Action::Mark),
        (b'u', Action::UnmarkAll),
        (b'y', Action::Yank),
        (b'm', Action::MoveFiles),
        (b'p', Action::Paste),
        (b'D', Action::Delete),
        (b'r', Action::Rename),
        (b'n', Action::MakeDir),
        (b'L', Action::Link),
        (b'.', Action::ToggleHidden),
        (b'd', Action::ToggleDirsFirst),
        (b'/', Action::Filter),
        (b's', Action::SortByName),
        (b'S', Action::SortBySize),
        (b't', Action::SortByTime),
        (b'R', Action::Reload),
        (b'!', Action::Shell),
        (b'q', Action::Quit),
        (27, Action::Quit),
    ];
    for (key, action) in expected {
        assert_eq!(keys_to_action(&[key]), Some(action));
    }
    assert_eq!(keys_to_action(&[27, b'[', b'H']), Some(Action::Home));
    assert_eq!(keys_to_action(&[27, b'[', b'C']), Some(Action::Enter));
    assert_eq!(keys_to_action(&[27, b'[', b'D']), Some(Action::Back));
    assert_eq!(keys_to_action(&[b'\'']), Some(Action::PendingKey(b'\'')));
    assert_eq!(keys_to_action(&[b'~']), Some(Action::Jump(b'~')));
}

#[test]
fn two_key_combos() {
    assert_eq!(handle_two_key_combo(b'g', b'g'), Some(Action::Home));
    assert_eq!(handle_two_key_combo(b'g', b'r'), Some(Action::Jump(b'r')));
    assert_eq!(handle_two_key_combo(b'\'', b'e'), Some(Action::Jump(b'e')));
    assert_eq!(handle_two_key_combo(b'\'', b'\''), Some(Action::Jump(b'\'')));
    assert_eq!(handle_two_key_combo(b'D', b'D'), Some(Action::Delete));
    assert_eq!(handle_two_key_combo(b'n', b'f'), Some(Action::MakeFile));
    assert_eq!(handle_two_key_combo(b'n', b'd'), Some(Action::MakeDir));
    assert_eq!(handle_two_key_combo(b'D', b'x'), None);
    assert_eq!(handle_two_key_combo(b'n', b'x'), None);
    assert_eq!(handle_two_key_combo(b'q', b'q'), None);
}

#[test]
fn directory_reads_give_exec_bits_and_times() {
    assert!(is_executable(false, 0o755));
    assert!(is_executable(false, 0o001));
    assert!(!is_executable(false, 0o644));
    assert!(!is_executable(true, 0o755));
    assert_eq!(time_value(false, 5), 5);
    assert_eq!(time_value(true, 5), -5);
    assert_eq!(time_value(false, u128::MAX), i128::MAX);
    assert_eq!(time_value(true, u128::MAX), -i128::MAX);
}

#[test]
fn patterns_match_suffixes_or_substrings() {
    assert!(simple_match(r"\.rs$", "/src/main.rs"));
    assert!(!simple_match(r"\.rs$", "/src/main.rsx"));
    assert!(!simple_match(r"\.rs$", "rs"));
    assert!(simple_match("abc", "xxabcxx"));
    assert!(!simple_match("abd", "xxabcxx"));
    assert!(simple_match("", "anything"));
    assert_eq!(file_command("/home/u/clip.mkv"), Some("mpv"));
    assert_eq!(file_command("/home/u/doc.pdf"), Some("open"));
    assert_eq!(file_command("/home/u/a.jpeg"), Some("open"));
    assert_eq!(file_command("/home/u/a.toml"), Some("vim"));
    assert_eq!(file_command("/home/u/archive.tar"), None);
}

#[test]
fn tilde_expands_to_home() {
    assert_eq!(expand_tilde("~", Some("/home/u")), "/home/u");
    assert_eq!(expand_tilde("~/.config", Some("/home/u")), "/home/u/.config");
    assert_eq!(expand_tilde("~other", Some("/home/u")), "~other");
    assert_eq!(expand_tilde("~/x", None), "~/x");
    assert_eq!(expand_tilde("/etc", Some("/home/u")), "/etc");
}

#[test]
fn prompts_take_trimmed_answers() {
    assert!(confirms(" Y\n"));
    assert!(confirms("y"));
    assert!(!confirms("yes"));
    assert!(!confirms(""));
    assert_eq!(entered_name("  new dir \n"), Some("new dir".to_string()));
    assert_eq!(entered_name(" \n"), None);
    assert_eq!(entered_name("\u{a0}\tx y\u{2028}"), Some("x y".to_string()));
    assert_eq!(entered_name("\u{1c}x"), Some("\u{1c}x".to_string()));
    assert_eq!(rename_target("b.txt\n", "a.txt"), Some("b.txt".to_string()));
    assert_eq!(rename_target("a.txt\n", "a.txt"), None);
    assert_eq!(rename_target("\n", "a.txt"), None);
    assert_eq!(error_line("/x/y", "denied"), "/x/y: denied");
}

#[test]
fn commands_split_into_program_and_arguments() {
    assert_eq!(split_command("mpv --shuffle"), ("mpv".to_string(), vec!["--shuffle".to_string()]));
    assert_eq!(split_command("man noice"), ("man".to_string(), vec!["noice".to_string()]));
    assert_eq!(split_command("   "), ("   ".to_string(), vec![]));
    assert_eq!(
        split_command("\tvim  -R\u{3000}a.txt \n"),
        ("vim".to_string(), vec!["-R".to_string(), "a.txt".to_string()])
    );
}

#[test]
fn session_files_are_read_line_by_line() {
    let got = session_settings_exec("current_dir=/a=b\r\nnoise\nlast_dir=/c\nother=1\n");
    assert_eq!(
        got,
        vec![(SessionKey::CurrentDir, "/a=b".to_string()), (SessionKey::LastDir, "/c".to_string())]
    );
    assert_eq!(session_settings_exec(""), vec![]);
    assert_eq!(session_settings_exec("last_dir=/z\r"), vec![(SessionKey::LastDir, "/z\r".to_string())]);
}

#[test]
fn saved_session_reads_back() {
    let mut s = noice::State::new("/home/u/src".to_string(), false, false, None);
    let text = s.session_text();
    assert_eq!(text, "current_dir=/home/u/src\n");
    s.jump_to("/etc".to_string());
    let text = s.session_text();
    assert_eq!(text, "current_dir=/etc\nlast_dir=/home/u/src\n");
    assert_eq!(
        session_settings_exec(&text),
        vec![(SessionKey::CurrentDir, "/etc".to_string()), (SessionKey::LastDir, "/home/u/src".to_string())]
    );
}

fn args(v: &[&str]) -> Vec<String> {
    v.iter().map(|s| s.to_string()).collect()
}

#[test]
fn command_lines_are_read() {
    let o = parse_args(&args(&["noice"])).unwrap();
    assert_eq!(o.dir, ".");
    assert!(o.use_color);
    assert!(!o.tilde_home);
    assert_eq!(o.save_file, None);
    let o = parse_args(&args(&["noice", "-ct", "/tmp"])).unwrap();
    assert_eq!(o.dir, "/tmp");
    assert!(o.tilde_home);
    let o = parse_args(&args(&["noice", "-tf", "s.txt", "dir"])).unwrap();
    assert_eq!(o.save_file, Some("s.txt".to_string()));
    assert_eq!(o.dir, "dir");
    let o = parse_args(&args(&["noice", "-"])).unwrap();
    assert_eq!(o.dir, "-");
    assert_eq!(parse_args(&args(&["noice", "-f"])).err(), Some(ArgError::MissingSaveFile));
    assert_eq!(parse_args(&args(&["noice", "-x"])).err(), Some(ArgError::UnknownOption('x')));
    assert_eq!(parse_args(&args(&["noice", "a", "b"])).err(), Some(ArgError::TooManyArguments));
    assert_eq!(ArgError::UnknownOption('x').message(), "Unknown option: -x");
    assert_eq!(ArgError::MissingSaveFile.message(), "Option -f requires an argument");
    assert_eq!(ArgError::TooManyArguments.message(), "Too many arguments");
}

use valorant_watcher::text;
use valorant_watcher::text::append;
use valorant_watcher::text::chars;
use valorant_watcher::text::contains;
use valorant_watcher::text::join;
use valorant_watcher::text::parse_number;
use valorant_watcher::text::same;
use valorant_watcher::text::split;
use valorant_watcher::text::split_lines;
use valorant_watcher::text::split_once;
use valorant_watcher::text::split_whitespace;
use valorant_watcher::text::starts_with;
use valorant_watcher::text::to_decimal;
use valorant_watcher::text::trim;
use valorant_watcher::text::trim_end_matches;
use valorant_watcher::text::trim_matches;

const SAMPLES: [&str; 14] = [
    "",
    " ",
    "a",
    " a b\tc ",
    "\u{a0}x\u{3000}",
    "\u{85}\u{2028}y\u{1680}\u{200b}",
    "one\ntwo\r\nthree\n",
    "one\r\r\n\n",
    "\r",
    "a:b::c:",
    ":",
    "\"quoted\"",
    "///",
    "\u{1f600}=\u{e9}=",
];

#[test]
fn trimming_agrees_with_std() {
    for s in SAMPLES {
        assert_eq!(trim(s), s.trim());
        for c in ['"', '/', ' ', '='] {
            assert_eq!(trim_matches(s, c), s.trim_matches(c));
            assert_eq!(trim_end_matches(s, c), s.trim_end_matches(c));
        }
    }
}

#[test]
fn splitting_agrees_with_std() {
    for s in SAMPLES {
        for c in [':', '=', '\n', 'z'] {
            assert_eq!(split(s, c), s.split(c).collect::<Vec<_>>());
            assert_eq!(split_once(s, c), s.split_once(c));
        }
        assert_eq!(split_whitespace(s), s.split_whitespace().collect::<Vec<_>>());
        assert_eq!(split_lines(s), s.lines().collect::<Vec<_>>());
    }
}

#[test]
fn searching_agrees_with_std() {
    for s in SAMPLES {
        assert_eq!(chars(s), s.chars().collect::<Vec<_>>());
        for t in SAMPLES {
            assert_eq!(contains(s, t), s.contains(t));
            assert_eq!(starts_with(s, t), s.starts_with(t));
            assert_eq!(same(s, t), s == t);
            assert_eq!(text::concat(s, t), format!("{s}{t}"));
            let mut both = s.to_string();
            append(&mut both, t);
            assert_eq!(both, format!("{s}{t}"));
        }
    }
}

#[test]
fn joined_pieces_give_the_text_back() {
    for s in SAMPLES {
        for c in [':', '=', '\n'] {
            let parts = split(s, c);
            assert!(!parts.is_empty());
            assert!(parts.iter().all(|part| !part.contains(c)));
            assert_eq!(join(&parts, &c.to_string()), s);
        }
    }
    assert_eq!(join(&Vec::new(), "-"), "");
}

#[test]
fn numbers_are_written_in_decimal() {
    for n in [0, 7, 10, 99, 100, 65_535, u64::MAX] {
        assert_eq!(to_decimal(n), n.to_string());
    }
}

#[test]
fn numbers_are_read_as_std_reads_them() {
    for s in ["", "0", "7", "+7", "-7", "+", "++1", "007", "65535", "65536", "4294967295", "4294967296", "1 ", "x"] {
        assert_eq!(parse_number(s, u32::MAX), s.parse::<u32>().ok(), "{s:?}");
        assert_eq!(
            parse_number(s, u16::MAX as u32),
            s.parse::<u16>().ok().map(u32::from),
            "{s:?}"
        );
    }
}

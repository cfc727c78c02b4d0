use filesearch::entry::{
    chars_of, contains_extension, file_extension, is_hidden_or_system, parse_extensions,
};
use filesearch::highlight::{cut_pieces, Piece};
use filesearch::pattern::Matcher;
use filesearch::scan::{context_window, scan_lines, scan_matches, MatchRecord};
use filesearch::search::{ConfigError, RunTotals, SearchConfig};

fn lines(text: &str) -> Vec<String> {
    text.lines().map(|l| l.to_string()).collect()
}

fn config(pattern: &str, content: bool, radius: usize, ext: Option<&str>) -> SearchConfig {
    match SearchConfig::new(pattern, true, content, false, true, radius, ext, false) {
        Ok(c) => c,
        Err(_) => panic!("pattern should compile"),
    }
}

fn rec(line_index: usize, first: usize, last: usize) -> MatchRecord {
    MatchRecord { line_index, first, last }
}

#[test]
fn content_radius_zero_two_matches() {
    let c = config("hello", true, 0, None);
    let r = c.scan_file(&lines("hello\nworld\nhello\n"));
    assert_eq!(r, vec![rec(0, 0, 0), rec(2, 2, 2)]);
    let mut totals = RunTotals::new();
    totals.add_records(&r);
    assert_eq!(totals.total(), 2);
}

#[test]
fn content_radius_one_clamped_at_both_ends() {
    let c = config("hello", true, 1, None);
    let r = c.scan_file(&lines("hello\nworld\nhello\n"));
    assert_eq!(r, vec![rec(0, 0, 1), rec(2, 1, 2)]);
}

#[test]
fn name_mode_anchored_pattern() {
    let c = config("^a", false, 0, None);
    let mut totals = RunTotals::new();
    for name in ["a.txt", "b.txt"] {
        if c.accept(true, false, Some(name)) && c.match_name(name) {
            totals.add_name_match();
        }
    }
    assert!(c.match_name("a.txt"));
    assert!(!c.match_name("b.txt"));
    assert_eq!(totals.total(), 1);
}

#[test]
fn invalid_pattern_is_rejected() {
    let r = SearchConfig::new("(unclosed", true, true, false, true, 0, None, false);
    assert!(matches!(r, Err(ConfigError::InvalidPattern(_))));
    assert!(Matcher::new("[z-a]", false).is_err());
}

#[test]
fn invalid_directory_is_reported_first() {
    let r = SearchConfig::new("(unclosed", false, true, false, true, 0, None, false);
    assert!(matches!(r, Err(ConfigError::InvalidDirectory)));
    let r = SearchConfig::new("ok", false, true, false, true, 0, None, false);
    assert!(matches!(r, Err(ConfigError::InvalidDirectory)));
}

#[test]
fn empty_file_has_no_matches() {
    let c = config("x", true, 3, None);
    assert!(c.scan_file(&Vec::new()).is_empty());
}

#[test]
fn overlapping_windows_are_not_merged() {
    let r = scan_matches(&vec![false, true, true, false, false], 2);
    assert_eq!(r, vec![rec(1, 0, 3), rec(2, 0, 4)]);
}

#[test]
fn records_count_matching_lines_not_context() {
    let c = config("b", true, 5, None);
    let r = c.scan_file(&lines("a\nb\nc\nb\nd"));
    assert_eq!(r.len(), 2);
    assert_eq!(r, vec![rec(1, 0, 4), rec(3, 0, 4)]);
}

#[test]
fn case_insensitive_matching() {
    let m = Matcher::new("HELLO", true).unwrap();
    assert!(m.is_match("say hello"));
    let m = Matcher::new("HELLO", false).unwrap();
    assert!(!m.is_match("say hello"));
    let r = scan_lines(&Matcher::new("hello", true).unwrap(), &lines("Hello\nbye"), 0);
    assert_eq!(r, vec![rec(0, 0, 0)]);
}

#[test]
fn windows_clamp_exactly() {
    assert_eq!(context_window(0, 0, 1), (0, 0));
    assert_eq!(context_window(5, 2, 10), (3, 7));
    assert_eq!(context_window(1, 3, 4), (0, 3));
    assert_eq!(context_window(9, 4, 10), (5, 9));
    assert_eq!(context_window(2, usize::MAX, 5), (0, 4));
}

#[test]
fn extension_filter_is_exact_and_case_sensitive() {
    let c = config("", true, 0, Some("rs,md"));
    assert!(c.accept(true, false, Some("main.rs")));
    assert!(c.accept(true, false, Some("README.md")));
    assert!(!c.accept(true, false, Some("main.RS")));
    assert!(!c.accept(true, false, Some("main.rsx")));
    assert!(!c.accept(true, false, Some("Makefile")));
    assert!(!c.accept(true, false, Some(".rs")));
    assert!(!c.accept(true, false, None));
}

#[test]
fn no_filter_accepts_any_regular_file() {
    let c = config("", true, 0, None);
    assert!(c.accept(true, false, Some("Makefile")));
    assert!(c.accept(true, false, None));
    assert!(!c.accept(false, false, Some("dir")));
}

#[test]
fn hidden_entries_follow_the_include_flag() {
    let c = config("", true, 0, None);
    assert!(!c.accept(true, true, Some("secret.txt")));
    let c = SearchConfig::new("", true, true, false, true, 0, None, true).unwrap_or_else(|_| panic!());
    assert!(c.accept(true, true, Some("secret.txt")));
    assert!(c.accept(true, false, Some("plain.txt")));
}

#[test]
fn attribute_bits() {
    assert!(is_hidden_or_system(0x2));
    assert!(is_hidden_or_system(0x4));
    assert!(is_hidden_or_system(0x20 | 0x2));
    assert!(!is_hidden_or_system(0x20));
    assert!(!is_hidden_or_system(0));
    assert!(!is_hidden_or_system(u32::MAX));
}

#[test]
fn extension_list_parsing() {
    let parts = parse_extensions("rs,,md");
    assert_eq!(parts, vec![vec!['r', 's'], vec![], vec!['m', 'd']]);
    assert_eq!(parse_extensions(""), vec![Vec::<char>::new()]);
    assert!(contains_extension(&parts, &vec!['m', 'd']));
    assert!(!contains_extension(&parts, &vec!['M', 'D']));
}

#[test]
fn extension_of_names() {
    assert_eq!(file_extension(&chars_of("a.tar.gz")), Some(vec!['g', 'z']));
    assert_eq!(file_extension(&chars_of("a.")), Some(vec![]));
    assert_eq!(file_extension(&chars_of("..a")), Some(vec!['a']));
    assert_eq!(file_extension(&chars_of(".profile")), None);
    assert_eq!(file_extension(&chars_of("..")), None);
    assert_eq!(file_extension(&chars_of("noext")), None);
    assert_eq!(file_extension(&chars_of("")), None);
}

#[test]
fn no_recurse_limits_depth_to_one() {
    let c = SearchConfig::new("x", true, false, false, false, 0, None, false).unwrap_or_else(|_| panic!());
    assert_eq!(c.max_depth(), Some(1));
    assert_eq!(config("x", false, 0, None).max_depth(), None);
}

#[test]
fn every_occurrence_is_marked() {
    let c = config("ab", true, 0, None);
    let pieces = c.highlight_line("xabyab");
    assert_eq!(
        pieces,
        vec![
            Piece { start: 0, end: 1, hit: false },
            Piece { start: 1, end: 3, hit: true },
            Piece { start: 3, end: 4, hit: false },
            Piece { start: 4, end: 6, hit: true },
            Piece { start: 6, end: 6, hit: false },
        ]
    );
    assert_eq!(c.matcher.find_spans("ab-ab-ab"), vec![(0, 2), (3, 5), (6, 8)]);
}

#[test]
fn line_without_occurrence_is_one_piece() {
    assert_eq!(cut_pieces(&vec![], 4), vec![Piece { start: 0, end: 4, hit: false }]);
}

#[test]
fn repeated_scans_agree() {
    let c = config("o", true, 1, None);
    let text = lines("one\ntwo\nthree\nfour");
    assert_eq!(c.scan_file(&text), c.scan_file(&text.clone()));
}

#[test]
fn totals_room() {
    let mut t = RunTotals::new();
    assert!(t.has_room(usize::MAX));
    t.add_name_match();
    assert!(!t.has_room(usize::MAX));
    assert_eq!(t.total(), 1);
}

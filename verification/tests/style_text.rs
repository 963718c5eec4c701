use yolo::chars::{byte_offset, hash_fast, push_decimal, str_chars, trim};
use yolo::style::{AnsiDisplay, Attributes, Color, SetSgr, Sgr, Style, Styled};
use yolo::text::{
    char_width, display_width, first_grapheme_len, grapheme_chars, graphemes, last_grapheme_len, split_graphemes_ansi,
    str_width, text_wrap, GraphemeAnsiIter, GraphemeOrAnsi,
};

fn ansi<D: AnsiDisplay>(d: D) -> String {
    let mut v: Vec<char> = Vec::new();
    d.write_ansi(&mut v);
    v.into_iter().collect()
}

fn chars(s: &str) -> Vec<char> {
    s.chars().collect()
}

#[test]
fn sgr_codes() {
    assert_eq!(ansi(Sgr::Bold), "\x1b[1m");
    assert_eq!(ansi(Sgr::NotReverse), "\x1b[27m");
    assert_eq!(ansi(Sgr::Fg(Color::Indexed(240))), "\x1b[38;5;240m");
    assert_eq!(ansi(Sgr::Bg(Color::Rgb(1, 2, 3))), "\x1b[48;2;1;2;3m");
    assert_eq!(ansi(Sgr::Bg(Color::BrightWhite)), "\x1b[107m");
    assert_eq!(ansi(Sgr::reset_fg()), "\x1b[39m");
}

#[test]
fn style_codes_end_each_parameter_with_a_semicolon() {
    assert_eq!(ansi(Style::fg(Color::Red).with_bold()), "\x1b[31;1;m");
    assert_eq!(ansi(Style::empty()), "\x1b[m");
    assert_eq!(ansi(Style::bg(Color::Blue).with_fg(Color::Green)), "\x1b[32;44;m");
}

#[test]
fn styled_text_resets_after() {
    assert_eq!(ansi(Styled::new(String::from("hi"), Style::bold())), "\x1b[1;mhi\x1b[0m");
}

#[test]
fn set_sgr_lists_parameters() {
    assert_eq!(ansi(SetSgr(vec![Sgr::Bold, Sgr::Italic])), "\x1b[1;3;m");
}

#[test]
fn attributes_union_and_contains() {
    let a = Attributes::bold().union(Attributes::italic());
    assert_eq!(a.bits(), 10);
    assert!(a.contains(Attributes::bold()));
    assert!(a.contains(Attributes::italic()));
    assert!(!a.contains(Attributes::reverse()));
    let flags: Vec<u16> = a.iter().iter().map(|f| f.bits()).collect();
    assert_eq!(flags, vec![2, 8]);
}

#[test]
fn attributes_as_sgr_in_bit_order() {
    let s = Style::attributes(Attributes::reverse().union(Attributes::reset()));
    assert_eq!(ansi(s), "\x1b[0;7;m");
}

#[test]
fn widths() {
    assert_eq!(char_width('a'), 1);
    assert_eq!(char_width('好'), 2);
    assert_eq!(char_width('\u{7}'), 0);
    assert_eq!(str_width("héllo"), 5);
    assert_eq!(display_width("\x1b[31mred\x1b[0m"), 3);
}

#[test]
fn graphemes_keep_combining_marks() {
    let gs = graphemes("e\u{301}x");
    assert_eq!(gs, vec![String::from("e\u{301}"), String::from("x")]);
    let gc = grapheme_chars(&chars("ab"));
    assert_eq!(gc, vec![vec!['a'], vec!['b']]);
    assert_eq!(first_grapheme_len(&chars("e\u{301}x")), Some(2));
    assert_eq!(last_grapheme_len(&chars("xe\u{301}")), Some(2));
    assert_eq!(first_grapheme_len(&[]), None);
}

#[test]
fn wrap_turns_spaces_into_newlines() {
    let mut s = String::from("hello world foo");
    text_wrap(&mut s, 5);
    assert_eq!(s, "hello\nworld\nfoo");
}

#[test]
fn ansi_sequences_are_split_from_graphemes() {
    let parts = split_graphemes_ansi(&chars("a\x1b[31mb"));
    assert_eq!(parts.len(), 3);
    assert!(matches!(&parts[0], GraphemeOrAnsi::Grapheme(g) if *g == vec!['a']));
    assert!(matches!(&parts[1], GraphemeOrAnsi::Ansi(a) if *a == chars("\x1b[31m")));
    assert!(matches!(&parts[2], GraphemeOrAnsi::Grapheme(g) if *g == vec!['b']));
    let text = chars("x\x1b[1m");
    let mut it = GraphemeAnsiIter::new(&text);
    assert!(matches!(it.next(), Some(GraphemeOrAnsi::Grapheme(_))));
    assert!(matches!(it.next(), Some(GraphemeOrAnsi::Ansi(_))));
    assert!(it.next().is_none());
}

#[test]
fn unterminated_escape_ends_the_split() {
    let parts = split_graphemes_ansi(&chars("a\x1b[31"));
    assert_eq!(parts.len(), 1);
}

#[test]
fn trimming_and_hashing() {
    assert_eq!(trim(&chars("  hi there \n")), chars("hi there"));
    assert_eq!(hash_fast(&chars("ab")), 0x089c4407b545986a);
    assert_eq!(hash_fast(&[]), 0xcbf29ce484222325);
}

#[test]
fn decimal_and_bytes() {
    let mut v: Vec<char> = Vec::new();
    push_decimal(&mut v, 40960);
    assert_eq!(v, chars("40960"));
    assert_eq!(byte_offset(&chars("aé好x"), 3), 6);
    assert_eq!(str_chars("hé"), vec!['h', 'é']);
}

#[test]
fn grapheme_indices_count_characters() {
    let r = yolo::text::grapheme_indices("a👻e\u{301}b");
    let expected: Vec<(usize, String)> = vec![
        (0, String::from("a")),
        (1, String::from("👻")),
        (2, String::from("e\u{301}")),
        (4, String::from("b")),
    ];
    assert_eq!(r, expected);
}

use stack_outputs::text::{chars_of, is_blank, split_trimmed, trim_bounds, white_space};

fn strings(items: &[&str]) -> Vec<String> {
    items.iter().map(|s| s.to_string()).collect()
}

#[test]
fn white_space_agrees_with_std_on_every_char() {
    let mut n: u32 = 0;
    while n <= 0x10FFFF {
        if let Some(c) = char::from_u32(n) {
            assert_eq!(white_space(c), c.is_whitespace(), "U+{:04X}", n);
        }
        n += 1;
    }
}

#[test]
fn white_space_at_the_edges_of_its_ranges() {
    assert!(!white_space('\u{0008}'));
    assert!(white_space('\t'));
    assert!(white_space('\r'));
    assert!(!white_space('\u{000E}'));
    assert!(white_space(' '));
    assert!(white_space('\u{0085}'));
    assert!(white_space('\u{00A0}'));
    assert!(white_space('\u{1680}'));
    assert!(!white_space('\u{1FFF}'));
    assert!(white_space('\u{2000}'));
    assert!(white_space('\u{200A}'));
    assert!(!white_space('\u{200B}'));
    assert!(white_space('\u{2028}'));
    assert!(white_space('\u{2029}'));
    assert!(white_space('\u{202F}'));
    assert!(white_space('\u{205F}'));
    assert!(white_space('\u{3000}'));
    assert!(!white_space('a'));
    assert!(!white_space('_'));
}

#[test]
fn chars_of_keeps_every_char_in_order() {
    assert_eq!(chars_of(""), Vec::<char>::new());
    assert_eq!(chars_of("a,b"), vec!['a', ',', 'b']);
    assert_eq!(chars_of("é\u{3000}z"), vec!['é', '\u{3000}', 'z']);
}

#[test]
fn trim_bounds_of_a_padded_word() {
    let v = chars_of("  ab c \t");
    assert_eq!(trim_bounds(&v, 0, v.len()), (2, 6));
}

#[test]
fn trim_bounds_within_a_range() {
    let v = chars_of("x, y ,z");
    assert_eq!(trim_bounds(&v, 2, 5), (3, 4));
}

#[test]
fn trim_bounds_of_white_space_only_is_empty_at_the_end() {
    let v = chars_of(" \n ");
    assert_eq!(trim_bounds(&v, 0, 3), (3, 3));
    assert_eq!(trim_bounds(&v, 1, 1), (1, 1));
}

#[test]
fn is_blank_on_empty_and_white_space() {
    assert!(is_blank(""));
    assert!(is_blank("   "));
    assert!(is_blank("\t\r\n\u{00A0}\u{3000}"));
}

#[test]
fn is_blank_rejects_anything_else() {
    assert!(!is_blank("a"));
    assert!(!is_blank(" , "));
    assert!(!is_blank(" \u{200B} "));
}

#[test]
fn split_trimmed_of_the_empty_string_is_one_empty_piece() {
    assert_eq!(split_trimmed("", ','), strings(&[""]));
}

#[test]
fn split_trimmed_trims_each_piece() {
    assert_eq!(split_trimmed(" Url , Port,Name ", ','), strings(&["Url", "Port", "Name"]));
}

#[test]
fn split_trimmed_keeps_empty_pieces() {
    assert_eq!(split_trimmed("a,,b,", ','), strings(&["a", "", "b", ""]));
    assert_eq!(split_trimmed(",", ','), strings(&["", ""]));
    assert_eq!(split_trimmed(" , ", ','), strings(&["", ""]));
}

#[test]
fn split_trimmed_keeps_inner_white_space() {
    assert_eq!(split_trimmed(" a b ,c", ','), strings(&["a b", "c"]));
}

#[test]
fn split_trimmed_agrees_with_std_split_and_trim() {
    let samples = [
        "",
        "Url",
        "Url,Port",
        " Url ,\tPort\n",
        ",,",
        "a, b ,c ,, d",
        "é ,\u{3000}ü\u{00A0}, ß",
        "no comma at all",
        "trailing,",
        ",leading",
    ];
    for s in samples {
        let expected: Vec<String> = s.split(",").map(|p| p.trim().to_owned()).collect();
        assert_eq!(split_trimmed(s, ','), expected, "{:?}", s);
    }
}

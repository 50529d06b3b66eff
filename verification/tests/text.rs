use zxtouch::text::{chars_of, integer_part_of, is_space, split_fields, text_of, trim};

fn text_chars(s: &str) -> Vec<char> {
    s.chars().collect()
}

fn split(s: &str) -> Vec<String> {
    let line = text_chars(s);
    split_fields(&line).into_iter().map(text_of).collect()
}

fn std_split(s: &str) -> Vec<String> {
    s.split(";;").map(String::from).collect()
}

#[test]
fn chars_and_text_are_inverse() {
    let s = "_;;iPhone;;\u{e9}t\u{e9} \r\n";
    assert_eq!(chars_of(s), text_chars(s));
    assert_eq!(text_of(&chars_of(s)), s);
    assert_eq!(chars_of(""), Vec::<char>::new());
    assert_eq!(text_of(&[]), "");
}

#[test]
fn split_fields_on_double_semicolons() {
    assert_eq!(split("_;;0;;0;;0;;0"), vec!["_", "0", "0", "0", "0"]);
    assert_eq!(split("abc"), vec!["abc"]);
    assert_eq!(split(""), vec![""]);
    assert_eq!(split(";;"), vec!["", ""]);
    assert_eq!(split("a;b"), vec!["a;b"]);
    assert_eq!(split("a;;;b"), vec!["a", ";b"]);
    assert_eq!(split("a;;;;b"), vec!["a", "", "b"]);
    assert_eq!(split("a;;b;"), vec!["a", "b;"]);
    assert_eq!(split("a;;b;;"), vec!["a", "b", ""]);
}

#[test]
fn split_fields_agrees_with_std() {
    for line in ["", ";", ";;", ";;;", ";;;;", ";;;;;", "a", "a;", "a;;", "a;;;", ";a", ";;a",
        ";;;a", "a;;b", "a;b;;c;;;d;;;;e", "_;;iPhone;;iOS;;17.0;;iPhone15;;ABCD \r\n"]
    {
        assert_eq!(split(line), std_split(line), "{:?}", line);
    }
}

#[test]
fn integer_part_stops_at_the_first_dot() {
    assert_eq!(text_of(integer_part_of(&text_chars("1170.0"))), "1170");
    assert_eq!(text_of(integer_part_of(&text_chars("2532.99"))), "2532");
    assert_eq!(text_of(integer_part_of(&text_chars("3"))), "3");
    assert_eq!(text_of(integer_part_of(&text_chars("1.2.3"))), "1");
    assert_eq!(text_of(integer_part_of(&text_chars(".5"))), "");
    assert_eq!(text_of(integer_part_of(&text_chars(""))), "");
    assert_eq!(text_of(integer_part_of(&text_chars("7.\r\n"))), "7");
}

#[test]
fn trim_cuts_white_space_at_both_ends() {
    assert_eq!(text_of(trim(&text_chars("ABCD \r\n"))), "ABCD");
    assert_eq!(text_of(trim(&text_chars("  a b\t"))), "a b");
    assert_eq!(text_of(trim(&text_chars(" \r\n"))), "");
    assert_eq!(text_of(trim(&text_chars(""))), "");
    assert_eq!(text_of(trim(&text_chars("x"))), "x");
    assert_eq!(text_of(trim(&text_chars("\u{a0}x\u{3000}"))), "x");
}

#[test]
fn white_space_is_what_std_calls_white_space() {
    let mut code: u32 = 0;
    while code <= 0x3100 {
        if let Some(c) = char::from_u32(code) {
            assert_eq!(is_space(c), c.is_whitespace(), "U+{:04X}", code);
        }
        code += 1;
    }
    assert!(!is_space('\u{feff}'));
    assert!(!is_space('\u{10ffff}'));
}

#[test]
fn trim_agrees_with_std() {
    for text in ["", " ", "a", " a", "a ", " a ", "\t\n a \u{85}", "\u{2003}a b\u{2028}", "a\u{200b}"] {
        assert_eq!(text_of(trim(&text_chars(text))), text.trim(), "{:?}", text);
    }
}

#[test]
fn split_fields_undoes_joining() {
    for parts in [vec![""], vec!["a"], vec!["", ""], vec!["_", "0", "0", "0", "0"],
        vec!["a", "", "b c", "1.0", ""], vec!["", "", ""]]
    {
        let line = parts.join(";;");
        assert_eq!(split(&line), parts, "{:?}", line);
    }
}

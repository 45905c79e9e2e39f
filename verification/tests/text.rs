use pingpc::text::{chars_of, is_whitespace, join, split, trim};

const SAMPLES: [&str; 24] = [
    "",
    " ",
    "101",
    " 101",
    "101 ",
    "  101 \t\n",
    "\u{3000}a b\u{a0}",
    " \r\n ",
    "\u{85}x\u{2028}",
    "\u{feff}x",
    "\u{200b}x\u{200b}",
    "172.17.3",
    "192.168.0.1",
    ".",
    "..",
    "1..2.",
    ".1",
    "1.",
    "1-2",
    "-",
    "1--2",
    " 1 - 2 ",
    "ñ.é.ü",
    "a.b.c.d.e",
];

#[test]
fn trim_removes_surrounding_white_space() {
    assert_eq!(trim("  101 \t\n"), "101");
    assert_eq!(trim("\u{3000}a b\u{a0}"), "a b");
    assert_eq!(trim(""), "");
    assert_eq!(trim(" \r\n "), "");
    assert_eq!(trim("192.168.0.1"), "192.168.0.1");
}

#[test]
fn trim_agrees_with_std() {
    for s in SAMPLES {
        assert_eq!(trim(s), s.trim(), "{:?}", s);
    }
}

#[test]
fn trim_is_not_the_identity() {
    assert_ne!(trim(" 101 "), " 101 ");
}

#[test]
fn split_keeps_empty_pieces() {
    assert_eq!(split("172.17.3", '.'), vec!["172", "17", "3"]);
    assert_eq!(split("", '.'), vec![""]);
    assert_eq!(split(".", '.'), vec!["", ""]);
    assert_eq!(split("1..2.", '.'), vec!["1", "", "2", ""]);
    assert_eq!(split("10-12", '-'), vec!["10", "12"]);
}

#[test]
fn split_agrees_with_std() {
    for s in SAMPLES {
        for sep in ['.', '-', ' ', 'é'] {
            let std_parts: Vec<&str> = s.split(sep).collect();
            assert_eq!(split(s, sep), std_parts, "{:?} at {:?}", s, sep);
        }
    }
}

#[test]
fn split_counts_one_more_than_separators() {
    for s in SAMPLES {
        let dots = s.chars().filter(|c| *c == '.').count();
        assert_eq!(split(s, '.').len(), dots + 1, "{:?}", s);
    }
}

#[test]
fn join_puts_the_separator_between_neighbours() {
    assert_eq!(join(&vec!["172", "17", "3"], "."), "172.17.3");
    assert_eq!(join(&vec!["101"], "."), "101");
    assert_eq!(join(&vec!["", ""], "."), ".");
    assert_eq!(join(&Vec::new(), "."), "");
    assert_eq!(join(&vec!["a", "b"], ", "), "a, b");
}

#[test]
fn join_agrees_with_std() {
    for s in SAMPLES {
        let parts: Vec<&str> = s.split('.').collect();
        assert_eq!(join(&parts, "."), parts.join("."), "{:?}", s);
        assert_eq!(join(&parts, "--"), parts.join("--"), "{:?}", s);
    }
}

#[test]
fn join_undoes_split() {
    for s in SAMPLES {
        assert_eq!(join(&split(s, '.'), "."), s);
        assert_eq!(join(&split(s, '-'), "-"), s);
    }
}

#[test]
fn trim_split_and_join_agree_with_std_on_short_texts() {
    let alphabet = [' ', '\t', '.', '-', 'a', '\u{a0}', 'é'];
    let mut texts: Vec<String> = vec![String::new()];
    let mut from = 0;
    for _ in 0..5 {
        let upto = texts.len();
        for i in from..upto {
            for c in alphabet {
                let mut longer = texts[i].clone();
                longer.push(c);
                texts.push(longer);
            }
        }
        from = upto;
    }
    assert_eq!(texts.len(), 19608);
    for text in &texts {
        assert_eq!(trim(text), text.trim(), "{:?}", text);
        let std_parts: Vec<&str> = text.split('.').collect();
        assert_eq!(split(text, '.'), std_parts, "{:?}", text);
        assert_eq!(join(&std_parts, "."), *text, "{:?}", text);
    }
}

#[test]
fn chars_of_lists_the_characters() {
    assert_eq!(chars_of("a.ñ"), vec!['a', '.', 'ñ']);
    assert_eq!(chars_of(""), Vec::<char>::new());
}

#[test]
fn white_space_is_what_std_calls_white_space() {
    let mut code: u32 = 0;
    while code <= 0x10ffff {
        if let Some(c) = char::from_u32(code) {
            assert_eq!(is_whitespace(c), c.is_whitespace(), "U+{:04X}", code);
        }
        code += 1;
    }
}

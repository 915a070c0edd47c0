use minecraft_ipv6::text::{split_fields, string_of, to_decimal, trim_chars};
use minecraft_ipv6::tokens::{parse_tokens, TokenList};

#[test]
fn decimal_notation() {
    assert_eq!(to_decimal(0), "0");
    assert_eq!(to_decimal(7), "7");
    assert_eq!(to_decimal(10), "10");
    assert_eq!(to_decimal(204), "204");
    assert_eq!(to_decimal(429), "429");
    assert_eq!(to_decimal(1000), "1000");
    assert_eq!(to_decimal(65535), "65535");
    assert_eq!(to_decimal(u64::MAX), "18446744073709551615");
}

#[test]
fn trimming_removes_whitespace_at_both_ends_only() {
    let chars = |s: &str| s.chars().collect::<Vec<char>>();
    assert_eq!(trim_chars(&chars("  abc  ")), "abc");
    assert_eq!(trim_chars(&chars("abc")), "abc");
    assert_eq!(trim_chars(&chars("\t a b \r\n")), "a b");
    assert_eq!(trim_chars(&chars("   ")), "");
    assert_eq!(trim_chars(&chars("")), "");
    assert_eq!(trim_chars(&chars("\u{2003}x\u{00a0}")), "x");
    assert_eq!(trim_chars(&chars("_x_")), "_x_");
    for s in ["  a  b ", "\u{3000}\u{1680}q", " \u{200b} ", "é ", " 名前 "] {
        assert_eq!(trim_chars(&chars(s)), s.trim());
    }
}

#[test]
fn substring_by_character_places() {
    let chars: Vec<char> = "héllo".chars().collect();
    assert_eq!(string_of(&chars, 0, 5), "héllo");
    assert_eq!(string_of(&chars, 1, 3), "él");
    assert_eq!(string_of(&chars, 2, 2), "");
}

#[test]
fn fields_are_trimmed_and_blank_ones_dropped() {
    assert_eq!(split_fields("a, b ,,c", ','), vec!["a", "b", "c"]);
    assert_eq!(split_fields("", ','), Vec::<String>::new());
    assert_eq!(split_fields(" , ,", ','), Vec::<String>::new());
    assert_eq!(split_fields("one", ','), vec!["one"]);
    assert_eq!(split_fields("x\ny\n", '\n'), vec!["x", "y"]);
    assert_eq!(split_fields("x\r\ny\r\n\r\n", '\n'), vec!["x", "y"]);
}

#[test]
fn tokens_are_read_line_by_line() {
    let list = parse_tokens("alpha\nbeta\ngamma\n");
    assert_eq!(list.tokens, vec!["alpha", "beta", "gamma"]);
    assert_eq!(list.duplicates, 0);
    assert_eq!(list.message(), "Loading 3 token(s) from tokens.txt");
}

#[test]
fn blank_lines_are_ignored() {
    let list = parse_tokens("\n\n  alpha  \n\n\t\nbeta\r\n   \n");
    assert_eq!(list.tokens, vec!["alpha", "beta"]);
    assert_eq!(list.duplicates, 0);
}

#[test]
fn repeated_tokens_are_left_out_and_counted() {
    let list = parse_tokens("alpha\nbeta\nalpha\n");
    assert_eq!(list.tokens, vec!["alpha", "beta"]);
    assert_eq!(list.duplicates, 1);
    assert_eq!(
        list.message(),
        "Loading 2 token(s) from tokens.txt (skipped 1 duplicate token)"
    );
    let list = parse_tokens("b\na\nb\n a \nb\nc");
    assert_eq!(list.tokens, vec!["b", "a", "c"]);
    assert_eq!(list.duplicates, 3);
    assert_eq!(
        list.message(),
        "Loading 3 token(s) from tokens.txt (skipped 3 duplicate tokens)"
    );
}

#[test]
fn empty_list_holds_no_token() {
    let list = parse_tokens("");
    assert!(list.tokens.is_empty());
    assert_eq!(list.duplicates, 0);
    assert_eq!(list.message(), "Loading 0 token(s) from tokens.txt");
}

#[test]
fn tokens_agree_with_lines_and_trim() {
    for content in [
        "a\nb\r\nc",
        "a\r\n\r\nb\n\n",
        " x \n\ty\n x\n",
        "one line only",
        "ends with cr\r",
        "a\rb\n c",
        "\n",
    ] {
        let mut seen = std::collections::HashSet::new();
        let mut unique: Vec<String> = Vec::new();
        let mut duplicates = 0;
        for line in content.lines() {
            let token = line.trim().to_string();
            if !token.is_empty() {
                if seen.insert(token.clone()) {
                    unique.push(token);
                } else {
                    duplicates += 1;
                }
            }
        }
        let list = parse_tokens(content);
        assert_eq!(list.tokens, unique);
        assert_eq!(list.duplicates, duplicates);
    }
}

#[test]
fn message_counts_what_the_list_holds() {
    let list = TokenList { tokens: vec!["a".to_string(); 12], duplicates: 0 };
    assert_eq!(list.message(), "Loading 12 token(s) from tokens.txt");
    let list = TokenList { tokens: Vec::new(), duplicates: 2 };
    assert_eq!(
        list.message(),
        "Loading 0 token(s) from tokens.txt (skipped 2 duplicate tokens)"
    );
}

fn has_white_space_property(c: char) -> bool {
    let code = c as u32;
    (0x0009..=0x000D).contains(&code)
        || code == 0x0020
        || code == 0x0085
        || code == 0x00A0
        || code == 0x1680
        || (0x2000..=0x200A).contains(&code)
        || code == 0x2028
        || code == 0x2029
        || code == 0x202F
        || code == 0x205F
        || code == 0x3000
}

#[test]
fn whitespace_is_the_white_space_property() {
    let mut count = 0;
    for code in 0..=0x10FFFFu32 {
        if let Some(c) = char::from_u32(code) {
            assert_eq!(c.is_whitespace(), has_white_space_property(c), "U+{:04X}", code);
            if c.is_whitespace() {
                count += 1;
                assert_eq!(trim_chars(&vec![c]), "", "U+{:04X}", code);
                assert_eq!(trim_chars(&vec![c, 'x', c]), "x", "U+{:04X}", code);
            }
        }
    }
    assert_eq!(count, 25);
    for c in ['a', '_', '\u{200b}', '\u{180e}', '\u{feff}', '\u{0}', '\u{1f}'] {
        assert_eq!(trim_chars(&vec![c]), c.to_string());
    }
}

use font8x8::{UnicodeFonts, BASIC_FONTS};
use minecraft_ipv6::banner::{banner_color, display_large_text, hex_to_rgb, BANNER_LINES};
use minecraft_ipv6::outcome::{Emphasis, RoundResult};
use minecraft_ipv6::report::{format_result, status_tone, Tone};
use minecraft_ipv6::targets::TargetMap;

#[test]
fn letter_a_in_large() {
    let lines = display_large_text("A");
    assert_eq!(lines.len(), BANNER_LINES);
    assert_eq!(lines.len(), 9);
    assert_eq!(lines[0], "        ");
    assert_eq!(lines[1], "    [][]        ");
    assert_eq!(lines[2], "  [][][][]      ");
    assert_eq!(lines[3], "[][]    [][]    ");
    assert_eq!(lines[4], "[][]    [][]    ");
    assert_eq!(lines[5], "[][][][][][]    ");
    assert_eq!(lines[6], "[][]    [][]    ");
    assert_eq!(lines[7], "[][]    [][]    ");
    assert_eq!(lines[8], "                ");
}

#[test]
fn characters_without_a_bitmap_are_skipped() {
    assert_eq!(display_large_text("AéA"), display_large_text("AA"));
    assert_eq!(display_large_text("é"), vec![String::new(); 9]);
    assert_eq!(display_large_text(""), vec![String::new(); 9]);
}

#[test]
fn the_font_holds_the_first_128_characters() {
    for code in 0..0x300u32 {
        let c = char::from_u32(code).unwrap();
        let lines = display_large_text(&c.to_string());
        if code < 128 {
            assert_eq!(lines[0], "        ", "U+{:04X}", code);
            assert_eq!(lines[8].len(), 16, "U+{:04X}", code);
        } else {
            assert_eq!(lines, vec![String::new(); 9], "U+{:04X}", code);
        }
    }
    assert_eq!(display_large_text("\u{7f}")[0], "        ");
    assert_eq!(display_large_text("\u{80}")[0], "");
}

#[test]
fn title_agrees_with_the_font() {
    let text = "EYPClaimer";
    let mut expected = vec![String::new(); 9];
    for ch in text.chars() {
        if let Some(pattern) = BASIC_FONTS.get(ch) {
            expected[0].push_str(&" ".repeat(8));
            for (i, line) in pattern.iter().enumerate() {
                let row = format!("{:08b}", line.reverse_bits())
                    .replace("0", "  ")
                    .replace("1", "[]");
                expected[i + 1].push_str(&row);
            }
        }
    }
    let lines = display_large_text(text);
    assert_eq!(lines, expected);
    assert_eq!(lines[0].len(), 80);
    assert_eq!(lines[1].len(), 160);
}

#[test]
fn colours_in_hexadecimal() {
    assert_eq!(hex_to_rgb("#FFE6CC"), (255, 230, 204));
    assert_eq!(hex_to_rgb("#1A204A"), (26, 32, 74));
    assert_eq!(hex_to_rgb("805ad0"), (128, 90, 208));
    assert_eq!(hex_to_rgb("##000000"), (0, 0, 0));
    assert_eq!(hex_to_rgb("#ffffffabc"), (255, 255, 255));
    // what is no hexadecimal number counts as zero
    assert_eq!(hex_to_rgb("#GG12zz"), (0, 18, 0));
    assert_eq!(hex_to_rgb("#+f-1 1"), (15, 0, 0));
}

#[test]
fn hexadecimal_pairs_agree_with_the_standard_library() {
    let bytes = [b'0', b'9', b'a', b'f', b'A', b'F', b'g', b'+', b'-', b' ', b'x', b'/', b':'];
    for &h in &bytes {
        for &l in &bytes {
            let pair = String::from_utf8(vec![h, l]).unwrap();
            let hex = format!("#{}0000", pair);
            assert_eq!(hex_to_rgb(&hex).0, u8::from_str_radix(&pair, 16).unwrap_or(0));
        }
    }
}

#[test]
fn the_nine_colours_of_the_title() {
    let expected = [
        "#FFE6CC", "#FFCCB3", "#FFB399", "#E6B3FF", "#B380FF", "#805AD0", "#4D33A3", "#33266E",
        "#1A204A",
    ];
    for line in 0..BANNER_LINES {
        assert_eq!(banner_color(line), expected[line]);
    }
    assert_eq!(hex_to_rgb(banner_color(3)), (230, 179, 255));
    assert_eq!(hex_to_rgb(banner_color(8)), (26, 32, 74));
}

#[test]
fn result_line_has_seven_parts() {
    let result = RoundResult {
        name: "alice".to_string(),
        identifier: "uuid-1".to_string(),
        status: "claimed (200)".to_string(),
        important: true,
        emphasis: Emphasis::Positive,
    };
    let line = format_result("12:34:56:789", &result);
    let parts: Vec<(&str, Tone)> = line.iter().map(|s| (s.text.as_str(), s.tone)).collect();
    assert_eq!(
        parts,
        vec![
            ("12:34:56:789", Tone::Cyan),
            (" | ", Tone::DarkGrey),
            ("uuid-1", Tone::DarkGrey),
            (" (", Tone::DarkGrey),
            ("alice", Tone::White),
            (") | ", Tone::DarkGrey),
            ("claimed (200)", Tone::Green),
        ]
    );
}

#[test]
fn status_colours() {
    assert_eq!(status_tone(Emphasis::Positive), Tone::Green);
    assert_eq!(status_tone(Emphasis::Negative), Tone::Red);
    assert_eq!(status_tone(Emphasis::Neutral), Tone::White);
    assert_eq!(status_tone(Emphasis::Failure), Tone::White);
}

#[test]
fn target_map_keeps_one_identifier_per_name() {
    let mut map = TargetMap::new();
    assert!(map.is_empty());
    assert_eq!(map.len(), 0);
    assert_eq!(map.insert("alice".to_string(), "uuid-1".to_string()), None);
    assert_eq!(map.insert("bob".to_string(), "uuid-2".to_string()), None);
    assert_eq!(
        map.insert("alice".to_string(), "uuid-9".to_string()),
        Some("uuid-1".to_string())
    );
    assert_eq!(map.len(), 2);
    assert!(!map.is_empty());
    assert_eq!(map.get("alice"), Some(&"uuid-9".to_string()));
    assert_eq!(map.get("bob"), Some(&"uuid-2".to_string()));
    assert_eq!(map.get("carol"), None);
    assert_eq!(map.get("Alice"), None);
    let snapshot = map.snapshot();
    assert_eq!(snapshot.len(), 2);
    assert_eq!(snapshot[0].name, "alice");
    assert_eq!(snapshot[0].identifier, "uuid-9");
    assert_eq!(snapshot[1].name, "bob");
    assert_eq!(snapshot[1].identifier, "uuid-2");
}

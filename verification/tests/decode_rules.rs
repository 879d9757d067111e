use hourly_forecast::decode::{
    decode_amount, decode_degrees, decode_direction, decode_hour, decode_night, decode_percent,
    decode_speed,
};

#[test]
fn hour_label_is_divided_by_one_hundred() {
    assert_eq!(decode_hour("200"), Some(2));
    assert_eq!(decode_hour("2300"), Some(23));
    assert_eq!(decode_hour("3200"), Some(32));
    assert_eq!(decode_hour("0"), Some(0));
    assert_eq!(decode_hour("99"), Some(0));
    assert_eq!(decode_hour("100"), Some(1));
    assert_eq!(decode_hour("4294967295"), Some(42949672));
}

#[test]
fn hour_label_is_trimmed_first() {
    assert_eq!(decode_hour("  1400\n"), Some(14));
    assert_eq!(decode_hour("\u{a0}+500\t"), Some(5));
}

#[test]
fn hour_label_that_is_no_number_fails() {
    assert_eq!(decode_hour(""), None);
    assert_eq!(decode_hour("   "), None);
    assert_eq!(decode_hour("2:00"), None);
    assert_eq!(decode_hour("-200"), None);
    assert_eq!(decode_hour("2 00"), None);
    assert_eq!(decode_hour("4294967296"), None);
}

#[test]
fn hour_label_agrees_with_trim_and_parse() {
    for label in ["200", " 300 ", "", "x", "+400", "12h", "4294967296", "00"] {
        let expected = label.trim().parse::<u32>().ok().map(|v| v / 100);
        assert_eq!(decode_hour(label), expected, "{label:?}");
    }
}

#[test]
fn temperature_drops_the_sign() {
    assert_eq!(decode_degrees("-5\u{b0}"), Some(5));
    assert_eq!(decode_degrees("5\u{b0}C"), Some(5));
    assert_eq!(decode_degrees("  21\u{b0} "), Some(21));
    assert_eq!(decode_degrees("0\u{b0}"), Some(0));
}

#[test]
fn temperature_range_is_that_of_a_signed_byte() {
    assert_eq!(decode_degrees("127\u{b0}"), Some(127));
    assert_eq!(decode_degrees("128\u{b0}"), None);
    assert_eq!(decode_degrees("-128\u{b0}"), None);
}

#[test]
fn temperature_without_digits_fails() {
    assert_eq!(decode_degrees(""), None);
    assert_eq!(decode_degrees("\u{b0}"), None);
    assert_eq!(decode_degrees("n/a"), None);
}

#[test]
fn percentage_is_read_from_the_digits() {
    assert_eq!(decode_percent("85%"), Some(85));
    assert_eq!(decode_percent(" 0 % "), Some(0));
    assert_eq!(decode_percent("100%"), Some(100));
    assert_eq!(decode_percent("255%"), Some(255));
    assert_eq!(decode_percent("256%"), None);
    assert_eq!(decode_percent("%"), None);
}

#[test]
fn speed_is_the_trimmed_number() {
    assert_eq!(decode_speed("12"), Some(12));
    assert_eq!(decode_speed("\n 7 \n"), Some(7));
    assert_eq!(decode_speed("+9"), Some(9));
    assert_eq!(decode_speed("255"), Some(255));
}

#[test]
fn speed_with_anything_but_a_number_fails() {
    assert_eq!(decode_speed("12 km/h"), None);
    assert_eq!(decode_speed(""), None);
    assert_eq!(decode_speed("-3"), None);
    assert_eq!(decode_speed("256"), None);
    assert_eq!(decode_speed("1.5"), None);
}

#[test]
fn direction_is_the_trimmed_text() {
    assert_eq!(decode_direction("NNW"), "NNW");
    assert_eq!(decode_direction("  SE\n"), "SE");
    assert_eq!(decode_direction(" E "), "E");
    assert_eq!(decode_direction("   "), "");
}

#[test]
fn empty_precipitation_cell_is_absent() {
    assert_eq!(decode_amount(""), Some(None));
    assert_eq!(decode_amount("   "), Some(None));
    assert_eq!(decode_amount("\n\t\u{a0}"), Some(None));
}

#[test]
fn precipitation_cell_keeps_its_number() {
    assert_eq!(decode_amount("2.5"), Some(Some("2.5".to_string())));
    assert_eq!(decode_amount("  0.3\n"), Some(Some("0.3".to_string())));
    assert_eq!(decode_amount("10"), Some(Some("10".to_string())));
    let amount: f32 = decode_amount(" 2.5 ").unwrap().unwrap().parse().unwrap();
    assert_eq!(amount, 2.5);
}

#[test]
fn precipitation_cell_that_is_no_number_fails() {
    assert_eq!(decode_amount("2.5 mm"), None);
    assert_eq!(decode_amount("-"), None);
    assert_eq!(decode_amount("2,5"), None);
    assert_eq!(decode_amount("< 1"), None);
}

#[test]
fn precipitation_cell_agrees_with_trim_and_parse() {
    for cell in ["", " ", "2.5", " 0 ", "1e1", ".5", "5.", ".", "mm", "1 mm", "-0.0", "inf", "NaN"]
    {
        let trimmed = cell.trim();
        let expected: Option<Option<f32>> = if trimmed.is_empty() {
            Some(None)
        } else {
            trimmed.parse::<f32>().ok().map(Some)
        };
        let decoded = decode_amount(cell);
        assert_eq!(decoded.is_some(), expected.is_some(), "{cell:?}");
        if let (Some(Some(text)), Some(Some(amount))) = (decoded, expected) {
            let read: f32 = text.parse().unwrap();
            assert!(read == amount || (read.is_nan() && amount.is_nan()), "{cell:?}");
        }
    }
}

#[test]
fn night_is_told_by_a_class_token() {
    assert!(!decode_night("pictoicon sun"));
    assert!(decode_night("pictoicon night-clear"));
    assert!(decode_night("night"));
    assert!(decode_night("pictoicon\tp12_night"));
    assert!(decode_night("  midnight  pictoicon"));
}

#[test]
fn night_marker_does_not_span_tokens() {
    assert!(!decode_night("nig ht"));
    assert!(!decode_night("ni\u{a0}ght"));
    assert!(!decode_night(""));
    assert!(!decode_night("Night NIGHT"));
}

#[test]
fn night_agrees_with_token_search() {
    for class in ["pictoicon sun", "pictoicon night-clear", "", " ", "nigh t", "a night b", "xnight"]
    {
        let expected = class.split_whitespace().any(|token| token.contains("night"));
        assert_eq!(decode_night(class), expected, "{class:?}");
    }
}

fn all_texts(alphabet: &[char], longest: usize) -> Vec<String> {
    let mut texts = vec![String::new()];
    let mut start = 0;
    for _ in 0..longest {
        let end = texts.len();
        for k in start..end {
            for c in alphabet {
                let mut text = texts[k].clone();
                text.push(*c);
                texts.push(text);
            }
        }
        start = end;
    }
    texts
}

#[test]
fn night_agrees_with_token_search_on_short_classes() {
    for class in all_texts(&['n', 'i', 'g', 'h', 't', ' ', '\u{a0}'], 6) {
        let expected = class.split_whitespace().any(|token| token.contains("night"));
        assert_eq!(decode_night(&class), expected, "{class:?}");
    }
}

#[test]
fn numeric_cells_agree_with_the_standard_library_on_short_texts() {
    for cell in all_texts(&['0', '1', '2', '9', '+', '-', ' ', '%'], 5) {
        let digits: String = cell.trim().chars().filter(|c| c.is_digit(10)).collect();
        assert_eq!(decode_degrees(&cell), digits.parse::<i8>().ok(), "{cell:?}");
        assert_eq!(decode_percent(&cell), digits.parse::<u8>().ok(), "{cell:?}");
        assert_eq!(decode_speed(&cell), cell.trim().parse::<u8>().ok(), "{cell:?}");
        assert_eq!(
            decode_hour(&cell),
            cell.trim().parse::<u32>().ok().map(|number| number / 100),
            "{cell:?}"
        );
        assert_eq!(decode_direction(&cell), cell.trim(), "{cell:?}");
    }
}

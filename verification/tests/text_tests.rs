use w4113::text::{chars_of, parse_u32, split_chars, split_tokens, string_of, u32_to_decimal};

fn chars(s: &str) -> Vec<char> {
    s.chars().collect()
}

#[test]
fn decimal_of_zero_and_extremes() {
    assert_eq!(u32_to_decimal(0), "0");
    assert_eq!(u32_to_decimal(7), "7");
    assert_eq!(u32_to_decimal(44100), "44100");
    assert_eq!(u32_to_decimal(4294967295), "4294967295");
}

#[test]
fn parse_u32_accepts_what_str_parse_accepts() {
    for text in ["0", "1", "+7", "0042", "4294967295", "", "+", "-1", "4294967296", "12a", " 1", "99999999999"] {
        assert_eq!(parse_u32(&chars(text)), text.parse::<u32>().ok(), "text {:?}", text);
    }
}

#[test]
fn decimal_then_parse_gives_the_number_back() {
    for n in [0u32, 9, 10, 255, 65535, 1_000_000, u32::MAX] {
        assert_eq!(parse_u32(&chars(&u32_to_decimal(n))), Some(n));
    }
}

#[test]
fn split_matches_str_split() {
    for text in ["", "a", "a-b", "-", "a--b-", "2 44100 64-1024"] {
        let ours: Vec<String> = split_chars(&chars(text), '-').iter().map(|v| v.iter().collect()).collect();
        let theirs: Vec<String> = text.split('-').map(|s| s.to_string()).collect();
        assert_eq!(ours, theirs);
    }
}

#[test]
fn tokens_drop_empty_pieces() {
    let ours: Vec<String> = split_tokens(&chars("  2   44100 64-1024 "), ' ').iter().map(|v| v.iter().collect()).collect();
    assert_eq!(ours, vec!["2", "44100", "64-1024"]);
    assert!(split_tokens(&chars("   "), ' ').is_empty());
}

#[test]
fn chars_and_strings_convert_both_ways() {
    let v = chars_of("héllo");
    assert_eq!(v, vec!['h', 'é', 'l', 'l', 'o']);
    assert_eq!(string_of(&v), "héllo");
}

use low_latency_data_structures::text::{
    chars_of, contains_chars, decimal_string, first_non_space, is_white_space, line_ranges,
    list_contains, parse_cpu_list, parse_usize, push_debug_list, push_decimal, push_padded_left,
    push_padded_right, starts_with_at, str_eq, word_ranges,
};

#[test]
fn cpu_list_ranges_and_singles() {
    assert_eq!(parse_cpu_list("2-3,5,7-9"), vec![2, 3, 5, 7, 8, 9]);
    assert_eq!(parse_cpu_list(""), Vec::<usize>::new());
    assert_eq!(parse_cpu_list("0"), vec![0]);
    assert_eq!(parse_cpu_list(",,4,,"), vec![4]);
}

#[test]
fn cpu_list_skips_malformed_parts() {
    assert_eq!(parse_cpu_list("a,3,5-x,-2,4-,1-2-3,+6"), vec![3, 6]);
    assert_eq!(parse_cpu_list("5-3,1"), vec![1]);
    assert_eq!(parse_cpu_list("18446744073709551616,2"), vec![2]);
}

#[test]
fn usize_parsing_follows_str_parse() {
    let chars: Vec<char> = "+12 99999999999999999999 -1 + 0".chars().collect();
    assert_eq!(parse_usize(&chars, 0, 3), Some(12));
    assert_eq!(parse_usize(&chars, 4, 24), None);
    assert_eq!(parse_usize(&chars, 25, 27), None);
    assert_eq!(parse_usize(&chars, 28, 29), None);
    assert_eq!(parse_usize(&chars, 30, 31), Some(0));
    assert_eq!(parse_usize(&chars, 0, 0), None);
    for s in ["0", "7", "+7", "18446744073709551615", "18446744073709551616", "1a", ""] {
        let c: Vec<char> = s.chars().collect();
        assert_eq!(parse_usize(&c, 0, c.len()), s.parse::<usize>().ok(), "{s}");
    }
}

#[test]
fn decimal_and_debug_rendering() {
    let mut s = String::from("x=");
    push_decimal(&mut s, 0);
    s.push(' ');
    push_decimal(&mut s, 1234567890123);
    assert_eq!(s, "x=0 1234567890123");
    let mut d = String::new();
    push_debug_list(&mut d, &[2, 3, 5]);
    assert_eq!(d, format!("{:?}", vec![2usize, 3, 5]));
    let mut e = String::new();
    push_debug_list(&mut e, &[]);
    assert_eq!(e, "[]");
}

#[test]
fn char_and_list_helpers() {
    assert_eq!(chars_of("héllo"), vec!['h', 'é', 'l', 'l', 'o']);
    assert!(str_eq("abc", "abc"));
    assert!(!str_eq("abc", "abd"));
    assert!(!str_eq("abc", "ab"));
    assert!(list_contains(&[1, 2, 3], 2));
    assert!(!list_contains(&[1, 2, 3], 4));
}

#[test]
fn whitespace_words_and_lines() {
    let s: Vec<char> = "  CPU0\tCPU1 \u{3000}x\n".chars().collect();
    let words: Vec<String> = word_ranges(&s)
        .iter()
        .map(|&(a, b)| s[a..b].iter().collect())
        .collect();
    assert_eq!(words, vec!["CPU0", "CPU1", "x"]);
    assert!(is_white_space('\u{85}'));
    assert!(!is_white_space('\u{200B}'));
    let t: Vec<char> = "a\r\n\nb\rc\n\r".chars().collect();
    let lines: Vec<String> = line_ranges(&t)
        .iter()
        .map(|&(a, b)| t[a..b].iter().collect())
        .collect();
    assert_eq!(lines, "a\r\n\nb\rc\n\r".lines().collect::<Vec<_>>());
    assert_eq!(lines, vec!["a", "", "b\rc", "\r"]);
    let e: Vec<char> = Vec::new();
    assert!(line_ranges(&e).is_empty());
    assert!(word_ranges(&e).is_empty());
}

#[test]
fn padding_and_search() {
    let mut s = String::from("[");
    push_padded_left(&mut s, "42", 5);
    push_padded_right(&mut s, "ab", 4);
    push_padded_left(&mut s, "123456", 3);
    assert_eq!(s, "[   42ab  123456");
    assert_eq!(decimal_string(0), "0");
    assert_eq!(decimal_string(u64::MAX), u64::MAX.to_string());
    let hay: Vec<char> = "flags: fpu constant_tsc nonstop_tsc".chars().collect();
    let needle: Vec<char> = "nonstop_tsc".chars().collect();
    assert!(contains_chars(&hay, &needle));
    assert!(!contains_chars(&hay, &"tsc_known".chars().collect::<Vec<_>>()));
    assert!(contains_chars(&hay, &[]));
    assert!(starts_with_at(&hay, 7, &"fpu".chars().collect::<Vec<_>>()));
    assert!(!starts_with_at(&hay, 40, &[]));
    assert_eq!(first_non_space(&" \t x".chars().collect::<Vec<_>>(), 0), 3);
}

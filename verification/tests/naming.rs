use dgmeets::layout::{
    chunk_file_path, chunk_name, final_file_path, parse_chunk_index, separate_file_path,
    session_dir,
};
use dgmeets::text::{
    append_decimal, append_zero_padded, chars_of, contains, decimal_len, digit_of, ends_with,
    matches_at, parse_digits, parse_index, remove_all, starts_with,
};

#[test]
fn chunk_names_have_at_least_four_digits() {
    assert_eq!(chunk_name(1), "chunk_0001.wav");
    assert_eq!(chunk_name(42), "chunk_0042.wav");
    assert_eq!(chunk_name(9999), "chunk_9999.wav");
    assert_eq!(chunk_name(10000), "chunk_10000.wav");
    assert_eq!(chunk_name(0), "chunk_0000.wav");
    assert_eq!(chunk_name(u64::MAX), "chunk_18446744073709551615.wav");
}

#[test]
fn chunk_names_agree_with_the_formatter() {
    for i in [0u64, 1, 9, 10, 99, 100, 999, 1000, 9999, 10000, 123456789] {
        assert_eq!(chunk_name(i), format!("chunk_{:04}.wav", i));
    }
}

#[test]
fn a_chunk_name_reads_back_as_its_index() {
    for i in [0u64, 1, 7, 10, 999, 1000, 9999, 10000, 65536, u64::MAX] {
        assert_eq!(parse_chunk_index(&chunk_name(i)), Some(i));
    }
}

#[test]
fn other_names_are_no_chunks() {
    for name in [
        "",
        "chunk_.wav",
        "chunk_1.wav",
        "chunk_001.wav",
        "chunk_00001.wav",
        "chunk_0001.wave",
        "chunk_0001.WAV",
        "Chunk_0001.wav",
        "chunk_0001_mic.wav",
        "chunk_00a1.wav",
        "chunk_+001.wav",
        "xchunk_0001.wav",
        "chunk_0001.wav ",
        "final.wav",
        "chunk_18446744073709551616.wav",
        "chunk_٠٠٠١.wav",
    ] {
        assert_eq!(parse_chunk_index(name), None, "{}", name);
    }
}

#[test]
fn session_directories_lie_below_recordings() {
    assert_eq!(session_dir("/data/app", "abc"), "/data/app/recordings/abc");
    assert_eq!(chunk_file_path("/data/app/recordings/abc", 3), "/data/app/recordings/abc/chunk_0003.wav");
    assert_eq!(final_file_path("/d"), "/d/final.wav");
    assert_eq!(separate_file_path("/d", 12, "mic"), "/d/chunk_0012_mic.wav");
    assert_eq!(separate_file_path("/d", 12, "sys"), "/d/chunk_0012_sys.wav");
}

#[test]
fn decimal_rendering() {
    let mut s = String::from("n=");
    append_decimal(&mut s, 0);
    append_decimal(&mut s, 907);
    assert_eq!(s, "n=0907");
    let mut t = String::new();
    append_zero_padded(&mut t, 5, 2);
    append_zero_padded(&mut t, 123, 2);
    append_zero_padded(&mut t, 0, 0);
    assert_eq!(t, "051230");
    assert_eq!(decimal_len(0), 1);
    assert_eq!(decimal_len(9), 1);
    assert_eq!(decimal_len(10), 2);
    assert_eq!(decimal_len(u64::MAX), 20);
}

#[test]
fn digits_and_numbers() {
    assert_eq!(digit_of('7'), Some(7));
    assert_eq!(digit_of('a'), None);
    assert_eq!(digit_of('٣'), None);
    let c = chars_of("ab0123xy");
    assert_eq!(parse_digits(&c, 2, 6), Some(123));
    assert_eq!(parse_digits(&c, 2, 2), None);
    assert_eq!(parse_digits(&c, 1, 6), None);
    let big = chars_of("18446744073709551615");
    assert_eq!(parse_digits(&big, 0, 20), Some(u64::MAX));
    let too_big = chars_of("18446744073709551616");
    assert_eq!(parse_digits(&too_big, 0, 20), None);
}

#[test]
fn indices_follow_the_rule_for_unsigned_numbers() {
    assert_eq!(parse_index(&chars_of("12"), 0), 12);
    assert_eq!(parse_index(&chars_of("+12"), 0), 12);
    assert_eq!(parse_index(&chars_of("012"), 0), 12);
    assert_eq!(parse_index(&chars_of("-12"), 0), 0);
    assert_eq!(parse_index(&chars_of(""), 0), 0);
    assert_eq!(parse_index(&chars_of("+"), 0), 0);
    assert_eq!(parse_index(&chars_of("1 2"), 0), 0);
    assert_eq!(parse_index(&chars_of("x7"), 1), 7);
    for text in ["12", "+12", "012", "-12", "", "+", "++1", "1 2", "99999999999999999999999"] {
        let expected = text.parse::<usize>().unwrap_or(0);
        assert_eq!(parse_index(&chars_of(text), 0), expected, "{}", text);
    }
}

#[test]
fn searching_in_texts() {
    let hay = chars_of("stereo mix (realtek)");
    assert!(starts_with(&hay, &chars_of("stereo")));
    assert!(!starts_with(&hay, &chars_of("mix")));
    assert!(ends_with(&hay, &chars_of("tek)")));
    assert!(!ends_with(&hay, &chars_of("tek")));
    assert!(contains(&hay, &chars_of("mix")));
    assert!(contains(&hay, &chars_of("")));
    assert!(!contains(&hay, &chars_of("mixer")));
    assert!(!contains(&chars_of("ab"), &chars_of("abc")));
    assert!(matches_at(&hay, &chars_of("mix"), 7));
    assert!(!matches_at(&hay, &chars_of("mix"), 6));
    assert!(!matches_at(&hay, &chars_of("mix"), 19));
}

#[test]
fn removing_a_pattern_agrees_with_replace() {
    for (text, pat) in [
        ("input_3", "input_"),
        ("input_input_3", "input_"),
        ("xinput_3", "input_"),
        ("aaa", "aa"),
        ("abcabc", "bc"),
        ("abc", ""),
        ("", "x"),
        ("ab", "abc"),
    ] {
        let got: String = remove_all(&chars_of(text), &chars_of(pat)).into_iter().collect();
        assert_eq!(got, text.replace(pat, ""), "{} {}", text, pat);
    }
}

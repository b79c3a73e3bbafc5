use dscbot::data::{construct_data_path, global_data_path, guild_data_dir};
use dscbot::text::{chars_of, contains_chars, parse_u64, split, u64_to_decimal};

#[test]
fn decimal_spelling() {
    assert_eq!(u64_to_decimal(0), "0");
    assert_eq!(u64_to_decimal(7), "7");
    assert_eq!(u64_to_decimal(684577265425973285), "684577265425973285");
    assert_eq!(u64_to_decimal(u64::MAX), "18446744073709551615");
}

#[test]
fn decimal_parsing() {
    assert_eq!(parse_u64("0"), Some(0));
    assert_eq!(parse_u64("0042"), Some(42));
    assert_eq!(parse_u64("18446744073709551615"), Some(u64::MAX));
    assert_eq!(parse_u64("18446744073709551616"), None);
    assert_eq!(parse_u64(""), None);
    assert_eq!(parse_u64("12a"), None);
    assert_eq!(parse_u64("-1"), None);
}

#[test]
fn decimal_round_trip() {
    for n in [0u64, 1, 9, 10, 99, 100, 123456789, u64::MAX - 1, u64::MAX] {
        assert_eq!(parse_u64(&u64_to_decimal(n)), Some(n));
    }
}

#[test]
fn substring_search() {
    let hay = chars_of("hello world");
    assert!(contains_chars(&hay, &chars_of("lo w")));
    assert!(contains_chars(&hay, &chars_of("")));
    assert!(contains_chars(&hay, &chars_of("hello world")));
    assert!(!contains_chars(&hay, &chars_of("worlds")));
    assert!(!contains_chars(&chars_of(""), &chars_of("a")));
}

#[test]
fn data_paths() {
    assert_eq!(guild_data_dir(42), "./data/42/");
    assert_eq!(construct_data_path(646540745443901469, "settings.db"), "./data/646540745443901469/settings.db");
    assert_eq!(global_data_path("age.db"), "./data/age.db");
}

#[test]
fn splitting() {
    assert_eq!(split("a,b,,c", ","), vec!["a", "b", "", "c"]);
    assert_eq!(split("", ","), vec![""]);
    assert_eq!(split("abc", "xyz"), vec!["abc"]);
    assert_eq!(split("a--b---c", "--"), vec!["a", "b", "-c"]);
    assert_eq!(split("abc", ""), vec!["abc"]);
}

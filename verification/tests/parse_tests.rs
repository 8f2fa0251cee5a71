use imdb_scraper::numbers::Rating;
use imdb_scraper::numbers::parse_integer;
use imdb_scraper::numbers::parse_rating;
use imdb_scraper::numbers::rating_not_found;

#[test]
fn integer_plain() {
    assert_eq!(parse_integer("1999"), Some(1999));
    assert_eq!(parse_integer("0"), Some(0));
}

#[test]
fn integer_signed() {
    assert_eq!(parse_integer("-42"), Some(-42));
    assert_eq!(parse_integer("+7"), Some(7));
}

#[test]
fn integer_rejects_bad_text() {
    assert_eq!(parse_integer(""), None);
    assert_eq!(parse_integer("-"), None);
    assert_eq!(parse_integer("12a"), None);
    assert_eq!(parse_integer("1 9"), None);
    assert_eq!(parse_integer("1.9"), None);
}

#[test]
fn integer_bounds() {
    assert_eq!(parse_integer("9223372036854775807"), Some(i64::MAX));
    assert_eq!(parse_integer("9223372036854775808"), None);
    assert_eq!(parse_integer("-9223372036854775808"), Some(i64::MIN));
    assert_eq!(parse_integer("-9223372036854775809"), None);
    assert_eq!(parse_integer("99999999999999999999999999"), None);
}

#[test]
fn rating_with_fraction() {
    assert_eq!(parse_rating("8.7"), Some(Rating { mantissa: 87, scale: 1 }));
    assert_eq!(parse_rating("10.00"), Some(Rating { mantissa: 1000, scale: 2 }));
}

#[test]
fn rating_whole_number() {
    assert_eq!(parse_rating("9"), Some(Rating { mantissa: 9, scale: 0 }));
    assert_eq!(parse_rating("-1"), Some(Rating { mantissa: -1, scale: 0 }));
}

#[test]
fn rating_signed_fraction() {
    assert_eq!(parse_rating("-1.0"), Some(Rating { mantissa: -10, scale: 1 }));
    assert_eq!(parse_rating("+2.5"), Some(Rating { mantissa: 25, scale: 1 }));
}

#[test]
fn rating_rejects_bad_text() {
    assert_eq!(parse_rating(""), None);
    assert_eq!(parse_rating("abc"), None);
    assert_eq!(parse_rating("8."), None);
    assert_eq!(parse_rating(".5"), None);
    assert_eq!(parse_rating("8.7.5"), None);
    assert_eq!(parse_rating("8,7"), None);
}

#[test]
fn sentinel_is_minus_one() {
    let s = rating_not_found();
    assert_eq!(s, Rating { mantissa: -1, scale: 0 });
    let as_float = s.mantissa as f32 / 10f32.powi(s.scale as i32);
    assert_eq!(as_float, -1.0);
}

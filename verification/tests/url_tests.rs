use imdb_scraper::imdb::ImdbError;
use imdb_scraper::imdb::build_movie_url;
use imdb_scraper::imdb::build_search_url;
use imdb_scraper::text::replace_spaces;

#[test]
fn search_url_for_the_matrix() {
    let url = build_search_url("the matrix").unwrap();
    assert_eq!(url, "https://v2.sg.media-imdb.com/suggestion/t/the_matrix.json");
}

#[test]
fn search_url_single_word() {
    let url = build_search_url("inception").unwrap();
    assert_eq!(url, "https://v2.sg.media-imdb.com/suggestion/i/inception.json");
}

#[test]
fn search_url_keeps_first_char_of_original_term() {
    let url = build_search_url(" leading").unwrap();
    assert_eq!(url, "https://v2.sg.media-imdb.com/suggestion/ /_leading.json");
}

#[test]
fn empty_term_is_invalid_input() {
    let r = build_search_url("");
    assert_eq!(r, Err(ImdbError::InvalidInput));
}

#[test]
fn replace_spaces_replaces_every_space() {
    assert_eq!(replace_spaces("a b c"), "a_b_c");
    assert_eq!(replace_spaces("  "), "__");
    assert_eq!(replace_spaces("none"), "none");
    assert_eq!(replace_spaces(""), "");
}

#[test]
fn movie_url_for_id() {
    assert_eq!(build_movie_url("tt0133093"), "https://www.imdb.com/title/tt0133093/");
}

#[test]
fn search_error_messages() {
    assert_eq!(ImdbError::InvalidInput.search_message(), "Invalid search term");
    assert_eq!(ImdbError::TransportError.search_message(), "Url failure.");
    assert_eq!(ImdbError::DecodeError.search_message(), "Parse failure.");
}

#[test]
fn movie_error_messages() {
    assert_eq!(ImdbError::TransportError.movie_message(), "Could not find that movie.");
    assert_eq!(ImdbError::DecodeError.movie_message(), "Could not parse the IMDB response");
}

#[test]
fn index_greets() {
    assert_eq!(imdb_scraper::index(), "Hello, world!");
}

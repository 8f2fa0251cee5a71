use imdb_scraper::imdb::ImdbSearchResultEntry;
use imdb_scraper::imdb::ImdbSearchResultImage;
use imdb_scraper::imdb::ImdbSearchResults;
use imdb_scraper::imdb::filter_search_results;
use imdb_scraper::imdb::id_is_movie;

fn entry(id: &str, label: &str) -> ImdbSearchResultEntry {
    ImdbSearchResultEntry {
        i: ImdbSearchResultImage {
            height: Some(100),
            imageUrl: String::from("https://example.invalid/poster.jpg"),
            width: Some(70),
        },
        id: String::from(id),
        l: String::from(label),
        s: String::from("cast"),
        q: Some(String::from("feature")),
        rank: Some(1),
    }
}

#[test]
fn keeps_only_movie_entries() {
    let results = ImdbSearchResults {
        d: vec![entry("tt0133093", "The Matrix"), entry("top10list", "Top 10")],
    };
    let filtered = filter_search_results(results);
    assert_eq!(filtered.d.len(), 1);
    assert_eq!(filtered.d[0].id, "tt0133093");
    assert_eq!(filtered.d[0].l, "The Matrix");
}

#[test]
fn keeps_relative_order() {
    let results = ImdbSearchResults {
        d: vec![
            entry("tt0000001", "First"),
            entry("nm0000002", "A Person"),
            entry("tt0000003", "Second"),
            entry("ls0000004", "A List"),
            entry("tt0000005", "Third"),
        ],
    };
    let filtered = filter_search_results(results);
    let ids: Vec<&str> = filtered.d.iter().map(|e| e.id.as_str()).collect();
    assert_eq!(ids, vec!["tt0000001", "tt0000003", "tt0000005"]);
}

#[test]
fn empty_collection_stays_empty() {
    let filtered = filter_search_results(ImdbSearchResults { d: Vec::new() });
    assert_eq!(filtered.d.len(), 0);
}

#[test]
fn all_non_movies_removed() {
    let results = ImdbSearchResults { d: vec![entry("nm0000001", "A"), entry("x", "B")] };
    let filtered = filter_search_results(results);
    assert!(filtered.d.is_empty());
}

#[test]
fn movie_prefix_test() {
    assert!(id_is_movie("tt0133093"));
    assert!(id_is_movie("tt"));
    assert!(!id_is_movie("t"));
    assert!(!id_is_movie(""));
    assert!(!id_is_movie("nm0000001"));
    assert!(!id_is_movie("Tt0133093"));
}

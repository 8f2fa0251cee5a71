use imdb_scraper::imdb::convert_imdb_html_to_movie;
use imdb_scraper::numbers::Rating;

fn full_page() -> String {
    let mut page = String::new();
    page.push_str("<html><body>");
    page.push_str("<h1 data-testid=\"hero-title-block__title\">The Matrix</h1>");
    page.push_str("<ul data-testid=\"hero-title-block__metadata\">");
    page.push_str("<li>Movie</li>");
    page.push_str("<li><span>1999</span></li>");
    page.push_str("<li><span>R</span></li>");
    page.push_str("<li>2<!-- -->h<!-- -->16<!-- -->m</li>");
    page.push_str("</ul>");
    page.push_str("<div data-testid=\"hero-rating-bar__aggregate-rating__score\">");
    page.push_str("<span>8.7</span><span>/10</span></div>");
    page.push_str("<p data-testid=\"plot-l\">A hacker learns the truth.</p>");
    page.push_str("</body></html>");
    page
}

#[test]
fn full_page_extraction() {
    let movie = convert_imdb_html_to_movie(full_page());
    assert_eq!(movie.name, "The Matrix");
    assert_eq!(movie.plot, "A hacker learns the truth.");
    assert_eq!(movie.user_rating, Rating { mantissa: 87, scale: 1 });
    assert_eq!(movie.movie_type, "Movie");
    assert_eq!(movie.release_year, 1999);
    assert_eq!(movie.tv_rating, "R");
    assert_eq!(movie.runtime, "2h16m");
}

#[test]
fn metadata_positions_carry_meaning() {
    let page = String::from(
        "<ul data-testid=\"hero-title-block__metadata\">\
         <li>TV Series</li>\
         <li><span>2008</span></li>\
         <li><span>TV-MA</span></li>\
         <li>1<!-- -->h</li>\
         </ul>",
    );
    let movie = convert_imdb_html_to_movie(page);
    assert_eq!(movie.movie_type, "TV Series");
    assert_eq!(movie.release_year, 2008);
    assert_eq!(movie.tv_rating, "TV-MA");
    assert_eq!(movie.runtime, "1h");
}

#[test]
fn missing_metadata_yields_fallbacks() {
    let page = String::from(
        "<html><body><h1 data-testid=\"hero-title-block__title\">Untitled</h1></body></html>",
    );
    let movie = convert_imdb_html_to_movie(page);
    assert_eq!(movie.name, "Untitled");
    assert_eq!(movie.movie_type, "");
    assert_eq!(movie.release_year, 0);
    assert_eq!(movie.tv_rating, "N/A");
    assert_eq!(movie.runtime, "");
}

#[test]
fn empty_document_yields_all_fallbacks() {
    let movie = convert_imdb_html_to_movie(String::new());
    assert_eq!(movie.name, "");
    assert_eq!(movie.plot, "");
    assert_eq!(movie.user_rating, Rating { mantissa: -1, scale: 0 });
    assert_eq!(movie.movie_type, "");
    assert_eq!(movie.release_year, 0);
    assert_eq!(movie.tv_rating, "N/A");
    assert_eq!(movie.runtime, "");
}

#[test]
fn non_numeric_rating_is_exactly_minus_one() {
    let page = String::from(
        "<div data-testid=\"hero-rating-bar__aggregate-rating__score\">\
         <span>not rated</span></div>",
    );
    let movie = convert_imdb_html_to_movie(page);
    assert_eq!(movie.user_rating, Rating { mantissa: -1, scale: 0 });
    let as_float = movie.user_rating.mantissa as f32 / 10f32.powi(movie.user_rating.scale as i32);
    assert_eq!(as_float, -1.0);
}

#[test]
fn year_with_non_numeric_span_is_zero() {
    let page = String::from(
        "<ul data-testid=\"hero-title-block__metadata\">\
         <li>Movie</li>\
         <li><span>soon</span></li>\
         </ul>",
    );
    let movie = convert_imdb_html_to_movie(page);
    assert_eq!(movie.release_year, 0);
    assert_eq!(movie.tv_rating, "N/A");
}

#[test]
fn year_without_span_is_zero() {
    let page = String::from(
        "<ul data-testid=\"hero-title-block__metadata\">\
         <li>Movie</li>\
         <li>1999</li>\
         </ul>",
    );
    let movie = convert_imdb_html_to_movie(page);
    assert_eq!(movie.release_year, 0);
}

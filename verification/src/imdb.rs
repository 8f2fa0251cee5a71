use vstd::prelude::*;

verus! {

use vstd::string::StrSliceExecFns;
use vstd::string::StringExecFns;
use crate::numbers::Rating;
use crate::numbers::rating_sentinel;
use crate::numbers::rating_not_found;
use crate::numbers::parse_rating_spec;
use crate::numbers::parse_i64_spec;
use crate::text::underscored;
use crate::text::remove_all;
use crate::scrape::sel_first_inner;
use crate::scrape::sel_meta_items;

/// A movie record extracted from a detail page. Every field is best effort:
/// a field whose element is missing or unreadable carries its documented
/// fallback value instead of an error.
#[derive(Debug)]
pub struct ImdbMovie {
    pub name: String,
    pub user_rating: Rating,
    pub plot: String,
    pub movie_type: String,
    pub tv_rating: String,
    pub release_year: i64,
    pub runtime: String,
}

/// The image descriptor of a search-result entry.
#[allow(non_snake_case)]
#[derive(Debug)]
pub struct ImdbSearchResultImage {
    pub height: Option<i64>,
    pub imageUrl: String,
    pub width: Option<i64>,
}

/// One candidate entry of the suggestion endpoint's answer.
#[derive(Debug)]
pub struct ImdbSearchResultEntry {
    pub i: ImdbSearchResultImage,
    pub id: String,
    pub l: String,
    pub s: String,
    pub q: Option<String>,
    pub rank: Option<i32>,
}

/// The ordered collection of search-result entries.
#[derive(Debug)]
pub struct ImdbSearchResults {
    pub d: Vec<ImdbSearchResultEntry>,
}

/// The typed failures of the two operations.
#[derive(Clone, Copy, Debug, PartialEq, Eq, Structural)]
pub enum ImdbError {
    InvalidInput,
    TransportError,
    DecodeError,
}

impl ImdbError {
    /// The error text the search operation surfaces to callers.
    pub fn search_message(&self) -> (r: String)
        ensures
            *self == ImdbError::InvalidInput ==> r@ == "Invalid search term"@,
            *self == ImdbError::TransportError ==> r@ == "Url failure."@,
            *self == ImdbError::DecodeError ==> r@ == "Parse failure."@,
    {
        match self {
            ImdbError::InvalidInput => String::from_str("Invalid search term"),
            ImdbError::TransportError => String::from_str("Url failure."),
            ImdbError::DecodeError => String::from_str("Parse failure."),
        }
    }

    /// The error text the movie-detail operation surfaces to callers.
    pub fn movie_message(&self) -> (r: String)
        ensures
            *self == ImdbError::InvalidInput ==> r@ == "Invalid search term"@,
            *self == ImdbError::TransportError ==> r@ == "Could not find that movie."@,
            *self == ImdbError::DecodeError ==> r@ == "Could not parse the IMDB response"@,
    {
        match self {
            ImdbError::InvalidInput => String::from_str("Invalid search term"),
            ImdbError::TransportError => String::from_str("Could not find that movie."),
            ImdbError::DecodeError => String::from_str("Could not parse the IMDB response"),
        }
    }
}

/// The lookup URL for a search term: the fixed suggestion host, the first
/// character of the original term as routing segment, then the term with
/// spaces turned into underscores.
pub open spec fn search_url_spec(term: Seq<char>) -> Seq<char>
    recommends
        term.len() > 0,
{
    "https://v2.sg.media-imdb.com/suggestion/"@ + seq![term[0]] + "/"@ + underscored(term)
        + ".json"@
}

/// The routing segment of the lookup URL is the first character of the
/// original, pre-normalization term, standing right after the fixed prefix
/// and followed by a slash.
pub proof fn lemma_search_url_routing_segment(term: Seq<char>)
    requires
        term.len() > 0,
    ensures
        ({
            let prefix = "https://v2.sg.media-imdb.com/suggestion/"@;
            search_url_spec(term)[prefix.len() as int] == term[0] && search_url_spec(term)[
                prefix.len() as int + 1] == '/'
        }),
{
    reveal_strlit("https://v2.sg.media-imdb.com/suggestion/");
    reveal_strlit("/");
}

/// Builds the lookup URL. An empty term is rejected as invalid input before
/// any network call could be made; every other term yields the URL that
/// `search_url_spec` describes.
pub fn build_search_url(term: &str) -> (r: Result<String, ImdbError>)
    ensures
        term@.len() == 0 ==> r == Err::<String, ImdbError>(ImdbError::InvalidInput),
        term@.len() > 0 ==> (r matches Ok(u) && u@ == search_url_spec(term@)),
{
    let n = term.unicode_len();
    if n == 0 {
        return Err(ImdbError::InvalidInput);
    }
    let first = term.get_char(0);
    let normalized = crate::text::replace_spaces(term);
    let mut url = String::from_str("https://v2.sg.media-imdb.com/suggestion/");
    url.push(first);
    url.append("/");
    url.append(normalized.as_str());
    url.append(".json");
    proof {
        assert(url@ =~= search_url_spec(term@));
    }
    Ok(url)
}

/// The detail-page URL for a movie identifier.
pub open spec fn movie_url_spec(id: Seq<char>) -> Seq<char> {
    "https://www.imdb.com/title/"@ + id + "/"@
}

pub fn build_movie_url(movie_id: &str) -> (r: String)
    ensures
        r@ == movie_url_spec(movie_id@),
{
    let mut url = String::from_str("https://www.imdb.com/title/");
    url.append(movie_id);
    url.append("/");
    proof {
        assert(url@ =~= movie_url_spec(movie_id@));
    }
    url
}

/// An identifier denotes a movie when it begins with the two-letter prefix
/// "tt"; other prefixes belong to other media kinds the upstream API returns.
pub open spec fn is_movie_id(id: Seq<char>) -> bool {
    id.len() >= 2 && id[0] == 't' && id[1] == 't'
}

pub fn id_is_movie(id: &str) -> (b: bool)
    ensures
        b == is_movie_id(id@),
{
    if id.unicode_len() < 2 {
        return false;
    }
    let c0 = id.get_char(0);
    let c1 = id.get_char(1);
    c0 == 't' && c1 == 't'
}

/// The entries whose identifier begins with the movie prefix, in their
/// original order.
pub open spec fn filtered_movies(d: Seq<ImdbSearchResultEntry>) -> Seq<ImdbSearchResultEntry> {
    d.filter(|e: ImdbSearchResultEntry| is_movie_id(e.id@))
}

/// The filtered collection holds only entries whose identifier begins with
/// "tt", and it never grows.
pub proof fn lemma_filtered_movies_only_movies(d: Seq<ImdbSearchResultEntry>)
    ensures
        forall|i: int|
            0 <= i < filtered_movies(d).len() ==> is_movie_id(
                #[trigger] filtered_movies(d)[i].id@,
            ),
        filtered_movies(d).len() <= d.len(),
{
    broadcast use vstd::seq_lib::group_filter_ensures;

}

proof fn lemma_filtered_movies_push(prefix: Seq<ImdbSearchResultEntry>, e: ImdbSearchResultEntry)
    ensures
        is_movie_id(e.id@) ==> filtered_movies(prefix.push(e)) == filtered_movies(prefix).push(e),
        !is_movie_id(e.id@) ==> filtered_movies(prefix.push(e)) == filtered_movies(prefix),
{
    reveal(Seq::filter);
    assert(prefix.push(e).drop_last() =~= prefix);
    assert(prefix.push(e).last() == e);
}

/// Keeps exactly the entries whose identifier begins with "tt", in their
/// original relative order.
pub fn filter_search_results(results: ImdbSearchResults) -> (r: ImdbSearchResults)
    ensures
        r.d@ == filtered_movies(results.d@),
{
    let ghost orig = results.d@;
    let mut d = results.d;
    let mut out: Vec<ImdbSearchResultEntry> = Vec::new();
    let ghost mut prefix: Seq<ImdbSearchResultEntry> = Seq::empty();
    proof {
        reveal(Seq::filter);
        assert(orig =~= prefix + d@);
    }
    while d.len() > 0
        invariant
            orig == prefix + d@,
            out@ == filtered_movies(prefix),
        decreases d@.len(),
    {
        let e = d.remove(0);
        let keep = id_is_movie(&e.id);
        proof {
            lemma_filtered_movies_push(prefix, e);
            prefix = prefix.push(e);
            assert(orig =~= prefix + d@);
        }
        if keep {
            out.push(e);
        }
    }
    proof {
        assert(prefix =~= orig);
    }
    ImdbSearchResults { d: out }
}

// The fixed selector patterns of the detail extractor, as spec values.
pub open spec fn title_pattern() -> Seq<char> {
    "[data-testid=\"hero-title-block__title\"]"@
}

pub open spec fn plot_pattern() -> Seq<char> {
    "[data-testid=\"plot-l\"]"@
}

pub open spec fn rating_pattern() -> Seq<char> {
    "[data-testid=\"hero-rating-bar__aggregate-rating__score\"] > span"@
}

pub open spec fn metadata_pattern() -> Seq<char> {
    "[data-testid=\"hero-title-block__metadata\"] > li"@
}

pub open spec fn span_pattern() -> Seq<char> {
    "span"@
}

/// The title of a detail page: the first hero-title element's inner HTML, or
/// empty when absent.
pub open spec fn extracted_title(html: Seq<char>) -> Seq<char> {
    match sel_first_inner(html, title_pattern()) {
        Some(t) => t,
        None => Seq::empty(),
    }
}

/// The plot summary, or empty when absent.
pub open spec fn extracted_plot(html: Seq<char>) -> Seq<char> {
    match sel_first_inner(html, plot_pattern()) {
        Some(t) => t,
        None => Seq::empty(),
    }
}

/// The raw text of the aggregate-rating element, or empty when absent.
pub open spec fn extracted_rating_text(html: Seq<char>) -> Seq<char> {
    match sel_first_inner(html, rating_pattern()) {
        Some(t) => t,
        None => Seq::empty(),
    }
}

/// The user rating: the rating element's text read as a decimal number, or the
/// -1.0 sentinel when the element is absent or its text does not parse.
pub open spec fn extracted_rating(html: Seq<char>) -> Rating {
    match parse_rating_spec(extracted_rating_text(html)) {
        Some(rt) => rt,
        None => rating_sentinel(),
    }
}

/// The metadata list of a detail page, in document order. Position carries the
/// meaning: item 0 is the classification, item 1 the release year, item 2 the
/// content rating, item 3 the runtime.
pub open spec fn meta_items_of(html: Seq<char>) -> Seq<(Seq<char>, Option<Seq<char>>)> {
    sel_meta_items(html, metadata_pattern(), span_pattern())
}

/// The classification: metadata item 0's inner HTML, or empty when missing.
pub open spec fn extracted_type(html: Seq<char>) -> Seq<char> {
    let items = meta_items_of(html);
    if items.len() > 0 {
        items[0].0
    } else {
        Seq::empty()
    }
}

/// The release year: metadata item 1's first span read as an integer, or 0
/// when the item or the span is missing or its text does not parse.
pub open spec fn extracted_year(html: Seq<char>) -> i64 {
    let items = meta_items_of(html);
    if items.len() > 1 {
        match items[1].1 {
            Some(t) => match parse_i64_spec(t) {
                Some(y) => y,
                None => 0i64,
            },
            None => 0i64,
        }
    } else {
        0i64
    }
}

/// The content rating: metadata item 2's first span, or "N/A" when the item or
/// the span is missing.
pub open spec fn extracted_tv_rating(html: Seq<char>) -> Seq<char> {
    let items = meta_items_of(html);
    if items.len() > 2 {
        match items[2].1 {
            Some(t) => t,
            None => "N/A"@,
        }
    } else {
        "N/A"@
    }
}

/// The runtime: metadata item 3's inner HTML with the comment markers and
/// spaces removed (first "<!--", then spaces, then "-->"), or empty when the
/// item is missing.
pub open spec fn extracted_runtime(html: Seq<char>) -> Seq<char> {
    let items = meta_items_of(html);
    if items.len() > 3 {
        remove_all(remove_all(remove_all(items[3].0, "<!--"@), " "@), "-->"@)
    } else {
        Seq::empty()
    }
}

/// A detail page missing all four metadata items yields every metadata
/// fallback: empty classification, year 0, content rating "N/A", empty
/// runtime.
pub proof fn lemma_missing_metadata_defaults(html: Seq<char>)
    requires
        meta_items_of(html).len() == 0,
    ensures
        extracted_type(html) == Seq::<char>::empty(),
        extracted_year(html) == 0,
        extracted_tv_rating(html) == "N/A"@,
        extracted_runtime(html) == Seq::<char>::empty(),
{
}

/// A rating element whose text does not read as a decimal number yields
/// exactly the sentinel rating, the value -1.0.
pub proof fn lemma_unparseable_rating_sentinel(html: Seq<char>)
    requires
        parse_rating_spec(extracted_rating_text(html)) is None,
    ensures
        extracted_rating(html) == rating_sentinel(),
{
}

/// A detail page without a rating element also yields the sentinel rating:
/// the empty text is no decimal number.
pub proof fn lemma_absent_rating_sentinel(html: Seq<char>)
    requires
        sel_first_inner(html, rating_pattern()) is None,
    ensures
        extracted_rating(html) == rating_sentinel(),
{
    assert(extracted_rating_text(html).len() == 0);
}

/// Turns a detail page's markup into a movie record, field by field, with the
/// documented fallback wherever a selector finds nothing: extraction itself
/// never fails.
pub fn convert_imdb_html_to_movie(html_document: String) -> (movie: ImdbMovie)
    ensures
        movie.name@ == extracted_title(html_document@),
        movie.plot@ == extracted_plot(html_document@),
        movie.user_rating == extracted_rating(html_document@),
        movie.movie_type@ == extracted_type(html_document@),
        movie.release_year == extracted_year(html_document@),
        movie.tv_rating@ == extracted_tv_rating(html_document@),
        movie.runtime@ == extracted_runtime(html_document@),
{
    let html = html_document.as_str();
    let name = match crate::scrape::select_first_inner(
        html,
        "[data-testid=\"hero-title-block__title\"]",
    ) {
        Some(t) => t,
        None => String::new(),
    };
    let plot = match crate::scrape::select_first_inner(html, "[data-testid=\"plot-l\"]") {
        Some(t) => t,
        None => String::new(),
    };
    let rating_text = match crate::scrape::select_first_inner(
        html,
        "[data-testid=\"hero-rating-bar__aggregate-rating__score\"] > span",
    ) {
        Some(t) => t,
        None => String::new(),
    };
    let user_rating = match crate::numbers::parse_rating(rating_text.as_str()) {
        Some(rt) => rt,
        None => rating_not_found(),
    };
    let meta = crate::scrape::select_meta_items(
        html,
        "[data-testid=\"hero-title-block__metadata\"] > li",
        "span",
    );
    let movie_type = if meta.len() > 0 {
        meta[0].inner.clone()
    } else {
        String::new()
    };
    let release_year = if meta.len() > 1 {
        match &meta[1].first_span {
            Some(t) => match crate::numbers::parse_integer(t.as_str()) {
                Some(y) => y,
                None => 0,
            },
            None => 0,
        }
    } else {
        0
    };
    let tv_rating = if meta.len() > 2 {
        match &meta[2].first_span {
            Some(t) => t.clone(),
            None => String::from_str("N/A"),
        }
    } else {
        String::from_str("N/A")
    };
    let runtime = if meta.len() > 3 {
        let r1 = crate::text::remove_substr(meta[3].inner.as_str(), "<!--");
        let r2 = crate::text::remove_substr(r1.as_str(), " ");
        crate::text::remove_substr(r2.as_str(), "-->")
    } else {
        String::new()
    };
    ImdbMovie { name, user_rating, plot, movie_type, tv_rating, release_year, runtime }
}

} // verus!

use vstd::prelude::*;

verus! {

/// One item of a document's metadata list: the item's inner HTML and the inner
/// HTML of its first descendant span, if it has one.
pub struct MetaItem {
    pub inner: String,
    pub first_span: Option<String>,
}

/// The inner HTML of the first element of the parsed document that matches the
/// selector pattern, if any; a function of the document text and the pattern
/// alone.
pub uninterp spec fn sel_first_inner(html: Seq<char>, pattern: Seq<char>) -> Option<Seq<char>>;

/// The elements of the parsed document that match the item pattern, in document
/// order: for each, its inner HTML and the inner HTML of its first descendant
/// matching the span pattern; a function of the document text and the patterns
/// alone.
pub uninterp spec fn sel_meta_items(
    html: Seq<char>,
    item_pattern: Seq<char>,
    span_pattern: Seq<char>,
) -> Seq<(Seq<char>, Option<Seq<char>>)>;

/// Relies on scraper's Html::parse_document, Selector::parse, Html::select and
/// ElementRef::inner_html: parses the document, takes the first element that
/// matches the pattern and serializes its children. All of them compute from
/// their arguments alone; a pattern that does not compile as a CSS selector
/// matches nothing.
#[verifier::external_body]
pub fn select_first_inner(html: &str, pattern: &str) -> (r: Option<String>)
    ensures
        (r is Some) == (sel_first_inner(html@, pattern@) is Some),
        (r matches Some(t) ==> sel_first_inner(html@, pattern@) == Some(t@)),
{
    let doc = scraper::Html::parse_document(html);
    match scraper::Selector::parse(pattern) {
        Ok(sel) => match doc.select(&sel).next() {
            Some(e) => Some(e.inner_html()),
            None => None,
        },
        Err(_) => None,
    }
}

/// Relies on scraper's Html::parse_document, Selector::parse, the select
/// methods of Html and ElementRef, and ElementRef::inner_html: parses the
/// document and walks the elements matching the item pattern in document
/// order; for each it serializes the children, and the children of its first
/// descendant matching the span pattern. All of them compute from their
/// arguments alone; a pattern that does not compile as a CSS selector matches
/// nothing.
#[verifier::external_body]
pub fn select_meta_items(html: &str, item_pattern: &str, span_pattern: &str) -> (r: Vec<MetaItem>)
    ensures
        r@.len() == sel_meta_items(html@, item_pattern@, span_pattern@).len(),
        forall|j: int|
            0 <= j < r@.len() ==> {
                let m = #[trigger] sel_meta_items(html@, item_pattern@, span_pattern@)[j];
                r@[j].inner@ == m.0 && ((r@[j].first_span is Some) == (m.1 is Some)) && (
                r@[j].first_span matches Some(t) ==> m.1 == Some(t@))
            },
{
    let doc = scraper::Html::parse_document(html);
    let span_sel = scraper::Selector::parse(span_pattern).ok();
    let mut out = Vec::new();
    if let Ok(sel) = scraper::Selector::parse(item_pattern) {
        for e in doc.select(&sel) {
            let sp = match &span_sel { Some(ss) => e.select(ss).next(), None => None };
            let first_span = match sp { Some(x) => Some(x.inner_html()), None => None };
            out.push(MetaItem { inner: e.inner_html(), first_span });
        }
    }
    out
}

} // verus!

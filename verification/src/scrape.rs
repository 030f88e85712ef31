//! Text taken out of the remote source's pages: the pages are parsed and
//! searched by `scraper`; what is done with the text is decided here.

use vstd::prelude::*;

verus! {

/// For each element of the HTML document `page` that the CSS selector
/// `selector` matches, its descendant text nodes, elements and texts in the
/// order in which `scraper` yields them; `None` where `scraper` does not
/// accept the selector.
pub uninterp spec fn selected_texts(page: Seq<char>, selector: Seq<char>) -> Option<
    Seq<Seq<Seq<char>>>,
>;

/// For each element of the HTML document `page` that the CSS selector `outer`
/// matches, and for each of its descendants that `inner` matches, that
/// descendant's text nodes, all in the order in which `scraper` yields them;
/// `None` where `scraper` does not accept one of the selectors.
pub uninterp spec fn nested_texts(page: Seq<char>, outer: Seq<char>, inner: Seq<char>) -> Option<
    Seq<Seq<Seq<Seq<char>>>>,
>;

/// Parses `page` with `scraper::Html::parse_document` and `selector` with
/// `scraper::Selector::parse`, and walks `Html::select` and
/// `ElementRef::text`. Trusted: the texts are those named by
/// [`selected_texts`].
#[verifier::external_body]
pub(crate) fn select_texts(page: &str, selector: &str) -> (texts: Option<Vec<Vec<String>>>)
    ensures
        texts.deep_view() == selected_texts(page@, selector@),
{
    let selector = scraper::Selector::parse(selector).ok()?;
    let document = scraper::Html::parse_document(page);
    Some(
        document.select(&selector).map(
            |element| element.text().map(|piece| piece.to_string()).collect(),
        ).collect(),
    )
}

/// Parses `page` with `scraper::Html::parse_document` and both selectors with
/// `scraper::Selector::parse`, and walks `Html::select`, `ElementRef::select`
/// and `ElementRef::text`. Trusted: the texts are those named by
/// [`nested_texts`].
#[verifier::external_body]
pub(crate) fn select_nested_texts(page: &str, outer: &str, inner: &str) -> (texts: Option<
    Vec<Vec<Vec<String>>>,
>)
    ensures
        texts.deep_view() == nested_texts(page@, outer@, inner@),
{
    let outer = scraper::Selector::parse(outer).ok()?;
    let inner = scraper::Selector::parse(inner).ok()?;
    let document = scraper::Html::parse_document(page);
    Some(
        document.select(&outer).map(
            |column| column.select(&inner).map(
                |cell| cell.text().map(|piece| piece.to_string()).collect(),
            ).collect(),
        ).collect(),
    )
}

/// Whether the character has Unicode's property `White_Space`.
pub open spec fn is_white_space(c: char) -> bool {
    let code = c as u32;
    ||| 0x09 <= code <= 0x0d
    ||| code == 0x20
    ||| code == 0x85
    ||| code == 0xa0
    ||| code == 0x1680
    ||| 0x2000 <= code <= 0x200a
    ||| code == 0x2028
    ||| code == 0x2029
    ||| code == 0x202f
    ||| code == 0x205f
    ||| code == 0x3000
}

/// The text without the white space it begins with.
pub open spec fn trim_start(text: Seq<char>) -> Seq<char>
    decreases text.len(),
{
    if text.len() > 0 && is_white_space(text[0]) {
        trim_start(text.skip(1))
    } else {
        text
    }
}

/// The text without the white space it ends with.
pub open spec fn trim_end(text: Seq<char>) -> Seq<char>
    decreases text.len(),
{
    if text.len() > 0 && is_white_space(text.last()) {
        trim_end(text.drop_last())
    } else {
        text
    }
}

/// The text without the white space at either end.
pub open spec fn trimmed(text: Seq<char>) -> Seq<char> {
    trim_end(trim_start(text))
}

/// Calls `str::trim`. Trusted: the result is the text without its leading
/// and trailing characters of Unicode's property `White_Space`.
#[verifier::external_body]
pub(crate) fn trim(text: &str) -> (kept: &str)
    ensures
        kept@ == trimmed(text@),
{
    text.trim()
}

/// The pieces one after the other, as one text.
pub open spec fn joined(pieces: Seq<Seq<char>>) -> Seq<char>
    decreases pieces.len(),
{
    if pieces.len() == 0 {
        Seq::empty()
    } else {
        joined(pieces.drop_last()) + pieces.last()
    }
}

/// The pieces one after the other, each without the white space at either
/// end.
pub open spec fn joined_trimmed(pieces: Seq<Seq<char>>) -> Seq<char> {
    joined(pieces.map_values(|piece: Seq<char>| trimmed(piece)))
}

/// Joins the pieces of a text into one string.
pub fn join(pieces: &Vec<String>) -> (text: String)
    ensures
        text@ == joined(pieces.deep_view()),
{
    let mut text = String::new();
    let mut at: usize = 0;
    assert(pieces.deep_view().take(0) =~= Seq::empty());
    while at < pieces.len()
        invariant
            at <= pieces.len(),
            text@ == joined(pieces.deep_view().take(at as int)),
        decreases pieces.len() - at,
    {
        proof {
            assert(pieces.deep_view().take(at + 1).drop_last() =~= pieces.deep_view().take(at as int));
            assert(pieces.deep_view().take(at + 1).last() == pieces[at as int]@);
        }
        text.append(pieces[at].as_str());
        at += 1;
    }
    assert(pieces.deep_view().take(at as int) =~= pieces.deep_view());
    text
}

/// Joins the pieces of a text into one string, each piece without the white
/// space at either end.
pub fn join_trimmed(pieces: &Vec<String>) -> (text: String)
    ensures
        text@ == joined_trimmed(pieces.deep_view()),
{
    let ghost cut = pieces.deep_view().map_values(|piece: Seq<char>| trimmed(piece));
    let mut text = String::new();
    let mut at: usize = 0;
    assert(cut.take(0) =~= Seq::empty());
    while at < pieces.len()
        invariant
            at <= pieces.len(),
            cut == pieces.deep_view().map_values(|piece: Seq<char>| trimmed(piece)),
            text@ == joined(cut.take(at as int)),
        decreases pieces.len() - at,
    {
        proof {
            assert(cut.take(at + 1).drop_last() =~= cut.take(at as int));
            assert(cut.take(at + 1).last() == trimmed(pieces[at as int]@));
        }
        text.append(trim(pieces[at].as_str()));
        at += 1;
    }
    assert(cut.take(at as int) =~= cut);
    text
}

/// Joins the pieces of a text into one string and drops the white space at
/// either end of it.
pub fn join_and_trim(pieces: &Vec<String>) -> (text: String)
    ensures
        text@ == trimmed(joined(pieces.deep_view())),
{
    let whole = join(pieces);
    String::from_str(trim(whole.as_str()))
}

} // verus!

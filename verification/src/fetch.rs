//! Reading the remote source's pages: the headers and members of the index
//! page, and the details of an API's own page.

use vstd::prelude::*;
use crate::error::{result_view, CacheError, CacheErrorView, DetailFault};
use crate::output::{Details, DetailsView};
use crate::scrape::{
    join, join_and_trim, join_trimmed, joined, joined_trimmed, nested_texts, select_nested_texts,
    select_texts, selected_texts, trimmed,
};

verus! {

/// The headers that the texts of the index page's header cells make.
pub open spec fn headers_from(texts: Seq<Seq<Seq<char>>>) -> Seq<Seq<char>> {
    texts.map_values(|pieces: Seq<Seq<char>>| joined_trimmed(pieces))
}

/// The member names that the texts of the index page's columns make.
pub open spec fn members_from(texts: Seq<Seq<Seq<Seq<char>>>>) -> Seq<Seq<Seq<char>>> {
    texts.map_values(
        |column: Seq<Seq<Seq<char>>>| column.map_values(|pieces: Seq<Seq<char>>| joined(pieces)),
    )
}

/// The text of the content block at `place` of a detail page, without the
/// white space around it.
pub open spec fn content_at(contents: Seq<Seq<Seq<char>>>, place: int) -> Seq<char> {
    trimmed(joined(contents[place]))
}

/// The details asked for that the content blocks of the detail page of
/// `name` give: the summary is the second block, the library the third, the
/// documentation link the fifth. The first one asked for and missing is the
/// fault.
pub open spec fn details_from(
    name: Seq<char>,
    contents: Seq<Seq<Seq<char>>>,
    info: bool,
    library: bool,
    documentation: bool,
) -> Result<DetailsView, CacheErrorView> {
    if info && contents.len() <= 1 {
        Err(CacheErrorView::DetailFetchFailed { name, fault: DetailFault::NoInfo })
    } else if library && contents.len() <= 2 {
        Err(CacheErrorView::DetailFetchFailed { name, fault: DetailFault::NoLibrary })
    } else if documentation && contents.len() <= 4 {
        Err(CacheErrorView::DetailFetchFailed { name, fault: DetailFault::NoDocumentation })
    } else {
        Ok(
            DetailsView {
                info: if info { Some(content_at(contents, 1)) } else { None },
                library: if library { Some(content_at(contents, 2)) } else { None },
                documentation: if documentation { Some(content_at(contents, 4)) } else { None },
            },
        )
    }
}

/// What the index page gives as headers: the text of each `th` element.
pub open spec fn page_headers(page: Seq<char>) -> Result<Seq<Seq<char>>, CacheErrorView> {
    match selected_texts(page, "th"@) {
        Some(texts) => Ok(headers_from(texts)),
        None => Err(CacheErrorView::InvalidSelector),
    }
}

/// What the index page gives as members: for each column, the text of each
/// of its items.
pub open spec fn page_members(page: Seq<char>) -> Result<Seq<Seq<Seq<char>>>, CacheErrorView> {
    match nested_texts(page, "td > table > tbody"@, ".map-item"@) {
        Some(texts) => Ok(members_from(texts)),
        None => Err(CacheErrorView::InvalidSelector),
    }
}

/// What the detail page of `name` gives as details.
pub open spec fn page_details(
    name: Seq<char>,
    page: Seq<char>,
    info: bool,
    library: bool,
    documentation: bool,
) -> Result<DetailsView, CacheErrorView> {
    match selected_texts(page, ".content"@) {
        Some(contents) => details_from(name, contents, info, library, documentation),
        None => Err(CacheErrorView::InvalidSelector),
    }
}

/// Makes the headers out of the texts of the header cells: the pieces of a
/// cell are trimmed and joined.
pub fn headers_of_texts(texts: &Vec<Vec<String>>) -> (headers: Vec<String>)
    ensures
        headers.deep_view() == headers_from(texts.deep_view()),
{
    let mut headers: Vec<String> = Vec::new();
    let mut at: usize = 0;
    while at < texts.len()
        invariant
            at <= texts.len(),
            headers.len() == at,
            forall|i: int| 0 <= i < at ==> (#[trigger] headers[i])@ == joined_trimmed(texts[i].deep_view()),
        decreases texts.len() - at,
    {
        headers.push(join_trimmed(&texts[at]));
        at += 1;
    }
    assert(headers.deep_view() =~= headers_from(texts.deep_view()));
    headers
}

/// Makes the member names out of the texts of the columns' items: the pieces
/// of an item are joined as they are.
pub fn members_of_texts(texts: &Vec<Vec<Vec<String>>>) -> (members: Vec<Vec<String>>)
    ensures
        members.deep_view() == members_from(texts.deep_view()),
{
    let mut members: Vec<Vec<String>> = Vec::new();
    let mut at: usize = 0;
    while at < texts.len()
        invariant
            at <= texts.len(),
            members.len() == at,
            forall|i: int|
                0 <= i < at ==> (#[trigger] members[i]).deep_view() == members_from(texts.deep_view())[i],
        decreases texts.len() - at,
    {
        let column = &texts[at];
        let mut names: Vec<String> = Vec::new();
        let mut j: usize = 0;
        while j < column.len()
            invariant
                j <= column.len(),
                names.len() == j,
                forall|i: int| 0 <= i < j ==> (#[trigger] names[i])@ == joined(column[i].deep_view()),
            decreases column.len() - j,
        {
            names.push(join(&column[j]));
            j += 1;
        }
        assert(names.deep_view() =~= members_from(texts.deep_view())[at as int]);
        members.push(names);
        at += 1;
    }
    assert(members.deep_view() =~= members_from(texts.deep_view()));
    members
}

/// Makes the details asked for out of the content blocks of the detail page
/// of `name`, or names the first block that is asked for and missing.
pub fn details_of_contents(
    name: &String,
    contents: &Vec<Vec<String>>,
    info: bool,
    library: bool,
    documentation: bool,
) -> (made: Result<Details, CacheError>)
    ensures
        result_view(made) == details_from(name@, contents.deep_view(), info, library, documentation),
{
    if info && contents.len() <= 1 {
        return Err(CacheError::DetailFetchFailed { name: name.clone(), fault: DetailFault::NoInfo });
    }
    if library && contents.len() <= 2 {
        return Err(
            CacheError::DetailFetchFailed { name: name.clone(), fault: DetailFault::NoLibrary },
        );
    }
    if documentation && contents.len() <= 4 {
        return Err(
            CacheError::DetailFetchFailed { name: name.clone(), fault: DetailFault::NoDocumentation },
        );
    }
    Ok(
        Details {
            info: if info { Some(join_and_trim(&contents[1])) } else { None },
            library: if library { Some(join_and_trim(&contents[2])) } else { None },
            documentation: if documentation { Some(join_and_trim(&contents[4])) } else { None },
        },
    )
}

/// Scrapes headers from the HTML of the index page
pub fn get_headers(page: &str) -> (headers: Result<Vec<String>, CacheError>)
    ensures
        result_view(headers) == page_headers(page@),
{
    match select_texts(page, "th") {
        Some(texts) => Ok(headers_of_texts(&texts)),
        None => Err(CacheError::InvalidSelector),
    }
}

/// Scrapes APIs from the HTML of the index page
pub fn get_apis(page: &str) -> (members: Result<Vec<Vec<String>>, CacheError>)
    ensures
        result_view(members) == page_members(page@),
{
    match select_nested_texts(page, "td > table > tbody", ".map-item") {
        Some(texts) => Ok(members_of_texts(&texts)),
        None => Err(CacheError::InvalidSelector),
    }
}

/// Scrapes info/library/documentation URL from the HTML of the details page
/// of the API `name`
pub fn get_details(name: &String, page: &str, info: bool, library: bool, documentation: bool) -> (made:
    Result<Details, CacheError>)
    ensures
        result_view(made) == page_details(name@, page@, info, library, documentation),
{
    match select_texts(page, ".content") {
        Some(contents) => details_of_contents(name, &contents, info, library, documentation),
        None => Err(CacheError::InvalidSelector),
    }
}

} // verus!

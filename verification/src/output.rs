//! The data handed to a renderer: output formats, optional details of an
//! import, and the suspect imports grouped by category.

use vstd::prelude::*;

verus! {

/// All possible output formats
#[non_exhaustive]
#[derive(Clone, Copy, Debug, PartialEq, Eq)]
pub enum Format {
    /// Standard output
    TXT,
    /// JavaScript Object Notation
    JSON,
    /// Yet Another Markup Language
    YAML,
    /// Tom's Obvious Minimal Language
    TOML,
    /// Comma Separated Values, WARNING: output path MUST be directory
    CSV,
}

/// What a [`Details`] stands for in contracts.
pub struct DetailsView {
    pub info: Option<Seq<char>>,
    pub library: Option<Seq<char>>,
    pub documentation: Option<Seq<char>>,
}

/// Contains optional details about imports.
pub struct Details {
    /// Summary of API functionality
    pub info: Option<String>,
    /// Library from which API is imported
    pub library: Option<String>,
    /// Link to API documentation
    pub documentation: Option<String>,
}

impl View for Details {
    type V = DetailsView;

    open spec fn view(&self) -> DetailsView {
        DetailsView {
            info: self.info.deep_view(),
            library: self.library.deep_view(),
            documentation: self.documentation.deep_view(),
        }
    }
}

impl DeepView for Details {
    type V = DetailsView;

    open spec fn deep_view(&self) -> DetailsView {
        self@
    }
}

/// The details of which none is given.
pub open spec fn no_details() -> DetailsView {
    DetailsView { info: None, library: None, documentation: None }
}

impl Default for Details {
    fn default() -> (details: Details)
        ensures
            details@ == no_details(),
    {
        Details { info: None, library: None, documentation: None }
    }
}

/// What a [`SuspectImport`] stands for in contracts.
pub struct SuspectView {
    pub name: Seq<char>,
    pub info: Option<Seq<char>>,
    pub library: Option<Seq<char>>,
    pub documentation: Option<Seq<char>>,
}

/// Contains all of the suspect API's relevant data
pub struct SuspectImport<'a> {
    /// Name of API
    pub name: &'a String,
    /// Summary of API functionality
    pub info: Option<&'a String>,
    /// Library from which API is imported
    pub library: Option<&'a String>,
    /// Link to API documentation
    pub documentation: Option<&'a String>,
}

/// What an optional text stands for in contracts.
pub open spec fn text_view(text: Option<&String>) -> Option<Seq<char>> {
    match text {
        Some(text) => Some(text@),
        None => None,
    }
}

impl<'a> View for SuspectImport<'a> {
    type V = SuspectView;

    open spec fn view(&self) -> SuspectView {
        SuspectView {
            name: self.name@,
            info: text_view(self.info),
            library: text_view(self.library),
            documentation: text_view(self.documentation),
        }
    }
}

impl<'a> DeepView for SuspectImport<'a> {
    type V = SuspectView;

    open spec fn deep_view(&self) -> SuspectView {
        self@
    }
}

/// The number of fields that a suspect import fills: its name and each
/// detail that is given.
pub open spec fn filled_fields(suspect: SuspectView) -> nat {
    1 + (if suspect.info is Some { 1nat } else { 0 }) + (if suspect.library is Some { 1nat } else { 0 })
        + (if suspect.documentation is Some { 1nat } else { 0 })
}

impl SuspectImport<'_> {
    /// The number of fields that are filled: the name and each detail given.
    pub fn len(&self) -> (count: usize)
        ensures
            count == filled_fields(self@),
    {
        let mut count: usize = 1;
        if self.info.is_some() {
            count += 1;
        }
        if self.library.is_some() {
            count += 1;
        }
        if self.documentation.is_some() {
            count += 1;
        }
        count
    }
}

/// The link as a terminal shows it: the word `[link]`, pointing to `url` by
/// an OSC 8 escape sequence; nothing where there is no link.
pub open spec fn link_text(url: Option<Seq<char>>) -> Seq<char> {
    match url {
        Some(url) => "\x1B]8;;"@ + url + "\x1B\\"@ + "[link]"@ + "\x1B]8;;\x1B\\"@,
        None => Seq::empty(),
    }
}

/// Shortens URLs to `[link]` with OSC8 ANSI styled hyperlinks
pub fn format_url(url: &Option<&String>) -> (text: String)
    ensures
        text@ == link_text(text_view(*url)),
{
    match url {
        Some(url) => {
            let mut text = String::from_str("\x1B]8;;");
            text.append(url.as_str());
            text.append("\x1B\\");
            text.append("[link]");
            text.append("\x1B]8;;\x1B\\");
            text
        },
        None => String::new(),
    }
}

/// The suspect import that a matched name and its details make.
pub open spec fn suspect_of(name: Seq<char>, details: DetailsView) -> SuspectView {
    SuspectView {
        name,
        info: details.info,
        library: details.library,
        documentation: details.documentation,
    }
}

/// The details at row `i`, place `j`, where details are given and reach
/// that far; none else.
pub open spec fn details_at(details: Option<Seq<Seq<DetailsView>>>, i: int, j: int) -> DetailsView {
    match details {
        Some(rows) => if 0 <= i < rows.len() && 0 <= j < rows[i].len() {
            rows[i][j]
        } else {
            no_details()
        },
        None => no_details(),
    }
}

/// The suspect imports that matched names and their details make, category
/// by category.
pub open spec fn suspects_of(
    matches: Seq<Seq<Seq<char>>>,
    details: Option<Seq<Seq<DetailsView>>>,
) -> Seq<Seq<SuspectView>> {
    Seq::new(
        matches.len(),
        |i: int|
            Seq::new(matches[i].len(), |j: int| suspect_of(matches[i][j], details_at(details, i, j))),
    )
}

/// The borrowed text of an optional string.
fn borrowed<'a>(text: &'a Option<String>) -> (out: Option<&'a String>)
    ensures
        text_view(out) == text.deep_view(),
{
    match text {
        Some(text) => Some(text),
        None => None,
    }
}

/// Pairs every matched name with its details, category by category. A name
/// for which no details are given has none.
pub fn suspects<'a>(matches: &'a Vec<Vec<String>>, details: Option<&'a Vec<Vec<Details>>>) -> (found: Vec<
    Vec<SuspectImport<'a>>,
>)
    ensures
        found.deep_view() == suspects_of(
            matches.deep_view(),
            match details {
                Some(rows) => Some(rows.deep_view()),
                None => None,
            },
        ),
{
    let ghost given = match details {
        Some(rows) => Some(rows.deep_view()),
        None => None,
    };
    let ghost wanted = suspects_of(matches.deep_view(), given);
    let mut found: Vec<Vec<SuspectImport<'a>>> = Vec::new();
    let mut i: usize = 0;
    while i < matches.len()
        invariant
            i <= matches.len(),
            found.len() == i,
            given == match details {
                Some(rows) => Some(rows.deep_view()),
                None => None,
            },
            wanted == suspects_of(matches.deep_view(), given),
            forall|k: int| 0 <= k < i ==> (#[trigger] found[k]).deep_view() == wanted[k],
        decreases matches.len() - i,
    {
        let category = &matches[i];
        let mut row: Vec<SuspectImport<'a>> = Vec::new();
        let mut j: usize = 0;
        while j < category.len()
            invariant
                j <= category.len(),
                i < matches.len(),
                category == matches[i as int],
                row.len() == j,
                given == match details {
                    Some(rows) => Some(rows.deep_view()),
                    None => None,
                },
                wanted == suspects_of(matches.deep_view(), given),
                forall|k: int| 0 <= k < j ==> (#[trigger] row[k])@ == wanted[i as int][k],
            decreases category.len() - j,
        {
            let suspect = match details {
                Some(rows) if i < rows.len() && j < rows[i].len() => {
                    let detail = &rows[i][j];
                    assert(rows.deep_view()[i as int][j as int] == detail@);
                    SuspectImport {
                        name: &category[j],
                        info: borrowed(&detail.info),
                        library: borrowed(&detail.library),
                        documentation: borrowed(&detail.documentation),
                    }
                },
                _ => SuspectImport {
                    name: &category[j],
                    info: None,
                    library: None,
                    documentation: None,
                },
            };
            assert(matches.deep_view()[i as int][j as int] == category[j as int]@);
            row.push(suspect);
            j += 1;
        }
        assert(row.deep_view() =~= wanted[i as int]);
        found.push(row);
        i += 1;
    }
    assert(found.deep_view() =~= wanted);
    found
}

/// The names of the columns of a table of suspect imports: the name, and
/// each detail that is shown.
pub open spec fn columns_of(info: bool, library: bool, documentation: bool) -> Seq<Seq<char>> {
    seq!["name"@] + (if info { seq!["info"@] } else { Seq::empty() }) + (if library {
        seq!["library"@]
    } else {
        Seq::empty()
    }) + (if documentation { seq!["documentation"@] } else { Seq::empty() })
}

/// The header row of a table of suspect imports: `name`, then `info`,
/// `library` and `documentation` as far as they are shown.
pub fn table_headers(info: bool, library: bool, documentation: bool) -> (columns: Vec<String>)
    ensures
        columns.deep_view() == columns_of(info, library, documentation),
{
    let mut columns: Vec<String> = Vec::new();
    columns.push(String::from_str("name"));
    if info {
        columns.push(String::from_str("info"));
    }
    if library {
        columns.push(String::from_str("library"));
    }
    if documentation {
        columns.push(String::from_str("documentation"));
    }
    assert(columns.deep_view() =~= columns_of(info, library, documentation));
    columns
}

/// The number of empty fields that stand for a suspect import in a table
/// with the given columns where it cannot be written as it is: as many as
/// the header row has more than the import fills.
pub fn blank_fields(import: &SuspectImport<'_>, info: bool, library: bool, documentation: bool) -> (count:
    usize)
    ensures
        count == (if columns_of(info, library, documentation).len() >= filled_fields(import@) {
            columns_of(info, library, documentation).len() - filled_fields(import@)
        } else {
            0
        }),
{
    let mut columns: usize = 1;
    if info {
        columns += 1;
    }
    if library {
        columns += 1;
    }
    if documentation {
        columns += 1;
    }
    let filled = import.len();
    if columns >= filled {
        columns - filled
    } else {
        0
    }
}

/// How the table of one category is laid out: which details have a column
/// beside the name, and how wide a cell may get before its text is wrapped.
#[derive(Clone, Copy, Debug, PartialEq, Eq, Structural)]
pub struct TableLayout {
    pub info: bool,
    pub library: bool,
    pub documentation: bool,
    pub cell_width: usize,
}

/// The number of columns of a layout.
pub open spec fn column_count(layout: TableLayout) -> int {
    1 + (if layout.info { 1int } else { 0 }) + (if layout.library { 1int } else { 0 }) + (
    if layout.documentation { 1int } else { 0 })
}

/// The layout of the table of a category within `total_width`: a detail has
/// a column where the first suspect import gives it, an empty category has
/// the name column alone, and the columns share the width evenly.
pub open spec fn layout_of(category: Seq<SuspectView>, total_width: usize) -> TableLayout {
    let info = category.len() > 0 && category[0].info is Some;
    let library = category.len() > 0 && category[0].library is Some;
    let documentation = category.len() > 0 && category[0].documentation is Some;
    let columns = column_count(TableLayout { info, library, documentation, cell_width: 0 });
    TableLayout { info, library, documentation, cell_width: (total_width as int / columns) as usize }
}

/// Lays out the table of one category within `total_width`.
pub fn layout_table(category: &Vec<SuspectImport<'_>>, total_width: usize) -> (layout: TableLayout)
    ensures
        layout == layout_of(category.deep_view(), total_width),
{
    let mut info = false;
    let mut library = false;
    let mut documentation = false;
    let mut total_columns: usize = 1;
    if category.len() > 0 {
        assert(category.deep_view()[0] == category[0]@);
        if category[0].info.is_some() {
            info = true;
            total_columns += 1;
        }
        if category[0].library.is_some() {
            library = true;
            total_columns += 1;
        }
        if category[0].documentation.is_some() {
            documentation = true;
            total_columns += 1;
        }
    }
    TableLayout { info, library, documentation, cell_width: total_width / total_columns }
}

/// Creates a [Vec] of pairs of headers and table layouts constrained
/// to a certain width (approximately). None where headers and categories are
/// not aligned.
pub fn create_tables(output: &Output, total_width: &usize) -> (tables: Option<Vec<(String, TableLayout)>>)
    ensures
        tables is Some == output.aligned(),
        tables matches Some(list) ==> {
            &&& list.len() == output.suspect_imports.len()
            &&& forall|k: int|
                0 <= k < list.len() ==> (#[trigger] list[k]).0@ == output.headers[k]@ && list[k].1
                    == layout_of(output.suspect_imports[k].deep_view(), *total_width)
        },
{
    if output.headers.len() != output.suspect_imports.len() {
        return None;
    }
    let mut list: Vec<(String, TableLayout)> = Vec::new();
    let mut k: usize = 0;
    while k < output.suspect_imports.len()
        invariant
            k <= output.suspect_imports.len(),
            output.headers.len() == output.suspect_imports.len(),
            list.len() == k,
            forall|i: int|
                0 <= i < k ==> (#[trigger] list[i]).0@ == output.headers[i]@ && list[i].1 == layout_of(
                    output.suspect_imports[i].deep_view(),
                    *total_width,
                ),
        decreases output.suspect_imports.len() - k,
    {
        let layout = layout_table(&output.suspect_imports[k], *total_width);
        list.push((output.headers[k].clone(), layout));
        k += 1;
    }
    Some(list)
}

/// The text of the first `count` categories: for each that holds a suspect
/// import, its header and a colon on one line, then its table.
pub open spec fn text_of(
    headers: Seq<Seq<char>>,
    categories: Seq<Seq<SuspectView>>,
    tables: Seq<Seq<char>>,
    count: int,
) -> Seq<char>
    decreases count,
{
    if count <= 0 {
        Seq::empty()
    } else {
        let before = text_of(headers, categories, tables, count - 1);
        if categories[count - 1].len() > 0 {
            before + headers[count - 1] + ":\n"@ + tables[count - 1] + "\n"@
        } else {
            before
        }
    }
}

/// The smallest of three lengths.
pub open spec fn least(a: int, b: int, c: int) -> int {
    if a <= b && a <= c {
        a
    } else if b <= c {
        b
    } else {
        c
    }
}

/// Wrapper to group headers and suspect imports for outputting
pub struct Output<'b> {
    /// [Vec] of technique categories
    pub headers: Vec<String>,
    /// 2D [Vec] of suspect APIs by technique category
    pub suspect_imports: Vec<Vec<SuspectImport<'b>>>,
}

/// The categories that are put out: those that hold a suspect import, by
/// their places, in order.
pub open spec fn shown(categories: Seq<Seq<SuspectView>>) -> Seq<int> {
    Seq::new(categories.len(), |k: int| k).filter(|k: int| categories[k].len() > 0)
}

impl Output<'_> {
    /// Headers and categories are aligned.
    pub open spec fn aligned(&self) -> bool {
        self.headers.len() == self.suspect_imports.len()
    }

    /// Output as plain text: `tables` holds the rendered table of each
    /// category, and every category that holds a suspect import is put out
    /// under its header, as far as headers, categories and tables reach.
    pub fn txt(&self, tables: &Vec<String>) -> (text: String)
        ensures
            text@ == text_of(
                self.headers.deep_view(),
                self.suspect_imports.deep_view(),
                tables.deep_view(),
                least(self.headers.len() as int, self.suspect_imports.len() as int, tables.len() as int),
            ),
    {
        let ghost headers = self.headers.deep_view();
        let ghost categories = self.suspect_imports.deep_view();
        let ghost rendered = tables.deep_view();
        let mut text = String::new();
        let mut k: usize = 0;
        while k < self.headers.len() && k < self.suspect_imports.len() && k < tables.len()
            invariant
                k <= self.headers.len(),
                k <= self.suspect_imports.len(),
                k <= tables.len(),
                headers == self.headers.deep_view(),
                categories == self.suspect_imports.deep_view(),
                rendered == tables.deep_view(),
                text@ == text_of(headers, categories, rendered, k as int),
            decreases self.headers.len() - k,
        {
            assert(categories[k as int].len() == self.suspect_imports[k as int].len());
            if self.suspect_imports[k].len() > 0 {
                text.append(self.headers[k].as_str());
                text.append(":\n");
                text.append(tables[k].as_str());
                text.append("\n");
            }
            k += 1;
        }
        text
    }

    /// The places of the categories that are put out: those that hold a
    /// suspect import. None where headers and categories are not aligned.
    pub fn entries(&self) -> (places: Option<Vec<usize>>)
        ensures
            places is Some == self.aligned(),
            places matches Some(list) ==> list@.map_values(|k: usize| k as int) == shown(
                self.suspect_imports.deep_view(),
            ),
    {
        if self.headers.len() != self.suspect_imports.len() {
            return None;
        }
        let ghost categories = self.suspect_imports.deep_view();
        let ghost all = Seq::new(categories.len(), |k: int| k);
        let ghost kept = |k: int| categories[k].len() > 0;
        let mut list: Vec<usize> = Vec::new();
        let mut at: usize = 0;
        proof {
            reveal(Seq::filter);
            assert(all.take(0) =~= Seq::<int>::empty());
            assert(list@.map_values(|k: usize| k as int) =~= all.take(0).filter(kept));
        }
        while at < self.suspect_imports.len()
            invariant
                at <= self.suspect_imports.len(),
                categories == self.suspect_imports.deep_view(),
                all == Seq::new(categories.len(), |k: int| k),
                kept == |k: int| categories[k].len() > 0,
                list@.map_values(|k: usize| k as int) == all.take(at as int).filter(kept),
            decreases self.suspect_imports.len() - at,
        {
            let ghost before = list@.map_values(|k: usize| k as int);
            proof {
                reveal(Seq::filter);
                assert(all.take(at + 1).drop_last() =~= all.take(at as int));
                assert(all.take(at + 1).last() == at as int);
                assert(categories[at as int].len() == self.suspect_imports[at as int].len());
            }
            if self.suspect_imports[at].len() > 0 {
                list.push(at);
                assert(list@.map_values(|k: usize| k as int) =~= before.push(at as int));
            }
            at += 1;
        }
        assert(all.take(at as int) =~= all);
        Some(list)
    }
}

} // verus!

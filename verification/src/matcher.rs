//! The matcher: which import names of a binary each category of a store knows.

use vstd::prelude::*;
use crate::cache::{
    find_record, lemma_names_distinct, name_lists, names_of, well_formed, ApiView, Cache, CacheView,
};
use crate::output::{no_details, Details, DetailsView};

verus! {

/// The names of `names` that `imports` holds, in the order of `names`.
pub open spec fn common_names(names: Seq<Seq<char>>, imports: Set<Seq<char>>) -> Seq<Seq<char>> {
    names.filter(|name: Seq<char>| imports.contains(name))
}

/// For each category of `store` in turn, its names that `imports` holds.
pub open spec fn matches_of(imports: Set<Seq<char>>, store: CacheView) -> Seq<Seq<Seq<char>>> {
    Seq::new(
        store.categories.len(),
        |k: int| common_names(names_of(store.categories[k]), imports),
    )
}

/// Tells whether `list` holds `name`, compared letter by letter.
pub fn holds_name(list: &Vec<String>, name: &String) -> (held: bool)
    ensures
        held == list.deep_view().to_set().contains(name@),
{
    let mut at: usize = 0;
    while at < list.len()
        invariant
            at <= list.len(),
            forall|j: int| 0 <= j < at ==> (#[trigger] list[j])@ != name@,
        decreases list.len() - at,
    {
        if list[at] == *name {
            assert(list.deep_view()[at as int] == name@);
            return true;
        }
        at += 1;
    }
    assert forall|j: int| 0 <= j < list.deep_view().len() implies list.deep_view()[j] != name@ by {
        assert(list[j]@ != name@);
    }
    false
}

/// The names of `names` that `imports` holds too, in the order of `names`.
pub fn intersect(names: &Vec<String>, imports: &Vec<String>) -> (common: Vec<String>)
    ensures
        common.deep_view() == common_names(names.deep_view(), imports.deep_view().to_set()),
{
    let ghost all = names.deep_view();
    let ghost wanted = |name: Seq<char>| imports.deep_view().to_set().contains(name);
    let mut common: Vec<String> = Vec::new();
    let mut at: usize = 0;
    proof {
        reveal(Seq::filter);
        assert(all.take(0) =~= Seq::<Seq<char>>::empty());
        assert(common.deep_view() =~= all.take(0).filter(wanted));
    }
    while at < names.len()
        invariant
            at <= names.len(),
            all == names.deep_view(),
            wanted == |name: Seq<char>| imports.deep_view().to_set().contains(name),
            common.deep_view() == all.take(at as int).filter(wanted),
        decreases names.len() - at,
    {
        let ghost before = common.deep_view();
        proof {
            reveal(Seq::filter);
            assert(all.take(at + 1).drop_last() =~= all.take(at as int));
            assert(all.take(at + 1).last() == names[at as int]@);
        }
        if holds_name(imports, &names[at]) {
            common.push(names[at].clone());
            assert(common.deep_view() =~= before.push(names[at as int]@));
        }
        at += 1;
    }
    assert(all.take(at as int) =~= all);
    common
}

/// For each category of `store` in turn, the names of its records that
/// `imports` holds: an empty list where there is none, in the order of the
/// category's records.
pub fn match_imports(imports: &Vec<String>, store: &Cache) -> (matches: Vec<Vec<String>>)
    ensures
        matches.deep_view() == matches_of(imports.deep_view().to_set(), store@),
{
    let lists = store.get_apis();
    let mut matches: Vec<Vec<String>> = Vec::new();
    let mut k: usize = 0;
    assert(lists.len() == store@.categories.len()) by {
        assert(lists.deep_view().len() == name_lists(store@).len());
    }
    while k < lists.len()
        invariant
            k <= lists.len(),
            lists.len() == store@.categories.len(),
            matches.len() == k,
            lists.deep_view() == name_lists(store@),
            forall|i: int|
                0 <= i < k ==> (#[trigger] matches[i]).deep_view() == common_names(
                    names_of(store@.categories[i]),
                    imports.deep_view().to_set(),
                ),
        decreases lists.len() - k,
    {
        let common = intersect(&lists[k], imports);
        proof {
            assert(lists[k as int].deep_view() == lists.deep_view()[k as int]);
            assert(name_lists(store@)[k as int] == names_of(store@.categories[k as int]));
        }
        matches.push(common);
        k += 1;
    }
    assert(matches.deep_view() =~= matches_of(imports.deep_view().to_set(), store@));
    matches
}

/// The details that are asked for of a record, none of them where the record
/// is missing.
pub open spec fn details_of(
    record: Option<ApiView>,
    info: bool,
    library: bool,
    documentation: bool,
) -> DetailsView {
    match record {
        Some(api) => DetailsView {
            info: if info { Some(api.info) } else { None },
            library: if library { Some(api.library) } else { None },
            documentation: if documentation { Some(api.documentation) } else { None },
        },
        None => no_details(),
    }
}

/// The record of category `k` of `store` that carries `name`, if both exist.
pub open spec fn record_in(store: CacheView, k: int, name: Seq<char>) -> Option<ApiView> {
    if 0 <= k < store.categories.len() {
        find_record(store.categories[k], name)
    } else {
        None
    }
}

/// For each name of `matches`, the details asked for of the record that
/// carries it in the category of the same index.
pub open spec fn details_for(
    matches: Seq<Seq<Seq<char>>>,
    store: CacheView,
    info: bool,
    library: bool,
    documentation: bool,
) -> Seq<Seq<DetailsView>> {
    Seq::new(
        matches.len(),
        |i: int|
            Seq::new(
                matches[i].len(),
                |j: int| details_of(record_in(store, i, matches[i][j]), info, library, documentation),
            ),
    )
}

/// Looks up the details of one matched name in category `category_index`:
/// those asked for where the store holds the record, none where it does not.
pub fn lookup_details(
    store: &Cache,
    category_index: usize,
    name: &String,
    info: bool,
    library: bool,
    documentation: bool,
) -> (details: Details)
    requires
        store.wf(),
    ensures
        details@ == details_of(
            record_in(store@, category_index as int, name@),
            info,
            library,
            documentation,
        ),
{
    match store.get_api(category_index, name.as_str()) {
        Some(api) => Details {
            info: if info { Some(api.info.clone()) } else { None },
            library: if library { Some(api.library.clone()) } else { None },
            documentation: if documentation { Some(api.documentation.clone()) } else { None },
        },
        None => Details::default(),
    }
}

/// Looks up the details of every matched name, category by category, aligned
/// with `matches`.
pub fn enrich(
    matches: &Vec<Vec<String>>,
    store: &Cache,
    info: bool,
    library: bool,
    documentation: bool,
) -> (details: Vec<Vec<Details>>)
    requires
        store.wf(),
    ensures
        details.deep_view() == details_for(matches.deep_view(), store@, info, library, documentation),
{
    let ghost wanted = details_for(matches.deep_view(), store@, info, library, documentation);
    let mut details: Vec<Vec<Details>> = Vec::new();
    let mut i: usize = 0;
    while i < matches.len()
        invariant
            i <= matches.len(),
            details.len() == i,
            store.wf(),
            wanted == details_for(matches.deep_view(), store@, info, library, documentation),
            forall|k: int| 0 <= k < i ==> (#[trigger] details[k]).deep_view() == wanted[k],
        decreases matches.len() - i,
    {
        let category = &matches[i];
        let mut row: Vec<Details> = Vec::new();
        let mut j: usize = 0;
        while j < category.len()
            invariant
                j <= category.len(),
                i < matches.len(),
                category == matches[i as int],
                row.len() == j,
                store.wf(),
                wanted == details_for(matches.deep_view(), store@, info, library, documentation),
                forall|k: int| 0 <= k < j ==> (#[trigger] row[k])@ == wanted[i as int][k],
            decreases category.len() - j,
        {
            let found = lookup_details(store, i, &category[j], info, library, documentation);
            assert(matches.deep_view()[i as int][j as int] == category[j as int]@);
            row.push(found);
            j += 1;
        }
        assert(row.deep_view() =~= wanted[i as int]);
        details.push(row);
        i += 1;
    }
    assert(details.deep_view() =~= wanted);
    details
}

/// Every name matched in a category is an import name and the name of a record
/// of that category.
pub proof fn lemma_match_within_both(imports: Set<Seq<char>>, store: CacheView, k: int)
    requires
        0 <= k < store.categories.len(),
    ensures
        matches_of(imports, store)[k].to_set().subset_of(imports),
        matches_of(imports, store)[k].to_set().subset_of(name_lists(store)[k].to_set()),
{
    lemma_match_is_intersection(imports, store, k);
}

/// The names matched in a category are exactly those that are both import
/// names and names of records of that category.
pub proof fn lemma_match_is_intersection(imports: Set<Seq<char>>, store: CacheView, k: int)
    requires
        0 <= k < store.categories.len(),
    ensures
        matches_of(imports, store)[k].to_set() == imports.intersect(name_lists(store)[k].to_set()),
{
    let names = names_of(store.categories[k]);
    let wanted = |name: Seq<char>| imports.contains(name);
    let common = names.filter(wanted);
    assert(name_lists(store)[k] == names);
    assert(matches_of(imports, store)[k] == common);
    broadcast use vstd::seq_lib::group_filter_ensures;
    assert forall|name: Seq<char>| common.to_set().contains(name) <==> imports.intersect(
        names.to_set(),
    ).contains(name) by {
        if common.contains(name) {
            let at = choose|i: int| 0 <= i < common.len() && common[i] == name;
            assert(wanted(common[at]));
            names.lemma_filter_contains_rev(wanted, name);
        }
        if imports.contains(name) && names.contains(name) {
            let at = choose|i: int| 0 <= i < names.len() && names[i] == name;
            assert(wanted(names[at]));
            assert(common.contains(names[at]));
        }
    }
    assert(common.to_set() =~= imports.intersect(names.to_set()));
}

/// Matching depends on nothing but the set of import names and the store: two
/// lists that hold the same names give the same matches, whatever their order
/// and however often a name is repeated.
pub proof fn lemma_match_repeatable(first: Seq<Seq<char>>, second: Seq<Seq<char>>, store: CacheView)
    requires
        forall|name: Seq<char>| first.contains(name) <==> second.contains(name),
    ensures
        matches_of(first.to_set(), store) == matches_of(second.to_set(), store),
{
    assert(first.to_set() =~= second.to_set());
}

/// Names without repeats have no repeats among those that `imports` holds.
pub proof fn lemma_common_names_distinct(names: Seq<Seq<char>>, imports: Set<Seq<char>>)
    requires
        names.no_duplicates(),
    ensures
        common_names(names, imports).no_duplicates(),
    decreases names.len(),
{
    reveal(Seq::filter);
    let wanted = |name: Seq<char>| imports.contains(name);
    if names.len() > 0 {
        let before = names.drop_last();
        lemma_common_names_distinct(before, imports);
        let kept = before.filter(wanted);
        if wanted(names.last()) {
            assert(!kept.contains(names.last())) by {
                if kept.contains(names.last()) {
                    before.lemma_filter_contains_rev(wanted, names.last());
                    let at = choose|i: int| 0 <= i < before.len() && before[i] == names.last();
                    assert(names[at] == names[names.len() - 1]);
                }
            }
            let all = kept.push(names.last());
            assert forall|i: int, j: int| 0 <= i < all.len() && 0 <= j < all.len() && i != j implies all[i]
                != all[j] by {
                if i < kept.len() && j < kept.len() {
                    assert(kept[i] != kept[j]);
                } else if i < kept.len() {
                    assert(kept.contains(kept[i]));
                } else {
                    assert(kept.contains(kept[j]));
                }
            }
        }
    }
}

/// In a well-formed store no name is matched twice in a category: each list
/// of matches stands for a set.
pub proof fn lemma_match_without_repeats(imports: Set<Seq<char>>, store: CacheView, k: int)
    requires
        well_formed(store),
        0 <= k < store.categories.len(),
    ensures
        matches_of(imports, store)[k].no_duplicates(),
{
    let names = names_of(store.categories[k]);
    lemma_names_distinct(store, k);
    lemma_common_names_distinct(names, imports);
}

} // verus!

//! The record store: categories of API records, each record keyed by its name.

use vstd::prelude::*;
use crate::codec::{fits_msgpack, msgpack_of, msgpack_read, read_msgpack, write_msgpack};
use crate::error::{CacheError, CacheErrorView};

verus! {

/// What an [`Api`] stands for in contracts.
pub struct ApiView {
    pub name: Seq<char>,
    pub info: Seq<char>,
    pub library: Seq<char>,
    pub documentation: Seq<char>,
}

/// One API record of a category.
pub struct Api {
    /// Name of the API, the key of the record within its category
    pub name: String,
    /// Summary of API functionality
    pub info: String,
    /// DLL which API originated
    pub library: String,
    /// Link to documentation web page
    pub documentation: String,
}

impl View for Api {
    type V = ApiView;

    open spec fn view(&self) -> ApiView {
        ApiView {
            name: self.name@,
            info: self.info@,
            library: self.library@,
            documentation: self.documentation@,
        }
    }
}

impl DeepView for Api {
    type V = ApiView;

    open spec fn deep_view(&self) -> ApiView {
        self@
    }
}

impl Clone for Api {
    fn clone(&self) -> (copy: Api)
        ensures
            copy@ == self@,
    {
        Api {
            name: self.name.clone(),
            info: self.info.clone(),
            library: self.library.clone(),
            documentation: self.documentation.clone(),
        }
    }
}

impl Default for Api {
    fn default() -> (api: Api)
        ensures
            api@ == blank_record(Seq::<char>::empty()),
    {
        Api {
            name: String::new(),
            info: String::new(),
            library: String::new(),
            documentation: String::new(),
        }
    }
}

impl PartialEq for Api {
    fn eq(&self, other: &Api) -> (same: bool) {
        self.name == other.name
    }
}

impl vstd::std_specs::cmp::PartialEqSpecImpl for Api {
    open spec fn obeys_eq_spec() -> bool {
        true
    }

    open spec fn eq_spec(&self, other: &Api) -> bool {
        self.name@ == other.name@
    }
}

impl Eq for Api {

}

impl std::hash::Hash for Api {
    /// Feeds the name, and nothing else, to the hasher, with `String`'s own
    /// `hash`: records that are equal hash alike.
    #[verifier::external_body]
    fn hash<H: std::hash::Hasher>(&self, state: &mut H) {
        self.name.hash(state);
    }
}

impl Api {
    /// A record with the given name and details.
    pub fn new(name: String, info: String, library: String, documentation: String) -> (api: Api)
        ensures
            api@ == (ApiView {
                name: name@,
                info: info@,
                library: library@,
                documentation: documentation@,
            }),
    {
        Api { name, info, library, documentation }
    }
}

/// The record that carries a name and no details.
pub open spec fn blank_record(name: Seq<char>) -> ApiView {
    ApiView {
        name,
        info: Seq::<char>::empty(),
        library: Seq::<char>::empty(),
        documentation: Seq::<char>::empty(),
    }
}

/// The names of a category's records, in the category's order.
pub open spec fn names_of(category: Seq<ApiView>) -> Seq<Seq<char>> {
    category.map_values(|record: ApiView| record.name)
}

/// No two records of the category carry the same name.
pub open spec fn distinct_names(category: Seq<ApiView>) -> bool {
    forall|i: int, j: int|
        0 <= i < j < category.len() ==> (#[trigger] category[i]).name != (#[trigger] category[j]).name
}

/// Some record of the category carries `name`.
pub open spec fn has_name(category: Seq<ApiView>, name: Seq<char>) -> bool {
    exists|i: int| 0 <= i < category.len() && (#[trigger] category[i]).name == name
}

/// The record of the category that carries `name`, if there is one.
pub open spec fn find_record(category: Seq<ApiView>, name: Seq<char>) -> Option<ApiView> {
    if has_name(category, name) {
        Some(category[choose|i: int| 0 <= i < category.len() && (#[trigger] category[i]).name == name])
    } else {
        None
    }
}

/// The category with `record` put in: in place of the record that carries its
/// name where there is one, else at the end.
pub open spec fn upsert(category: Seq<ApiView>, record: ApiView) -> Seq<ApiView> {
    if has_name(category, record.name) {
        category.update(
            choose|i: int| 0 <= i < category.len() && (#[trigger] category[i]).name == record.name,
            record,
        )
    } else {
        category.push(record)
    }
}

/// What a [`Cache`] stands for in contracts: the headers, and for each header
/// in turn the records of its category.
pub struct CacheView {
    pub headers: Seq<Seq<char>>,
    pub categories: Seq<Seq<ApiView>>,
}

/// Headers and categories are aligned, and a name occurs once in a category.
pub open spec fn well_formed(store: CacheView) -> bool {
    &&& store.headers.len() == store.categories.len()
    &&& forall|k: int| 0 <= k < store.categories.len() ==> distinct_names(#[trigger] store.categories[k])
}

/// The store with `record` put into category `k`; unchanged where there is
/// no such category.
pub open spec fn with_record(store: CacheView, k: int, record: ApiView) -> CacheView {
    if 0 <= k < store.categories.len() {
        CacheView {
            headers: store.headers,
            categories: store.categories.update(k, upsert(store.categories[k], record)),
        }
    } else {
        store
    }
}

/// The store that has the given headers and an empty category for each.
pub open spec fn empty_store(headers: Seq<Seq<char>>) -> CacheView {
    CacheView { headers, categories: Seq::new(headers.len(), |k: int| Seq::<ApiView>::empty()) }
}

/// The name sets of a store, one per category.
pub open spec fn name_lists(store: CacheView) -> Seq<Seq<Seq<char>>> {
    store.categories.map_values(|category: Seq<ApiView>| names_of(category))
}

/// A record as the persisted bytes hold it: name, summary, library and
/// documentation link.
pub open spec fn plain_record(record: ApiView) -> (Seq<char>, Seq<char>, Seq<char>, Seq<char>) {
    (record.name, record.info, record.library, record.documentation)
}

/// The record that four persisted strings stand for.
pub open spec fn record_of(plain: (Seq<char>, Seq<char>, Seq<char>, Seq<char>)) -> ApiView {
    ApiView { name: plain.0, info: plain.1, library: plain.2, documentation: plain.3 }
}

/// The categories of a store as the persisted bytes hold them.
pub open spec fn plain_categories(store: CacheView) -> Seq<
    Seq<(Seq<char>, Seq<char>, Seq<char>, Seq<char>)>,
> {
    store.categories.map_values(
        |category: Seq<ApiView>| category.map_values(|record: ApiView| plain_record(record)),
    )
}

/// The category that persisted records make, put in one after the other.
pub open spec fn collected(records: Seq<(Seq<char>, Seq<char>, Seq<char>, Seq<char>)>) -> Seq<ApiView>
    decreases records.len(),
{
    if records.len() == 0 {
        Seq::empty()
    } else {
        upsert(collected(records.drop_last()), record_of(records.last()))
    }
}

/// The store that persisted headers and categories make: none where they are
/// not aligned.
pub open spec fn store_of(
    headers: Seq<Seq<char>>,
    categories: Seq<Seq<(Seq<char>, Seq<char>, Seq<char>, Seq<char>)>>,
) -> Option<CacheView> {
    if headers.len() == categories.len() {
        Some(
            CacheView {
                headers,
                categories: categories.map_values(
                    |records: Seq<(Seq<char>, Seq<char>, Seq<char>, Seq<char>)>| collected(records),
                ),
            },
        )
    } else {
        None
    }
}

/// The bytes that persist a store, where they can be written.
pub open spec fn encoded(store: CacheView) -> Option<Seq<u8>> {
    msgpack_of(store.headers, plain_categories(store))
}

/// The store that bytes persist, where they hold one.
pub open spec fn decoded(bytes: Seq<u8>) -> Option<CacheView> {
    match msgpack_read(bytes) {
        Some(parts) => store_of(parts.0, parts.1),
        None => None,
    }
}

/// Every length of the store fits the 32 bits that the persisted bytes have
/// for it.
pub open spec fn storable(store: CacheView) -> bool {
    fits_msgpack(store.headers, plain_categories(store))
}

/// Wrapper around APIs and headers for caching purposes
pub struct Cache {
    headers: Vec<String>,
    apis: Vec<Vec<Api>>,
}

impl View for Cache {
    type V = CacheView;

    closed spec fn view(&self) -> CacheView {
        CacheView { headers: self.headers.deep_view(), categories: self.apis.deep_view() }
    }
}

impl DeepView for Cache {
    type V = CacheView;

    open spec fn deep_view(&self) -> CacheView {
        self@
    }
}

/// The place of the record named `name` in `category`, or the category's
/// length where no record carries the name.
fn place_of(category: &Vec<Api>, name: &String) -> (at: usize)
    ensures
        at <= category.len(),
        at < category.len() ==> category[at as int].name@ == name@,
        forall|j: int| 0 <= j < at ==> (#[trigger] category[j]).name@ != name@,
{
    let mut at: usize = 0;
    while at < category.len()
        invariant
            at <= category.len(),
            forall|j: int| 0 <= j < at ==> (#[trigger] category[j]).name@ != name@,
        decreases category.len() - at,
    {
        if category[at].name == *name {
            return at;
        }
        at += 1;
    }
    at
}

impl Default for Cache {
    fn default() -> (store: Cache)
        ensures
            store@ == empty_store(Seq::empty()),
            store.wf(),
    {
        Cache::new()
    }
}

impl Cache {
    /// Headers and categories are aligned, and a name occurs once in a category.
    pub open spec fn wf(&self) -> bool {
        well_formed(self@)
    }

    /// The store without categories.
    pub fn new() -> (store: Cache)
        ensures
            store@ == empty_store(Seq::empty()),
            store.wf(),
    {
        let store = Cache { headers: Vec::new(), apis: Vec::new() };
        assert(store@.headers =~= Seq::<Seq<char>>::empty());
        assert(store@.categories =~= Seq::new(0, |k: int| Seq::<ApiView>::empty()));
        store
    }

    /// The store with one empty category for each of `headers`, in their order.
    pub fn with_headers(headers: Vec<String>) -> (store: Cache)
        ensures
            store@ == empty_store(headers.deep_view()),
            store.wf(),
    {
        let mut apis: Vec<Vec<Api>> = Vec::new();
        let mut k: usize = 0;
        while k < headers.len()
            invariant
                k <= headers.len(),
                apis.len() == k,
                forall|i: int| 0 <= i < k ==> (#[trigger] apis[i])@ =~= Seq::<Api>::empty(),
            decreases headers.len() - k,
        {
            apis.push(Vec::new());
            k += 1;
        }
        let store = Cache { headers, apis };
        assert(store@.categories =~= empty_store(headers.deep_view()).categories) by {
            assert forall|i: int| 0 <= i < store@.categories.len() implies store@.categories[i]
                =~= Seq::<ApiView>::empty() by {
                assert(store.apis[i]@.len() == 0);
            }
        }
        store
    }

    /// Number of categories.
    pub fn len(&self) -> (n: usize)
        ensures
            n == self@.categories.len(),
    {
        self.apis.len()
    }

    /// Puts `api` into the category at `category_index`, in place of the
    /// record that carries its name where there is one. Tells whether there
    /// is such a category; where there is none the store stays as it is.
    pub fn insert(&mut self, category_index: usize, api: Api) -> (known: bool)
        requires
            old(self).wf(),
        ensures
            final(self).wf(),
            known == (category_index < old(self)@.categories.len()),
            final(self)@ == with_record(old(self)@, category_index as int, api@),
    {
        if category_index >= self.apis.len() {
            return false;
        }
        let ghost before = self@;
        let ghost category = before.categories[category_index as int];
        let at = place_of(&self.apis[category_index], &api.name);
        proof {
            if at < category.len() {
                assert(category[at as int].name == api@.name);
                let chosen = choose|i: int|
                    0 <= i < category.len() && (#[trigger] category[i]).name == api@.name;
                assert(chosen == at);
            } else {
                assert(!has_name(category, api@.name));
            }
        }
        if at < self.apis[category_index].len() {
            self.apis[category_index][at] = api;
        } else {
            self.apis[category_index].push(api);
        }
        proof {
            let after = with_record(before, category_index as int, api@);
            assert(self@.headers =~= after.headers);
            assert(self@.categories[category_index as int] =~= after.categories[category_index as int]);
            assert(self@.categories =~= after.categories);
            lemma_upsert_distinct(category, api@);
        }
        true
    }

    /// The categories as lists of plain records, in their order.
    fn plain_parts(&self) -> (parts: Vec<Vec<(String, String, String, String)>>)
        ensures
            parts.deep_view() == plain_categories(self@),
    {
        let mut parts: Vec<Vec<(String, String, String, String)>> = Vec::new();
        let mut k: usize = 0;
        while k < self.apis.len()
            invariant
                k <= self.apis.len(),
                parts.len() == k,
                forall|i: int|
                    0 <= i < k ==> (#[trigger] parts[i]).deep_view() == plain_categories(self@)[i],
            decreases self.apis.len() - k,
        {
            let category = &self.apis[k];
            let mut records: Vec<(String, String, String, String)> = Vec::new();
            let mut j: usize = 0;
            while j < category.len()
                invariant
                    j <= category.len(),
                    records.len() == j,
                    forall|i: int|
                        0 <= i < j ==> (#[trigger] records[i]).deep_view() == plain_record(category[i]@),
                decreases category.len() - j,
            {
                let api = &category[j];
                records.push(
                    (
                        api.name.clone(),
                        api.info.clone(),
                        api.library.clone(),
                        api.documentation.clone(),
                    ),
                );
                j += 1;
            }
            assert(records.deep_view() =~= plain_categories(self@)[k as int]);
            parts.push(records);
            k += 1;
        }
        assert(parts.deep_view() =~= plain_categories(self@));
        parts
    }

    /// The store that the given headers and plain records make: each record
    /// is put into its category in turn. Fails where headers and categories
    /// are not aligned.
    pub fn from_parts(
        headers: Vec<String>,
        categories: Vec<Vec<(String, String, String, String)>>,
    ) -> (made: Option<Cache>)
        ensures
            made.deep_view() == store_of(headers.deep_view(), categories.deep_view()),
            made matches Some(store) ==> store.wf(),
    {
        if headers.len() != categories.len() {
            return None;
        }
        let ghost wanted = store_of(headers.deep_view(), categories.deep_view())->0;
        let ghost plain = categories.deep_view();
        let mut store = Cache::with_headers(headers);
        let mut k: usize = 0;
        while k < categories.len()
            invariant
                k <= categories.len(),
                plain == categories.deep_view(),
                store.wf(),
                store@.headers == wanted.headers,
                store@.categories.len() == plain.len(),
                forall|i: int| 0 <= i < k ==> (#[trigger] store@.categories[i]) == collected(plain[i]),
                forall|i: int|
                    k <= i < plain.len() ==> (#[trigger] store@.categories[i]) == Seq::<ApiView>::empty(),
            decreases categories.len() - k,
        {
            let records = &categories[k];
            let ghost all = plain[k as int];
            let ghost filled = store@;
            let mut j: usize = 0;
            assert(all.take(0) =~= Seq::empty());
            while j < records.len()
                invariant
                    j <= records.len(),
                    k < plain.len(),
                    all == records.deep_view(),
                    store.wf(),
                    store@.headers == filled.headers,
                    store@.categories.len() == filled.categories.len(),
                    filled.categories.len() == plain.len(),
                    forall|i: int|
                        0 <= i < plain.len() && i != k ==> (#[trigger] store@.categories[i])
                            == filled.categories[i],
                    store@.categories[k as int] == collected(all.take(j as int)),
                decreases records.len() - j,
            {
                let record = &records[j];
                let api = Api::new(
                    record.0.clone(),
                    record.1.clone(),
                    record.2.clone(),
                    record.3.clone(),
                );
                proof {
                    assert(all[j as int] == record.deep_view());
                    assert(record_of(all[j as int]) == api@);
                    assert(all.take(j + 1).drop_last() =~= all.take(j as int));
                    assert(all.take(j + 1).last() == all[j as int]);
                }
                store.insert(k, api);
                j += 1;
            }
            assert(all.take(j as int) =~= all);
            k += 1;
        }
        assert(store@.categories =~= wanted.categories);
        Some(store)
    }

    /// The bytes that persist the store. Reading them back gives the store
    /// again, as long as each of its lengths fits 32 bits.
    pub fn serialize(&self) -> (written: Result<Vec<u8>, CacheError>)
        requires
            self.wf(),
        ensures
            match written {
                Ok(bytes) => {
                    &&& encoded(self@) == Some(bytes@)
                    &&& storable(self@) ==> decoded(bytes@) == Some(self@)
                },
                Err(error) => error@ == CacheErrorView::CacheWriteFailed && encoded(self@) is None,
            },
    {
        let parts = self.plain_parts();
        match write_msgpack(&self.headers, &parts) {
            Ok(bytes) => {
                proof {
                    if storable(self@) {
                        lemma_round_trip(self@, bytes@);
                    }
                }
                Ok(bytes)
            },
            Err(_) => Err(CacheError::CacheWriteFailed),
        }
    }

    /// The store that `bytes` persist. Fails with `CorruptCache` where the
    /// bytes do not hold headers and categories of records, or hold them in
    /// different numbers.
    pub fn deserialize(bytes: &[u8]) -> (read: Result<Cache, CacheError>)
        ensures
            match read {
                Ok(store) => decoded(bytes@) == Some(store@) && store.wf(),
                Err(error) => error@ == CacheErrorView::CorruptCache && decoded(bytes@) is None,
            },
    {
        match read_msgpack(bytes) {
            Ok((headers, categories)) => match Cache::from_parts(headers, categories) {
                Some(store) => Ok(store),
                None => Err(CacheError::CorruptCache),
            },
            Err(_) => Err(CacheError::CorruptCache),
        }
    }

    /// Get [Api] based on category and name for detail lookup
    pub fn get_api(&self, category_index: usize, name: &str) -> (found: Option<&Api>)
        requires
            self.wf(),
        ensures
            found.deep_view() == (if category_index < self@.categories.len() {
                find_record(self@.categories[category_index as int], name@)
            } else {
                None
            }),
    {
        if category_index >= self.apis.len() {
            return None;
        }
        let lookup = name.to_owned();
        let category = &self.apis[category_index];
        let at = place_of(category, &lookup);
        let ghost records = self@.categories[category_index as int];
        if at < category.len() {
            proof {
                assert(records[at as int].name == name@);
                let chosen = choose|i: int|
                    0 <= i < records.len() && (#[trigger] records[i]).name == name@;
                assert(chosen == at);
            }
            Some(&category[at])
        } else {
            assert(!has_name(records, name@));
            None
        }
    }

    /// Get API list from cache
    pub fn get_apis(&self) -> (names: Vec<Vec<String>>)
        ensures
            names.deep_view() == name_lists(self@),
    {
        let mut names: Vec<Vec<String>> = Vec::new();
        let mut k: usize = 0;
        while k < self.apis.len()
            invariant
                k <= self.apis.len(),
                names.len() == k,
                forall|i: int| 0 <= i < k ==> (#[trigger] names[i]).deep_view() == names_of(self@.categories[i]),
            decreases self.apis.len() - k,
        {
            let category = &self.apis[k];
            let mut list: Vec<String> = Vec::new();
            let mut j: usize = 0;
            while j < category.len()
                invariant
                    j <= category.len(),
                    list.len() == j,
                    forall|i: int| 0 <= i < j ==> (#[trigger] list[i])@ == category[i].name@,
                decreases category.len() - j,
            {
                list.push(category[j].name.clone());
                j += 1;
            }
            assert(list.deep_view() =~= names_of(self@.categories[k as int]));
            names.push(list);
            k += 1;
        }
        assert(names.deep_view() =~= name_lists(self@));
        names
    }

    /// Get header list from cache
    pub fn get_headers(&self) -> (headers: Vec<String>)
        ensures
            headers.deep_view() == self@.headers,
    {
        let mut headers: Vec<String> = Vec::new();
        let mut k: usize = 0;
        while k < self.headers.len()
            invariant
                k <= self.headers.len(),
                headers.len() == k,
                forall|i: int| 0 <= i < k ==> (#[trigger] headers[i])@ == self.headers[i]@,
            decreases self.headers.len() - k,
        {
            headers.push(self.headers[k].clone());
            k += 1;
        }
        assert(headers.deep_view() =~= self@.headers);
        headers
    }
}

/// Records with distinct names, put into an empty category one after the
/// other, make the category they came from.
pub proof fn lemma_collected_plain(category: Seq<ApiView>)
    requires
        distinct_names(category),
    ensures
        collected(category.map_values(|record: ApiView| plain_record(record))) == category,
    decreases category.len(),
{
    let plain = category.map_values(|record: ApiView| plain_record(record));
    if category.len() > 0 {
        let before = category.drop_last();
        assert(plain.drop_last() =~= before.map_values(|record: ApiView| plain_record(record)));
        assert(distinct_names(before)) by {
            assert forall|i: int, j: int| 0 <= i < j < before.len() implies (#[trigger] before[i]).name != (
            #[trigger] before[j]).name by {
                assert(category[i].name != category[j].name);
            }
        }
        lemma_collected_plain(before);
        assert(record_of(plain.last()) == category.last());
        assert(!has_name(before, category.last().name)) by {
            if has_name(before, category.last().name) {
                let at = choose|i: int|
                    0 <= i < before.len() && (#[trigger] before[i]).name == category.last().name;
                assert(category[at].name != category[category.len() - 1].name);
            }
        }
        assert(before.push(category.last()) =~= category);
    } else {
        assert(category =~= Seq::empty());
    }
}

/// A well-formed store is the store that its own headers and plain records
/// make.
pub proof fn lemma_store_of_plain(store: CacheView)
    requires
        well_formed(store),
    ensures
        store_of(store.headers, plain_categories(store)) == Some(store),
{
    let plain = plain_categories(store);
    let made = store_of(store.headers, plain)->0;
    assert forall|k: int| 0 <= k < store.categories.len() implies made.categories[k]
        == store.categories[k] by {
        lemma_collected_plain(store.categories[k]);
    }
    assert(made.categories =~= store.categories);
}

/// Putting a record into a category with distinct names changes nothing
/// for the other names: what is found under them stays.
pub proof fn lemma_upsert_keeps_others(category: Seq<ApiView>, record: ApiView, name: Seq<char>)
    requires
        distinct_names(category),
        name != record.name,
    ensures
        find_record(upsert(category, record), name) == find_record(category, name),
{
    let after = upsert(category, record);
    lemma_upsert_distinct(category, record);
    if has_name(category, name) {
        let at = choose|i: int| 0 <= i < category.len() && (#[trigger] category[i]).name == name;
        assert(after[at] == category[at]);
        assert(has_name(after, name));
        let found = choose|i: int| 0 <= i < after.len() && (#[trigger] after[i]).name == name;
        if found != at {
            if found < at {
                assert(after[found].name != after[at].name);
            } else {
                assert(after[at].name != after[found].name);
            }
        }
    } else {
        if has_name(after, name) {
            let found = choose|i: int| 0 <= i < after.len() && (#[trigger] after[i]).name == name;
            if found < category.len() {
                assert(category[found].name == name);
            }
        }
    }
}

/// In a well-formed store the names of a category hold no name twice: each
/// list of names stands for a set.
pub proof fn lemma_names_distinct(store: CacheView, k: int)
    requires
        well_formed(store),
        0 <= k < store.categories.len(),
    ensures
        name_lists(store)[k].no_duplicates(),
{
    let names = names_of(store.categories[k]);
    assert forall|i: int, j: int| 0 <= i < names.len() && 0 <= j < names.len() && i != j implies names[i]
        != names[j] by {
        if i < j {
            assert(store.categories[k][i].name != store.categories[k][j].name);
        } else {
            assert(store.categories[k][j].name != store.categories[k][i].name);
        }
    }
}

/// Round trip: where the persisted bytes read back as the headers and plain
/// records of a well-formed store, they hold that store.
pub proof fn lemma_round_trip(store: CacheView, bytes: Seq<u8>)
    requires
        well_formed(store),
        msgpack_read(bytes) == Some((store.headers, plain_categories(store))),
    ensures
        decoded(bytes) == Some(store),
{
    lemma_store_of_plain(store);
}

/// Putting a record into a category with distinct names leaves the names
/// distinct.
pub proof fn lemma_upsert_distinct(category: Seq<ApiView>, record: ApiView)
    requires
        distinct_names(category),
    ensures
        distinct_names(upsert(category, record)),
        has_name(upsert(category, record), record.name),
        find_record(upsert(category, record), record.name) == Some(record),
{
    let after = upsert(category, record);
    if has_name(category, record.name) {
        let at = choose|i: int| 0 <= i < category.len() && (#[trigger] category[i]).name == record.name;
        assert(after[at] == record);
        assert forall|i: int, j: int| 0 <= i < j < after.len() implies (#[trigger] after[i]).name != (
        #[trigger] after[j]).name by {
            assert(category[i].name != category[j].name);
            if i == at {
                assert(category[at].name != category[j].name);
            }
            if j == at {
                assert(category[i].name != category[at].name);
            }
        }
    } else {
        assert(after[category.len() as int] == record);
        assert forall|i: int, j: int| 0 <= i < j < after.len() implies (#[trigger] after[i]).name != (
        #[trigger] after[j]).name by {
            if j == category.len() {
                assert(category[i].name != record.name);
            } else {
                assert(category[i].name != category[j].name);
            }
        }
    }
    assert(has_name(after, record.name));
    let found = choose|i: int| 0 <= i < after.len() && (#[trigger] after[i]).name == record.name;
    let put = choose|i: int| 0 <= i < after.len() && after[i] == record;
    if found != put {
        if found < put {
            assert(after[found].name != after[put].name);
        } else {
            assert(after[put].name != after[found].name);
        }
    }
}

} // verus!

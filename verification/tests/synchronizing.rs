use pescan::error::{CacheError, DetailFault};
use pescan::output::Details;
use pescan::sync::{make_record, FetchOutcome, Step, Synchronizer};

fn text(s: &str) -> String {
    String::from(s)
}

fn index() -> (Vec<String>, Vec<Vec<String>>) {
    (
        vec![text("Injection"), text("Persistence"), text("Evasion")],
        vec![vec![text("a"), text("b"), text("c")], vec![], vec![text("d"), text("e")]],
    )
}

fn details(info: &str, library: &str, documentation: &str) -> Details {
    Details { info: Some(text(info)), library: Some(text(library)), documentation: Some(text(documentation)) }
}

fn page(info: &str, library: &str, documentation: &str) -> String {
    format!(
        "<html><body><div class=\"content\">title</div><div class=\"content\"> {} </div>\
         <div class=\"content\">{}</div><div class=\"content\">techniques</div>\
         <div class=\"content\">\n{}\n</div></body></html>",
        info, library, documentation
    )
}

#[test]
fn misaligned_index_is_refused() {
    let made = Synchronizer::new(vec![text("A")], vec![], 4);
    assert!(matches!(made, Err(CacheError::MisalignedIndex)));
    let made = Synchronizer::new(vec![], vec![vec![text("a")]], 4);
    assert!(matches!(made, Err(CacheError::MisalignedIndex)));
}

#[test]
fn empty_index_is_done_at_once() {
    let mut run = Synchronizer::new(vec![], vec![], 3).ok().expect("run");
    assert!(matches!(run.poll(), Step::Done));
    let store = run.finish().expect("store");
    assert_eq!(store.len(), 0);
}

#[test]
fn never_more_requests_out_than_the_cap() {
    for cap in 1..5usize {
        let (headers, members) = index();
        let mut run = Synchronizer::new(headers, members, cap).ok().expect("run");
        assert_eq!(run.max_concurrency(), cap);
        let mut out: Vec<(usize, usize, String)> = Vec::new();
        let mut asked: Vec<String> = Vec::new();
        let mut most = 0;
        loop {
            assert!(run.in_flight() <= cap);
            assert_eq!(run.in_flight(), out.len());
            match run.poll() {
                Step::Fetch(request) => {
                    asked.push(request.name.clone());
                    out.push((request.category, request.member, request.name));
                    assert!(out.len() <= cap);
                    if out.len() > most {
                        most = out.len();
                    }
                }
                Step::Wait => {
                    assert!(!out.is_empty());
                    // the request made last ends first
                    let (category, member, name) = out.pop().expect("request");
                    assert!(run.settle(category, member, Some(Ok(details(&name, "lib", "doc")))));
                }
                Step::Done => break,
            }
        }
        assert!(out.is_empty());
        assert_eq!(most, cap);
        assert_eq!(asked, vec![text("a"), text("b"), text("c"), text("d"), text("e")]);
        let store = run.finish().expect("store");
        assert_eq!(store.get_headers(), vec![text("Injection"), text("Persistence"), text("Evasion")]);
        let mut first = store.get_apis()[0].clone();
        first.sort();
        assert_eq!(first, vec![text("a"), text("b"), text("c")]);
        assert!(store.get_apis()[1].is_empty());
        assert_eq!(store.get_api(2, "e").expect("record").info, "e");
    }
}

#[test]
fn zero_permits_admit_nothing() {
    let (headers, members) = index();
    let mut run = Synchronizer::new(headers, members, 0).ok().expect("run");
    assert!(matches!(run.poll(), Step::Wait));
    assert_eq!(run.in_flight(), 0);
    assert!(matches!(run.poll(), Step::Wait));
}

#[test]
fn unknown_request_changes_nothing() {
    let (headers, members) = index();
    let mut run = Synchronizer::new(headers, members, 2).ok().expect("run");
    assert!(!run.settle(0, 0, None));
    assert!(!run.complete(7, 7, FetchOutcome::Failed));
    assert!(matches!(run.poll(), Step::Fetch(_)));
    assert!(!run.settle(0, 1, None));
    assert!(run.settle(0, 0, None));
    assert!(!run.settle(0, 0, None));
    assert_eq!(run.in_flight(), 0);
}

#[test]
fn unavailable_member_is_skipped() {
    let mut run = Synchronizer::new(vec![text("A")], vec![vec![text("a"), text("b")]], 1).ok().expect("run");
    assert!(matches!(run.poll(), Step::Fetch(_)));
    assert!(run.complete(0, 0, FetchOutcome::Unavailable));
    assert!(matches!(run.poll(), Step::Fetch(_)));
    assert!(run.complete(0, 1, FetchOutcome::Page(page("does b", "b.dll", "https://b"))));
    assert!(matches!(run.poll(), Step::Done));
    let store = run.finish().expect("store");
    assert_eq!(store.get_apis(), vec![vec![text("b")]]);
    let found = store.get_api(0, "b").expect("record");
    assert_eq!(found.info, "does b");
    assert_eq!(found.library, "b.dll");
    assert_eq!(found.documentation, "https://b");
}

#[test]
fn failure_stops_its_category_only() {
    let (headers, members) = index();
    let mut run = Synchronizer::new(headers, members, 1).ok().expect("run");
    match run.poll() {
        Step::Fetch(request) => {
            assert_eq!((request.category, request.member), (0, 0));
            assert_eq!(request.name, "a");
        }
        _ => panic!("a request was due"),
    }
    // a page without the blocks that hold the details
    assert!(run.complete(0, 0, FetchOutcome::Page(text("<html><body><p>nothing</p></body></html>"))));
    // the rest of the category is left out, the next category goes on
    match run.poll() {
        Step::Fetch(request) => {
            assert_eq!((request.category, request.member), (2, 0));
            assert_eq!(request.name, "d");
        }
        _ => panic!("a request was due"),
    }
    assert!(run.complete(2, 0, FetchOutcome::Failed));
    assert!(matches!(run.poll(), Step::Done));
    match run.finish() {
        Err(CacheError::DetailFetchFailed { name, fault }) => {
            assert_eq!(name, "a");
            assert_eq!(fault, DetailFault::NoInfo);
        }
        _ => panic!("the first failure was due"),
    }
}

#[test]
fn failed_request_names_its_member() {
    let mut run = Synchronizer::new(vec![text("A")], vec![vec![text("a")]], 1).ok().expect("run");
    assert!(matches!(run.poll(), Step::Fetch(_)));
    assert!(matches!(run.poll(), Step::Wait));
    assert!(run.complete(0, 0, FetchOutcome::Failed));
    assert_eq!(run.in_flight(), 0);
    match run.finish() {
        Err(CacheError::DetailFetchFailed { name, fault }) => {
            assert_eq!(name, "a");
            assert_eq!(fault, DetailFault::NoPage);
        }
        _ => panic!("a failure was due"),
    }
}

#[test]
fn record_of_partial_details_has_empty_fields() {
    let api = make_record(text("n"), Details { info: None, library: Some(text("l")), documentation: None });
    assert_eq!(api.name, "n");
    assert_eq!(api.info, "");
    assert_eq!(api.library, "l");
    assert_eq!(api.documentation, "");
}

#[test]
fn two_runs_give_equal_stores() {
    let mut bytes: Vec<Vec<u8>> = Vec::new();
    for _ in 0..2 {
        let (headers, members) = index();
        let mut run = Synchronizer::new(headers, members, 2).ok().expect("run");
        let mut out: Vec<(usize, usize)> = Vec::new();
        loop {
            match run.poll() {
                Step::Fetch(request) => out.push((request.category, request.member)),
                Step::Wait => {
                    let (category, member) = out.remove(0);
                    assert!(run.settle(category, member, Some(Ok(details("i", "l", "d")))));
                }
                Step::Done => break,
            }
        }
        bytes.push(run.finish().expect("store").serialize().expect("bytes"));
    }
    assert_eq!(bytes[0], bytes[1]);
}

#[test]
fn run_starts_from_the_index_page() {
    let index = "<table><tr><th>Injection</th><th>Evasion</th></tr><tr>\
<td><table><tbody><tr><td class=\"map-item\">a</td></tr><tr><td class=\"map-item\">b</td></tr></tbody></table></td>\
<td><table><tbody><tr><td class=\"map-item\">c</td></tr></tbody></table></td></tr></table>";
    let mut run = Synchronizer::start(Some(index), 2).ok().expect("run");
    assert_eq!(run.headers(), vec![text("Injection"), text("Evasion")]);
    assert_eq!(run.members_in(0), 2);
    assert_eq!(run.members_in(1), 1);
    assert_eq!(run.members_in(2), 0);
    match run.poll() {
        Step::Fetch(request) => assert_eq!(request.name, "a"),
        _ => panic!("a request was due"),
    }
}

#[test]
fn run_without_index_page_cannot_start() {
    assert!(matches!(Synchronizer::start(None, 2), Err(CacheError::SourceUnreachable)));
    let lopsided = "<table><tr><th>Injection</th><th>Evasion</th></tr><tr>\
<td><table><tbody><tr><td class=\"map-item\">a</td></tr></tbody></table></td></tr></table>";
    assert!(matches!(Synchronizer::start(Some(lopsided), 2), Err(CacheError::MisalignedIndex)));
}

use pescan::cache::{Api, Cache};
use pescan::matcher::{enrich, holds_name, intersect, lookup_details, match_imports};

fn text(s: &str) -> String {
    String::from(s)
}

fn store() -> Cache {
    let mut store = Cache::with_headers(vec![text("Process Injection"), text("Persistence")]);
    store.insert(0, Api::new(text("VirtualAllocEx"), text("allocates"), text("kernel32.dll"), text("https://a")));
    store.insert(0, Api::new(text("WriteProcessMemory"), text("writes"), text("kernel32.dll"), text("https://w")));
    store.insert(1, Api::new(text("RegSetValueEx"), text("sets"), text("advapi32.dll"), text("https://r")));
    store
}

#[test]
fn end_to_end_match() {
    let imports = vec![text("VirtualAllocEx"), text("WriteProcessMemory"), text("Unrelated")];
    let store = store();
    let matches = match_imports(&imports, &store);
    assert_eq!(matches, vec![vec![text("VirtualAllocEx"), text("WriteProcessMemory")], vec![]]);
    assert_eq!(store.get_headers(), vec![text("Process Injection"), text("Persistence")]);
    assert_eq!(matches.len(), store.get_headers().len());
}

#[test]
fn match_is_the_intersection() {
    let imports = vec![text("RegSetValueEx"), text("WriteProcessMemory"), text("CreateFileW")];
    let store = store();
    let names = store.get_apis();
    let matches = match_imports(&imports, &store);
    assert_eq!(matches.len(), names.len());
    for k in 0..names.len() {
        for name in &matches[k] {
            assert!(imports.contains(name));
            assert!(names[k].contains(name));
        }
        for name in &names[k] {
            assert_eq!(matches[k].contains(name), imports.contains(name));
        }
    }
    assert_eq!(matches, vec![vec![text("WriteProcessMemory")], vec![text("RegSetValueEx")]]);
}

#[test]
fn match_is_repeatable_and_ignores_order_of_imports() {
    let store = store();
    let first = match_imports(&vec![text("WriteProcessMemory"), text("VirtualAllocEx")], &store);
    let again = match_imports(&vec![text("WriteProcessMemory"), text("VirtualAllocEx")], &store);
    let other = match_imports(
        &vec![text("VirtualAllocEx"), text("WriteProcessMemory"), text("VirtualAllocEx")],
        &store,
    );
    assert_eq!(first, again);
    assert_eq!(first, other);
}

#[test]
fn match_is_case_sensitive() {
    let store = store();
    let matches = match_imports(&vec![text("virtualallocex"), text(" VirtualAllocEx")], &store);
    assert_eq!(matches, vec![Vec::<String>::new(), Vec::<String>::new()]);
}

#[test]
fn match_without_imports_or_categories() {
    let store = store();
    assert_eq!(match_imports(&vec![], &store), vec![Vec::<String>::new(), Vec::<String>::new()]);
    assert!(match_imports(&vec![text("VirtualAllocEx")], &Cache::new()).is_empty());
}

#[test]
fn intersect_keeps_order_of_names() {
    let names = vec![text("c"), text("a"), text("b")];
    let imports = vec![text("b"), text("c"), text("z")];
    assert_eq!(intersect(&names, &imports), vec![text("c"), text("b")]);
    assert!(holds_name(&imports, &text("z")));
    assert!(!holds_name(&imports, &text("a")));
}

#[test]
fn enrich_gives_details_asked_for() {
    let store = store();
    let matches = vec![vec![text("WriteProcessMemory")], vec![text("RegSetValueEx")]];
    let details = enrich(&matches, &store, true, false, true);
    assert_eq!(details.len(), 2);
    assert_eq!(details[0].len(), 1);
    assert_eq!(details[0][0].info, Some(text("writes")));
    assert_eq!(details[0][0].library, None);
    assert_eq!(details[0][0].documentation, Some(text("https://w")));
    assert_eq!(details[1][0].info, Some(text("sets")));
    assert_eq!(details[1][0].documentation, Some(text("https://r")));
}

#[test]
fn enrich_of_missing_record_is_empty() {
    let store = store();
    let matches = vec![vec![text("Unknown")], vec![], vec![text("VirtualAllocEx")]];
    let details = enrich(&matches, &store, true, true, true);
    assert_eq!(details.len(), 3);
    assert_eq!(details[0][0].info, None);
    assert_eq!(details[0][0].library, None);
    assert_eq!(details[0][0].documentation, None);
    assert!(details[1].is_empty());
    assert_eq!(details[2][0].info, None);
    let one = lookup_details(&store, 0, &text("VirtualAllocEx"), false, true, false);
    assert_eq!(one.info, None);
    assert_eq!(one.library, Some(text("kernel32.dll")));
    assert_eq!(one.documentation, None);
}

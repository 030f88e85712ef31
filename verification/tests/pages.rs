use pescan::error::{CacheError, DetailFault};
use pescan::fetch::{details_of_contents, get_apis, get_details, get_headers, headers_of_texts, members_of_texts};
use pescan::scrape::{join, join_and_trim, join_trimmed};

fn text(s: &str) -> String {
    String::from(s)
}

const INDEX: &str = "<html><body><table><thead><tr><th> Injection </th><th>\n<b>Anti</b> <i>Debugging</i>\n</th></tr></thead>\
<tbody><tr>\
<td><table><tbody><tr><td class=\"map-item\"><a href=\"/winapi/VirtualAllocEx\">VirtualAllocEx</a></td></tr>\
<tr><td class=\"map-item\"> WriteProcessMemory</td></tr></tbody></table></td>\
<td><table><tbody><tr><td class=\"map-item\">IsDebuggerPresent</td></tr><tr><td>header</td></tr></tbody></table></td>\
</tr></tbody></table></body></html>";

#[test]
fn headers_are_the_trimmed_header_cells() {
    let headers = get_headers(INDEX).ok().expect("headers");
    assert_eq!(headers, vec![text("Injection"), text("AntiDebugging")]);
}

#[test]
fn members_are_the_items_of_each_column() {
    let members = get_apis(INDEX).ok().expect("members");
    assert_eq!(
        members,
        vec![vec![text("VirtualAllocEx"), text(" WriteProcessMemory")], vec![text("IsDebuggerPresent")]]
    );
}

#[test]
fn page_without_index_gives_nothing() {
    assert!(get_headers("").ok().expect("headers").is_empty());
    assert!(get_apis("<p>hello</p>").ok().expect("members").is_empty());
}

#[test]
fn details_are_second_third_and_fifth_block() {
    let page = "<div class=\"content\">VirtualAllocEx</div><div class=\"content\">\n  Allocates <b>memory</b>  \n</div>\
<div class=\"content\"> Kernel32.dll</div><div class=\"content\">Injection</div>\
<div class=\"content\">https://example.test/doc\u{a0}</div>";
    let all = get_details(&text("VirtualAllocEx"), page, true, true, true).ok().expect("details");
    assert_eq!(all.info, Some(text("Allocates memory")));
    assert_eq!(all.library, Some(text("Kernel32.dll")));
    assert_eq!(all.documentation, Some(text("https://example.test/doc")));
    let some = get_details(&text("VirtualAllocEx"), page, false, true, false).ok().expect("details");
    assert_eq!(some.info, None);
    assert_eq!(some.library, Some(text("Kernel32.dll")));
    assert_eq!(some.documentation, None);
}

#[test]
fn missing_block_is_named() {
    let name = text("OpenProcess");
    let fault_of = |made: Result<pescan::output::Details, CacheError>| match made {
        Err(CacheError::DetailFetchFailed { name, fault }) => {
            assert_eq!(name, "OpenProcess");
            fault
        }
        _ => panic!("a failure was due"),
    };
    let one = "<div class=\"content\">x</div>";
    let three = "<p class=\"content\">x</p><p class=\"content\">i</p><p class=\"content\">l</p>";
    assert_eq!(fault_of(get_details(&name, "", true, true, true)), DetailFault::NoInfo);
    assert_eq!(fault_of(get_details(&name, one, true, true, true)), DetailFault::NoInfo);
    assert_eq!(fault_of(get_details(&name, one, false, true, true)), DetailFault::NoLibrary);
    assert_eq!(fault_of(get_details(&name, one, false, false, true)), DetailFault::NoDocumentation);
    assert_eq!(fault_of(get_details(&name, three, true, true, true)), DetailFault::NoDocumentation);
    let none = get_details(&name, one, false, false, false).ok().expect("details");
    assert_eq!(none.info, None);
    assert_eq!(none.library, None);
    assert_eq!(none.documentation, None);
    let two = get_details(&name, three, true, true, false).ok().expect("details");
    assert_eq!(two.info, Some(text("i")));
    assert_eq!(two.library, Some(text("l")));
}

#[test]
fn texts_are_joined_and_trimmed() {
    let pieces = vec![text(" a "), text("\tb\n"), text("c ")];
    assert_eq!(join(&pieces), " a \tb\nc ");
    assert_eq!(join_trimmed(&pieces), "abc");
    assert_eq!(join_and_trim(&pieces), "a \tb\nc");
    assert_eq!(join(&vec![]), "");
    assert_eq!(join_and_trim(&vec![text(" \u{2003}\u{3000} ")]), "");
    assert_eq!(join_and_trim(&vec![text("\u{200b}x\u{200b}")]), "\u{200b}x\u{200b}");
}

#[test]
fn index_texts_become_headers_and_members() {
    let headers = headers_of_texts(&vec![vec![text(" A"), text("B ")], vec![], vec![text("  ")]]);
    assert_eq!(headers, vec![text("AB"), text(""), text("")]);
    let members = members_of_texts(&vec![vec![vec![text("x"), text(" y")]], vec![]]);
    assert_eq!(members, vec![vec![text("x y")], vec![]]);
}

#[test]
fn contents_become_details() {
    let contents = vec![
        vec![text("t")],
        vec![text(" in"), text("fo ")],
        vec![text("lib")],
        vec![],
        vec![text(" doc ")],
    ];
    let made = details_of_contents(&text("n"), &contents, true, true, true).ok().expect("details");
    assert_eq!(made.info, Some(text("info")));
    assert_eq!(made.library, Some(text("lib")));
    assert_eq!(made.documentation, Some(text("doc")));
}

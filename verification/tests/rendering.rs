use pescan::output::{
    blank_fields, create_tables, format_url, layout_table, suspects, table_headers, Details, Format, Output, SuspectImport,
    TableLayout,
};

fn text(s: &str) -> String {
    String::from(s)
}

#[test]
fn link_is_an_osc8_hyperlink() {
    let url = text("https://example.test/a");
    assert_eq!(format_url(&Some(&url)), "\x1B]8;;https://example.test/a\x1B\\[link]\x1B]8;;\x1B\\");
    assert_eq!(format_url(&None), "");
    assert_eq!(
        pescan::display::format_url(&Some(text("u"))),
        "\x1B]8;;u\x1B\\[link]\x1B]8;;\x1B\\"
    );
    assert_eq!(pescan::display::format_url(&None), "");
}

#[test]
fn len_counts_name_and_given_details() {
    let name = text("n");
    let other = text("o");
    let bare = SuspectImport { name: &name, info: None, library: None, documentation: None };
    assert_eq!(bare.len(), 1);
    let two = SuspectImport { name: &name, info: None, library: Some(&other), documentation: None };
    assert_eq!(two.len(), 2);
    let full = SuspectImport { name: &name, info: Some(&other), library: Some(&other), documentation: Some(&other) };
    assert_eq!(full.len(), 4);
}

#[test]
fn header_row_names_shown_columns() {
    assert_eq!(table_headers(false, false, false), vec![text("name")]);
    assert_eq!(table_headers(true, false, true), vec![text("name"), text("info"), text("documentation")]);
    assert_eq!(
        table_headers(true, true, true),
        vec![text("name"), text("info"), text("library"), text("documentation")]
    );
}

#[test]
fn suspects_pair_names_with_details() {
    let matches = vec![vec![text("a"), text("b")], vec![]];
    let details = vec![
        vec![
            Details { info: Some(text("ia")), library: None, documentation: Some(text("da")) },
            Details::default(),
        ],
        vec![],
    ];
    let with = suspects(&matches, Some(&details));
    assert_eq!(with.len(), 2);
    assert_eq!(with[0].len(), 2);
    assert!(with[1].is_empty());
    assert_eq!(with[0][0].name, "a");
    assert_eq!(with[0][0].info, Some(&text("ia")));
    assert_eq!(with[0][0].library, None);
    assert_eq!(with[0][0].documentation, Some(&text("da")));
    assert_eq!(with[0][1].name, "b");
    assert_eq!(with[0][1].len(), 1);
    let without = suspects(&matches, None);
    assert_eq!(without[0][0].name, "a");
    assert_eq!(without[0][0].len(), 1);
    let short: Vec<Vec<Details>> = vec![];
    let lacking = suspects(&matches, Some(&short));
    assert_eq!(lacking[0][1].len(), 1);
}

#[test]
fn layout_shares_the_width() {
    let name = text("n");
    let other = text("o");
    let empty: Vec<SuspectImport> = vec![];
    assert_eq!(
        layout_table(&empty, 80),
        TableLayout { info: false, library: false, documentation: false, cell_width: 80 }
    );
    let full = vec![SuspectImport { name: &name, info: Some(&other), library: Some(&other), documentation: Some(&other) }];
    assert_eq!(
        layout_table(&full, 80),
        TableLayout { info: true, library: true, documentation: true, cell_width: 20 }
    );
    let some = vec![SuspectImport { name: &name, info: None, library: Some(&other), documentation: Some(&other) }];
    assert_eq!(
        layout_table(&some, 80),
        TableLayout { info: false, library: true, documentation: true, cell_width: 26 }
    );
    assert_eq!(layout_table(&some, 2).cell_width, 0);
}

#[test]
fn tables_and_text_follow_the_categories() {
    let name = text("VirtualAllocEx");
    let info = text("allocates");
    let output = Output {
        headers: vec![text("Injection"), text("Persistence"), text("Evasion")],
        suspect_imports: vec![
            vec![SuspectImport { name: &name, info: Some(&info), library: None, documentation: None }],
            vec![],
            vec![SuspectImport { name: &name, info: None, library: None, documentation: None }],
        ],
    };
    let tables = create_tables(&output, &80).expect("tables");
    assert_eq!(tables.len(), 3);
    assert_eq!(tables[0].0, "Injection");
    assert_eq!(tables[0].1.cell_width, 40);
    assert_eq!(tables[1].0, "Persistence");
    assert_eq!(tables[1].1.cell_width, 80);
    assert_eq!(tables[2].1.cell_width, 80);
    assert_eq!(output.entries(), Some(vec![0, 2]));
    let rendered = vec![text("T0"), text("T1"), text("T2")];
    assert_eq!(output.txt(&rendered), "Injection:\nT0\nEvasion:\nT2\n");
    assert_eq!(output.txt(&vec![text("T0")]), "Injection:\nT0\n");
    assert_eq!(output.txt(&vec![]), "");
}

#[test]
fn misaligned_output_has_no_entries() {
    let output = Output { headers: vec![text("A")], suspect_imports: vec![] };
    assert_eq!(output.entries(), None);
    assert!(create_tables(&output, &80).is_none());
    assert_eq!(output.txt(&vec![text("T")]), "");
}

#[test]
fn formats_are_distinct() {
    assert_eq!(Format::TXT, Format::TXT.clone());
    assert_ne!(Format::JSON, Format::YAML);
    assert_ne!(Format::TOML, Format::CSV);
}

#[test]
fn blank_fields_fill_up_to_the_header_row() {
    let name = text("n");
    let other = text("o");
    let bare = SuspectImport { name: &name, info: None, library: None, documentation: None };
    assert_eq!(blank_fields(&bare, true, true, true), 3);
    assert_eq!(blank_fields(&bare, false, false, false), 0);
    let two = SuspectImport { name: &name, info: Some(&other), library: None, documentation: None };
    assert_eq!(blank_fields(&two, true, false, true), 1);
    assert_eq!(blank_fields(&two, false, false, false), 0);
}

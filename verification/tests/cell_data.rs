use select_option::{
    find_select_option, make_selected_options, SelectOption, SelectOptionCellData,
    SelectOptionCellDataPB, SelectOptionColor, SelectOptionIds, SelectOptionPB,
};

fn option(id: &str, name: &str, color: SelectOptionColor) -> SelectOption {
    SelectOption { id: id.to_string(), name: name.to_string(), color }
}

fn ids(given: &[&str]) -> SelectOptionIds {
    SelectOptionIds(given.iter().map(|id| id.to_string()).collect())
}

#[test]
fn a_stale_identifier_is_passed_over_and_order_is_kept() {
    let a = option("a", "First", SelectOptionColor::Pink);
    let c = option("c", "Third", SelectOptionColor::Green);
    let catalog = vec![c.clone(), a.clone()];
    let selected = make_selected_options(ids(&["a", "b", "c"]), &catalog);
    assert_eq!(selected, vec![a, c]);
}

#[test]
fn the_selection_follows_the_identifiers_not_the_catalog() {
    let a = option("a", "First", SelectOptionColor::Pink);
    let b = option("b", "Second", SelectOptionColor::Lime);
    let c = option("c", "Third", SelectOptionColor::Green);
    let catalog = vec![a.clone(), b.clone(), c.clone()];
    let selected = make_selected_options(ids(&["c", "a", "b"]), &catalog);
    assert_eq!(selected, vec![c, a, b]);
}

#[test]
fn a_repeated_identifier_is_resolved_each_time() {
    let a = option("a", "First", SelectOptionColor::Pink);
    let catalog = vec![a.clone()];
    let selected = make_selected_options(ids(&["a", "a"]), &catalog);
    assert_eq!(selected, vec![a.clone(), a]);
}

#[test]
fn no_identifiers_select_nothing() {
    let catalog = vec![option("a", "First", SelectOptionColor::Pink)];
    assert_eq!(make_selected_options(ids(&[]), &catalog), vec![]);
    assert_eq!(make_selected_options(ids(&[]), &[]), vec![]);
}

#[test]
fn an_empty_catalog_selects_nothing() {
    assert_eq!(make_selected_options(ids(&["a"]), &[]), vec![]);
    assert_eq!(make_selected_options(ids(&["a", "b", "a"]), &[]), vec![]);
}

#[test]
fn only_stale_identifiers_select_nothing() {
    let catalog = vec![option("a", "First", SelectOptionColor::Pink)];
    assert_eq!(make_selected_options(ids(&["x", "A", "a ", ""]), &catalog), vec![]);
}

#[test]
fn the_first_of_two_options_with_one_identifier_is_taken() {
    let first = option("a", "First", SelectOptionColor::Pink);
    let second = option("a", "Second", SelectOptionColor::Blue);
    let catalog = vec![first.clone(), second];
    assert_eq!(make_selected_options(ids(&["a"]), &catalog), vec![first]);
}

#[test]
fn the_catalog_is_left_as_it_was() {
    let catalog = vec![
        option("a", "First", SelectOptionColor::Pink),
        option("b", "Second", SelectOptionColor::Lime),
    ];
    let before = catalog.clone();
    let selected = make_selected_options(ids(&["b"]), &catalog);
    assert_eq!(selected.len(), 1);
    assert_eq!(catalog, before);
}

#[test]
fn find_gives_the_option_with_the_identifier() {
    let catalog = vec![
        option("a", "First", SelectOptionColor::Pink),
        option("b", "Second", SelectOptionColor::Lime),
    ];
    assert_eq!(find_select_option(&catalog, &"b".to_string()), Some(&catalog[1]));
    assert_eq!(find_select_option(&catalog, &"c".to_string()), None);
    assert_eq!(find_select_option(&[], &"a".to_string()), None);
}

#[test]
fn the_transfer_form_keeps_order_and_fields() {
    let data = SelectOptionCellData {
        select_options: vec![
            option("b", "Second", SelectOptionColor::Blue),
            option("a", "First", SelectOptionColor::Pink),
            option("b", "Second", SelectOptionColor::Blue),
        ],
    };
    let records = SelectOptionCellDataPB::from_cell_data(data);
    let seen: Vec<(String, String, i64)> = records
        .select_options
        .into_iter()
        .map(|record| (record.id, record.name, record.color))
        .collect();
    assert_eq!(
        seen,
        vec![
            ("b".to_string(), "Second".to_string(), 8),
            ("a".to_string(), "First".to_string(), 1),
            ("b".to_string(), "Second".to_string(), 8),
        ]
    );
}

#[test]
fn the_transfer_form_of_no_options_is_empty() {
    let records = SelectOptionCellDataPB::from_cell_data(SelectOptionCellData { select_options: vec![] });
    assert!(records.select_options.is_empty());
}

#[test]
fn one_record_shows_the_color_by_its_code() {
    let record = SelectOptionPB::from(option("a", "First", SelectOptionColor::Yellow));
    assert_eq!(record.id, "a");
    assert_eq!(record.name, "First");
    assert_eq!(record.color, 4);
}

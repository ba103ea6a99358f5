use fp::notebook::{Cell, Change, Label, MemoryNotebook, RichText};

type Nb = MemoryNotebook<&'static str, u32, (i64, i64), String>;
type Ch = Change<&'static str, u32, (i64, i64), String>;

fn s(x: &str) -> String {
    x.to_string()
}

fn text_cell(id: &str, text: &str) -> Cell<&'static str, u32> {
    Cell { id: s(id), rich_text: Some(RichText { text: s(text), formatting: vec![] }), payload: "text" }
}

fn divider(id: &str) -> Cell<&'static str, u32> {
    Cell { id: s(id), rich_text: None, payload: "divider" }
}

fn ids(nb: &Nb) -> Vec<String> {
    nb.cells().iter().map(|c| c.id.clone()).collect()
}

fn with_cells(list: Vec<Cell<&'static str, u32>>) -> Nb {
    let mut nb: Nb = MemoryNotebook::new(s("t"), (0, 1));
    for (i, c) in list.into_iter().enumerate() {
        nb.apply_change(Change::InsertCell { cell: c, index: i as u32 });
    }
    nb
}

#[test]
fn insert_and_delete_cells() {
    let mut nb = with_cells(vec![text_cell("a", "1"), text_cell("b", "2")]);
    nb.apply_change(Change::InsertCell { cell: divider("c"), index: 1 });
    assert_eq!(ids(&nb), vec![s("a"), s("c"), s("b")]);
    nb.apply_change(Change::InsertCell { cell: text_cell("a", "dup"), index: 3 });
    nb.apply_change(Change::DeleteCell { cell_id: s("a") });
    assert_eq!(ids(&nb), vec![s("c"), s("b")]);
    nb.apply_change(Change::DeleteCell { cell_id: s("zzz") });
    assert_eq!(ids(&nb), vec![s("c"), s("b")]);
}

#[test]
fn insert_then_delete_restores_cells() {
    let mut nb = with_cells(vec![text_cell("a", "1"), text_cell("b", "2")]);
    nb.apply_change(Change::InsertCell { cell: text_cell("new", "x"), index: 1 });
    nb.apply_change(Change::DeleteCell { cell_id: s("new") });
    assert_eq!(ids(&nb), vec![s("a"), s("b")]);
}

#[test]
fn move_cells_one_after_another() {
    let mut nb = with_cells(vec![
        text_cell("a", ""),
        text_cell("b", ""),
        text_cell("c", ""),
        text_cell("d", ""),
    ]);
    nb.apply_change(Change::MoveCells { cell_ids: vec![s("d"), s("c")], index: 0 });
    assert_eq!(ids(&nb), vec![s("d"), s("c"), s("a"), s("b")]);
    nb.apply_change(Change::MoveCells { cell_ids: vec![s("missing"), s("d")], index: 2 });
    assert_eq!(ids(&nb), vec![s("c"), s("a"), s("b"), s("d")]);
}

#[test]
fn update_cells_and_text() {
    let mut nb = with_cells(vec![text_cell("a", "old"), divider("b")]);
    nb.apply_change(Change::UpdateCell { cell: text_cell("b", "now text") });
    assert_eq!(nb.cells()[1].rich_text.as_ref().unwrap().text, "now text");
    nb.apply_change(Change::UpdateCellText {
        cell_id: s("a"),
        text: s("new"),
        formatting: Some(vec![7]),
    });
    let a = &nb.cells()[0].rich_text.as_ref().unwrap();
    assert_eq!(a.text, "new");
    assert_eq!(a.formatting, vec![7]);
    let mut nb2 = with_cells(vec![divider("d")]);
    nb2.apply_change(Change::UpdateCellText { cell_id: s("d"), text: s("x"), formatting: None });
    assert!(nb2.cells()[0].rich_text.is_none());
    nb2.apply_change(Change::UpdateCell { cell: text_cell("unknown", "x") });
    assert_eq!(ids(&nb2), vec![s("d")]);
}

#[test]
fn title_time_range_data_sources_and_labels() {
    let mut nb: Nb = MemoryNotebook::new(s("t"), (0, 1));
    let change: Ch = Change::UpdateNotebookTitle { title: s("New title") };
    nb.apply_change(change);
    assert_eq!(nb.title(), "New title");
    nb.apply_change(Change::UpdateNotebookTimeRange { time_range: (5, 10) });

    nb.apply_change(Change::AddDataSource { name: s("prom"), data_source: s("p1") });
    nb.apply_change(Change::AddDataSource { name: s("loki"), data_source: s("l1") });
    nb.apply_change(Change::UpdateDataSource { name: s("prom"), data_source: s("p2") });
    assert_eq!(nb.data_sources(), &vec![(s("loki"), s("l1")), (s("prom"), s("p2"))]);
    nb.apply_change(Change::DeleteDataSource { name: s("prom") });
    assert_eq!(nb.data_sources(), &vec![(s("loki"), s("l1"))]);

    nb.apply_change(Change::AddLabel { label: Label { key: s("env"), value: s("prod") } });
    nb.apply_change(Change::AddLabel { label: Label { key: s("env"), value: s("dev") } });
    nb.apply_change(Change::AddLabel { label: Label { key: s("team"), value: s("") } });
    nb.apply_change(Change::ReplaceLabel {
        key: s("env"),
        label: Label { key: s("env"), value: s("staging") },
    });
    let labels: Vec<(String, String)> =
        nb.labels().iter().map(|l| (l.key.clone(), l.value.clone())).collect();
    assert_eq!(labels, vec![(s("env"), s("staging")), (s("env"), s("dev")), (s("team"), s(""))]);
    nb.apply_change(Change::RemoveLabel { label: Label { key: s("env"), value: s("whatever") } });
    let labels: Vec<String> = nb.labels().iter().map(|l| l.key.clone()).collect();
    assert_eq!(labels, vec![s("team")]);
}

#[test]
fn changes_apply_in_order() {
    let mut nb: Nb = MemoryNotebook::new(s("t"), (0, 1));
    nb.apply_changes(vec![
        Change::InsertCell { cell: text_cell("a", "1"), index: 0 },
        Change::InsertCell { cell: text_cell("b", "2"), index: 0 },
        Change::DeleteCell { cell_id: s("a") },
        Change::UpdateNotebookTitle { title: s("done") },
    ]);
    assert_eq!(ids(&nb), vec![s("b")]);
    assert_eq!(nb.title(), "done");
}

#[test]
fn cell_index_finds_the_first_cell() {
    let nb = with_cells(vec![text_cell("a", ""), divider("b"), text_cell("a", "again")]);
    assert_eq!(nb.cell_index(&s("a")), Some(0));
    assert_eq!(nb.cell_index(&s("b")), Some(1));
    assert_eq!(nb.cell_index(&s("z")), None);
}

#[test]
fn data_sources_are_kept_in_name_order() {
    let mut nb: Nb = MemoryNotebook::new(s("t"), (0, 1));
    for name in ["b", "ab", "a", "c", "B", "\u{e9}"] {
        nb.apply_change(Change::AddDataSource { name: s(name), data_source: s(name) });
    }
    let names: Vec<String> = nb.data_sources().iter().map(|(n, _)| n.clone()).collect();
    let mut sorted = names.clone();
    sorted.sort();
    assert_eq!(names, sorted);
    assert_eq!(names, vec![s("B"), s("a"), s("ab"), s("b"), s("c"), s("\u{e9}")]);
    nb.apply_change(Change::DeleteDataSource { name: s("ab") });
    nb.apply_change(Change::AddDataSource { name: s("ab"), data_source: s("again") });
    let names: Vec<String> = nb.data_sources().iter().map(|(n, _)| n.clone()).collect();
    assert_eq!(names, vec![s("B"), s("a"), s("ab"), s("b"), s("c"), s("\u{e9}")]);
}

#[test]
fn a_fetched_notebook_starts_with_its_cells() {
    let nb: Nb = MemoryNotebook::with_cells(s("t"), (0, 1), vec![text_cell("a", "1"), divider("b")]);
    assert_eq!(ids(&nb), vec![s("a"), s("b")]);
    assert!(nb.data_sources().is_empty());
    assert!(nb.labels().is_empty());
}

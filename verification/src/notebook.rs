//! A notebook kept in memory and the changes that the realtime protocol
//! applies to it: cells inserted, moved, updated and deleted, the title and
//! time range set, data sources and labels added, replaced and removed.
//!
//! What a cell holds besides its id and its rich text (its kind and the
//! fields of that kind), the annotations of rich text, the time range and
//! the data sources belong to the API's model; the notebook is generic over
//! them.
use crate::text::{chars_eq, chars_of};
use vstd::prelude::*;

verus! {

/// The text of a cell with its formatting annotations.
pub struct RichText<F> {
    pub text: String,
    pub formatting: Vec<F>,
}

/// A cell: its id, its rich text when its kind has one, and the rest.
pub struct Cell<P, F> {
    pub id: String,
    pub rich_text: Option<RichText<F>>,
    pub payload: P,
}

/// A label of a notebook.
pub struct Label {
    pub key: String,
    pub value: String,
}

/// The model of rich text.
pub type RichTextView<F> = (Seq<char>, Seq<F>);

/// The model of a cell: id, rich text, the rest.
pub type CellView<P, F> = (Seq<char>, Option<RichTextView<F>>, P);

/// The model of a cell.
pub open spec fn cell_view<P, F>(c: Cell<P, F>) -> CellView<P, F> {
    (c.id@, match c.rich_text {
        Some(r) => Some((r.text@, r.formatting@)),
        None => None,
    }, c.payload)
}

/// The models of cells.
pub open spec fn cells_view<P, F>(cells: Seq<Cell<P, F>>) -> Seq<CellView<P, F>> {
    cells.map_values(|c: Cell<P, F>| cell_view(c))
}

/// The model of a label: key and value.
pub open spec fn label_view(l: Label) -> (Seq<char>, Seq<char>) {
    (l.key@, l.value@)
}

/// The model of a notebook.
pub struct NotebookView<P, F, T, D> {
    pub title: Seq<char>,
    pub time_range: T,
    pub cells: Seq<CellView<P, F>>,
    pub data_sources: Seq<(Seq<char>, D)>,
    pub labels: Seq<(Seq<char>, Seq<char>)>,
}

/// A change to a notebook.
pub enum Change<P, F, T, D> {
    DeleteCell { cell_id: String },
    InsertCell { cell: Cell<P, F>, index: u32 },
    MoveCells { cell_ids: Vec<String>, index: u32 },
    UpdateCell { cell: Cell<P, F> },
    UpdateCellText { cell_id: String, text: String, formatting: Option<Vec<F>> },
    UpdateNotebookTimeRange { time_range: T },
    UpdateNotebookTitle { title: String },
    AddDataSource { name: String, data_source: D },
    UpdateDataSource { name: String, data_source: D },
    DeleteDataSource { name: String },
    AddLabel { label: Label },
    ReplaceLabel { key: String, label: Label },
    RemoveLabel { label: Label },
}

// ---------------------------------------------------------------------------
// The meaning of each change.
// ---------------------------------------------------------------------------

/// The cells without those whose id is `id`, in order.
pub open spec fn retain_cells<P, F>(cells: Seq<CellView<P, F>>, id: Seq<char>) -> Seq<CellView<P, F>>
    decreases cells.len(),
{
    if cells.len() == 0 {
        Seq::empty()
    } else {
        (if cells[0].0 != id {
            seq![cells[0]]
        } else {
            Seq::empty()
        }) + retain_cells(cells.drop_first(), id)
    }
}

/// The index of the first cell whose id is `id`, if any.
pub open spec fn cell_position<P, F>(cells: Seq<CellView<P, F>>, id: Seq<char>) -> Option<int> {
    if exists|i: int| 0 <= i < cells.len() && cells[i].0 == id {
        Some(
            choose|i: int|
                0 <= i < cells.len() && cells[i].0 == id && forall|j: int|
                    0 <= j < i ==> cells[j].0 != id,
        )
    } else {
        None
    }
}

/// Moving one cell: the first cell with id `id`, if any, is taken out and
/// put at `new_index` of what remains.
pub open spec fn move_one<P, F>(cells: Seq<CellView<P, F>>, id: Seq<char>, new_index: int) -> Seq<
    CellView<P, F>,
> {
    match cell_position(cells, id) {
        Some(p) => cells.remove(p).insert(new_index, cells[p]),
        None => cells,
    }
}

/// Whether moving one cell stays within the cells.
pub open spec fn move_one_ok<P, F>(cells: Seq<CellView<P, F>>, id: Seq<char>, new_index: int) -> bool {
    match cell_position(cells, id) {
        Some(p) => 0 <= new_index <= cells.len() - 1,
        None => true,
    }
}

/// Moving the cells `ids` one after the other, the `i`-th to
/// `index + i`.
pub open spec fn move_cells_spec<P, F>(cells: Seq<CellView<P, F>>, ids: Seq<Seq<char>>, index: int) -> Seq<
    CellView<P, F>,
>
    decreases ids.len(),
{
    if ids.len() == 0 {
        cells
    } else {
        move_one(
            move_cells_spec(cells, ids.drop_last(), index),
            ids.last(),
            index + ids.len() - 1,
        )
    }
}

/// Whether each of the moves stays within the cells.
pub open spec fn move_cells_ok<P, F>(cells: Seq<CellView<P, F>>, ids: Seq<Seq<char>>, index: int) -> bool
    decreases ids.len(),
{
    if ids.len() == 0 {
        true
    } else {
        move_cells_ok(cells, ids.drop_last(), index) && move_one_ok(
            move_cells_spec(cells, ids.drop_last(), index),
            ids.last(),
            index + ids.len() - 1,
        )
    }
}

/// The annotations of an optional formatting; none when it is missing.
pub open spec fn formatting_view<F>(formatting: Option<Vec<F>>) -> Seq<F> {
    match formatting {
        Some(f) => f@,
        None => Seq::empty(),
    }
}

/// A cell with its rich text replaced, for kinds that have rich text.
pub open spec fn with_rich_text<P, F>(c: CellView<P, F>, text: Seq<char>, formatting: Seq<F>) -> CellView<
    P,
    F,
> {
    match c.1 {
        Some(_) => (c.0, Some((text, formatting)), c.2),
        None => c,
    }
}

/// The labels without those whose key is `key`, in order.
pub open spec fn retain_labels(labels: Seq<(Seq<char>, Seq<char>)>, key: Seq<char>) -> Seq<
    (Seq<char>, Seq<char>),
>
    decreases labels.len(),
{
    if labels.len() == 0 {
        Seq::empty()
    } else {
        (if labels[0].0 != key {
            seq![labels[0]]
        } else {
            Seq::empty()
        }) + retain_labels(labels.drop_first(), key)
    }
}

/// The index of the first label whose key is `key`, if any.
pub open spec fn label_position(labels: Seq<(Seq<char>, Seq<char>)>, key: Seq<char>) -> Option<int> {
    if exists|i: int| 0 <= i < labels.len() && labels[i].0 == key {
        Some(
            choose|i: int|
                0 <= i < labels.len() && labels[i].0 == key && forall|j: int|
                    0 <= j < i ==> labels[j].0 != key,
        )
    } else {
        None
    }
}

/// The order of names: by character codes, a proper prefix first (the
/// order of `String`, whose UTF-8 bytes order as the characters do).
pub open spec fn name_lt(a: Seq<char>, b: Seq<char>) -> bool
    decreases a.len(),
{
    if a.len() == 0 {
        b.len() > 0
    } else if b.len() == 0 {
        false
    } else if a[0] != b[0] {
        a[0] < b[0]
    } else {
        name_lt(a.drop_first(), b.drop_first())
    }
}

pub proof fn lemma_name_lt_irreflexive(a: Seq<char>)
    ensures
        !name_lt(a, a),
    decreases a.len(),
{
    if a.len() > 0 {
        lemma_name_lt_irreflexive(a.drop_first());
    }
}

pub proof fn lemma_name_lt_transitive(a: Seq<char>, b: Seq<char>, c: Seq<char>)
    requires
        name_lt(a, b),
        name_lt(b, c),
    ensures
        name_lt(a, c),
    decreases a.len(),
{
    if a.len() > 0 && b.len() > 0 && c.len() > 0 && a[0] == b[0] && b[0] == c[0] {
        lemma_name_lt_transitive(a.drop_first(), b.drop_first(), c.drop_first());
    }
}

pub proof fn lemma_name_lt_total(a: Seq<char>, b: Seq<char>)
    requires
        a != b,
    ensures
        name_lt(a, b) || name_lt(b, a),
    decreases a.len(),
{
    if a.len() > 0 && b.len() > 0 && a[0] == b[0] {
        if a.drop_first() == b.drop_first() {
            assert(a =~= seq![a[0]] + a.drop_first());
            assert(b =~= seq![b[0]] + b.drop_first());
        }
        lemma_name_lt_total(a.drop_first(), b.drop_first());
    } else if a.len() == 0 && b.len() == 0 {
        assert(a =~= b);
    }
}

/// Executable `name_lt`.
fn name_lt_exec(a: &String, b: &String) -> (r: bool)
    ensures
        r == name_lt(a@, b@),
{
    let x = chars_of(a.as_str());
    let y = chars_of(b.as_str());
    let mut i: usize = 0;
    assert(x@.skip(0) =~= x@ && y@.skip(0) =~= y@);
    while i < x.len() && i < y.len() && x[i] == y[i]
        invariant
            i <= x@.len(),
            i <= y@.len(),
            name_lt(x@, y@) == name_lt(x@.skip(i as int), y@.skip(i as int)),
        decreases x@.len() - i,
    {
        proof {
            let xs = x@.skip(i as int);
            let ys = y@.skip(i as int);
            assert(xs.drop_first() =~= x@.skip(i + 1));
            assert(ys.drop_first() =~= y@.skip(i + 1));
        }
        i = i + 1;
    }
    if i == x.len() {
        i < y.len()
    } else if i == y.len() {
        false
    } else {
        x[i] < y[i]
    }
}

/// The names of the data sources increase strictly.
pub open spec fn sources_sorted<D>(sources: Seq<(Seq<char>, D)>) -> bool {
    forall|i: int, j: int|
        0 <= i < j < sources.len() ==> name_lt(#[trigger] sources[i].0, #[trigger] sources[j].0)
}

/// Where a new data source `name` goes: after every source whose name is
/// smaller.
pub open spec fn sorted_index<D>(sources: Seq<(Seq<char>, D)>, name: Seq<char>) -> int
    decreases sources.len(),
{
    if sources.len() == 0 {
        0
    } else if name_lt(sources[0].0, name) {
        1 + sorted_index(sources.drop_first(), name)
    } else {
        0
    }
}

proof fn lemma_sorted_index<D>(sources: Seq<(Seq<char>, D)>, name: Seq<char>, i: int)
    requires
        0 <= i <= sources.len(),
        forall|j: int| 0 <= j < i ==> name_lt(#[trigger] sources[j].0, name),
        i < sources.len() ==> !name_lt(sources[i].0, name),
    ensures
        sorted_index(sources, name) == i,
    decreases i,
{
    if i > 0 {
        let t = sources.drop_first();
        assert(name_lt(sources[0].0, name));
        assert forall|j: int| 0 <= j < i - 1 implies name_lt(#[trigger] t[j].0, name) by {
            assert(t[j] == sources[j + 1]);
        }
        if i < sources.len() {
            assert(t[i - 1] == sources[i]);
        }
        lemma_sorted_index(t, name, i - 1);
    }
}

proof fn lemma_sorted_index_bounds<D>(sources: Seq<(Seq<char>, D)>, name: Seq<char>)
    ensures
        0 <= sorted_index(sources, name) <= sources.len(),
        forall|j: int| 0 <= j < sorted_index(sources, name) ==> name_lt(#[trigger] sources[j].0, name),
        sorted_index(sources, name) < sources.len() ==> !name_lt(
            sources[sorted_index(sources, name)].0,
            name,
        ),
    decreases sources.len(),
{
    if sources.len() > 0 && name_lt(sources[0].0, name) {
        let t = sources.drop_first();
        lemma_sorted_index_bounds(t, name);
        assert forall|j: int| 0 <= j < sorted_index(sources, name) implies name_lt(
            #[trigger] sources[j].0,
            name,
        ) by {
            if j > 0 {
                assert(sources[j] == t[j - 1]);
            }
        }
        if sorted_index(sources, name) < sources.len() {
            assert(sources[sorted_index(sources, name)] == t[sorted_index(t, name)]);
        }
    }
}

/// Setting the data source `name`: replaced where it exists, otherwise
/// added where its name goes among the others.
pub open spec fn set_source<D>(sources: Seq<(Seq<char>, D)>, name: Seq<char>, d: D) -> Seq<
    (Seq<char>, D),
> {
    match source_position(sources, name) {
        Some(i) => sources.update(i, (name, d)),
        None => sources.insert(sorted_index(sources, name), (name, d)),
    }
}

/// The index of the data source `name`, if any.
pub open spec fn source_position<D>(sources: Seq<(Seq<char>, D)>, name: Seq<char>) -> Option<int> {
    if exists|i: int| 0 <= i < sources.len() && sources[i].0 == name {
        Some(
            choose|i: int|
                0 <= i < sources.len() && sources[i].0 == name && forall|j: int|
                    0 <= j < i ==> sources[j].0 != name,
        )
    } else {
        None
    }
}

/// The data sources without `name`.
pub open spec fn remove_source<D>(sources: Seq<(Seq<char>, D)>, name: Seq<char>) -> Seq<
    (Seq<char>, D),
> {
    match source_position(sources, name) {
        Some(i) => sources.remove(i),
        None => sources,
    }
}

/// The notebook after a change.
pub open spec fn apply_change_spec<P, F, T, D>(
    nb: NotebookView<P, F, T, D>,
    ch: Change<P, F, T, D>,
) -> NotebookView<P, F, T, D> {
    match ch {
        Change::DeleteCell { cell_id } => NotebookView {
            cells: retain_cells(nb.cells, cell_id@),
            ..nb
        },
        Change::InsertCell { cell, index } => NotebookView {
            cells: nb.cells.insert(index as int, cell_view(cell)),
            ..nb
        },
        Change::MoveCells { cell_ids, index } => NotebookView {
            cells: move_cells_spec(
                nb.cells,
                cell_ids@.map_values(|s: String| s@),
                index as int,
            ),
            ..nb
        },
        Change::UpdateCell { cell } => NotebookView {
            cells: match cell_position(nb.cells, cell.id@) {
                Some(i) => nb.cells.update(i, cell_view(cell)),
                None => nb.cells,
            },
            ..nb
        },
        Change::UpdateCellText { cell_id, text, formatting } => NotebookView {
            cells: match cell_position(nb.cells, cell_id@) {
                Some(i) => nb.cells.update(
                    i,
                    with_rich_text(
                        nb.cells[i],
                        text@,
                        formatting_view(formatting),
                    ),
                ),
                None => nb.cells,
            },
            ..nb
        },
        Change::UpdateNotebookTimeRange { time_range } => NotebookView { time_range, ..nb },
        Change::UpdateNotebookTitle { title } => NotebookView { title: title@, ..nb },
        Change::AddDataSource { name, data_source } => NotebookView {
            data_sources: set_source(nb.data_sources, name@, data_source),
            ..nb
        },
        Change::UpdateDataSource { name, data_source } => NotebookView {
            data_sources: set_source(nb.data_sources, name@, data_source),
            ..nb
        },
        Change::DeleteDataSource { name } => NotebookView {
            data_sources: remove_source(nb.data_sources, name@),
            ..nb
        },
        Change::AddLabel { label } => NotebookView {
            labels: nb.labels.push(label_view(label)),
            ..nb
        },
        Change::ReplaceLabel { key, label } => NotebookView {
            labels: match label_position(nb.labels, key@) {
                Some(i) => nb.labels.update(i, label_view(label)),
                None => nb.labels,
            },
            ..nb
        },
        Change::RemoveLabel { label } => NotebookView {
            labels: retain_labels(nb.labels, label.key@),
            ..nb
        },
    }
}

/// Whether a change can be applied: an insertion within the cells, and
/// moves that stay within them.
pub open spec fn change_ok<P, F, T, D>(nb: NotebookView<P, F, T, D>, ch: Change<P, F, T, D>) -> bool {
    match ch {
        Change::InsertCell { cell, index } => index <= nb.cells.len(),
        Change::MoveCells { cell_ids, index } => move_cells_ok(
            nb.cells,
            cell_ids@.map_values(|s: String| s@),
            index as int,
        ),
        _ => true,
    }
}

// ---------------------------------------------------------------------------
// The notebook.
// ---------------------------------------------------------------------------

/// A notebook kept in memory.
pub struct MemoryNotebook<P, F, T, D> {
    title: String,
    time_range: T,
    cells: Vec<Cell<P, F>>,
    data_sources: Vec<(String, D)>,
    labels: Vec<Label>,
}

impl<P, F, T, D> View for MemoryNotebook<P, F, T, D> {
    type V = NotebookView<P, F, T, D>;

    closed spec fn view(&self) -> NotebookView<P, F, T, D> {
        NotebookView {
            title: self.title@,
            time_range: self.time_range,
            cells: cells_view(self.cells@),
            data_sources: self.data_sources@.map_values(|e: (String, D)| (e.0@, e.1)),
            labels: self.labels@.map_values(|l: Label| label_view(l)),
        }
    }
}

/// Whether two strings hold the same text.
fn str_eq(a: &String, b: &String) -> (r: bool)
    ensures
        r == (a@ == b@),
{
    chars_eq(&chars_of(a.as_str()), &chars_of(b.as_str()))
}

/// The first cell with id `id`.
fn find_cell_index<P, F>(cells: &Vec<Cell<P, F>>, id: &String) -> (r: Option<usize>)
    ensures
        match r {
            Some(i) => i < cells@.len() && cell_position(cells_view(cells@), id@) == Some(i as int),
            None => cell_position(cells_view(cells@), id@) is None,
        },
{
    let ghost cv = cells_view(cells@);
    let mut i: usize = 0;
    while i < cells.len()
        invariant
            i <= cells@.len(),
            cv == cells_view(cells@),
            forall|j: int| 0 <= j < i ==> cv[j].0 != id@,
        decreases cells@.len() - i,
    {
        if str_eq(&cells[i].id, id) {
            proof {
                assert(cv[i as int].0 == id@);
                let k = choose|k: int|
                    0 <= k < cv.len() && cv[k].0 == id@ && forall|j: int| 0 <= j < k ==> cv[j].0 != id@;
                assert(k == i as int) by {
                    if k < i {
                        assert(cv[k].0 != id@);
                    }
                    if i < k {
                        assert(cv[i as int].0 != id@);
                    }
                }
            }
            return Some(i);
        }
        i = i + 1;
    }
    proof {
        if exists|k: int| 0 <= k < cv.len() && cv[k].0 == id@ {
            let k = choose|k: int| 0 <= k < cv.len() && cv[k].0 == id@;
            assert(cv[k].0 != id@);
        }
    }
    None
}

impl<P, F, T, D> MemoryNotebook<P, F, T, D> {
    /// A notebook with the given title and time range, and no cells, data
    /// sources or labels.
    pub fn new(title: String, time_range: T) -> (nb: Self)
        ensures
            nb@.title == title@,
            nb@.time_range == time_range,
            nb@.cells.len() == 0,
            nb@.data_sources.len() == 0,
            sources_sorted(nb@.data_sources),
            nb@.labels.len() == 0,
    {
        let nb = MemoryNotebook {
            title,
            time_range,
            cells: Vec::new(),
            data_sources: Vec::new(),
            labels: Vec::new(),
        };
        proof {
            assert(nb@.cells =~= Seq::<CellView<P, F>>::empty());
            assert(nb@.data_sources =~= Seq::<(Seq<char>, D)>::empty());
            assert(nb@.labels =~= Seq::<(Seq<char>, Seq<char>)>::empty());
        }
        nb
    }

    /// A notebook with the given title, time range and cells, and no data
    /// sources or labels: how the notebook worker starts from a notebook
    /// fetched from the server.
    pub fn with_cells(title: String, time_range: T, cells: Vec<Cell<P, F>>) -> (nb: Self)
        ensures
            nb@.title == title@,
            nb@.time_range == time_range,
            nb@.cells == cells_view(cells@),
            nb@.data_sources.len() == 0,
            sources_sorted(nb@.data_sources),
            nb@.labels.len() == 0,
    {
        let nb = MemoryNotebook { title, time_range, cells, data_sources: Vec::new(), labels: Vec::new() };
        proof {
            assert(nb@.data_sources =~= Seq::<(Seq<char>, D)>::empty());
            assert(nb@.labels =~= Seq::<(Seq<char>, Seq<char>)>::empty());
        }
        nb
    }

    /// The title.
    pub fn title(&self) -> (t: &String)
        ensures
            t@ == self@.title,
    {
        &self.title
    }

    /// The cells, in order.
    pub fn cells(&self) -> (c: &Vec<Cell<P, F>>)
        ensures
            cells_view(c@) == self@.cells,
    {
        &self.cells
    }

    /// The labels, in order.
    pub fn labels(&self) -> (l: &Vec<Label>)
        ensures
            l@.map_values(|l: Label| label_view(l)) == self@.labels,
    {
        &self.labels
    }

    /// The data sources, by name.
    pub fn data_sources(&self) -> (d: &Vec<(String, D)>)
        ensures
            d@.map_values(|e: (String, D)| (e.0@, e.1)) == self@.data_sources,
    {
        &self.data_sources
    }

    /// The index of the first cell with id `id`, if any (as the 32-bit
    /// index the realtime protocol uses).
    pub fn cell_index(&self, id: &String) -> (r: Option<u32>)
        ensures
            match cell_position(self@.cells, id@) {
                Some(i) => r == Some(i as u32),
                None => r is None,
            },
    {
        match find_cell_index(&self.cells, id) {
            Some(i) => Some(#[verifier::truncate] (i as u32)),
            None => None,
        }
    }

    fn delete_cells(&mut self, id: &String)
        ensures
            final(self)@ == (NotebookView { cells: retain_cells(old(self)@.cells, id@), ..old(self)@ }),
    {
        let mut rest: Vec<Cell<P, F>> = Vec::new();
        std::mem::swap(&mut rest, &mut self.cells);
        let ghost orig = cells_view(rest@);
        while rest.len() > 0
            invariant
                cells_view(self.cells@) + retain_cells(cells_view(rest@), id@) == retain_cells(orig, id@),
                self.title == old(self).title,
                self.time_range == old(self).time_range,
                self.data_sources == old(self).data_sources,
                self.labels == old(self).labels,
            decreases rest@.len(),
        {
            let ghost before_rest = cells_view(rest@);
            let ghost before_kept = cells_view(self.cells@);
            let c = rest.remove(0);
            proof {
                assert(cells_view(rest@) =~= before_rest.drop_first());
                assert(before_rest[0] == cell_view(c));
            }
            if !str_eq(&c.id, id) {
                self.cells.push(c);
                proof {
                    assert(cells_view(self.cells@) =~= before_kept.push(before_rest[0]));
                    assert(cells_view(self.cells@) + retain_cells(cells_view(rest@), id@) =~= before_kept
                        + retain_cells(before_rest, id@));
                }
            } else {
                proof {
                    assert(retain_cells(before_rest, id@) =~= retain_cells(cells_view(rest@), id@));
                }
            }
        }
        proof {
            assert(retain_cells(cells_view(rest@), id@) =~= Seq::<CellView<P, F>>::empty());
            assert(cells_view(self.cells@) =~= retain_cells(orig, id@));
        }
    }

    fn move_cell(&mut self, id: &String, new_index: usize)
        requires
            move_one_ok(old(self)@.cells, id@, new_index as int),
        ensures
            final(self)@ == (NotebookView {
                cells: move_one(old(self)@.cells, id@, new_index as int),
                ..old(self)@
            }),
    {
        match find_cell_index(&self.cells, id) {
            Some(p) => {
                let ghost before = cells_view(self.cells@);
                let c = self.cells.remove(p);
                self.cells.insert(new_index, c);
                proof {
                    assert(cells_view(self.cells@) =~= before.remove(p as int).insert(
                        new_index as int,
                        before[p as int],
                    ));
                }
            },
            None => {},
        }
    }

    fn move_cells(&mut self, ids: &Vec<String>, index: u32)
        requires
            move_cells_ok(old(self)@.cells, ids@.map_values(|s: String| s@), index as int),
        ensures
            final(self)@ == (NotebookView {
                cells: move_cells_spec(
                    old(self)@.cells,
                    ids@.map_values(|s: String| s@),
                    index as int,
                ),
                ..old(self)@
            }),
    {
        let ghost iv = ids@.map_values(|s: String| s@);
        let mut i: usize = 0;
        while i < ids.len()
            invariant
                i <= ids@.len(),
                iv == ids@.map_values(|s: String| s@),
                move_cells_ok(old(self)@.cells, iv, index as int),
                self@ == (NotebookView {
                    cells: move_cells_spec(old(self)@.cells, iv.subrange(0, i as int), index as int),
                    ..old(self)@
                }),
            decreases ids@.len() - i,
        {
            proof {
                lemma_move_cells_ok_prefix(old(self)@.cells, iv, index as int, i + 1);
                let sub = iv.subrange(0, i + 1);
                assert(sub.drop_last() =~= iv.subrange(0, i as int));
                assert(sub.last() == iv[i as int]);
            }
            let ghost before = self@.cells;
            let n = self.cells.len();
            assert(before.len() == n);
            let new_index_int = index as u128 + i as u128;
            proof {
                let sub = iv.subrange(0, i + 1);
                assert(move_one_ok(before, iv[i as int], index + i));
                if cell_position(before, iv[i as int]) is Some {
                    assert(new_index_int <= before.len());
                }
            }
            if new_index_int <= usize::MAX as u128 {
                self.move_cell(&ids[i], new_index_int as usize);
            } else {
                // a move past any index a vector can hold only happens when
                // the cell is not there
                proof {
                    assert(cell_position(before, iv[i as int]) is None);
                }
            }
            i = i + 1;
        }
        assert(iv.subrange(0, iv.len() as int) =~= iv);
    }

    fn update_cell(&mut self, cell: Cell<P, F>)
        ensures
            final(self)@ == (NotebookView {
                cells: match cell_position(old(self)@.cells, cell.id@) {
                    Some(i) => old(self)@.cells.update(i, cell_view(cell)),
                    None => old(self)@.cells,
                },
                ..old(self)@
            }),
    {
        match find_cell_index(&self.cells, &cell.id) {
            Some(i) => {
                let ghost before = cells_view(self.cells@);
                let ghost cv = cell_view(cell);
                self.cells.remove(i);
                self.cells.insert(i, cell);
                proof {
                    assert(cells_view(self.cells@) =~= before.update(i as int, cv));
                }
            },
            None => {},
        }
    }

    #[verifier::spinoff_prover]
    #[verifier::rlimit(40)]
    fn update_cell_text(&mut self, cell_id: &String, text: String, formatting: Option<Vec<F>>)
        ensures
            final(self)@ == (NotebookView {
                cells: match cell_position(old(self)@.cells, cell_id@) {
                    Some(i) => old(self)@.cells.update(
                        i,
                        with_rich_text(
                            old(self)@.cells[i],
                            text@,
                            formatting_view(formatting),
                        ),
                    ),
                    None => old(self)@.cells,
                },
                ..old(self)@
            }),
    {
        match find_cell_index(&self.cells, cell_id) {
            Some(i) => {
                let ghost before = cells_view(self.cells@);
                let ghost fv = formatting_view(formatting);
                let c = self.cells.remove(i);
                let updated = match c.rich_text {
                    Some(_) => {
                        let formatting = match formatting {
                            Some(f) => f,
                            None => Vec::new(),
                        };
                        Cell {
                            id: c.id,
                            rich_text: Some(RichText { text, formatting }),
                            payload: c.payload,
                        }
                    },
                    None => c,
                };
                self.cells.insert(i, updated);
                proof {
                    assert(cells_view(self.cells@) =~= before.update(
                        i as int,
                        with_rich_text(before[i as int], text@, fv),
                    ));
                }
            },
            None => {},
        }
    }

    fn find_source(&self, name: &String) -> (r: Option<usize>)
        ensures
            match r {
                Some(i) => i < self@.data_sources.len() && source_position(self@.data_sources, name@)
                    == Some(i as int),
                None => source_position(self@.data_sources, name@) is None,
            },
    {
        let ghost sv = self@.data_sources;
        let mut i: usize = 0;
        while i < self.data_sources.len()
            invariant
                i <= self.data_sources@.len(),
                sv == self.data_sources@.map_values(|e: (String, D)| (e.0@, e.1)),
                forall|j: int| 0 <= j < i ==> sv[j].0 != name@,
            decreases self.data_sources@.len() - i,
        {
            if str_eq(&self.data_sources[i].0, name) {
                proof {
                    assert(sv[i as int].0 == name@);
                    let k = choose|k: int|
                        0 <= k < sv.len() && sv[k].0 == name@ && forall|j: int|
                            0 <= j < k ==> sv[j].0 != name@;
                    assert(k == i as int) by {
                        if k < i {
                            assert(sv[k].0 != name@);
                        }
                        if i < k {
                            assert(sv[i as int].0 != name@);
                        }
                    }
                }
                return Some(i);
            }
            i = i + 1;
        }
        proof {
            if exists|k: int| 0 <= k < sv.len() && sv[k].0 == name@ {
                let k = choose|k: int| 0 <= k < sv.len() && sv[k].0 == name@;
                assert(sv[k].0 != name@);
            }
        }
        None
    }

    fn set_data_source(&mut self, name: String, data_source: D)
        ensures
            final(self)@ == (NotebookView {
                data_sources: set_source(old(self)@.data_sources, name@, data_source),
                ..old(self)@
            }),
    {
        let ghost before = self@.data_sources;
        let ghost nv = name@;
        match self.find_source(&name) {
            Some(i) => {
                self.data_sources.remove(i);
                self.data_sources.insert(i, (name, data_source));
                proof {
                    assert(self@.data_sources =~= before.update(i as int, (nv, data_source)));
                }
            },
            None => {
                let mut p: usize = 0;
                loop
                    invariant_except_break
                        p <= before.len(),
                        nv == name@,
                        before == self.data_sources@.map_values(|e: (String, D)| (e.0@, e.1)),
                        forall|j: int| 0 <= j < p ==> name_lt(#[trigger] before[j].0, nv),
                    ensures
                        p <= before.len(),
                        nv == name@,
                        before == self.data_sources@.map_values(|e: (String, D)| (e.0@, e.1)),
                        forall|j: int| 0 <= j < p ==> name_lt(#[trigger] before[j].0, nv),
                        p < before.len() ==> !name_lt(before[p as int].0, nv),
                    decreases before.len() - p,
                {
                    if p == self.data_sources.len() {
                        break;
                    }
                    assert(before[p as int].0 == self.data_sources@[p as int].0@);
                    if !name_lt_exec(&self.data_sources[p].0, &name) {
                        break;
                    }
                    p = p + 1;
                }
                proof {
                    lemma_sorted_index(before, nv, p as int);
                }
                self.data_sources.insert(p, (name, data_source));
                proof {
                    assert(self@.data_sources =~= before.insert(p as int, (nv, data_source)));
                }
            },
        }
    }

    fn delete_data_source(&mut self, name: &String)
        ensures
            final(self)@ == (NotebookView {
                data_sources: remove_source(old(self)@.data_sources, name@),
                ..old(self)@
            }),
    {
        let ghost before = self@.data_sources;
        match self.find_source(name) {
            Some(i) => {
                self.data_sources.remove(i);
                proof {
                    assert(self@.data_sources =~= before.remove(i as int));
                }
            },
            None => {},
        }
    }

    fn replace_label(&mut self, key: &String, label: Label)
        ensures
            final(self)@ == (NotebookView {
                labels: match label_position(old(self)@.labels, key@) {
                    Some(i) => old(self)@.labels.update(i, label_view(label)),
                    None => old(self)@.labels,
                },
                ..old(self)@
            }),
    {
        let ghost lv = self@.labels;
        let mut i: usize = 0;
        while i < self.labels.len()
            invariant
                i <= self.labels@.len(),
                lv == self.labels@.map_values(|l: Label| label_view(l)),
                self@ == old(self)@,
                forall|j: int| 0 <= j < i ==> lv[j].0 != key@,
            decreases self.labels@.len() - i,
        {
            if str_eq(&self.labels[i].key, key) {
                proof {
                    assert(lv[i as int].0 == key@);
                    let k = choose|k: int|
                        0 <= k < lv.len() && lv[k].0 == key@ && forall|j: int|
                            0 <= j < k ==> lv[j].0 != key@;
                    assert(k == i as int) by {
                        if k < i {
                            assert(lv[k].0 != key@);
                        }
                        if i < k {
                            assert(lv[i as int].0 != key@);
                        }
                    }
                }
                let ghost nl = label_view(label);
                self.labels.remove(i);
                self.labels.insert(i, label);
                proof {
                    assert(self@.labels =~= lv.update(i as int, nl));
                }
                return ;
            }
            i = i + 1;
        }
        proof {
            if exists|k: int| 0 <= k < lv.len() && lv[k].0 == key@ {
                let k = choose|k: int| 0 <= k < lv.len() && lv[k].0 == key@;
                assert(lv[k].0 != key@);
            }
        }
    }

    fn remove_labels(&mut self, key: &String)
        ensures
            final(self)@ == (NotebookView { labels: retain_labels(old(self)@.labels, key@), ..old(self)@ }),
    {
        let mut rest: Vec<Label> = Vec::new();
        std::mem::swap(&mut rest, &mut self.labels);
        let ghost orig = rest@.map_values(|l: Label| label_view(l));
        while rest.len() > 0
            invariant
                self.labels@.map_values(|l: Label| label_view(l)) + retain_labels(
                    rest@.map_values(|l: Label| label_view(l)),
                    key@,
                ) == retain_labels(orig, key@),
                self.title == old(self).title,
                self.time_range == old(self).time_range,
                self.data_sources == old(self).data_sources,
                self.cells == old(self).cells,
            decreases rest@.len(),
        {
            let ghost before_rest = rest@.map_values(|l: Label| label_view(l));
            let ghost before_kept = self.labels@.map_values(|l: Label| label_view(l));
            let l = rest.remove(0);
            proof {
                assert(rest@.map_values(|l: Label| label_view(l)) =~= before_rest.drop_first());
                assert(before_rest[0] == label_view(l));
            }
            if !str_eq(&l.key, key) {
                self.labels.push(l);
                proof {
                    assert(self.labels@.map_values(|l: Label| label_view(l)) =~= before_kept.push(
                        before_rest[0],
                    ));
                    assert(self.labels@.map_values(|l: Label| label_view(l)) + retain_labels(
                        rest@.map_values(|l: Label| label_view(l)),
                        key@,
                    ) =~= before_kept + retain_labels(before_rest, key@));
                }
            } else {
                proof {
                    assert(retain_labels(before_rest, key@) =~= retain_labels(
                        rest@.map_values(|l: Label| label_view(l)),
                        key@,
                    ));
                }
            }
        }
        proof {
            assert(retain_labels(rest@.map_values(|l: Label| label_view(l)), key@) =~= Seq::<
                (Seq<char>, Seq<char>),
            >::empty());
            assert(self.labels@.map_values(|l: Label| label_view(l)) =~= retain_labels(orig, key@));
        }
    }

    /// Applies a change.
    pub fn apply_change(&mut self, change: Change<P, F, T, D>)
        requires
            change_ok(old(self)@, change),
        ensures
            final(self)@ == apply_change_spec(old(self)@, change),
            sources_sorted(old(self)@.data_sources) ==> sources_sorted(final(self)@.data_sources),
    {
        proof {
            law_change_keeps_sources_sorted(self@, change);
        }
        match change {
            Change::DeleteCell { cell_id } => self.delete_cells(&cell_id),
            Change::InsertCell { cell, index } => {
                let ghost before = cells_view(self.cells@);
                let ghost cv = cell_view(cell);
                self.cells.insert(index as usize, cell);
                proof {
                    assert(cells_view(self.cells@) =~= before.insert(index as int, cv));
                }
            },
            Change::MoveCells { cell_ids, index } => self.move_cells(&cell_ids, index),
            Change::UpdateCell { cell } => self.update_cell(cell),
            Change::UpdateCellText { cell_id, text, formatting } => self.update_cell_text(
                &cell_id,
                text,
                formatting,
            ),
            Change::UpdateNotebookTimeRange { time_range } => {
                self.time_range = time_range;
            },
            Change::UpdateNotebookTitle { title } => {
                self.title = title;
            },
            Change::AddDataSource { name, data_source } => self.set_data_source(name, data_source),
            Change::UpdateDataSource { name, data_source } => self.set_data_source(
                name,
                data_source,
            ),
            Change::DeleteDataSource { name } => self.delete_data_source(&name),
            Change::AddLabel { label } => {
                let ghost before = self@.labels;
                let ghost lv = label_view(label);
                self.labels.push(label);
                proof {
                    assert(self@.labels =~= before.push(lv));
                }
            },
            Change::ReplaceLabel { key, label } => self.replace_label(&key, label),
            Change::RemoveLabel { label } => self.remove_labels(&label.key),
        }
    }
}

/// The notebook after the changes, applied in order.
/// Every change keeps the data sources ordered by name.
pub proof fn law_change_keeps_sources_sorted<P, F, T, D>(
    nb: NotebookView<P, F, T, D>,
    ch: Change<P, F, T, D>,
)
    ensures
        sources_sorted(nb.data_sources) ==> sources_sorted(apply_change_spec(nb, ch).data_sources),
{
    if sources_sorted(nb.data_sources) {
        match ch {
            Change::AddDataSource { name, data_source } => {
                law_sources_stay_sorted(nb.data_sources, name@, data_source);
            },
            Change::UpdateDataSource { name, data_source } => {
                law_sources_stay_sorted(nb.data_sources, name@, data_source);
            },
            Change::DeleteDataSource { name } => {
                lemma_source_position(nb.data_sources, name@);
                if let Some(i) = source_position(nb.data_sources, name@) {
                    lemma_remove_keeps_sorted(nb.data_sources, i);
                }
            },
            _ => {},
        }
    }
}

pub open spec fn apply_changes_spec<P, F, T, D>(
    nb: NotebookView<P, F, T, D>,
    changes: Seq<Change<P, F, T, D>>,
) -> NotebookView<P, F, T, D>
    decreases changes.len(),
{
    if changes.len() == 0 {
        nb
    } else {
        apply_changes_spec(apply_change_spec(nb, changes[0]), changes.drop_first())
    }
}

/// Whether each change can be applied to the notebook the earlier ones left.
pub open spec fn changes_ok<P, F, T, D>(
    nb: NotebookView<P, F, T, D>,
    changes: Seq<Change<P, F, T, D>>,
) -> bool
    decreases changes.len(),
{
    if changes.len() == 0 {
        true
    } else {
        change_ok(nb, changes[0]) && changes_ok(apply_change_spec(nb, changes[0]), changes.drop_first())
    }
}

impl<P, F, T, D> MemoryNotebook<P, F, T, D> {
    /// Applies the changes, in order.
    pub fn apply_changes(&mut self, changes: Vec<Change<P, F, T, D>>)
        requires
            changes_ok(old(self)@, changes@),
        ensures
            final(self)@ == apply_changes_spec(old(self)@, changes@),
            sources_sorted(old(self)@.data_sources) ==> sources_sorted(final(self)@.data_sources),
    {
        let mut rest = changes;
        while rest.len() > 0
            invariant
                changes_ok(self@, rest@),
                apply_changes_spec(self@, rest@) == apply_changes_spec(old(self)@, changes@),
                sources_sorted(old(self)@.data_sources) ==> sources_sorted(self@.data_sources),
            decreases rest@.len(),
        {
            let ghost before = rest@;
            let change = rest.remove(0);
            proof {
                assert(rest@ =~= before.drop_first());
            }
            self.apply_change(change);
        }
    }
}

/// Moves that stay within the cells for all the ids also do for a prefix
/// of them.
pub proof fn lemma_move_cells_ok_prefix<P, F>(
    cells: Seq<CellView<P, F>>,
    ids: Seq<Seq<char>>,
    index: int,
    n: int,
)
    requires
        move_cells_ok(cells, ids, index),
        0 <= n <= ids.len(),
    ensures
        move_cells_ok(cells, ids.subrange(0, n), index),
    decreases ids.len(),
{
    if n < ids.len() {
        assert(ids.drop_last().subrange(0, n) =~= ids.subrange(0, n));
        lemma_move_cells_ok_prefix(cells, ids.drop_last(), index, n);
    } else {
        assert(ids.subrange(0, n) =~= ids);
    }
}

// ---------------------------------------------------------------------------
// Laws.
// ---------------------------------------------------------------------------

/// After a cell is deleted, no cell has its id.
pub proof fn law_deleted_id_is_gone<P, F>(cells: Seq<CellView<P, F>>, id: Seq<char>)
    ensures
        forall|i: int|
            0 <= i < retain_cells(cells, id).len() ==> #[trigger] retain_cells(cells, id)[i].0 != id,
    decreases cells.len(),
{
    if cells.len() > 0 {
        law_deleted_id_is_gone(cells.drop_first(), id);
        let head: Seq<CellView<P, F>> = if cells[0].0 != id {
            seq![cells[0]]
        } else {
            Seq::empty()
        };
        let rest = retain_cells(cells.drop_first(), id);
        assert forall|i: int| 0 <= i < retain_cells(cells, id).len() implies #[trigger] retain_cells(
            cells,
            id,
        )[i].0 != id by {
            assert(retain_cells(cells, id) == head + rest);
            if i >= head.len() {
                assert(retain_cells(cells, id)[i] == rest[i - head.len()]);
            }
        }
    }
}

/// Deleting cells whose id none of the cells has changes nothing.
pub proof fn lemma_retain_absent<P, F>(cells: Seq<CellView<P, F>>, id: Seq<char>)
    requires
        forall|i: int| 0 <= i < cells.len() ==> #[trigger] cells[i].0 != id,
    ensures
        retain_cells(cells, id) == cells,
    decreases cells.len(),
{
    if cells.len() > 0 {
        assert(cells[0].0 != id);
        assert forall|i: int| 0 <= i < cells.drop_first().len() implies #[trigger] cells.drop_first()[i].0
            != id by {
            assert(cells.drop_first()[i] == cells[i + 1]);
        }
        lemma_retain_absent(cells.drop_first(), id);
        assert(seq![cells[0]] + cells.drop_first() =~= cells);
    }
}

/// Inserting a cell with a new id and then deleting that id gives the
/// cells back.
pub proof fn law_insert_then_delete_restores<P, F>(
    cells: Seq<CellView<P, F>>,
    cell: CellView<P, F>,
    index: int,
)
    requires
        0 <= index <= cells.len(),
        forall|i: int| 0 <= i < cells.len() ==> #[trigger] cells[i].0 != cell.0,
    ensures
        retain_cells(cells.insert(index, cell), cell.0) == cells,
    decreases cells.len(),
{
    let s = cells.insert(index, cell);
    if index == 0 {
        assert(s.drop_first() =~= cells);
        lemma_retain_absent(cells, cell.0);
        assert(retain_cells(s, cell.0) =~= retain_cells(cells, cell.0));
    } else {
        assert forall|i: int| 0 <= i < cells.drop_first().len() implies #[trigger] cells.drop_first()[i].0
            != cell.0 by {
            assert(cells.drop_first()[i] == cells[i + 1]);
        }
        law_insert_then_delete_restores(cells.drop_first(), cell, index - 1);
        assert(s[0] == cells[0]);
        assert(s.drop_first() =~= cells.drop_first().insert(index - 1, cell));
        assert(cells[0].0 != cell.0);
        assert(retain_cells(s, cell.0) =~= seq![cells[0]] + cells.drop_first());
        assert(seq![cells[0]] + cells.drop_first() =~= cells);
    }
}

/// Adding a data source under a new name and then deleting that name gives
/// the data sources back.
pub proof fn law_add_then_delete_source_restores<D>(
    sources: Seq<(Seq<char>, D)>,
    name: Seq<char>,
    d: D,
)
    requires
        source_position(sources, name) is None,
    ensures
        remove_source(set_source(sources, name, d), name) == sources,
{
    lemma_sorted_index_bounds(sources, name);
    let p = sorted_index(sources, name);
    let s = sources.insert(p, (name, d));
    assert(set_source(sources, name, d) == s);
    assert(s[p].0 == name);
    let k = choose|k: int|
        0 <= k < s.len() && s[k].0 == name && forall|j: int| 0 <= j < k ==> s[j].0 != name;
    assert(forall|j: int| 0 <= j < sources.len() ==> sources[j].0 != name);
    assert(k == p) by {
        if k < p {
            assert(s[k] == sources[k]);
        } else if k > p {
            assert(s[k] == sources[k - 1]);
        }
    }
    assert(s.remove(p) =~= sources);
}

/// The data source `name`, when there is one, is found where it is.
proof fn lemma_source_position<D>(sources: Seq<(Seq<char>, D)>, name: Seq<char>)
    ensures
        source_position(sources, name) matches Some(i) ==> 0 <= i < sources.len() && sources[i].0
            == name,
{
    if exists|k: int| 0 <= k < sources.len() && sources[k].0 == name {
        let k = choose|k: int| 0 <= k < sources.len() && sources[k].0 == name;
        lemma_first_source(sources, name, k);
    }
}

proof fn lemma_first_source<D>(sources: Seq<(Seq<char>, D)>, name: Seq<char>, k: int)
    requires
        0 <= k < sources.len(),
        sources[k].0 == name,
    ensures
        exists|i: int|
            0 <= i < sources.len() && sources[i].0 == name && forall|j: int|
                0 <= j < i ==> sources[j].0 != name,
    decreases k,
{
    if exists|j: int| 0 <= j < k && sources[j].0 == name {
        let j = choose|j: int| 0 <= j < k && sources[j].0 == name;
        lemma_first_source(sources, name, j);
    } else {
        assert(forall|j: int| 0 <= j < k ==> sources[j].0 != name);
    }
}

/// Data sources stay ordered by name: adding, replacing and deleting one
/// keeps the names strictly increasing.
pub proof fn law_sources_stay_sorted<D>(sources: Seq<(Seq<char>, D)>, name: Seq<char>, d: D)
    requires
        sources_sorted(sources),
    ensures
        sources_sorted(set_source(sources, name, d)),
        sources_sorted(remove_source(sources, name)),
{
    lemma_source_position(sources, name);
    match source_position(sources, name) {
        Some(i) => {
            lemma_replace_keeps_sorted(sources, i, (name, d));
            lemma_remove_keeps_sorted(sources, i);
        },
        None => {
            lemma_insert_keeps_sorted(sources, name, d);
        },
    }
}

proof fn lemma_replace_keeps_sorted<D>(sources: Seq<(Seq<char>, D)>, i: int, e: (Seq<char>, D))
    requires
        sources_sorted(sources),
        0 <= i < sources.len(),
        sources[i].0 == e.0,
    ensures
        sources_sorted(sources.update(i, e)),
{
    let u = sources.update(i, e);
    assert forall|a: int, b: int| 0 <= a < b < u.len() implies name_lt(
        #[trigger] u[a].0,
        #[trigger] u[b].0,
    ) by {
        assert(u[a].0 == sources[a].0);
        assert(u[b].0 == sources[b].0);
    }
}

proof fn lemma_remove_keeps_sorted<D>(sources: Seq<(Seq<char>, D)>, i: int)
    requires
        sources_sorted(sources),
        0 <= i < sources.len(),
    ensures
        sources_sorted(sources.remove(i)),
{
    let r = sources.remove(i);
    assert forall|a: int, b: int| 0 <= a < b < r.len() implies name_lt(
        #[trigger] r[a].0,
        #[trigger] r[b].0,
    ) by {
        let a2 = if a < i {
            a
        } else {
            a + 1
        };
        let b2 = if b < i {
            b
        } else {
            b + 1
        };
        assert(r[a] == sources[a2]);
        assert(r[b] == sources[b2]);
    }
}

#[verifier::rlimit(30)]
proof fn lemma_insert_keeps_sorted<D>(sources: Seq<(Seq<char>, D)>, name: Seq<char>, d: D)
    requires
        sources_sorted(sources),
        forall|j: int| 0 <= j < sources.len() ==> sources[j].0 != name,
    ensures
        sources_sorted(sources.insert(sorted_index(sources, name), (name, d))),
{
    lemma_sorted_index_bounds(sources, name);
    let p = sorted_index(sources, name);
    let n = sources.insert(p, (name, d));
    if p < sources.len() {
        lemma_name_lt_total(sources[p].0, name);
    }
    assert forall|a: int, b: int| 0 <= a < b < n.len() implies name_lt(
        #[trigger] n[a].0,
        #[trigger] n[b].0,
    ) by {
        if b < p {
            assert(n[a] == sources[a] && n[b] == sources[b]);
        } else if b == p {
            assert(n[a] == sources[a]);
        } else if a < p {
            assert(n[a] == sources[a] && n[b] == sources[b - 1]);
        } else if a == p {
            assert(n[b] == sources[b - 1]);
            if b - 1 > p {
                assert(name_lt(sources[p].0, sources[b - 1].0));
                lemma_name_lt_transitive(name, sources[p].0, sources[b - 1].0);
            }
        } else {
            assert(n[a] == sources[a - 1] && n[b] == sources[b - 1]);
        }
    }
}

/// Updating a cell keeps the ids of all cells, in order.
pub proof fn law_update_cell_keeps_ids<P, F>(cells: Seq<CellView<P, F>>, cell: CellView<P, F>)
    ensures
        ({
            let after = match cell_position(cells, cell.0) {
                Some(i) => cells.update(i, cell),
                None => cells,
            };
            &&& after.len() == cells.len()
            &&& forall|i: int| 0 <= i < cells.len() ==> #[trigger] after[i].0 == cells[i].0
        }),
{
    if exists|i: int| 0 <= i < cells.len() && cells[i].0 == cell.0 {
        let p = choose|i: int|
            0 <= i < cells.len() && cells[i].0 == cell.0 && forall|j: int| 0 <= j < i ==> cells[j].0 != cell.0;
        let w = choose|i: int| 0 <= i < cells.len() && cells[i].0 == cell.0;
        assert(exists|i: int|
            0 <= i < cells.len() && cells[i].0 == cell.0 && forall|j: int| 0 <= j < i ==> cells[j].0 != cell.0)
            by {
            lemma_first_match(cells, cell.0, w);
        }
        assert(cell_position(cells, cell.0) == Some(p));
        assert(0 <= p < cells.len() && cells[p].0 == cell.0);
    }
}

/// Where some cell has id `id`, there is a first one.
pub proof fn lemma_first_match<P, F>(cells: Seq<CellView<P, F>>, id: Seq<char>, w: int)
    requires
        0 <= w < cells.len(),
        cells[w].0 == id,
    ensures
        exists|i: int| 0 <= i < cells.len() && cells[i].0 == id && forall|j: int| 0 <= j < i ==> cells[j].0 != id,
    decreases w,
{
    if exists|j: int| 0 <= j < w && cells[j].0 == id {
        let j = choose|j: int| 0 <= j < w && cells[j].0 == id;
        lemma_first_match(cells, id, j);
    } else {
        assert(forall|j: int| 0 <= j < w ==> cells[j].0 != id);
    }
}

} // verus!

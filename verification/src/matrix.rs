//! The key matrix: which cells are held, and how one scan turns a grid of
//! samples into presses and releases.

use vstd::prelude::*;
use crate::action::KeyAction;
use crate::key::Key;
use crate::state::Layout;
use crate::state::State;
use crate::state::StateView;

verus! {

/// Which lines of the matrix are driven, going by the way its diodes point.
#[derive(Clone, Copy, Debug, PartialEq, Eq, Structural)]
pub enum DiodeDirection {
    /// The columns are driven and the rows are read.
    Col2Row,
    /// The rows are driven and the columns are read.
    Row2Col,
}

impl DiodeDirection {
    /// The row of the cell where a driven line and a read line cross.
    pub open spec fn row_of(self, output: int, input: int) -> int {
        match self {
            DiodeDirection::Col2Row => input,
            DiodeDirection::Row2Col => output,
        }
    }

    /// The column of the cell where a driven line and a read line cross.
    pub open spec fn col_of(self, output: int, input: int) -> int {
        match self {
            DiodeDirection::Col2Row => output,
            DiodeDirection::Row2Col => input,
        }
    }

    /// Number of driven lines of a matrix of `rows` by `cols`.
    pub open spec fn outputs(self, rows: int, cols: int) -> int {
        match self {
            DiodeDirection::Col2Row => cols,
            DiodeDirection::Row2Col => rows,
        }
    }

    /// Number of read lines of a matrix of `rows` by `cols`.
    pub open spec fn inputs(self, rows: int, cols: int) -> int {
        match self {
            DiodeDirection::Col2Row => rows,
            DiodeDirection::Row2Col => cols,
        }
    }

    /// The cell, as row and column, where a driven line and a read line cross.
    pub fn cell(self, output: usize, input: usize) -> (cell: (usize, usize))
        ensures
            cell.0 == self.row_of(output as int, input as int),
            cell.1 == self.col_of(output as int, input as int),
    {
        match self {
            DiodeDirection::Col2Row => (input, output),
            DiodeDirection::Row2Col => (output, input),
        }
    }
}

/// The held cells, the layer state, and whether a scan has seen a press or a
/// release so far.
pub struct ScanView {
    /// For every cell, the action it resolved to when it was pressed, while it
    /// is held.
    pub held: Seq<Seq<Option<KeyAction>>>,
    /// The layer state.
    pub state: StateView,
    /// Whether a cell has changed.
    pub changed: bool,
}

impl ScanView {
    /// The scan after one cell was sampled. A cell that is sampled active and
    /// was not held is a press: it resolves to an action, the action acts on
    /// the layer state, and the cell is held with it. A cell that is sampled
    /// inactive and was held is a release: its action acts on the layer state
    /// and the cell is free. Any other sample changes nothing.
    pub open spec fn cell_step(self, layout: Layout, row: int, col: int, active: bool) -> ScanView {
        match self.held[row][col] {
            None => {
                if active {
                    let action = self.state.key(layout, row, col);
                    ScanView {
                        held: self.held.update(row, self.held[row].update(col, Some(action))),
                        state: self.state.press(action, row, col),
                        changed: true,
                    }
                } else {
                    self
                }
            },
            Some(action) => {
                if active {
                    self
                } else {
                    ScanView {
                        held: self.held.update(row, self.held[row].update(col, None)),
                        state: self.state.release(action, row, col),
                        changed: true,
                    }
                }
            },
        }
    }

    /// The scan after the first `upto` read lines were sampled while one line
    /// was driven.
    pub open spec fn scan_line(
        self,
        layout: Layout,
        direction: DiodeDirection,
        output: int,
        line: Seq<bool>,
        upto: int,
    ) -> ScanView
        decreases upto,
    {
        if upto <= 0 {
            self
        } else {
            self.scan_line(layout, direction, output, line, upto - 1).cell_step(
                layout,
                direction.row_of(output, upto - 1),
                direction.col_of(output, upto - 1),
                line[upto - 1],
            )
        }
    }

    /// The scan after the first `upto` lines were driven, one after the other,
    /// and all read lines sampled for each.
    pub open spec fn scan_lines(
        self,
        layout: Layout,
        direction: DiodeDirection,
        samples: Seq<Vec<bool>>,
        upto: int,
    ) -> ScanView
        decreases upto,
    {
        if upto <= 0 {
            self
        } else {
            self.scan_lines(layout, direction, samples, upto - 1).scan_line(
                layout,
                direction,
                upto - 1,
                samples[upto - 1]@,
                samples[upto - 1].len() as int,
            )
        }
    }
}

/// The keys held in the first `upto` cells of a row, by column.
pub open spec fn line_keys(line: Seq<Option<KeyAction>>, row: int, upto: int) -> Seq<Key>
    decreases upto,
{
    if upto <= 0 {
        Seq::empty()
    } else {
        match line[upto - 1] {
            Some(action) => line_keys(line, row, upto - 1).push(Key::at(row, upto - 1, action)),
            None => line_keys(line, row, upto - 1),
        }
    }
}

/// The keys held in the first `upto` rows: row by row, and by column within a
/// row.
pub open spec fn grid_keys(held: Seq<Seq<Option<KeyAction>>>, upto: int) -> Seq<Key>
    decreases upto,
{
    if upto <= 0 {
        Seq::empty()
    } else {
        grid_keys(held, upto - 1) + line_keys(held[upto - 1], upto - 1, held[upto - 1].len() as int)
    }
}

/// Whether a cell is held with a momentary-layer key.
pub open spec fn holds_momentary(held: Option<KeyAction>) -> bool {
    held matches Some(action) && action is MomentaryLayer
}

impl ScanView {
    /// The held cells and the overrides are grids of `rows` by `cols`.
    pub open spec fn shaped(self, rows: int, cols: int) -> bool {
        &&& self.held.len() == rows
        &&& self.state.overrides.len() == rows
        &&& forall|r: int| 0 <= r < rows ==> (#[trigger] self.held[r]).len() == cols
        &&& forall|r: int| 0 <= r < rows ==> (#[trigger] self.state.overrides[r]).len() == cols
    }

    /// A cell is locked exactly while it is held with a momentary-layer key.
    pub open spec fn locks_agree(self, rows: int, cols: int) -> bool {
        forall|r: int, c: int|
            0 <= r < rows && 0 <= c < cols ==> (self.state.locked(r, c) <==> holds_momentary(
                #[trigger] self.held[r][c],
            ))
    }
}

/// One sample keeps the locks in step with the held cells: a cell becomes
/// locked when a momentary-layer key goes down there, stays locked while the
/// key is held, and is unlocked by the release of that key and by nothing
/// else.
pub proof fn lemma_cell_step_keeps_locks(
    scan: ScanView,
    layout: Layout,
    rows: int,
    cols: int,
    row: int,
    col: int,
    active: bool,
)
    requires
        scan.shaped(rows, cols),
        scan.locks_agree(rows, cols),
        0 <= row < rows,
        0 <= col < cols,
    ensures
        scan.cell_step(layout, row, col, active).shaped(rows, cols),
        scan.cell_step(layout, row, col, active).locks_agree(rows, cols),
{
}

/// A scan keeps the locks in step with the held cells, see
/// [`lemma_cell_step_keeps_locks`].
pub proof fn lemma_scan_keeps_locks(
    scan: ScanView,
    layout: Layout,
    direction: DiodeDirection,
    samples: Seq<Vec<bool>>,
    rows: int,
    cols: int,
    upto: int,
)
    requires
        scan.shaped(rows, cols),
        scan.locks_agree(rows, cols),
        samples_fit(samples, direction.outputs(rows, cols), direction.inputs(rows, cols)),
        0 <= upto <= samples.len(),
    ensures
        scan.scan_lines(layout, direction, samples, upto).shaped(rows, cols),
        scan.scan_lines(layout, direction, samples, upto).locks_agree(rows, cols),
    decreases upto,
{
    if upto > 0 {
        lemma_scan_keeps_locks(scan, layout, direction, samples, rows, cols, upto - 1);
        lemma_line_keeps_locks(
            scan.scan_lines(layout, direction, samples, upto - 1),
            layout,
            direction,
            upto - 1,
            samples[upto - 1]@,
            rows,
            cols,
            samples[upto - 1].len() as int,
        );
    }
}

/// The samples of one driven line keep the locks in step with the held cells.
proof fn lemma_line_keeps_locks(
    scan: ScanView,
    layout: Layout,
    direction: DiodeDirection,
    output: int,
    line: Seq<bool>,
    rows: int,
    cols: int,
    upto: int,
)
    requires
        scan.shaped(rows, cols),
        scan.locks_agree(rows, cols),
        0 <= output < direction.outputs(rows, cols),
        0 <= upto <= direction.inputs(rows, cols),
    ensures
        scan.scan_line(layout, direction, output, line, upto).shaped(rows, cols),
        scan.scan_line(layout, direction, output, line, upto).locks_agree(rows, cols),
    decreases upto,
{
    if upto > 0 {
        lemma_line_keeps_locks(scan, layout, direction, output, line, rows, cols, upto - 1);
        lemma_cell_step_keeps_locks(
            scan.scan_line(layout, direction, output, line, upto - 1),
            layout,
            rows,
            cols,
            direction.row_of(output, upto - 1),
            direction.col_of(output, upto - 1),
            line[upto - 1],
        );
    }
}

impl DiodeDirection {
    /// The driven line on which a cell lies.
    pub open spec fn output_of(self, row: int, col: int) -> int {
        match self {
            DiodeDirection::Col2Row => col,
            DiodeDirection::Row2Col => row,
        }
    }

    /// The read line on which a cell lies.
    pub open spec fn input_of(self, row: int, col: int) -> int {
        match self {
            DiodeDirection::Col2Row => row,
            DiodeDirection::Row2Col => col,
        }
    }
}

/// Whether a sample differs from what is held at its cell: a key that is
/// down and was not held, or one that is up and was held.
pub open spec fn sample_differs(
    held: Seq<Seq<Option<KeyAction>>>,
    direction: DiodeDirection,
    output: int,
    input: int,
    active: bool,
) -> bool {
    active != held[direction.row_of(output, input)][direction.col_of(output, input)].is_some()
}

/// Whether one of the first `upto` samples of a driven line differs from what
/// is held at its cell.
pub open spec fn line_differs(
    held: Seq<Seq<Option<KeyAction>>>,
    direction: DiodeDirection,
    output: int,
    line: Seq<bool>,
    upto: int,
) -> bool
    decreases upto,
{
    upto > 0 && (line_differs(held, direction, output, line, upto - 1) || sample_differs(
        held,
        direction,
        output,
        upto - 1,
        line[upto - 1],
    ))
}

/// Whether one of the samples of the first `upto` driven lines differs from
/// what is held at its cell.
pub open spec fn samples_differ(
    held: Seq<Seq<Option<KeyAction>>>,
    direction: DiodeDirection,
    samples: Seq<Vec<bool>>,
    upto: int,
) -> bool
    decreases upto,
{
    upto > 0 && (samples_differ(held, direction, samples, upto - 1) || line_differs(
        held,
        direction,
        upto - 1,
        samples[upto - 1]@,
        samples[upto - 1].len() as int,
    ))
}

/// A scan tracks the samples. After it, a cell is held exactly if its sample
/// was active, and the scan says that something changed exactly if a sample
/// differed from what was held at its cell before: a key that stays down is
/// no press, a key that stays up is no release, and no press or release goes
/// unseen, whatever the layer keys among them do.
pub proof fn lemma_scan_tracks_samples(
    scan: ScanView,
    layout: Layout,
    direction: DiodeDirection,
    samples: Seq<Vec<bool>>,
    rows: int,
    cols: int,
)
    requires
        scan.shaped(rows, cols),
        samples_fit(samples, direction.outputs(rows, cols), direction.inputs(rows, cols)),
    ensures
        ({
            let after = scan.scan_lines(layout, direction, samples, samples.len() as int);
            &&& forall|r: int, c: int|
                0 <= r < rows && 0 <= c < cols ==> (#[trigger] after.held[r][c]).is_some()
                    == samples[direction.output_of(r, c)][direction.input_of(r, c)]
            &&& after.changed == (scan.changed || samples_differ(
                scan.held,
                direction,
                samples,
                samples.len() as int,
            ))
        }),
{
    lemma_lines_track(scan, layout, direction, samples, rows, cols, samples.len() as int);
}

/// [`lemma_scan_tracks_samples`] for the first `upto` driven lines: their
/// cells follow their samples, the other cells are as before.
proof fn lemma_lines_track(
    scan: ScanView,
    layout: Layout,
    direction: DiodeDirection,
    samples: Seq<Vec<bool>>,
    rows: int,
    cols: int,
    upto: int,
)
    requires
        scan.shaped(rows, cols),
        samples_fit(samples, direction.outputs(rows, cols), direction.inputs(rows, cols)),
        0 <= upto <= samples.len(),
    ensures
        ({
            let after = scan.scan_lines(layout, direction, samples, upto);
            &&& after.shaped(rows, cols)
            &&& forall|r: int, c: int|
                0 <= r < rows && 0 <= c < cols && direction.output_of(r, c) >= upto ==> (
                #[trigger] after.held[r][c]) == scan.held[r][c]
            &&& forall|r: int, c: int|
                0 <= r < rows && 0 <= c < cols && direction.output_of(r, c) < upto ==> (
                #[trigger] after.held[r][c]).is_some() == samples[direction.output_of(
                    r,
                    c,
                )][direction.input_of(r, c)]
            &&& after.changed == (scan.changed || samples_differ(scan.held, direction, samples, upto))
        }),
    decreases upto,
{
    if upto > 0 {
        lemma_lines_track(scan, layout, direction, samples, rows, cols, upto - 1);
        let before = scan.scan_lines(layout, direction, samples, upto - 1);
        let line = samples[upto - 1]@;
        lemma_line_tracks(before, layout, direction, upto - 1, line, rows, cols, line.len() as int);
        lemma_line_differs_by_its_cells(
            before.held,
            scan.held,
            direction,
            upto - 1,
            line,
            rows,
            cols,
            line.len() as int,
        );
    }
}

/// [`lemma_scan_tracks_samples`] for the first `upto` samples of one driven
/// line.
proof fn lemma_line_tracks(
    scan: ScanView,
    layout: Layout,
    direction: DiodeDirection,
    output: int,
    line: Seq<bool>,
    rows: int,
    cols: int,
    upto: int,
)
    requires
        scan.shaped(rows, cols),
        0 <= output < direction.outputs(rows, cols),
        0 <= upto <= direction.inputs(rows, cols),
    ensures
        ({
            let after = scan.scan_line(layout, direction, output, line, upto);
            &&& after.shaped(rows, cols)
            &&& forall|r: int, c: int|
                0 <= r < rows && 0 <= c < cols && !(direction.output_of(r, c) == output
                    && direction.input_of(r, c) < upto) ==> (#[trigger] after.held[r][c])
                    == scan.held[r][c]
            &&& forall|r: int, c: int|
                0 <= r < rows && 0 <= c < cols && direction.output_of(r, c) == output
                    && direction.input_of(r, c) < upto ==> (#[trigger] after.held[r][c]).is_some()
                    == line[direction.input_of(r, c)]
            &&& after.changed == (scan.changed || line_differs(
                scan.held,
                direction,
                output,
                line,
                upto,
            ))
        }),
    decreases upto,
{
    if upto > 0 {
        lemma_line_tracks(scan, layout, direction, output, line, rows, cols, upto - 1);
    }
}

/// Whether a line differs from what is held depends only on what is held at
/// the cells of that line.
proof fn lemma_line_differs_by_its_cells(
    held: Seq<Seq<Option<KeyAction>>>,
    other: Seq<Seq<Option<KeyAction>>>,
    direction: DiodeDirection,
    output: int,
    line: Seq<bool>,
    rows: int,
    cols: int,
    upto: int,
)
    requires
        0 <= output < direction.outputs(rows, cols),
        0 <= upto <= direction.inputs(rows, cols),
        forall|r: int, c: int|
            0 <= r < rows && 0 <= c < cols && direction.output_of(r, c) == output ==> (
            #[trigger] held[r][c]) == other[r][c],
    ensures
        line_differs(held, direction, output, line, upto) == line_differs(
            other,
            direction,
            output,
            line,
            upto,
        ),
    decreases upto,
{
    if upto > 0 {
        lemma_line_differs_by_its_cells(held, other, direction, output, line, rows, cols, upto - 1);
    }
}

/// Whether `samples` holds one sample for every crossing of `outputs` driven
/// lines and `inputs` read lines.
pub open spec fn samples_fit(samples: Seq<Vec<bool>>, outputs: int, inputs: int) -> bool {
    &&& samples.len() == outputs
    &&& forall|o: int| 0 <= o < outputs ==> (#[trigger] samples[o]).len() == inputs
}

/// The key matrix.
pub struct Matrix {
    rows: usize,
    cols: usize,
    direction: DiodeDirection,
    held: Vec<Vec<Option<KeyAction>>>,
}

impl Matrix {
    /// Number of rows.
    pub closed spec fn rows(&self) -> int {
        self.rows as int
    }

    /// Number of columns.
    pub closed spec fn cols(&self) -> int {
        self.cols as int
    }

    /// Which lines are driven.
    pub closed spec fn direction(&self) -> DiodeDirection {
        self.direction
    }

    /// For every cell, the action it is held with.
    pub closed spec fn held(&self) -> Seq<Seq<Option<KeyAction>>> {
        Seq::new(self.held.len() as nat, |r: int| self.held[r]@)
    }

    /// The grid of held cells has the matrix's rows and columns.
    pub open spec fn wf(&self) -> bool {
        &&& self.held().len() == self.rows()
        &&& forall|r: int| 0 <= r < self.rows() ==> (#[trigger] self.held()[r]).len() == self.cols()
    }

    /// The matrix and the layer state are for the same grid.
    pub open spec fn matches(&self, state: &State) -> bool {
        &&& self.rows() == state.keymap().rows()
        &&& self.cols() == state.keymap().cols()
    }

    /// Number of driven lines.
    pub open spec fn outputs(&self) -> int {
        self.direction().outputs(self.rows(), self.cols())
    }

    /// Number of read lines.
    pub open spec fn inputs(&self) -> int {
        self.direction().inputs(self.rows(), self.cols())
    }

    proof fn lemma_fields(&self)
        requires
            self.wf(),
        ensures
            self.held.len() == self.rows,
            forall|r: int| 0 <= r < self.rows ==> (#[trigger] self.held[r]).len() == self.cols,
            forall|r: int, c: int|
                0 <= r < self.rows && 0 <= c < self.cols ==> self.held[r][c] == self.held()[r][c],
    {
        assert forall|r: int| 0 <= r < self.rows implies (#[trigger] self.held[r]).len()
            == self.cols by {
            assert(self.held()[r].len() == self.cols);
        }
    }

    /// A matrix of `rows` by `cols` cells with no cell held.
    pub fn new(rows: usize, cols: usize, direction: DiodeDirection) -> (matrix: Self)
        ensures
            matrix.wf(),
            matrix.rows() == rows,
            matrix.cols() == cols,
            matrix.direction() == direction,
            forall|r: int, c: int|
                0 <= r < rows && 0 <= c < cols ==> (#[trigger] matrix.held()[r][c]).is_none(),
    {
        let mut held: Vec<Vec<Option<KeyAction>>> = Vec::new();
        let mut r: usize = 0;
        while r < rows
            invariant
                r <= rows,
                held.len() == r,
                forall|i: int| 0 <= i < r ==> (#[trigger] held[i]).len() == cols,
                forall|i: int, j: int| 0 <= i < r && 0 <= j < cols ==> held[i][j].is_none(),
            decreases rows - r,
        {
            let mut line: Vec<Option<KeyAction>> = Vec::new();
            let mut c: usize = 0;
            while c < cols
                invariant
                    c <= cols,
                    line.len() == c,
                    forall|j: int| 0 <= j < c ==> (#[trigger] line[j]).is_none(),
                decreases cols - c,
            {
                line.push(None);
                c += 1;
            }
            held.push(line);
            r += 1;
        }
        Matrix { rows, cols, direction, held }
    }

    /// Number of driven lines.
    pub fn output_count(&self) -> (n: usize)
        ensures
            n == self.outputs(),
    {
        match self.direction {
            DiodeDirection::Col2Row => self.cols,
            DiodeDirection::Row2Col => self.rows,
        }
    }

    /// Number of read lines.
    pub fn input_count(&self) -> (n: usize)
        ensures
            n == self.inputs(),
    {
        match self.direction {
            DiodeDirection::Col2Row => self.rows,
            DiodeDirection::Row2Col => self.cols,
        }
    }

    /// Whether `samples` holds one sample for every crossing of this matrix.
    pub fn accepts(&self, samples: &Vec<Vec<bool>>) -> (ok: bool)
        ensures
            ok == samples_fit(samples@, self.outputs(), self.inputs()),
    {
        let outputs: usize = self.output_count();
        let inputs: usize = self.input_count();
        if samples.len() != outputs {
            return false;
        }
        let mut o: usize = 0;
        while o < outputs
            invariant
                o <= outputs,
                outputs == self.outputs(),
                inputs == self.inputs(),
                samples.len() == outputs,
                forall|k: int| 0 <= k < o ==> (#[trigger] samples[k]).len() == inputs,
            decreases outputs - o,
        {
            if samples[o].len() != inputs {
                return false;
            }
            o += 1;
        }
        true
    }

    /// The action a cell is held with, if it is held.
    pub fn held_at(&self, row: usize, col: usize) -> (held: Option<KeyAction>)
        requires
            self.wf(),
            row < self.rows(),
            col < self.cols(),
        ensures
            held == self.held()[row as int][col as int],
    {
        proof {
            self.lemma_fields();
        }
        self.held[row][col]
    }

    /// Takes the sample of one cell, see [`ScanView::cell_step`]. Says
    /// whether the cell was pressed or released.
    pub fn update_cell(&mut self, state: &mut State, row: usize, col: usize, active: bool) -> (changed:
        bool)
        requires
            old(self).wf(),
            old(state).wf(),
            old(self).matches(old(state)),
            row < old(self).rows(),
            col < old(self).cols(),
        ensures
            final(self).wf(),
            final(state).wf(),
            final(self).rows() == old(self).rows(),
            final(self).cols() == old(self).cols(),
            final(self).direction() == old(self).direction(),
            final(state).keymap() == old(state).keymap(),
            (ScanView { held: final(self).held(), state: final(state)@, changed }) == (ScanView {
                held: old(self).held(),
                state: old(state)@,
                changed: false,
            }).cell_step(old(state).keymap(), row as int, col as int, active),
    {
        proof {
            self.lemma_fields();
        }
        match self.held[row][col] {
            None => {
                if active {
                    let action: KeyAction = state.get_key(row, col);
                    state.on_press(action, row, col);
                    self.held[row][col] = Some(action);
                    assert(self.held() =~= old(self).held().update(
                        row as int,
                        old(self).held()[row as int].update(col as int, Some(action)),
                    ));
                    true
                } else {
                    false
                }
            },
            Some(action) => {
                if active {
                    false
                } else {
                    state.on_release(action, row, col);
                    self.held[row][col] = None;
                    assert(self.held() =~= old(self).held().update(
                        row as int,
                        old(self).held()[row as int].update(col as int, None),
                    ));
                    true
                }
            },
        }
    }

    /// Runs one scan. With no samples, because the scan period has not
    /// elapsed, nothing changes. With samples, where `samples[output][input]`
    /// is the level read on one line while another was driven, every cell is
    /// taken in turn, driven line by driven line and within each read line by
    /// read line, see [`ScanView::scan_lines`]; a layer key that goes down
    /// acts on the cells after it. Says whether any cell was pressed or
    /// released.
    pub fn scan(&mut self, state: &mut State, samples: Option<&Vec<Vec<bool>>>) -> (changed: bool)
        requires
            old(self).wf(),
            old(state).wf(),
            old(self).matches(old(state)),
            samples matches Some(grid) ==> samples_fit(
                grid@,
                old(self).outputs(),
                old(self).inputs(),
            ),
        ensures
            final(self).wf(),
            final(state).wf(),
            final(self).rows() == old(self).rows(),
            final(self).cols() == old(self).cols(),
            final(self).direction() == old(self).direction(),
            final(state).keymap() == old(state).keymap(),
            (ScanView { held: final(self).held(), state: final(state)@, changed }) == (match samples {
                Some(grid) => (ScanView {
                    held: old(self).held(),
                    state: old(state)@,
                    changed: false,
                }).scan_lines(
                    old(state).keymap(),
                    old(self).direction(),
                    grid@,
                    grid.len() as int,
                ),
                None => (ScanView { held: old(self).held(), state: old(state)@, changed: false }),
            }),
    {
        let grid: &Vec<Vec<bool>> = match samples {
            Some(grid) => grid,
            None => {
                return false;
            },
        };
        let ghost start = ScanView { held: self.held(), state: state@, changed: false };
        let ghost layout = state.keymap();
        let direction: DiodeDirection = self.direction;
        let outputs: usize = self.output_count();
        let inputs: usize = self.input_count();
        let mut changed: bool = false;
        let mut output: usize = 0;
        while output < outputs
            invariant
                output <= outputs,
                self.wf(),
                state.wf(),
                self.matches(state),
                state.keymap() == layout,
                self.rows() == old(self).rows(),
                self.cols() == old(self).cols(),
                self.direction() == direction,
                direction == old(self).direction(),
                outputs == self.outputs(),
                inputs == self.inputs(),
                samples_fit(grid@, outputs as int, inputs as int),
                (ScanView { held: self.held(), state: state@, changed }) == start.scan_lines(
                    layout,
                    direction,
                    grid@,
                    output as int,
                ),
            decreases outputs - output,
        {
            let ghost line_start = ScanView { held: self.held(), state: state@, changed };
            let mut input: usize = 0;
            while input < inputs
                invariant
                    input <= inputs,
                    output < outputs,
                    self.wf(),
                    state.wf(),
                    self.matches(state),
                    state.keymap() == layout,
                    self.rows() == old(self).rows(),
                    self.cols() == old(self).cols(),
                    self.direction() == direction,
                    direction == old(self).direction(),
                    outputs == self.outputs(),
                    inputs == self.inputs(),
                    samples_fit(grid@, outputs as int, inputs as int),
                    (ScanView { held: self.held(), state: state@, changed })
                        == line_start.scan_line(
                        layout,
                        direction,
                        output as int,
                        grid[output as int]@,
                        input as int,
                    ),
                decreases inputs - input,
            {
                let (row, col) = direction.cell(output, input);
                let active: bool = grid[output][input];
                let cell_changed: bool = self.update_cell(state, row, col, active);
                changed = changed || cell_changed;
                input += 1;
            }
            output += 1;
        }
        changed
    }

    /// The keys that are held, row by row and by column within a row, see
    /// [`grid_keys`].
    pub fn held_keys(&self) -> (keys: Vec<Key>)
        requires
            self.wf(),
        ensures
            keys@ == grid_keys(self.held(), self.rows()),
    {
        proof {
            self.lemma_fields();
        }
        let mut keys: Vec<Key> = Vec::new();
        let mut row: usize = 0;
        while row < self.rows
            invariant
                row <= self.rows,
                self.wf(),
                self.held.len() == self.rows,
                forall|r: int| 0 <= r < self.rows ==> (#[trigger] self.held[r]).len() == self.cols,
                forall|r: int, c: int|
                    0 <= r < self.rows && 0 <= c < self.cols ==> self.held[r][c]
                        == self.held()[r][c],
                keys@ == grid_keys(self.held(), row as int),
            decreases self.rows - row,
        {
            let ghost before = keys@;
            let mut col: usize = 0;
            while col < self.cols
                invariant
                    col <= self.cols,
                    row < self.rows,
                    self.wf(),
                    self.held.len() == self.rows,
                    self.held[row as int].len() == self.cols,
                    forall|c: int|
                        0 <= c < self.cols ==> self.held[row as int][c] == self.held()[row as int][c],
                    keys@ == before + line_keys(self.held()[row as int], row as int, col as int),
                decreases self.cols - col,
            {
                match self.held[row][col] {
                    Some(action) => {
                        keys.push(Key::on_matrix(row, col, action));
                    },
                    None => {},
                }
                col += 1;
            }
            row += 1;
        }
        keys
    }
}

} // verus!

//! The keymap and the layer state: which action a cell resolves to, and what
//! pressing and releasing layer keys does to the active layer.

use vstd::prelude::*;
use crate::action::KeyAction;
use crate::action::ReportKey;

verus! {

/// Whether `layers` is a usable keymap: at least one layer, every layer the
/// same grid of rows and columns, every layer key pointing at a layer that
/// exists, and no `Transparent` cell in layer 0, below which there is nothing
/// to defer to.
pub open spec fn valid_keymap(layers: Seq<Vec<Vec<KeyAction>>>) -> bool {
    &&& layers.len() > 0
    &&& forall|l: int| 0 <= l < layers.len() ==> (#[trigger] layers[l]).len() == layers[0].len()
    &&& forall|l: int, r: int|
        0 <= l < layers.len() && 0 <= r < layers[0].len() ==> (#[trigger] layers[l][r]).len()
            == layers[0][0].len()
    &&& forall|l: int, r: int, c: int|
        0 <= l < layers.len() && 0 <= r < layers[0].len() && 0 <= c < layers[0][0].len() ==> (
        #[trigger] layers[l][r][c]).fits(layers.len() as int)
    &&& forall|r: int, c: int|
        0 <= r < layers[0].len() && 0 <= c < layers[0][0].len() ==> #[trigger] layers[0][r][c]
            != KeyAction::Transparent
}

/// The keymap: an ordered sequence of layers, each a grid of actions.
pub struct Layout {
    layers: Vec<Vec<Vec<KeyAction>>>,
}

impl Layout {
    /// Number of layers.
    pub closed spec fn layer_count(&self) -> int {
        self.layers.len() as int
    }

    /// Number of rows of every layer.
    pub closed spec fn rows(&self) -> int {
        self.layers[0].len() as int
    }

    /// Number of columns of every layer.
    pub closed spec fn cols(&self) -> int {
        if self.layers[0].len() > 0 {
            self.layers[0][0].len() as int
        } else {
            0
        }
    }

    /// The action a layer holds at a position.
    pub closed spec fn at(&self, layer: int, row: int, col: int) -> KeyAction {
        self.layers[layer][row][col]
    }

    /// The keymap is usable, see [`valid_keymap`].
    pub closed spec fn wf(&self) -> bool {
        valid_keymap(self.layers@)
    }

    /// Whether a position lies in the grid.
    pub open spec fn has_cell(&self, row: int, col: int) -> bool {
        0 <= row < self.rows() && 0 <= col < self.cols()
    }

    /// The action that presses at a position resolve to under `layer`: the
    /// first action that is not `Transparent`, looking from `layer` towards
    /// layer 0.
    pub open spec fn resolve(&self, layer: int, row: int, col: int) -> KeyAction
        decreases layer,
    {
        if layer > 0 && self.at(layer, row, col) == KeyAction::Transparent {
            self.resolve(layer - 1, row, col)
        } else {
            self.at(layer, row, col)
        }
    }

    /// The invariant of a keymap: it has a layer 0, every layer key in it
    /// points at one of its layers, and no cell of layer 0 is `Transparent`.
    pub proof fn lemma_cells(&self)
        requires
            self.wf(),
        ensures
            self.layer_count() > 0,
            self.rows() >= 0,
            self.cols() >= 0,
            forall|l: int, r: int, c: int|
                0 <= l < self.layer_count() && self.has_cell(r, c) ==> (#[trigger] self.at(
                    l,
                    r,
                    c,
                )).fits(self.layer_count()),
            forall|r: int, c: int|
                self.has_cell(r, c) ==> #[trigger] self.at(0, r, c) != KeyAction::Transparent,
    {
    }

    /// Resolution never ends on `Transparent`, and ends on an action that fits
    /// the keymap.
    pub proof fn lemma_resolve_is_concrete(&self, layer: int, row: int, col: int)
        requires
            self.wf(),
            0 <= layer < self.layer_count(),
            self.has_cell(row, col),
        ensures
            self.resolve(layer, row, col) != KeyAction::Transparent,
            self.resolve(layer, row, col).fits(self.layer_count()),
        decreases layer,
    {
        if layer > 0 && self.at(layer, row, col) == KeyAction::Transparent {
            self.lemma_resolve_is_concrete(layer - 1, row, col);
        }
    }

    /// Checks a keymap before it is handed to [`Layout::new`].
    pub fn is_valid(layers: &Vec<Vec<Vec<KeyAction>>>) -> (ok: bool)
        ensures
            ok == valid_keymap(layers@),
    {
        if layers.len() == 0 {
            return false;
        }
        let rows: usize = layers[0].len();
        let cols: usize = if rows > 0 {
            layers[0][0].len()
        } else {
            0
        };
        let count: usize = layers.len();
        let mut l: usize = 0;
        while l < count
            invariant
                l <= count,
                count == layers.len(),
                count > 0,
                rows == layers[0].len(),
                rows > 0 ==> cols == layers[0][0].len(),
                forall|k: int| 0 <= k < l ==> (#[trigger] layers[k]).len() == rows,
                forall|k: int, r: int|
                    0 <= k < l && 0 <= r < rows ==> (#[trigger] layers[k][r]).len() == cols,
                forall|k: int, r: int, c: int|
                    0 <= k < l && 0 <= r < rows && 0 <= c < cols ==> (#[trigger] layers[k][r][c]).fits(
                        count as int,
                    ),
                forall|r: int, c: int|
                    0 < l && 0 <= r < rows && 0 <= c < cols ==> #[trigger] layers[0][r][c]
                        != KeyAction::Transparent,
            decreases count - l,
        {
            if layers[l].len() != rows {
                return false;
            }
            let mut r: usize = 0;
            while r < rows
                invariant
                    r <= rows,
                    l < count,
                    count == layers.len(),
                    rows == layers[0].len(),
                    rows > 0 ==> cols == layers[0][0].len(),
                    layers[l as int].len() == rows,
                    forall|q: int| 0 <= q < r ==> (#[trigger] layers[l as int][q]).len() == cols,
                    forall|q: int, c: int|
                        0 <= q < r && 0 <= c < cols ==> (#[trigger] layers[l as int][q][c]).fits(
                            count as int,
                        ),
                    forall|q: int, c: int|
                        l == 0 && 0 <= q < r && 0 <= c < cols ==> #[trigger] layers[0][q][c]
                            != KeyAction::Transparent,
                decreases rows - r,
            {
                if layers[l][r].len() != cols {
                    return false;
                }
                let mut c: usize = 0;
                while c < cols
                    invariant
                        c <= cols,
                        l < count,
                        r < rows,
                        count == layers.len(),
                        rows == layers[0].len(),
                        rows > 0 ==> cols == layers[0][0].len(),
                        layers[l as int].len() == rows,
                        layers[l as int][r as int].len() == cols,
                        forall|p: int|
                            0 <= p < c ==> (#[trigger] layers[l as int][r as int][p]).fits(
                                count as int,
                            ),
                        forall|p: int|
                            l == 0 && 0 <= p < c ==> #[trigger] layers[0][r as int][p]
                                != KeyAction::Transparent,
                    decreases cols - c,
                {
                    let action: KeyAction = layers[l][r][c];
                    if !action.fits_layers(count) {
                        return false;
                    }
                    if l == 0 {
                        match action {
                            KeyAction::Transparent => {
                                return false;
                            },
                            _ => {},
                        }
                    }
                    c += 1;
                }
                r += 1;
            }
            l += 1;
        }
        true
    }

    /// Takes a keymap.
    pub fn new(layers: Vec<Vec<Vec<KeyAction>>>) -> (layout: Self)
        requires
            valid_keymap(layers@),
        ensures
            layout.wf(),
            layout.layer_count() == layers.len(),
            layout.rows() == layers[0].len(),
            layout.rows() > 0 ==> layout.cols() == layers[0][0].len(),
            forall|l: int, r: int, c: int|
                0 <= l < layout.layer_count() && layout.has_cell(r, c) ==> layout.at(l, r, c)
                    == layers[l][r][c],
    {
        Layout { layers }
    }

    /// Number of layers.
    pub fn layers(&self) -> (n: usize)
        requires
            self.wf(),
        ensures
            n == self.layer_count(),
            n > 0,
    {
        self.layers.len()
    }

    /// Number of rows.
    pub fn row_count(&self) -> (n: usize)
        requires
            self.wf(),
        ensures
            n == self.rows(),
    {
        self.layers[0].len()
    }

    /// Number of columns.
    pub fn col_count(&self) -> (n: usize)
        requires
            self.wf(),
        ensures
            n == self.cols(),
    {
        if self.layers[0].len() > 0 {
            self.layers[0][0].len()
        } else {
            0
        }
    }

    /// The action a layer holds at a position.
    pub fn action(&self, layer: usize, row: usize, col: usize) -> (a: KeyAction)
        requires
            self.wf(),
            layer < self.layer_count(),
            self.has_cell(row as int, col as int),
        ensures
            a == self.at(layer as int, row as int, col as int),
    {
        self.layers[layer][row][col]
    }
}

/// The layer state that presses and releases act on.
pub struct StateView {
    /// The active layer.
    pub layer: usize,
    /// For every cell, the layer that was active when a momentary-layer key
    /// was pressed there and has not been released since.
    pub overrides: Seq<Seq<Option<usize>>>,
}

/// A press or a release of the key at a cell, with the action it resolved to
/// when it was pressed.
pub enum KeyEvent {
    /// The key went down.
    Press(KeyAction, int, int),
    /// The key came up.
    Release(KeyAction, int, int),
}

impl KeyEvent {
    /// The row of the cell.
    pub open spec fn row(self) -> int {
        match self {
            KeyEvent::Press(_, row, _) => row,
            KeyEvent::Release(_, row, _) => row,
        }
    }

    /// The column of the cell.
    pub open spec fn col(self) -> int {
        match self {
            KeyEvent::Press(_, _, col) => col,
            KeyEvent::Release(_, _, col) => col,
        }
    }
}

impl StateView {
    /// Whether a position lies in the grid of overrides.
    pub open spec fn has_cell(self, row: int, col: int) -> bool {
        0 <= row < self.overrides.len() && 0 <= col < self.overrides[row].len()
    }

    /// The state fits a keymap with `layers` layers of `rows` by `cols` cells.
    pub open spec fn fits(self, layers: int, rows: int, cols: int) -> bool {
        &&& self.layer < layers
        &&& self.overrides.len() == rows
        &&& forall|r: int| 0 <= r < rows ==> (#[trigger] self.overrides[r]).len() == cols
        &&& forall|r: int, c: int|
            0 <= r < rows && 0 <= c < cols ==> (#[trigger] self.overrides[r][c] matches Some(layer)
                ==> layer < layers)
    }

    /// The state at power-up: layer 0 active, no cell locked.
    pub open spec fn initial(rows: int, cols: int) -> StateView {
        StateView {
            layer: 0,
            overrides: Seq::new(rows as nat, |r: int| Seq::new(cols as nat, |c: int| None)),
        }
    }

    /// A cell is locked while a momentary-layer key pressed there is held.
    pub open spec fn locked(self, row: int, col: int) -> bool {
        self.overrides[row][col].is_some()
    }

    /// The overrides with the entry of one cell replaced.
    pub open spec fn with_override(self, row: int, col: int, entry: Option<usize>) -> Seq<
        Seq<Option<usize>>,
    > {
        self.overrides.update(row, self.overrides[row].update(col, entry))
    }

    /// The action of a cell. A locked cell has the action it had under the
    /// layer recorded for it; any other cell has the one under the active
    /// layer.
    pub open spec fn key(self, layout: Layout, row: int, col: int) -> KeyAction {
        match self.overrides[row][col] {
            Some(layer) => layout.resolve(layer as int, row, col),
            None => layout.resolve(self.layer as int, row, col),
        }
    }

    /// Whether a press of `action` at the cell writes the active layer.
    pub open spec fn press_sets_layer(self, action: KeyAction, row: int, col: int) -> bool {
        match action {
            KeyAction::MomentaryLayer(_) => !self.locked(row, col),
            KeyAction::SwitchLayer(_) => true,
            _ => false,
        }
    }

    /// Whether a release of `action` at the cell writes the active layer.
    pub open spec fn release_sets_layer(self, action: KeyAction, row: int, col: int) -> bool {
        action is MomentaryLayer && self.locked(row, col)
    }

    /// The state after a press. A momentary-layer key at a cell that is not
    /// locked records the active layer for the cell and activates its own; at a
    /// locked cell it does nothing. A switch-layer key activates its layer and
    /// records nothing. No other key touches the state.
    pub open spec fn press(self, action: KeyAction, row: int, col: int) -> StateView {
        match action {
            KeyAction::MomentaryLayer(layer) => {
                if self.locked(row, col) {
                    self
                } else {
                    StateView {
                        layer,
                        overrides: self.with_override(row, col, Some(self.layer)),
                    }
                }
            },
            KeyAction::SwitchLayer(layer) => StateView { layer, ..self },
            _ => self,
        }
    }

    /// The state after a release. A momentary-layer key at a locked cell
    /// brings back the layer recorded for the cell and unlocks it; where
    /// nothing was recorded it does nothing. No other key touches the state.
    pub open spec fn release(self, action: KeyAction, row: int, col: int) -> StateView {
        match action {
            KeyAction::MomentaryLayer(_) => {
                match self.overrides[row][col] {
                    Some(layer) => StateView {
                        layer,
                        overrides: self.with_override(row, col, None),
                    },
                    None => self,
                }
            },
            _ => self,
        }
    }

    /// The state after a tap, a press that is released at once, as a detent
    /// of an encoder is: a switch-layer key activates its layer, and a
    /// momentary-layer key, over as soon as it began, leaves the state as it
    /// was, as every other key does.
    pub open spec fn tap(self, action: KeyAction) -> StateView {
        match action {
            KeyAction::SwitchLayer(layer) => StateView { layer, ..self },
            _ => self,
        }
    }

    /// The state after a sequence of taps.
    pub open spec fn tap_all(self, actions: Seq<KeyAction>) -> StateView
        decreases actions.len(),
    {
        if actions.len() == 0 {
            self
        } else {
            self.tap_all(actions.drop_last()).tap(actions.last())
        }
    }

    /// The state after an event.
    pub open spec fn apply(self, event: KeyEvent) -> StateView {
        match event {
            KeyEvent::Press(action, row, col) => self.press(action, row, col),
            KeyEvent::Release(action, row, col) => self.release(action, row, col),
        }
    }

    /// Whether an event writes the active layer.
    pub open spec fn sets_layer(self, event: KeyEvent) -> bool {
        match event {
            KeyEvent::Press(action, row, col) => self.press_sets_layer(action, row, col),
            KeyEvent::Release(action, row, col) => self.release_sets_layer(action, row, col),
        }
    }

    /// The state after a sequence of events.
    pub open spec fn run(self, events: Seq<KeyEvent>) -> StateView
        decreases events.len(),
    {
        if events.len() == 0 {
            self
        } else {
            self.run(events.drop_last()).apply(events.last())
        }
    }

    /// Whether no event of the sequence, met in the state that the events
    /// before it lead to, writes the active layer.
    pub open spec fn undisturbed(self, events: Seq<KeyEvent>) -> bool
        decreases events.len(),
    {
        events.len() > 0 ==> self.undisturbed(events.drop_last()) && !self.run(
            events.drop_last(),
        ).sets_layer(events.last())
    }
}

/// The keymap together with the active layer and the overrides. Its view is
/// the part that changes, the layer and the overrides; the keymap, which
/// never changes, is [`State::keymap`].
pub struct State {
    layout: Layout,
    layer: usize,
    override_keys: Vec<Vec<Option<usize>>>,
}

impl View for State {
    type V = StateView;

    closed spec fn view(&self) -> StateView {
        StateView {
            layer: self.layer,
            overrides: Seq::new(self.override_keys.len() as nat, |r: int| self.override_keys[r]@),
        }
    }
}

impl State {
    /// The keymap.
    pub closed spec fn keymap(&self) -> Layout {
        self.layout
    }

    /// The keymap is usable and the layer state fits it.
    pub open spec fn wf(&self) -> bool {
        &&& self.keymap().wf()
        &&& self@.fits(self.keymap().layer_count(), self.keymap().rows(), self.keymap().cols())
    }

    /// What a well-formed state says of its fields.
    proof fn lemma_fields(&self)
        requires
            self.wf(),
        ensures
            self.layout.wf(),
            self.layer < self.layout.layer_count(),
            self.override_keys.len() == self.layout.rows(),
            forall|r: int|
                0 <= r < self.layout.rows() ==> (#[trigger] self.override_keys[r]).len()
                    == self.layout.cols(),
            forall|r: int, c: int|
                self.layout.has_cell(r, c) ==> self.override_keys[r][c] == self@.overrides[r][c],
            forall|r: int, c: int|
                self.layout.has_cell(r, c) ==> (#[trigger] self.override_keys[r][c] matches Some(
                    layer,
                ) ==> layer < self.layout.layer_count()),
    {
        assert forall|r: int| 0 <= r < self.layout.rows() implies (#[trigger] self.override_keys[r]).len()
            == self.layout.cols() by {
            assert(self@.overrides[r].len() == self.layout.cols());
        }
        assert forall|r: int, c: int| self.layout.has_cell(r, c) implies (
        #[trigger] self.override_keys[r][c] matches Some(layer) ==> layer
            < self.layout.layer_count()) by {
            assert(self@.overrides[r][c] == self.override_keys[r][c]);
        }
    }

    /// Starts on layer 0 with no cell locked.
    pub fn new(layout: Layout) -> (state: Self)
        requires
            layout.wf(),
        ensures
            state.wf(),
            state.keymap() == layout,
            state@ == StateView::initial(layout.rows(), layout.cols()),
    {
        let rows: usize = layout.row_count();
        let cols: usize = layout.col_count();
        let mut override_keys: Vec<Vec<Option<usize>>> = Vec::new();
        let mut r: usize = 0;
        while r < rows
            invariant
                r <= rows,
                override_keys.len() == r,
                forall|i: int|
                    0 <= i < r ==> (#[trigger] override_keys[i])@ == Seq::new(
                        cols as nat,
                        |c: int| None::<usize>,
                    ),
            decreases rows - r,
        {
            let mut row: Vec<Option<usize>> = Vec::new();
            let mut c: usize = 0;
            while c < cols
                invariant
                    c <= cols,
                    row.len() == c,
                    forall|j: int| 0 <= j < c ==> (#[trigger] row[j]).is_none(),
                decreases cols - c,
            {
                row.push(None);
                c += 1;
            }
            override_keys.push(row);
            r += 1;
        }
        let state = State { layout, layer: 0, override_keys };
        proof {
            assert(state@.overrides =~= StateView::initial(layout.rows(), layout.cols()).overrides);
        }
        state
    }

    /// The action of a cell, see [`StateView::key`]. It is never
    /// `Transparent`.
    pub fn get_key(&self, row: usize, col: usize) -> (action: KeyAction)
        requires
            self.wf(),
            self.keymap().has_cell(row as int, col as int),
        ensures
            action == self@.key(self.keymap(), row as int, col as int),
            action != KeyAction::Transparent,
            action.fits(self.keymap().layer_count()),
    {
        let start: usize = match self.override_keys[row][col] {
            Some(layer) => layer,
            None => self.layer,
        };
        let mut layer: usize = start;
        proof {
            self.layout.lemma_resolve_is_concrete(start as int, row as int, col as int);
        }
        loop
            invariant
                self.wf(),
                self.keymap().has_cell(row as int, col as int),
                layer <= start < self.keymap().layer_count(),
                self.keymap().resolve(layer as int, row as int, col as int)
                    == self.keymap().resolve(start as int, row as int, col as int),
                self.keymap().resolve(start as int, row as int, col as int) == self@.key(
                    self.keymap(),
                    row as int,
                    col as int,
                ),
                self@.key(self.keymap(), row as int, col as int) != KeyAction::Transparent,
                self@.key(self.keymap(), row as int, col as int).fits(self.keymap().layer_count()),
            decreases layer,
        {
            let action: KeyAction = self.layout.action(layer, row, col);
            match action {
                KeyAction::Transparent => {
                    if layer == 0 {
                        return action;
                    }
                    layer -= 1;
                },
                _ => {
                    return action;
                },
            }
        }
    }

    /// Applies a press to the layer state, see [`StateView::press`].
    pub fn on_press(&mut self, action: KeyAction, row: usize, col: usize)
        requires
            old(self).wf(),
            old(self).keymap().has_cell(row as int, col as int),
            action.fits(old(self).keymap().layer_count()),
        ensures
            final(self).keymap() == old(self).keymap(),
            final(self)@ == old(self)@.press(action, row as int, col as int),
            final(self).wf(),
    {
        match action {
            KeyAction::MomentaryLayer(layer) => {
                if self.override_keys[row][col].is_none() {
                    self.override_keys[row][col] = Some(self.layer);
                    self.layer = layer;
                    assert(self@.overrides =~= old(self)@.with_override(
                        row as int,
                        col as int,
                        Some(old(self).layer),
                    ));
                }
            },
            KeyAction::SwitchLayer(layer) => {
                self.layer = layer;
            },
            _ => {},
        }
    }

    /// Applies a release to the layer state, see [`StateView::release`].
    pub fn on_release(&mut self, action: KeyAction, row: usize, col: usize)
        requires
            old(self).wf(),
            old(self).keymap().has_cell(row as int, col as int),
        ensures
            final(self).keymap() == old(self).keymap(),
            final(self)@ == old(self)@.release(action, row as int, col as int),
            final(self).wf(),
    {
        proof {
            self.lemma_fields();
        }
        match action {
            KeyAction::MomentaryLayer(_) => {
                match self.override_keys[row][col] {
                    Some(layer) => {
                        self.layer = layer;
                        self.override_keys[row][col] = None;
                        assert(self@.overrides =~= old(self)@.with_override(
                            row as int,
                            col as int,
                            None,
                        ));
                    },
                    None => {},
                }
            },
            _ => {},
        }
    }

    /// Resolves the press of the key at a cell: finds its action, see
    /// [`StateView::key`], applies it to the layer state, see
    /// [`StateView::press`], and returns its report entry, which a layer key
    /// and a key that does nothing do not have.
    pub fn resolve(&mut self, row: usize, col: usize) -> (entry: Option<ReportKey>)
        requires
            old(self).wf(),
            old(self).keymap().has_cell(row as int, col as int),
        ensures
            final(self).keymap() == old(self).keymap(),
            final(self)@ == old(self)@.press(
                old(self)@.key(old(self).keymap(), row as int, col as int),
                row as int,
                col as int,
            ),
            entry == old(self)@.key(old(self).keymap(), row as int, col as int).report_key(),
            final(self).wf(),
    {
        let action: KeyAction = self.get_key(row, col);
        self.on_press(action, row, col);
        action.to_report_key()
    }

    /// Resolves the release of the key at a cell: finds its action, which for
    /// a locked cell is the one under the layer recorded for it, and applies
    /// its release to the layer state, see [`StateView::release`].
    pub fn release(&mut self, row: usize, col: usize)
        requires
            old(self).wf(),
            old(self).keymap().has_cell(row as int, col as int),
        ensures
            final(self).keymap() == old(self).keymap(),
            final(self)@ == old(self)@.release(
                old(self)@.key(old(self).keymap(), row as int, col as int),
                row as int,
                col as int,
            ),
            final(self).wf(),
    {
        let action: KeyAction = self.get_key(row, col);
        self.on_release(action, row, col);
    }

    /// Applies a tap to the layer state, see [`StateView::tap`].
    pub fn on_tap(&mut self, action: KeyAction)
        requires
            old(self).wf(),
            action.fits(old(self).keymap().layer_count()),
        ensures
            final(self).keymap() == old(self).keymap(),
            final(self)@ == old(self)@.tap(action),
            final(self).wf(),
    {
        match action {
            KeyAction::SwitchLayer(layer) => {
                self.layer = layer;
            },
            _ => {},
        }
    }

    /// The keymap.
    pub fn layout(&self) -> (layout: &Layout)
        ensures
            *layout == self.keymap(),
    {
        &self.layout
    }

    /// The active layer.
    pub fn layer(&self) -> (layer: usize)
        ensures
            layer == self@.layer,
    {
        self.layer
    }
}

/// Whether every event of the sequence is at a cell of the grid other than
/// the given one.
pub open spec fn elsewhere(s: StateView, events: Seq<KeyEvent>, row: int, col: int) -> bool {
    forall|i: int|
        0 <= i < events.len() ==> {
            &&& s.has_cell((#[trigger] events[i]).row(), events[i].col())
            &&& (events[i].row() != row || events[i].col() != col)
        }
}

/// Events at other cells leave the override of a cell, and the shape of the
/// grid, as they were.
pub proof fn lemma_run_elsewhere(s: StateView, events: Seq<KeyEvent>, row: int, col: int)
    requires
        s.has_cell(row, col),
        elsewhere(s, events, row, col),
    ensures
        s.run(events).overrides.len() == s.overrides.len(),
        forall|r: int|
            0 <= r < s.overrides.len() ==> (#[trigger] s.run(events).overrides[r]).len()
                == s.overrides[r].len(),
        s.run(events).overrides[row][col] == s.overrides[row][col],
    decreases events.len(),
{
    if events.len() > 0 {
        lemma_run_elsewhere(s, events.drop_last(), row, col);
    }
}

/// Taps leave the overrides as they are.
pub proof fn lemma_taps_keep_overrides(s: StateView, actions: Seq<KeyAction>)
    ensures
        s.tap_all(actions).overrides == s.overrides,
    decreases actions.len(),
{
    if actions.len() > 0 {
        lemma_taps_keep_overrides(s, actions.drop_last());
    }
}

/// Where no event writes the active layer, the active layer stays.
pub proof fn lemma_undisturbed_keeps_layer(s: StateView, events: Seq<KeyEvent>)
    requires
        s.undisturbed(events),
    ensures
        s.run(events).layer == s.layer,
    decreases events.len(),
{
    if events.len() > 0 {
        lemma_undisturbed_keeps_layer(s, events.drop_last());
    }
}

/// Momentary layers are restored. Press a momentary-layer key at a cell that
/// is not locked: its layer becomes active, and every cell that is not locked
/// resolves under that layer. Whatever happens at other cells while the key is
/// held, other layer keys included, its release brings back the layer that
/// was active at its own press and unlocks the cell, and the cells that are
/// not locked resolve under that layer again.
pub proof fn lemma_momentary_restores(
    s: StateView,
    layout: Layout,
    layer: usize,
    row: int,
    col: int,
    between: Seq<KeyEvent>,
)
    requires
        s.has_cell(row, col),
        !s.locked(row, col),
        elsewhere(s, between, row, col),
    ensures
        ({
            let held = s.press(KeyAction::MomentaryLayer(layer), row, col);
            let released = held.run(between).release(KeyAction::MomentaryLayer(layer), row, col);
            &&& held.layer == layer
            &&& held.locked(row, col)
            &&& forall|r: int, c: int|
                held.has_cell(r, c) && !held.locked(r, c) ==> #[trigger] held.key(layout, r, c)
                    == layout.resolve(layer as int, r, c)
            &&& released.layer == s.layer
            &&& !released.locked(row, col)
            &&& forall|r: int, c: int|
                released.has_cell(r, c) && !released.locked(r, c) ==> #[trigger] released.key(
                    layout,
                    r,
                    c,
                ) == layout.resolve(s.layer as int, r, c)
        }),
{
    lemma_run_elsewhere(s.press(KeyAction::MomentaryLayer(layer), row, col), between, row, col);
}

/// Layer switches persist. Press and release a switch-layer key: its layer is
/// active and no override has changed. The layer then stays active for as
/// long as no later event writes the active layer, that is, through every
/// press and release of keys that are not layer keys, every release of a
/// switch-layer key, every press at a locked cell and every release of a
/// momentary-layer key where nothing was recorded.
pub proof fn lemma_switch_persists(
    s: StateView,
    layer: usize,
    row: int,
    col: int,
    after: Seq<KeyEvent>,
)
    ensures
        ({
            let switched = s.press(KeyAction::SwitchLayer(layer), row, col).release(
                KeyAction::SwitchLayer(layer),
                row,
                col,
            );
            &&& switched.layer == layer
            &&& switched.overrides == s.overrides
            &&& switched.undisturbed(after) ==> switched.run(after).layer == layer
        }),
{
    let switched = s.press(KeyAction::SwitchLayer(layer), row, col).release(
        KeyAction::SwitchLayer(layer),
        row,
        col,
    );
    if switched.undisturbed(after) {
        lemma_undisturbed_keeps_layer(switched, after);
    }
}

/// Pressing a momentary-layer key again while its cell is locked changes
/// nothing: no second override is recorded and the active layer stays, also
/// where the second press names another layer.
pub proof fn lemma_repress_changes_nothing(
    s: StateView,
    first: usize,
    again: usize,
    row: int,
    col: int,
)
    requires
        s.has_cell(row, col),
    ensures
        s.locked(row, col) ==> s.press(KeyAction::MomentaryLayer(again), row, col) == s,
        s.press(KeyAction::MomentaryLayer(first), row, col).press(
            KeyAction::MomentaryLayer(again),
            row,
            col,
        ) == s.press(KeyAction::MomentaryLayer(first), row, col),
{
}

} // verus!

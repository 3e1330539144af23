//! The keyboard controller: one tick from samples to report.

use vstd::prelude::*;
use crate::action::KeyAction;
use crate::encoder_controller::ActionEncoder;
use crate::encoder_controller::EncoderController;
use crate::encoder_controller::valid_bindings;
use crate::key::Key;
use crate::key::report_entries;
use crate::matrix::DiodeDirection;
use crate::matrix::Matrix;
use crate::matrix::ScanView;
use crate::matrix::grid_keys;
use crate::matrix::holds_momentary;
use crate::matrix::lemma_scan_keeps_locks;
use crate::matrix::samples_fit;
use crate::report::BuilderView;
use crate::report::MAX_CONSUMER;
use crate::report::Report;
use crate::report::ReportBuilder;
use crate::report::TransportFault;
use crate::report::TransportOutcome;
use crate::report::padded_keys;
use crate::state::Layout;
use crate::state::State;
use crate::state::StateView;
use crate::state::lemma_taps_keep_overrides;

verus! {

/// What one tick hands to the transport.
#[derive(Clone, Copy, Debug, PartialEq, Eq)]
pub struct Tick {
    /// The report of the tick.
    pub report: Report,
    /// Whether a key of the matrix was pressed or released, or an encoder
    /// completed a detent that is bound to an action.
    pub changed: bool,
    /// The consumer report, where it is due.
    pub consumer: Option<[u16; MAX_CONSUMER]>,
}

/// The keys of the detents among `actions`, in their order; an encoder that
/// stands for no action gives no key.
pub open spec fn turned_keys(actions: Seq<KeyAction>) -> Seq<Key>
    decreases actions.len(),
{
    if actions.len() == 0 {
        Seq::empty()
    } else if actions.last() == KeyAction::NoOp {
        turned_keys(actions.drop_last())
    } else {
        turned_keys(actions.drop_last()).push(Key::turned(actions.last()))
    }
}

/// A keyboard: its keymap and layer state, its matrix, its encoders and the
/// builder of its reports.
pub struct Keyboard {
    state: State,
    matrix: Matrix,
    encoder_controller: EncoderController,
    report: ReportBuilder,
    buffer: Vec<Key>,
}

impl Keyboard {
    /// The keymap.
    pub closed spec fn keymap(&self) -> Layout {
        self.state.keymap()
    }

    /// The layer state.
    pub closed spec fn layers(&self) -> StateView {
        self.state@
    }

    /// For every cell, the action it is held with.
    pub closed spec fn held(&self) -> Seq<Seq<Option<KeyAction>>> {
        self.matrix.held()
    }

    /// Which lines of the matrix are driven.
    pub closed spec fn direction(&self) -> DiodeDirection {
        self.matrix.direction()
    }

    /// The encoders.
    pub closed spec fn encoders(&self) -> EncoderController {
        self.encoder_controller
    }

    /// The builder of the reports.
    pub closed spec fn builder(&self) -> BuilderView {
        self.report@
    }

    /// The keys that were active in the last tick.
    pub closed spec fn buffer(&self) -> Seq<Key> {
        self.buffer@
    }

    /// The matrix and the layer state as a scan meets them.
    pub open spec fn scan_view(&self) -> ScanView {
        ScanView { held: self.held(), state: self.layers(), changed: false }
    }

    /// The parts fit each other, and a cell is locked exactly while it is held
    /// with a momentary-layer key.
    pub closed spec fn wf(&self) -> bool {
        &&& self.state.wf()
        &&& self.matrix.wf()
        &&& self.matrix.matches(&self.state)
        &&& self.encoder_controller.fits(self.state.keymap().layer_count())
        &&& self.report.wf()
        &&& self.scan_view().locks_agree(self.state.keymap().rows(), self.state.keymap().cols())
    }

    /// In every state of a keyboard, a cell is locked exactly while it is held
    /// with a momentary-layer key: the override of a cell is recorded when
    /// such a key goes down there, and cleared by the release of that key and
    /// by nothing else.
    pub proof fn lemma_locks_follow_held_keys(&self)
        requires
            self.wf(),
        ensures
            forall|r: int, c: int|
                self.keymap().has_cell(r, c) ==> (self.layers().locked(r, c) <==> holds_momentary(
                    #[trigger] self.held()[r][c],
                )),
    {
        let scan = self.scan_view();
        assert forall|r: int, c: int| self.keymap().has_cell(r, c) implies (self.layers().locked(
            r,
            c,
        ) <==> holds_momentary(#[trigger] self.held()[r][c])) by {
            assert(scan.state.locked(r, c) <==> holds_momentary(scan.held[r][c]));
        }
    }

    /// Number of lines of the matrix that are driven.
    pub open spec fn outputs(&self) -> int {
        self.direction().outputs(self.keymap().rows(), self.keymap().cols())
    }

    /// Number of lines of the matrix that are read.
    pub open spec fn inputs(&self) -> int {
        self.direction().inputs(self.keymap().rows(), self.keymap().cols())
    }

    /// The matrix and the layer state after the scan of a tick, see
    /// [`ScanView::scan_lines`]; without samples they are as before.
    pub open spec fn scanned(&self, samples: Option<&Vec<Vec<bool>>>) -> ScanView {
        let before = self.scan_view();
        match samples {
            Some(grid) => before.scan_lines(self.keymap(), self.direction(), grid@, grid.len() as int),
            None => before,
        }
    }

    /// A keyboard on layer 0 with no key held, its encoders as given, and an
    /// all-zero consumer report as the one sent last.
    pub fn new(layout: Layout, direction: DiodeDirection, encoders: Vec<ActionEncoder>) -> (keyboard:
        Self)
        requires
            layout.wf(),
            forall|i: int|
                0 <= i < encoders.len() ==> valid_bindings(
                    (#[trigger] encoders[i]).bindings(),
                    layout.layer_count(),
                ),
        ensures
            keyboard.wf(),
            keyboard.keymap() == layout,
            keyboard.direction() == direction,
            keyboard.layers() == StateView::initial(layout.rows(), layout.cols()),
            forall|r: int, c: int|
                layout.has_cell(r, c) ==> (#[trigger] keyboard.held()[r][c]).is_none(),
            keyboard.encoders().encoders() == encoders@,
            keyboard.builder() == BuilderView::initial(),
            keyboard.buffer() == Seq::<Key>::empty(),
    {
        let rows: usize = layout.row_count();
        let cols: usize = layout.col_count();
        let state = State::new(layout);
        let matrix = Matrix::new(rows, cols, direction);
        let encoder_controller = EncoderController::new(encoders);
        Keyboard { state, matrix, encoder_controller, report: ReportBuilder::new(), buffer: Vec::new() }
    }

    /// Whether the samples of a tick are of the shape that
    /// [`Keyboard::periodic`] asks for: one level for every crossing of the
    /// matrix, where there was a scan, and one pair of levels for every
    /// encoder.
    pub fn accepts(&self, samples: Option<&Vec<Vec<bool>>>, encoder_samples: &Vec<(bool, bool)>) -> (ok:
        bool)
        requires
            self.wf(),
        ensures
            ok == ({
                &&& samples matches Some(grid) ==> samples_fit(grid@, self.outputs(), self.inputs())
                &&& encoder_samples.len() == self.encoders().encoders().len()
            }),
    {
        if encoder_samples.len() != self.encoder_controller.len() {
            return false;
        }
        match samples {
            Some(grid) => self.matrix.accepts(grid),
            None => true,
        }
    }

    /// Runs one tick.
    ///
    /// `samples` is the grid of levels of one scan of the matrix,
    /// `samples[output][input]`, or nothing where the scan period has not
    /// elapsed. `encoder_samples` holds, for every encoder, the levels of its
    /// channels A and B.
    ///
    /// The matrix is scanned first, see [`Matrix::scan`]. Then every encoder
    /// takes its sample, and the detents are turned into actions under the
    /// layer that the scan left active; these actions are tapped in the order
    /// of the encoders, see [`StateView::tap_all`]. The report is built anew
    /// from the keys that are held, row by row, followed by the keys of the
    /// detents; what does not fit is left out, see [`BuilderView::add_all`].
    /// The consumer report is handed out only where it is due.
    pub fn periodic(
        &mut self,
        samples: Option<&Vec<Vec<bool>>>,
        encoder_samples: &Vec<(bool, bool)>,
    ) -> (tick: Tick)
        requires
            old(self).wf(),
            samples matches Some(grid) ==> samples_fit(
                grid@,
                old(self).outputs(),
                old(self).inputs(),
            ),
            encoder_samples.len() == old(self).encoders().encoders().len(),
        ensures
            final(self).wf(),
            final(self).keymap() == old(self).keymap(),
            final(self).direction() == old(self).direction(),
            old(self).encoders().stepped(encoder_samples@, &final(self).encoders()),
            ({
                let scanned = old(self).scanned(samples);
                let actions = final(self).encoders().bound_actions(scanned.state.layer as int);
                let keys = grid_keys(scanned.held, old(self).keymap().rows()) + turned_keys(actions);
                &&& final(self).held() == scanned.held
                &&& final(self).layers() == scanned.state.tap_all(actions)
                &&& final(self).buffer() == keys
                &&& final(self).builder() == old(self).builder().begin().add_all(
                    report_entries(keys),
                )
                &&& tick.changed == (scanned.changed || turned_keys(actions).len() > 0)
            }),
            tick.report.modifiers == final(self).builder().modifiers,
            tick.report.keys@ == padded_keys(final(self).builder().keys),
            tick.report.consumer@ == final(self).builder().consumer_report(),
            match tick.consumer {
                Some(codes) => final(self).builder().consumer_due() && codes@ == final(self).builder().consumer_report(),
                None => !final(self).builder().consumer_due(),
            },
    {
        let ghost layout = self.state.keymap();
        let ghost scanned = self.scanned(samples);
        proof {
            match samples {
                Some(grid) => {
                    lemma_scan_keeps_locks(
                        self.scan_view(),
                        layout,
                        self.matrix.direction(),
                        grid@,
                        layout.rows(),
                        layout.cols(),
                        grid.len() as int,
                    );
                },
                None => {},
            }
        }
        let matrix_changed: bool = self.matrix.scan(&mut self.state, samples);
        self.encoder_controller.periodic(encoder_samples);
        let ghost before = self.report@;
        let ghost stepped = self.encoder_controller;
        let layer: usize = self.state.layer();
        let actions: Vec<KeyAction> = self.encoder_controller.actions(layer);
        let mut keys: Vec<Key> = self.matrix.held_keys();
        let ghost held_keys = keys@;
        let mut turned: bool = false;
        let mut i: usize = 0;
        while i < actions.len()
            invariant
                i <= actions.len(),
                self.state.wf(),
                self.state.keymap() == layout,
                self.matrix.wf(),
                self.matrix.matches(&self.state),
                self.matrix.held() == scanned.held,
                self.matrix.direction() == old(self).matrix.direction(),
                self.report.wf(),
                self.report@ == before,
                self.encoder_controller == stepped,
                actions@ == self.encoder_controller.bound_actions(layer as int),
                self.encoder_controller.fits(layout.layer_count()),
                layer < layout.layer_count(),
                self.state@ == scanned.state.tap_all(actions@.take(i as int)),
                keys@ == held_keys + turned_keys(actions@.take(i as int)),
                turned == (turned_keys(actions@.take(i as int)).len() > 0),
            decreases actions.len() - i,
        {
            let action: KeyAction = actions[i];
            proof {
                assert(actions@.take(i as int + 1).drop_last() =~= actions@.take(i as int));
            }
            self.state.on_tap(action);
            match action {
                KeyAction::NoOp => {},
                _ => {
                    keys.push(Key::on_encoder(action));
                    turned = true;
                },
            }
            i += 1;
        }
        assert(actions@.take(actions.len() as int) =~= actions@);
        proof {
            lemma_taps_keep_overrides(scanned.state, actions@);
        }
        let ghost tapped = self.state@;
        self.report.begin_tick();
        let mut k: usize = 0;
        while k < keys.len()
            invariant
                k <= keys.len(),
                self.state.wf(),
                self.state.keymap() == layout,
                self.state@ == tapped,
                self.matrix.wf(),
                self.matrix.matches(&self.state),
                self.matrix.held() == scanned.held,
                self.matrix.direction() == old(self).matrix.direction(),
                self.encoder_controller == stepped,
                self.encoder_controller.fits(layout.layer_count()),
                self.report.wf(),
                self.report@ == before.begin().add_all(report_entries(keys@.take(k as int))),
            decreases keys.len() - k,
        {
            proof {
                assert(keys@.take(k as int + 1).drop_last() =~= keys@.take(k as int));
            }
            match keys[k].action.to_report_key() {
                Some(entry) => {
                    let _taken = self.report.add_key(entry);
                    assert(report_entries(keys@.take(k as int)).push(entry).drop_last()
                        =~= report_entries(keys@.take(k as int)));
                },
                None => {},
            }
            k += 1;
        }
        assert(keys@.take(keys.len() as int) =~= keys@);
        let report: Report = self.report.finish_tick();
        let consumer: Option<[u16; MAX_CONSUMER]> = self.report.pending_consumer();
        self.buffer = keys;
        Tick { report, changed: matrix_changed || turned, consumer }
    }

    /// Records what the transport answered to a write of the consumer report
    /// `codes`, see [`ReportBuilder::acknowledge_consumer`].
    pub fn consumer_sent(&mut self, codes: [u16; MAX_CONSUMER], outcome: TransportOutcome) -> (r:
        Result<(), TransportFault>)
        requires
            old(self).wf(),
        ensures
            final(self).wf(),
            final(self).keymap() == old(self).keymap(),
            final(self).direction() == old(self).direction(),
            final(self).layers() == old(self).layers(),
            final(self).held() == old(self).held(),
            final(self).encoders() == old(self).encoders(),
            final(self).buffer() == old(self).buffer(),
            final(self).builder() == old(self).builder().acknowledge(codes@, outcome),
            r.is_err() == (outcome == TransportOutcome::Failed),
    {
        self.report.acknowledge_consumer(codes, outcome)
    }

    /// For every encoder, the sample it saw last. An encoder that is handed
    /// this sample again in a tick does nothing in that tick.
    pub fn encoder_levels(&self) -> (samples: Vec<(bool, bool)>)
        ensures
            samples.len() == self.encoders().encoders().len(),
            forall|i: int|
                0 <= i < samples.len() ==> crate::encoder::sample_bits(
                    (#[trigger] samples[i]).0,
                    samples[i].1,
                ) == self.encoders().encoders()[i].decoder().last(),
    {
        self.encoder_controller.last_samples()
    }

    /// The active layer.
    pub fn layer(&self) -> (layer: usize)
        ensures
            layer == self.layers().layer,
    {
        self.state.layer()
    }

    /// The keys that were active in the last tick: those held in the matrix,
    /// row by row, then those of the encoders.
    pub fn active_keys(&self) -> (keys: &Vec<Key>)
        ensures
            keys@ == self.buffer(),
    {
        &self.buffer
    }
}

} // verus!

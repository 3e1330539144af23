//! Rotary encoders bound to actions.

use vstd::prelude::*;
use crate::action::KeyAction;
use crate::encoder::Dir;
use crate::encoder::Encoder;
use crate::encoder::EncoderView;

verus! {

/// The action that a detent stands for under a layer. `bindings` holds, for
/// every layer, the action of a counter-clockwise detent and the action of a
/// clockwise detent, in this order. No detent is no action.
pub open spec fn bound_action(bindings: Seq<[KeyAction; 2]>, layer: int, dir: Dir) -> KeyAction {
    match dir {
        Dir::Cw => bindings[layer][1],
        Dir::Cww => bindings[layer][0],
        Dir::Same => KeyAction::NoOp,
    }
}

/// Whether `bindings` can be used with `layers` layers: it has a pair of
/// actions for every layer, and every layer key in these pairs points at a
/// layer that exists. Pairs beyond the layers are never looked at.
pub open spec fn valid_bindings(bindings: Seq<[KeyAction; 2]>, layers: int) -> bool {
    &&& bindings.len() >= layers
    &&& forall|l: int|
        0 <= l < layers ==> (#[trigger] bindings[l])[0].fits(layers) && bindings[l][1].fits(layers)
}

/// An encoder with the actions of its detents.
pub struct ActionEncoder {
    decoder: Encoder,
    actions: Vec<[KeyAction; 2]>,
}

impl ActionEncoder {
    /// The decoder.
    pub closed spec fn decoder(&self) -> EncoderView {
        self.decoder@
    }

    /// For every layer, the actions of a counter-clockwise and of a clockwise
    /// detent.
    pub closed spec fn bindings(&self) -> Seq<[KeyAction; 2]> {
        self.actions@
    }

    /// An encoder at rest with the given actions: for every layer, the action
    /// of a counter-clockwise detent, then that of a clockwise detent.
    pub fn new(actions: Vec<[KeyAction; 2]>) -> (encoder: Self)
        ensures
            encoder.decoder() == EncoderView::initial(),
            encoder.bindings() == actions@,
    {
        ActionEncoder { decoder: Encoder::new(), actions }
    }

    /// Checks the actions against a number of layers, see [`valid_bindings`].
    pub fn fits_layers(&self, layers: usize) -> (ok: bool)
        ensures
            ok == valid_bindings(self.bindings(), layers as int),
    {
        if self.actions.len() < layers {
            return false;
        }
        let mut l: usize = 0;
        while l < layers
            invariant
                l <= layers,
                self.actions.len() >= layers,
                forall|k: int|
                    0 <= k < l ==> (#[trigger] self.actions[k])[0].fits(layers as int)
                        && self.actions[k][1].fits(layers as int),
            decreases layers - l,
        {
            let pair: [KeyAction; 2] = self.actions[l];
            if !pair[0].fits_layers(layers) || !pair[1].fits_layers(layers) {
                return false;
            }
            l += 1;
        }
        true
    }

    /// Takes one sample of both channels.
    pub fn update(&mut self, channel_a: bool, channel_b: bool)
        ensures
            final(self).decoder() == old(self).decoder().step(channel_a, channel_b),
            final(self).bindings() == old(self).bindings(),
    {
        let _dir: Dir = self.decoder.update(channel_a, channel_b);
    }

    /// The sample seen last, see [`Encoder::last_sample`].
    pub fn last_sample(&self) -> (sample: (bool, bool))
        ensures
            crate::encoder::sample_bits(sample.0, sample.1) == self.decoder().last(),
    {
        self.decoder.last_sample()
    }

    /// The action that the last update stands for under a layer, see
    /// [`bound_action`].
    pub fn action(&self, layer: usize) -> (action: KeyAction)
        requires
            layer < self.bindings().len(),
        ensures
            action == bound_action(self.bindings(), layer as int, self.decoder().dir),
    {
        match self.decoder.direction() {
            Dir::Cw => self.actions[layer][1],
            Dir::Cww => self.actions[layer][0],
            Dir::Same => KeyAction::NoOp,
        }
    }
}

/// The encoders of a keyboard.
pub struct EncoderController {
    encoders: Vec<ActionEncoder>,
}

impl EncoderController {
    /// The encoders.
    pub closed spec fn encoders(&self) -> Seq<ActionEncoder> {
        self.encoders@
    }

    /// Whether every encoder can be used with `layers` layers.
    pub open spec fn fits(&self, layers: int) -> bool {
        forall|i: int|
            0 <= i < self.encoders().len() ==> valid_bindings(
                (#[trigger] self.encoders()[i]).bindings(),
                layers,
            )
    }

    /// The encoders after each took its sample.
    pub open spec fn stepped(&self, samples: Seq<(bool, bool)>, after: &EncoderController) -> bool {
        &&& after.encoders().len() == self.encoders().len()
        &&& forall|i: int|
            0 <= i < self.encoders().len() ==> {
                &&& (#[trigger] after.encoders()[i]).decoder() == self.encoders()[i].decoder().step(
                    samples[i].0,
                    samples[i].1,
                )
                &&& after.encoders()[i].bindings() == self.encoders()[i].bindings()
            }
    }

    /// The actions that the last updates stand for under a layer, one for
    /// every encoder.
    pub open spec fn bound_actions(&self, layer: int) -> Seq<KeyAction> {
        Seq::new(
            self.encoders().len(),
            |i: int| bound_action(self.encoders()[i].bindings(), layer, self.encoders()[i].decoder().dir),
        )
    }

    /// Takes the encoders.
    pub fn new(encoders: Vec<ActionEncoder>) -> (controller: Self)
        ensures
            controller.encoders() == encoders@,
    {
        EncoderController { encoders }
    }

    /// Number of encoders.
    pub fn len(&self) -> (n: usize)
        ensures
            n == self.encoders().len(),
    {
        self.encoders.len()
    }

    /// Checks every encoder against a number of layers.
    pub fn fits_layers(&self, layers: usize) -> (ok: bool)
        ensures
            ok == self.fits(layers as int),
    {
        let mut i: usize = 0;
        while i < self.encoders.len()
            invariant
                i <= self.encoders.len(),
                forall|k: int|
                    0 <= k < i ==> valid_bindings(
                        (#[trigger] self.encoders()[k]).bindings(),
                        layers as int,
                    ),
            decreases self.encoders.len() - i,
        {
            if !self.encoders[i].fits_layers(layers) {
                assert(!valid_bindings(self.encoders()[i as int].bindings(), layers as int));
                return false;
            }
            i += 1;
        }
        true
    }

    /// For every encoder, the sample it saw last, see
    /// [`Encoder::last_sample`].
    pub fn last_samples(&self) -> (samples: Vec<(bool, bool)>)
        ensures
            samples.len() == self.encoders().len(),
            forall|i: int|
                0 <= i < samples.len() ==> crate::encoder::sample_bits(
                    (#[trigger] samples[i]).0,
                    samples[i].1,
                ) == self.encoders()[i].decoder().last(),
    {
        let mut samples: Vec<(bool, bool)> = Vec::new();
        let mut i: usize = 0;
        while i < self.encoders.len()
            invariant
                i <= self.encoders.len(),
                samples.len() == i,
                forall|k: int|
                    0 <= k < i ==> crate::encoder::sample_bits((#[trigger] samples[k]).0, samples[k].1)
                        == self.encoders()[k].decoder().last(),
            decreases self.encoders.len() - i,
        {
            samples.push(self.encoders[i].last_sample());
            i += 1;
        }
        samples
    }

    /// Hands every encoder its sample of both channels, channel A first.
    pub fn periodic(&mut self, samples: &Vec<(bool, bool)>)
        requires
            samples.len() == old(self).encoders().len(),
        ensures
            old(self).stepped(samples@, final(self)),
    {
        let mut i: usize = 0;
        while i < self.encoders.len()
            invariant
                i <= self.encoders.len(),
                samples.len() == self.encoders.len(),
                self.encoders.len() == old(self).encoders.len(),
                forall|k: int|
                    0 <= k < i ==> {
                        &&& (#[trigger] self.encoders[k]).decoder() == old(self).encoders[k].decoder().step(samples[k].0, samples[k].1)
                        &&& self.encoders[k].bindings() == old(self).encoders[k].bindings()
                    },
                forall|k: int|
                    i <= k < self.encoders.len() ==> (#[trigger] self.encoders[k]) == old(self).encoders[k],
            decreases self.encoders.len() - i,
        {
            let sample: (bool, bool) = samples[i];
            self.encoders[i].update(sample.0, sample.1);
            i += 1;
        }
    }

    /// The actions that the last updates stand for under a layer, one for
    /// every encoder, see [`EncoderController::bound_actions`].
    pub fn actions(&self, layer: usize) -> (actions: Vec<KeyAction>)
        requires
            forall|i: int|
                0 <= i < self.encoders().len() ==> layer < (
                #[trigger] self.encoders()[i]).bindings().len(),
        ensures
            actions@ == self.bound_actions(layer as int),
    {
        let mut actions: Vec<KeyAction> = Vec::new();
        let mut i: usize = 0;
        while i < self.encoders.len()
            invariant
                i <= self.encoders.len(),
                forall|k: int|
                    0 <= k < self.encoders().len() ==> layer < (
                    #[trigger] self.encoders()[k]).bindings().len(),
                actions.len() == i,
                forall|k: int|
                    0 <= k < i ==> actions[k] == bound_action(
                        self.encoders()[k].bindings(),
                        layer as int,
                        self.encoders()[k].decoder().dir,
                    ),
            decreases self.encoders.len() - i,
        {
            actions.push(self.encoders[i].action(layer));
            i += 1;
        }
        actions
    }
}

} // verus!

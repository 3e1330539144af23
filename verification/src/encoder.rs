//! Quadrature decoder for rotary encoders.

use vstd::prelude::*;

verus! {

/// What one update of the decoder reports.
#[derive(Clone, Copy, PartialEq, Eq, Debug, Structural)]
pub enum Dir {
    /// A full clockwise detent was completed.
    Cw,
    /// A full counter-clockwise detent was completed.
    Cww,
    /// No detent was completed.
    Same,
}

/// A channel could not be sampled.
#[derive(PartialEq, Eq, Debug)]
pub enum ChannelFault<A, B> {
    /// Channel A failed, with the error of its pin.
    ChannelA(A),
    /// Channel B failed, with the error of its pin.
    ChannelB(B),
}

impl<A, B> ChannelFault<A, B> {
    /// The level read on channel A, or the error of its pin as the fault of
    /// channel A.
    pub fn channel_a(read: Result<bool, A>) -> (r: Result<bool, ChannelFault<A, B>>)
        ensures
            match read {
                Ok(level) => r == Ok::<bool, ChannelFault<A, B>>(level),
                Err(fault) => r == Err::<bool, ChannelFault<A, B>>(ChannelFault::ChannelA(fault)),
            },
    {
        match read {
            Ok(level) => Ok(level),
            Err(fault) => Err(ChannelFault::ChannelA(fault)),
        }
    }

    /// The level read on channel B, or the error of its pin as the fault of
    /// channel B.
    pub fn channel_b(read: Result<bool, B>) -> (r: Result<bool, ChannelFault<A, B>>)
        ensures
            match read {
                Ok(level) => r == Ok::<bool, ChannelFault<A, B>>(level),
                Err(fault) => r == Err::<bool, ChannelFault<A, B>>(ChannelFault::ChannelB(fault)),
            },
    {
        match read {
            Ok(level) => Ok(level),
            Err(fault) => Err(ChannelFault::ChannelB(fault)),
        }
    }
}

/// The pulse of every transition, by its history: the sample before in bits
/// 3 and 2, the new sample in bits 1 and 0, channel A above channel B.
pub const LOOKUP_TABLE: [i8; 16] = [0, -1, 1, 0, 1, 0, 0, -1, -1, 0, 0, 1, 0, 1, -1, 0];

/// Pulses of a full detent.
pub const DETENT: i8 = 4;

/// A sample of both channels as a number: channel A is bit 1, channel B bit 0.
pub open spec fn sample_bits(channel_a: bool, channel_b: bool) -> int {
    (if channel_a { 2int } else { 0int }) + (if channel_b { 1int } else { 0int })
}

/// The pulse of a transition: 1 for a step clockwise, -1 for a step
/// counter-clockwise, 0 where no channel or both channels changed.
pub open spec fn pulse(history: int) -> int {
    if history == 2 || history == 4 || history == 11 || history == 13 {
        1
    } else if history == 1 || history == 7 || history == 8 || history == 14 {
        -1
    } else {
        0
    }
}

/// The sample that follows `sample` one step clockwise.
pub open spec fn clockwise_of(sample: int) -> int {
    if sample == 0 {
        2
    } else if sample == 2 {
        3
    } else if sample == 3 {
        1
    } else {
        0
    }
}

/// The sample that follows `sample` one step counter-clockwise.
pub open spec fn counter_clockwise_of(sample: int) -> int {
    if sample == 0 {
        1
    } else if sample == 1 {
        3
    } else if sample == 3 {
        2
    } else {
        0
    }
}

/// What a decoder holds.
pub struct EncoderView {
    /// The last transition: the sample before it in bits 3 and 2, the sample
    /// after it in bits 1 and 0.
    pub history: int,
    /// Pulses gathered since the last detent.
    pub pulses: int,
    /// What the last update reported.
    pub dir: Dir,
}

impl EncoderView {
    /// A decoder that has seen nothing: both channels low, no pulse.
    pub open spec fn initial() -> EncoderView {
        EncoderView { history: 0, pulses: 0, dir: Dir::Same }
    }

    /// The history is four bits, and fewer pulses than a detent are gathered.
    pub open spec fn wf(self) -> bool {
        &&& 0 <= self.history < 16
        &&& -DETENT < self.pulses < DETENT
    }

    /// The sample last seen.
    pub open spec fn last(self) -> int {
        self.history % 4
    }

    /// The decoder after a sample. A sample equal to the last one touches
    /// neither history nor pulses. Any other sample becomes the new end of
    /// the history, and the pulse of that transition is added; at four pulses
    /// either way a detent is reported and the pulses start again at 0.
    pub open spec fn step(self, channel_a: bool, channel_b: bool) -> EncoderView {
        let sample = sample_bits(channel_a, channel_b);
        if sample == self.last() {
            EncoderView { dir: Dir::Same, ..self }
        } else {
            let history = self.last() * 4 + sample;
            let sum = self.pulses + pulse(history);
            if sum == DETENT {
                EncoderView { history, pulses: 0, dir: Dir::Cw }
            } else if sum == -DETENT {
                EncoderView { history, pulses: 0, dir: Dir::Cww }
            } else {
                EncoderView { history, pulses: sum, dir: Dir::Same }
            }
        }
    }

    /// The decoder after a sequence of samples.
    pub open spec fn run(self, samples: Seq<(bool, bool)>) -> EncoderView
        decreases samples.len(),
    {
        if samples.len() == 0 {
            self
        } else {
            self.run(samples.drop_last()).step(samples.last().0, samples.last().1)
        }
    }

    /// How many of the updates with a sequence of samples report `dir`.
    pub open spec fn count(self, samples: Seq<(bool, bool)>, dir: Dir) -> nat
        decreases samples.len(),
    {
        if samples.len() == 0 {
            0
        } else {
            self.count(samples.drop_last(), dir) + (if self.run(samples).dir == dir {
                1nat
            } else {
                0nat
            })
        }
    }

    /// Whether every sample of the sequence is one step clockwise from the
    /// sample before it.
    pub open spec fn turns_clockwise(self, samples: Seq<(bool, bool)>) -> bool
        decreases samples.len(),
    {
        samples.len() > 0 ==> {
            &&& self.turns_clockwise(samples.drop_last())
            &&& sample_bits(samples.last().0, samples.last().1) == clockwise_of(
                self.run(samples.drop_last()).last(),
            )
        }
    }

    /// Whether every sample of the sequence is one step counter-clockwise from
    /// the sample before it.
    pub open spec fn turns_counter_clockwise(self, samples: Seq<(bool, bool)>) -> bool
        decreases samples.len(),
    {
        samples.len() > 0 ==> {
            &&& self.turns_counter_clockwise(samples.drop_last())
            &&& sample_bits(samples.last().0, samples.last().1) == counter_clockwise_of(
                self.run(samples.drop_last()).last(),
            )
        }
    }
}

/// The decoder of one rotary encoder.
pub struct Encoder {
    state: u8,
    pulses: i8,
    dir: Dir,
}

impl View for Encoder {
    type V = EncoderView;

    closed spec fn view(&self) -> EncoderView {
        EncoderView { history: self.state as int, pulses: self.pulses as int, dir: self.dir }
    }
}

impl Encoder {
    #[verifier::type_invariant]
    spec fn inv(self) -> bool {
        self@.wf()
    }

    /// A decoder that has seen nothing.
    pub fn new() -> (encoder: Self)
        ensures
            encoder@ == EncoderView::initial(),
    {
        Encoder { state: 0, pulses: 0, dir: Dir::Same }
    }

    /// Takes one sample of both channels and reports whether it completed a
    /// detent, see [`EncoderView::step`].
    pub fn update(&mut self, channel_a: bool, channel_b: bool) -> (dir: Dir)
        ensures
            final(self)@ == old(self)@.step(channel_a, channel_b),
            final(self)@.wf(),
            dir == final(self)@.dir,
    {
        proof {
            use_type_invariant(&*self);
        }
        let high: u8 = if channel_a {
            2
        } else {
            0
        };
        let low: u8 = if channel_b {
            1
        } else {
            0
        };
        let sample: u8 = high | low;
        let state: u8 = self.state;
        assert(sample == sample_bits(channel_a, channel_b)) by {
            assert(2u8 | 1u8 == 3u8 && 2u8 | 0u8 == 2u8 && 0u8 | 1u8 == 1u8 && 0u8 | 0u8 == 0u8)
                by (bit_vector);
        }
        assert(state & 0b0011 == state % 4) by (bit_vector);
        if state & 0b0011 != sample {
            let history: u8 = ((state << 2) | sample) & 0b1111;
            assert(history == (state % 4) * 4 + sample) by (bit_vector)
                requires
                    history == ((state << 2) | sample) & 0b1111,
                    sample < 4,
            ;
            let sum: i8 = self.pulses + lookup(history);
            self.state = history;
            if sum == DETENT {
                self.dir = Dir::Cw;
            } else if sum == -DETENT {
                self.dir = Dir::Cww;
            } else {
                self.dir = Dir::Same;
            }
            self.pulses = sum % DETENT;
        } else {
            self.dir = Dir::Same;
        }
        self.dir
    }

    /// The sample seen last. Handed to [`Encoder::update`] again, it reports
    /// no detent and leaves history and pulses as they are, which is what to do
    /// in a tick in which the channels could not be read.
    pub fn last_sample(&self) -> (sample: (bool, bool))
        ensures
            sample_bits(sample.0, sample.1) == self@.last(),
    {
        proof {
            use_type_invariant(self);
        }
        let state: u8 = self.state;
        let channel_a: bool = state & 0b10 != 0;
        let channel_b: bool = state & 0b01 != 0;
        assert(state % 4 == (if state & 0b10 != 0 { 2int } else { 0int }) + (if state & 0b01 != 0 {
            1int
        } else {
            0int
        })) by (bit_vector);
        (channel_a, channel_b)
    }

    /// What the last update reported.
    pub fn direction(&self) -> (dir: Dir)
        ensures
            dir == self@.dir,
    {
        self.dir
    }

    /// Takes one sample of both channels, each as the result of reading its
    /// pin. Where channel A could not be read its error is passed on as
    /// `ChannelA`, else where channel B could not be read its error is passed
    /// on as `ChannelB`, and the decoder stays as it was. Where both were read
    /// this is [`Encoder::update`].
    pub fn update_sampled<A, B>(
        &mut self,
        channel_a: Result<bool, A>,
        channel_b: Result<bool, B>,
    ) -> (r: Result<Dir, ChannelFault<A, B>>)
        ensures
            match (channel_a, channel_b) {
                (Err(fault), _) => r == Err::<Dir, ChannelFault<A, B>>(ChannelFault::ChannelA(fault))
                    && final(self)@ == old(self)@,
                (Ok(_), Err(fault)) => r == Err::<Dir, ChannelFault<A, B>>(
                    ChannelFault::ChannelB(fault),
                ) && final(self)@ == old(self)@,
                (Ok(a), Ok(b)) => r == Ok::<Dir, ChannelFault<A, B>>(old(self)@.step(a, b).dir)
                    && final(self)@ == old(self)@.step(a, b),
            },
            final(self)@.wf(),
    {
        proof {
            use_type_invariant(&*self);
        }
        let a: bool = match channel_a {
            Ok(level) => level,
            Err(fault) => {
                return Err(ChannelFault::ChannelA(fault));
            },
        };
        let b: bool = match channel_b {
            Ok(level) => level,
            Err(fault) => {
                return Err(ChannelFault::ChannelB(fault));
            },
        };
        Ok(self.update(a, b))
    }
}

/// The entry of [`LOOKUP_TABLE`] for a history.
fn lookup(history: u8) -> (delta: i8)
    requires
        history < 16,
    ensures
        delta == pulse(history as int),
{
    LOOKUP_TABLE[history as usize]
}

/// Steps clockwise add up: from a decoder that holds no pulse the other way,
/// a sequence of steps clockwise reports a clockwise detent at every fourth
/// pulse and never a counter-clockwise one.
pub proof fn lemma_clockwise_steps(e: EncoderView, samples: Seq<(bool, bool)>)
    requires
        e.wf(),
        0 <= e.pulses,
        e.turns_clockwise(samples),
    ensures
        e.run(samples).wf(),
        e.run(samples).pulses == (e.pulses + samples.len()) % 4,
        e.count(samples, Dir::Cw) == (e.pulses + samples.len()) / 4,
        e.count(samples, Dir::Cww) == 0,
    decreases samples.len(),
{
    if samples.len() > 0 {
        lemma_clockwise_steps(e, samples.drop_last());
    }
}

/// Steps counter-clockwise add up: from a decoder that holds no pulse the
/// other way, a sequence of steps counter-clockwise reports a
/// counter-clockwise detent at every fourth pulse and never a clockwise one.
pub proof fn lemma_counter_clockwise_steps(e: EncoderView, samples: Seq<(bool, bool)>)
    requires
        e.wf(),
        e.pulses <= 0,
        e.turns_counter_clockwise(samples),
    ensures
        e.run(samples).wf(),
        e.run(samples).pulses == -((samples.len() - e.pulses) % 4),
        e.count(samples, Dir::Cww) == (samples.len() - e.pulses) / 4,
        e.count(samples, Dir::Cw) == 0,
    decreases samples.len(),
{
    if samples.len() > 0 {
        lemma_counter_clockwise_steps(e, samples.drop_last());
    }
}

/// Quadrature monotonicity. From a decoder at rest, a sequence of valid
/// transitions that makes `detents` full detents clockwise, four steps each,
/// reports exactly `detents` clockwise detents and no counter-clockwise one;
/// the same number of detents counter-clockwise reports exactly `detents`
/// counter-clockwise detents and no clockwise one. Either way the decoder is
/// at rest again.
pub proof fn lemma_full_detents(e: EncoderView, samples: Seq<(bool, bool)>, detents: nat)
    requires
        e.wf(),
        e.pulses == 0,
        samples.len() == 4 * detents,
    ensures
        e.turns_clockwise(samples) ==> {
            &&& e.count(samples, Dir::Cw) == detents
            &&& e.count(samples, Dir::Cww) == 0
            &&& e.run(samples).pulses == 0
        },
        e.turns_counter_clockwise(samples) ==> {
            &&& e.count(samples, Dir::Cww) == detents
            &&& e.count(samples, Dir::Cw) == 0
            &&& e.run(samples).pulses == 0
        },
{
    if e.turns_clockwise(samples) {
        lemma_clockwise_steps(e, samples);
    }
    if e.turns_counter_clockwise(samples) {
        lemma_counter_clockwise_steps(e, samples);
    }
}

/// Illegal transitions are ignored. A sample in which both channels differ
/// from the last sample has pulse 0: the update leaves the gathered pulses
/// as they were and reports no detent.
pub proof fn lemma_double_flip_is_ignored(e: EncoderView, channel_a: bool, channel_b: bool)
    requires
        e.wf(),
        sample_bits(channel_a, channel_b) + e.last() == 3,
    ensures
        pulse(e.last() * 4 + sample_bits(channel_a, channel_b)) == 0,
        e.step(channel_a, channel_b).pulses == e.pulses,
        e.step(channel_a, channel_b).dir == Dir::Same,
{
}

} // verus!

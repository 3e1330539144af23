//! Assembly of the HID report of one scan tick.

use vstd::prelude::*;
use usbd_human_interface_device::page::Consumer;
use usbd_human_interface_device::page::Keyboard;
use crate::action::ReportKey;

verus! {

/// Ordinary keys that fit in one report.
pub const MAX_KEYS: usize = 6;

/// Consumer-control codes that fit in one report.
pub const MAX_CONSUMER: usize = 4;

/// The report of one tick. Unused slots of `keys` and `consumer` hold 0.
#[derive(Clone, Copy, Debug, PartialEq, Eq)]
pub struct Report {
    /// Modifier bits.
    pub modifiers: u8,
    /// Usages of the ordinary keys, in the order in which they were added.
    pub keys: [u8; MAX_KEYS],
    /// Consumer-control usages, in the order in which they were added.
    pub consumer: [u16; MAX_CONSUMER],
}

impl Default for Report {
    fn default() -> (r: Self)
        ensures
            r.modifiers == 0,
            r.keys@ == padded_keys(Seq::empty()),
            r.consumer@ == padded_consumer(Seq::empty()),
    {
        Report { modifiers: 0, keys: [0u8; MAX_KEYS], consumer: [0u16; MAX_CONSUMER] }
    }
}

/// A key was left out because its list in the report was full.
#[derive(Clone, Copy, Debug, PartialEq, Eq, Structural)]
pub struct Overflow;

/// How the transport answered a write.
#[derive(Clone, Copy, Debug, PartialEq, Eq, Structural)]
pub enum TransportOutcome {
    /// The report was accepted.
    Sent,
    /// The transport is busy; nothing was sent.
    WouldBlock,
    /// The transport already holds this report; nothing was sent.
    Duplicate,
    /// The transport failed.
    Failed,
}

/// The transport failed in a way that a later tick cannot mend.
#[derive(Clone, Copy, Debug, PartialEq, Eq, Structural)]
pub struct TransportFault;

/// Whether the HID keyboard page defines a usage; the ranges between these
/// are reserved.
pub open spec fn keyboard_page_defines(code: u8) -> bool {
    ||| code <= 0xA4
    ||| (0xE0 <= code && code <= 0xE7)
}

/// The usage that the HID keyboard page reports for `code`: the code itself
/// where the page defines it, and 0 ("no event") in the reserved ranges.
pub open spec fn keyboard_page_usage(code: u8) -> u8 {
    if keyboard_page_defines(code) {
        code
    } else {
        0u8
    }
}

/// Whether a usage of the HID keyboard page is one of the eight modifier keys.
pub open spec fn is_modifier(usage: u8) -> bool {
    0xE0 <= usage && usage <= 0xE7
}

/// The bit of a modifier key in the modifier byte of a report: bit 0 for left
/// control, usage 0xE0, up to bit 7 for right GUI, usage 0xE7.
pub open spec fn modifier_bit(usage: u8) -> u8 {
    if usage == 0xE0 {
        0x01
    } else if usage == 0xE1 {
        0x02
    } else if usage == 0xE2 {
        0x04
    } else if usage == 0xE3 {
        0x08
    } else if usage == 0xE4 {
        0x10
    } else if usage == 0xE5 {
        0x20
    } else if usage == 0xE6 {
        0x40
    } else {
        0x80
    }
}

/// Whether the HID consumer page defines a usage; the ranges between these
/// are reserved.
pub open spec fn consumer_page_defines(code: u16) -> bool {
    ||| code <= 0x06
    ||| (0x20 <= code && code <= 0x22)
    ||| (0x30 <= code && code <= 0x36)
    ||| (0x40 <= code && code <= 0x48)
    ||| (0x60 <= code && code <= 0x66)
    ||| (0x80 <= code && code <= 0x9E)
    ||| (0xA0 <= code && code <= 0xA4)
    ||| (0xB0 <= code && code <= 0xCE)
    ||| (0xE0 <= code && code <= 0xEA)
    ||| (0xF0 <= code && code <= 0xF5)
    ||| (0x100 <= code && code <= 0x10D)
    ||| (0x150 <= code && code <= 0x155)
    ||| (0x160 <= code && code <= 0x16A)
    ||| (0x170 <= code && code <= 0x174)
    ||| (0x180 <= code && code <= 0x1BA)
    ||| (0x1BC <= code && code <= 0x1C7)
    ||| (0x200 <= code && code <= 0x209)
    ||| (0x21A <= code && code <= 0x29C)
}

/// The usage that the HID consumer page reports for `code`: the code itself
/// where the page defines it, and 0 ("unassigned") in the reserved ranges.
pub open spec fn consumer_page_usage(code: u16) -> u16 {
    if consumer_page_defines(code) {
        code
    } else {
        0u16
    }
}

/// `keys` in a report's `MAX_KEYS` slots, the rest 0.
pub open spec fn padded_keys(keys: Seq<u8>) -> Seq<u8> {
    Seq::new(MAX_KEYS as nat, |i: int| if i < keys.len() { keys[i] } else { 0u8 })
}

/// `codes` in a report's `MAX_CONSUMER` slots, the rest 0.
pub open spec fn padded_consumer(codes: Seq<u16>) -> Seq<u16> {
    Seq::new(MAX_CONSUMER as nat, |i: int| if i < codes.len() { codes[i] } else { 0u16 })
}

/// What a [`ReportBuilder`] holds.
pub struct BuilderView {
    /// Modifier bits gathered in this tick.
    pub modifiers: u8,
    /// Key usages gathered in this tick.
    pub keys: Seq<u8>,
    /// Consumer usages gathered in this tick.
    pub consumer: Seq<u16>,
    /// The consumer report that the transport accepted last.
    pub last_consumer: Seq<u16>,
}

impl BuilderView {
    /// The state of a new builder.
    pub open spec fn initial() -> BuilderView {
        BuilderView {
            modifiers: 0,
            keys: Seq::empty(),
            consumer: Seq::empty(),
            last_consumer: padded_consumer(Seq::empty()),
        }
    }

    /// Both lists are within capacity.
    pub open spec fn wf(self) -> bool {
        &&& self.keys.len() <= MAX_KEYS
        &&& self.consumer.len() <= MAX_CONSUMER
        &&& self.last_consumer.len() == MAX_CONSUMER
    }

    /// The builder at the start of a tick: nothing gathered, the last consumer
    /// report remembered.
    pub open spec fn begin(self) -> BuilderView {
        BuilderView { modifiers: 0, keys: Seq::empty(), consumer: Seq::empty(), ..self }
    }

    /// Whether a key usage is taken without overflow: "no event" and the
    /// modifier keys always are.
    pub open spec fn key_fits(self, usage: u8) -> bool {
        usage == 0 || is_modifier(usage) || self.keys.len() < MAX_KEYS
    }

    /// The builder after a key usage: "no event" changes nothing, a modifier
    /// key sets its bit in the modifier byte, and any other key is appended
    /// if there is room.
    pub open spec fn push_key(self, usage: u8) -> BuilderView {
        if usage == 0 {
            self
        } else if is_modifier(usage) {
            self.or_modifiers(modifier_bit(usage))
        } else if self.keys.len() < MAX_KEYS {
            BuilderView { keys: self.keys.push(usage), ..self }
        } else {
            self
        }
    }

    /// Whether a consumer usage is taken without overflow.
    pub open spec fn consumer_fits(self, usage: u16) -> bool {
        usage == 0 || self.consumer.len() < MAX_CONSUMER
    }

    /// Appends a consumer usage if it is assigned and there is room.
    pub open spec fn push_consumer(self, usage: u16) -> BuilderView {
        if usage != 0 && self.consumer.len() < MAX_CONSUMER {
            BuilderView { consumer: self.consumer.push(usage), ..self }
        } else {
            self
        }
    }

    /// Sets modifier bits.
    pub open spec fn or_modifiers(self, bits: u8) -> BuilderView {
        BuilderView { modifiers: self.modifiers | bits, ..self }
    }

    /// The builder after one entry. A chord is two keys, one after the other.
    pub open spec fn add(self, key: ReportKey) -> BuilderView {
        match key {
            ReportKey::Key(code) => self.push_key(keyboard_page_usage(code)),
            ReportKey::Modifier(bits) => self.or_modifiers(bits),
            ReportKey::Chord(first, second) => self.push_key(keyboard_page_usage(first)).push_key(
                keyboard_page_usage(second),
            ),
            ReportKey::Consumer(code) => self.push_consumer(consumer_page_usage(code)),
        }
    }

    /// Whether the whole entry is taken.
    pub open spec fn accepts(self, key: ReportKey) -> bool {
        match key {
            ReportKey::Key(code) => self.key_fits(keyboard_page_usage(code)),
            ReportKey::Modifier(_) => true,
            ReportKey::Chord(first, second) => {
                &&& self.key_fits(keyboard_page_usage(first))
                &&& self.push_key(keyboard_page_usage(first)).key_fits(keyboard_page_usage(second))
            },
            ReportKey::Consumer(code) => self.consumer_fits(consumer_page_usage(code)),
        }
    }

    /// The builder after a sequence of entries, overflowing ones left out.
    pub open spec fn add_all(self, keys: Seq<ReportKey>) -> BuilderView
        decreases keys.len(),
    {
        if keys.len() == 0 {
            self
        } else {
            self.add_all(keys.drop_last()).add(keys.last())
        }
    }

    /// The consumer report of this tick.
    pub open spec fn consumer_report(self) -> Seq<u16> {
        padded_consumer(self.consumer)
    }

    /// Whether the consumer report differs from the one sent last.
    pub open spec fn consumer_due(self) -> bool {
        self.consumer_report() != self.last_consumer
    }

    /// The builder after the transport answered a write of `codes`.
    pub open spec fn acknowledge(self, codes: Seq<u16>, outcome: TransportOutcome) -> BuilderView {
        if outcome == TransportOutcome::Sent {
            BuilderView { last_consumer: codes, ..self }
        } else {
            self
        }
    }
}

/// The entries of plain keys with the given codes.
pub open spec fn plain_keys(codes: Seq<u8>) -> Seq<ReportKey> {
    Seq::new(codes.len(), |i: int| ReportKey::Key(codes[i]))
}

/// Adding entries keeps both lists within capacity and leaves the remembered
/// consumer report alone.
pub proof fn lemma_add_all_keeps_wf(b: BuilderView, keys: Seq<ReportKey>)
    requires
        b.wf(),
    ensures
        b.add_all(keys).wf(),
        b.add_all(keys).last_consumer == b.last_consumer,
    decreases keys.len(),
{
    if keys.len() > 0 {
        lemma_add_all_keeps_wf(b, keys.drop_last());
    }
}

/// Capacity of the key list: of the plain keys added in a tick, modifier
/// keys and codes without a usage apart, the report holds the first
/// `MAX_KEYS` in the order in which they were added, and no others. So with
/// seven keys it holds six, and once one of those six is gone the seventh is
/// in the next report.
pub proof fn lemma_first_keys_are_kept(b: BuilderView, codes: Seq<u8>)
    requires
        b.wf(),
        forall|i: int|
            0 <= i < codes.len() ==> keyboard_page_usage(#[trigger] codes[i]) != 0 && !is_modifier(
                codes[i],
            ),
    ensures
        b.begin().add_all(plain_keys(codes)).keys == (if codes.len() <= MAX_KEYS {
            codes
        } else {
            codes.take(MAX_KEYS as int)
        }),
    decreases codes.len(),
{
    if codes.len() > 0 {
        let shorter = codes.drop_last();
        lemma_first_keys_are_kept(b, shorter);
        assert(plain_keys(codes).drop_last() =~= plain_keys(shorter));
    }
}

/// Deduplication of the consumer report. Let a tick gather `first`, and let
/// the transport answer `outcome` to a write of its consumer report. If the
/// report was sent, it is no longer due, and the report of the next tick,
/// which gathers `second`, is due exactly when its content differs. If it was
/// not sent, whether it is due has not changed.
pub proof fn lemma_consumer_sent_once(
    b: BuilderView,
    first: Seq<ReportKey>,
    second: Seq<ReportKey>,
    outcome: TransportOutcome,
)
    requires
        b.wf(),
    ensures
        ({
            let tick = b.begin().add_all(first);
            let answered = tick.acknowledge(tick.consumer_report(), outcome);
            let next = answered.begin().add_all(second);
            &&& outcome == TransportOutcome::Sent ==> !answered.consumer_due()
            &&& outcome == TransportOutcome::Sent ==> (next.consumer_due() <==> next.consumer_report()
                != tick.consumer_report())
            &&& outcome != TransportOutcome::Sent ==> answered.consumer_due() == tick.consumer_due()
        }),
{
    let tick = b.begin().add_all(first);
    let answered = tick.acknowledge(tick.consumer_report(), outcome);
    lemma_add_all_keeps_wf(b.begin(), first);
    lemma_add_all_keeps_wf(answered.begin(), second);
}

impl TransportOutcome {
    /// Only a failure is fatal; a busy transport or a duplicate is not.
    pub fn is_fatal(self) -> (r: bool)
        ensures
            r == (self == TransportOutcome::Failed),
    {
        match self {
            TransportOutcome::Failed => true,
            _ => false,
        }
    }
}

/// Calls `Keyboard::from` of the HID keyboard page on `code` and takes the
/// usage of the variant it gives. The page's enum has a variant for every
/// usage that [`keyboard_page_defines`] lists, with the usage as its value;
/// any other code falls to its default variant, `NoEventIndicated`, whose
/// value is 0.
#[verifier::external_body]
fn keyboard_usage(code: u8) -> (usage: u8)
    ensures
        usage == keyboard_page_usage(code),
{
    u8::from(Keyboard::from(code))
}

/// Calls `Consumer::from` of the HID consumer page on `code` and takes the
/// usage of the variant it gives. The page's enum has a variant for every
/// usage that [`consumer_page_defines`] lists, with the usage as its value;
/// any other code falls to its default variant, `Unassigned`, whose value
/// is 0.
#[verifier::external_body]
fn consumer_usage(code: u16) -> (usage: u16)
    ensures
        usage == consumer_page_usage(code),
{
    u16::from(Consumer::from(code))
}

/// Computes [`modifier_bit`].
pub fn modifier_mask(usage: u8) -> (bit: u8)
    requires
        is_modifier(usage),
    ensures
        bit == modifier_bit(usage),
{
    if usage == 0xE0 {
        0x01
    } else if usage == 0xE1 {
        0x02
    } else if usage == 0xE2 {
        0x04
    } else if usage == 0xE3 {
        0x08
    } else if usage == 0xE4 {
        0x10
    } else if usage == 0xE5 {
        0x20
    } else if usage == 0xE6 {
        0x40
    } else {
        0x80
    }
}

/// Whether a modifier key is down in a modifier byte.
pub open spec fn modifier_down(modifiers: u8, usage: u8) -> bool {
    is_modifier(usage) && modifiers & modifier_bit(usage) != 0
}

/// The usages of the modifier keys that are down in a modifier byte: exactly
/// the usages from 0xE0 to 0xE7 whose bit is set, in rising order.
pub fn modifier_usages(modifiers: u8) -> (usages: Vec<u8>)
    ensures
        forall|usage: u8|
            #![trigger usages@.contains(usage)]
            #![trigger modifier_down(modifiers, usage)]
            usages@.contains(usage) <==> modifier_down(modifiers, usage),
        forall|i: int, j: int| 0 <= i < j < usages.len() ==> usages[i] < usages[j],
{
    let mut usages: Vec<u8> = Vec::new();
    let mut usage: u8 = 0xE0;
    while usage <= 0xE7
        invariant
            0xE0 <= usage <= 0xE8,
            forall|u: u8| usages@.contains(u) <==> modifier_down(modifiers, u) && u < usage,
            forall|i: int, j: int| 0 <= i < j < usages.len() ==> usages[i] < usages[j],
            forall|i: int| 0 <= i < usages.len() ==> usages[i] < usage,
        decreases 0xE8 - usage,
    {
        if modifiers & modifier_mask(usage) != 0 {
            let ghost before = usages@;
            usages.push(usage);
            assert forall|u: u8| usages@.contains(u) <==> modifier_down(modifiers, u) && u
                <= usage by {
                if before.contains(u) {
                    let i = choose|i: int| 0 <= i < before.len() && before[i] == u;
                    assert(usages@[i] == u);
                }
                if u == usage {
                    assert(usages@[before.len() as int] == u);
                }
            }
        }
        usage += 1;
    }
    usages
}

/// Gathers the keys of one tick and remembers the consumer report last sent.
pub struct ReportBuilder {
    modifiers: u8,
    keys: Vec<u8>,
    consumer: Vec<u16>,
    last_consumer: [u16; MAX_CONSUMER],
}

impl View for ReportBuilder {
    type V = BuilderView;

    closed spec fn view(&self) -> BuilderView {
        BuilderView {
            modifiers: self.modifiers,
            keys: self.keys@,
            consumer: self.consumer@,
            last_consumer: self.last_consumer@,
        }
    }
}

impl ReportBuilder {
    /// Both lists are within capacity.
    pub open spec fn wf(&self) -> bool {
        self@.wf()
    }

    /// A builder with nothing gathered and an all-zero consumer report as the
    /// one sent last.
    pub fn new() -> (b: Self)
        ensures
            b@ == BuilderView::initial(),
            b.wf(),
    {
        let b = ReportBuilder {
            modifiers: 0,
            keys: Vec::new(),
            consumer: Vec::new(),
            last_consumer: [0u16; MAX_CONSUMER],
        };
        assert(b.last_consumer@ =~= padded_consumer(Seq::empty()));
        b
    }

    /// Starts a tick: forgets what was gathered, keeps the last consumer report.
    pub fn begin_tick(&mut self)
        requires
            old(self).wf(),
        ensures
            final(self)@ == old(self)@.begin(),
            final(self).wf(),
    {
        self.modifiers = 0;
        self.keys.clear();
        self.consumer.clear();
    }

    /// Takes one key usage. "No event" (0) is accepted and changes nothing; a
    /// modifier key (0xE0 to 0xE7) sets its bit in the modifier byte; any
    /// other usage is appended while there is room and refused with `Overflow`
    /// once `MAX_KEYS` are held.
    pub fn push_key(&mut self, usage: u8) -> (r: Result<(), Overflow>)
        requires
            old(self).wf(),
        ensures
            final(self)@ == old(self)@.push_key(usage),
            r.is_ok() == old(self)@.key_fits(usage),
            final(self).wf(),
    {
        if usage == 0 {
            Ok(())
        } else if 0xE0 <= usage && usage <= 0xE7 {
            self.modifiers = self.modifiers | modifier_mask(usage);
            Ok(())
        } else if self.keys.len() < MAX_KEYS {
            self.keys.push(usage);
            Ok(())
        } else {
            Err(Overflow)
        }
    }

    /// Takes one consumer usage. "Unassigned" (0) is accepted and changes
    /// nothing; any other usage is appended while there is room and refused with
    /// `Overflow` once `MAX_CONSUMER` are held.
    pub fn push_consumer(&mut self, usage: u16) -> (r: Result<(), Overflow>)
        requires
            old(self).wf(),
        ensures
            final(self)@ == old(self)@.push_consumer(usage),
            r.is_ok() == old(self)@.consumer_fits(usage),
            final(self).wf(),
    {
        if usage == 0 {
            Ok(())
        } else if self.consumer.len() < MAX_CONSUMER {
            self.consumer.push(usage);
            Ok(())
        } else {
            Err(Overflow)
        }
    }

    /// Adds one entry to the report of this tick. Modifier bits are or-ed into
    /// the modifier byte. Key and consumer codes are first mapped to the usage
    /// that their HID page reports, then appended to their list. A chord is
    /// its first key, then its second. `Overflow` says that a part of the entry
    /// found its list full and was left out.
    pub fn add_key(&mut self, key: ReportKey) -> (r: Result<(), Overflow>)
        requires
            old(self).wf(),
        ensures
            final(self)@ == old(self)@.add(key),
            r.is_ok() == old(self)@.accepts(key),
            final(self).wf(),
    {
        match key {
            ReportKey::Key(code) => {
                let usage: u8 = keyboard_usage(code);
                self.push_key(usage)
            },
            ReportKey::Modifier(bits) => {
                self.modifiers = self.modifiers | bits;
                Ok(())
            },
            ReportKey::Chord(first, second) => {
                let first_usage: u8 = keyboard_usage(first);
                let second_usage: u8 = keyboard_usage(second);
                let first_taken = self.push_key(first_usage);
                let second_taken = self.push_key(second_usage);
                if first_taken.is_ok() && second_taken.is_ok() {
                    Ok(())
                } else {
                    Err(Overflow)
                }
            },
            ReportKey::Consumer(code) => {
                let usage: u16 = consumer_usage(code);
                self.push_consumer(usage)
            },
        }
    }

    /// The report of this tick: the modifier byte, and both lists in their
    /// slots with the unused slots 0.
    pub fn finish_tick(&self) -> (report: Report)
        requires
            self.wf(),
        ensures
            report.modifiers == self@.modifiers,
            report.keys@ == padded_keys(self@.keys),
            report.consumer@ == self@.consumer_report(),
    {
        let mut keys: [u8; MAX_KEYS] = [0u8; MAX_KEYS];
        let mut i: usize = 0;
        while i < self.keys.len()
            invariant
                i <= self.keys.len() <= MAX_KEYS,
                forall|j: int| 0 <= j < i ==> keys@[j] == self.keys@[j],
                forall|j: int| i <= j < MAX_KEYS ==> keys@[j] == 0,
            decreases self.keys.len() - i,
        {
            keys[i] = self.keys[i];
            i += 1;
        }
        Report { modifiers: self.modifiers, keys, consumer: self.consumer_codes() }
    }

    /// The consumer report of this tick.
    fn consumer_codes(&self) -> (codes: [u16; MAX_CONSUMER])
        requires
            self.wf(),
        ensures
            codes@ == self@.consumer_report(),
    {
        let mut codes: [u16; MAX_CONSUMER] = [0u16; MAX_CONSUMER];
        let mut i: usize = 0;
        while i < self.consumer.len()
            invariant
                i <= self.consumer.len() <= MAX_CONSUMER,
                forall|j: int| 0 <= j < i ==> codes@[j] == self.consumer@[j],
                forall|j: int| i <= j < MAX_CONSUMER ==> codes@[j] == 0,
            decreases self.consumer.len() - i,
        {
            codes[i] = self.consumer[i];
            i += 1;
        }
        codes
    }

    /// The consumer report to hand to the transport in this tick, if there is
    /// one: it is due exactly when it differs, in any slot, from the report
    /// that the transport accepted last.
    pub fn pending_consumer(&self) -> (r: Option<[u16; MAX_CONSUMER]>)
        requires
            self.wf(),
        ensures
            match r {
                Some(codes) => self@.consumer_due() && codes@ == self@.consumer_report(),
                None => !self@.consumer_due(),
            },
    {
        let codes = self.consumer_codes();
        let mut differs: bool = false;
        let mut i: usize = 0;
        while i < MAX_CONSUMER
            invariant
                i <= MAX_CONSUMER,
                differs == (exists|j: int| 0 <= j < i && codes@[j] != self.last_consumer@[j]),
            decreases MAX_CONSUMER - i,
        {
            if codes[i] != self.last_consumer[i] {
                differs = true;
            }
            i += 1;
        }
        if differs {
            Some(codes)
        } else {
            assert(codes@ =~= self.last_consumer@);
            None
        }
    }

    /// Records the transport's answer to a write of the consumer report
    /// `codes`. Only a report that was sent becomes the one sent last; a busy
    /// transport or a duplicate changes nothing, so the report stays due. A
    /// failure changes nothing either and is passed on as `TransportFault`.
    pub fn acknowledge_consumer(
        &mut self,
        codes: [u16; MAX_CONSUMER],
        outcome: TransportOutcome,
    ) -> (r: Result<(), TransportFault>)
        requires
            old(self).wf(),
        ensures
            final(self)@ == old(self)@.acknowledge(codes@, outcome),
            r.is_err() == (outcome == TransportOutcome::Failed),
            final(self).wf(),
    {
        match outcome {
            TransportOutcome::Sent => {
                self.last_consumer = codes;
                Ok(())
            },
            TransportOutcome::Failed => Err(TransportFault),
            _ => Ok(()),
        }
    }
}

} // verus!

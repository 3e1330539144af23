//! What a keymap cell does, and what it contributes to a report.

use vstd::prelude::*;

verus! {

/// The action bound to one cell of one layer of the keymap.
#[derive(Clone, Copy, PartialEq, Eq, Debug, Structural)]
pub enum KeyAction {
    /// An ordinary key, by its usage on the HID keyboard page.
    Plain(u8),
    /// A modifier key, by the bits it sets in the report's modifier byte.
    Modifier(u8),
    /// Activates the layer while the key is held.
    MomentaryLayer(usize),
    /// Activates the layer until another layer key says otherwise.
    SwitchLayer(usize),
    /// Defers to the next lower layer at the same position.
    Transparent,
    /// Two ordinary keys reported together.
    Chord(u8, u8),
    /// A consumer-control key, by its usage on the HID consumer page.
    Consumer(u16),
    /// Does nothing.
    NoOp,
}

/// One entry handed to the report builder.
#[derive(Clone, Copy, PartialEq, Eq, Debug, Structural)]
pub enum ReportKey {
    /// An ordinary key.
    Key(u8),
    /// Modifier bits.
    Modifier(u8),
    /// Two ordinary keys.
    Chord(u8, u8),
    /// A consumer-control code.
    Consumer(u16),
}

impl KeyAction {
    /// The report entry of an action; layer keys, `Transparent` and `NoOp`
    /// have none.
    pub open spec fn report_key(self) -> Option<ReportKey> {
        match self {
            KeyAction::Plain(code) => Some(ReportKey::Key(code)),
            KeyAction::Modifier(bits) => Some(ReportKey::Modifier(bits)),
            KeyAction::Chord(first, second) => Some(ReportKey::Chord(first, second)),
            KeyAction::Consumer(code) => Some(ReportKey::Consumer(code)),
            _ => None,
        }
    }

    /// The layer a layer key points at.
    pub open spec fn target(self) -> Option<usize> {
        match self {
            KeyAction::MomentaryLayer(layer) => Some(layer),
            KeyAction::SwitchLayer(layer) => Some(layer),
            _ => None,
        }
    }

    /// Whether the action can be used with `layers` layers: a layer key must
    /// point at one of them.
    pub open spec fn fits(self, layers: int) -> bool {
        self.target() matches Some(layer) ==> layer < layers
    }

    /// Computes [`KeyAction::report_key`].
    pub fn to_report_key(self) -> (r: Option<ReportKey>)
        ensures
            r == self.report_key(),
    {
        match self {
            KeyAction::Plain(code) => Some(ReportKey::Key(code)),
            KeyAction::Modifier(bits) => Some(ReportKey::Modifier(bits)),
            KeyAction::Chord(first, second) => Some(ReportKey::Chord(first, second)),
            KeyAction::Consumer(code) => Some(ReportKey::Consumer(code)),
            _ => None,
        }
    }

    /// Computes [`KeyAction::fits`].
    pub fn fits_layers(self, layers: usize) -> (r: bool)
        ensures
            r == self.fits(layers as int),
    {
        match self {
            KeyAction::MomentaryLayer(layer) => layer < layers,
            KeyAction::SwitchLayer(layer) => layer < layers,
            _ => true,
        }
    }
}

} // verus!

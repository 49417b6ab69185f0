use vstd::prelude::*;

verus! {

/// The closed set of effect types a cue may request. Adding an effect
/// means adding a variant here and extending `category`.
#[derive(Clone, Copy, PartialEq, Eq, Structural, Debug)]
pub enum EffectKind {
    Flash,
    Fade,
    Strobe,
    Launch,
    Burst,
}

/// Broad family of an effect; effects of the same family contend for the
/// same physical channel on a controller.
#[derive(Clone, Copy, PartialEq, Eq, Structural, Debug)]
pub enum EffectCategory {
    Lighting,
    Pyrotechnic,
}

impl EffectKind {
    /// Family the effect belongs to.
    pub open spec fn category(self) -> EffectCategory {
        match self {
            EffectKind::Flash => EffectCategory::Lighting,
            EffectKind::Fade => EffectCategory::Lighting,
            EffectKind::Strobe => EffectCategory::Lighting,
            EffectKind::Launch => EffectCategory::Pyrotechnic,
            EffectKind::Burst => EffectCategory::Pyrotechnic,
        }
    }

    /// Two distinct effects of the same family conflict: a controller
    /// cannot honour both over the same span of time.
    pub open spec fn conflicts_with_spec(self, other: EffectKind) -> bool {
        self != other && self.category() == other.category()
    }

    pub fn conflicts_with(&self, other: &EffectKind) -> (r: bool)
        ensures
            r == self.conflicts_with_spec(*other),
    {
        let same_category = match (self, other) {
            (EffectKind::Flash, EffectKind::Flash)
            | (EffectKind::Flash, EffectKind::Fade)
            | (EffectKind::Flash, EffectKind::Strobe)
            | (EffectKind::Fade, EffectKind::Flash)
            | (EffectKind::Fade, EffectKind::Fade)
            | (EffectKind::Fade, EffectKind::Strobe)
            | (EffectKind::Strobe, EffectKind::Flash)
            | (EffectKind::Strobe, EffectKind::Fade)
            | (EffectKind::Strobe, EffectKind::Strobe) => true,
            (EffectKind::Launch, EffectKind::Launch)
            | (EffectKind::Launch, EffectKind::Burst)
            | (EffectKind::Burst, EffectKind::Launch)
            | (EffectKind::Burst, EffectKind::Burst) => true,
            _ => false,
        };
        *self != *other && same_category
    }
}

/// A cue's requested effect: the type tag plus its one dial. Parameters
/// richer than an intensity belong to the controller driver, not the
/// engine.
#[derive(Clone, Copy, PartialEq, Eq, Structural, Debug)]
pub struct Effect {
    pub kind: EffectKind,
    pub intensity: u64,
}

} // verus!

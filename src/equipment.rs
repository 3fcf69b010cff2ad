use vstd::prelude::*;

verus! {

/// The body slot an equipment occupies.
#[derive(Clone, Copy, Debug, PartialEq, Eq, Structural)]
pub enum Slot {
    LeftHand,
    RightHand,
    Head,
}

/// An object that can be equipped, yielding bonuses.
#[derive(Clone, Copy, Debug, PartialEq, Eq, Structural)]
pub struct Equipment {
    pub slot: Slot,
    pub equipped: bool,
}

impl Slot {
    pub open spec fn spec_label(self) -> Seq<char> {
        match self {
            Slot::LeftHand => "Left hand"@,
            Slot::RightHand => "Right hand"@,
            Slot::Head => "Head"@,
        }
    }

    /// The slot's name as shown to the player.
    pub fn to_string(&self) -> (s: String)
        ensures
            s@ == self.spec_label(),
    {
        match self {
            Slot::LeftHand => String::from_str("Left hand"),
            Slot::RightHand => String::from_str("Right hand"),
            Slot::Head => String::from_str("Head"),
        }
    }
}

pub open spec fn bool_label(b: bool) -> Seq<char> {
    if b {
        "true"@
    } else {
        "false"@
    }
}

impl Equipment {
    pub open spec fn spec_label(self) -> Seq<char> {
        "("@ + self.slot.spec_label() + ", "@ + bool_label(self.equipped) + ")"@
    }

    /// The slot and the equipped flag, as `(Right hand, true)`.
    pub fn to_string(&self) -> (s: String)
        ensures
            s@ == self.spec_label(),
    {
        let mut s = String::from_str("(");
        let slot = self.slot.to_string();
        s.append(slot.as_str());
        s.append(", ");
        if self.equipped {
            s.append("true");
        } else {
            s.append("false");
        }
        s.append(")");
        s
    }
}

} // verus!

//! Modifier keys (Shift, Control, Command, Option) as a composable flag set,
//! stored as a bitmask.

use vstd::prelude::*;

verus! {

/// Bitmask flag for the Shift modifier.
pub const MODIFIER_SHIFT: u32 = 1;

/// Bitmask flag for the Control modifier.
pub const MODIFIER_CONTROL: u32 = 2;

/// Bitmask flag for the Command modifier (also written `meta`, `super`,
/// `cmd` or `win` in chord text).
pub const MODIFIER_COMMAND: u32 = 4;

/// Bitmask flag for the Option (`alt`) modifier.
pub const MODIFIER_OPTION: u32 = 8;

/// Mathematical value of a modifier set: one flag per modifier key.
pub ghost struct ModV {
    pub shift: bool,
    pub control: bool,
    pub command: bool,
    pub option: bool,
}

impl ModV {
    /// The empty modifier set.
    pub open spec fn none() -> ModV {
        ModV { shift: false, control: false, command: false, option: false }
    }
}

/// A set of modifier keys, stored as a bitmask over the `MODIFIER_*` flags.
#[derive(Clone, Copy, PartialEq, Eq, Structural, Debug, Hash)]
pub struct ModSet {
    pub bits: u32,
}

impl View for ModSet {
    type V = ModV;

    open spec fn view(&self) -> ModV {
        ModV {
            shift: self.bits & MODIFIER_SHIFT != 0,
            control: self.bits & MODIFIER_CONTROL != 0,
            command: self.bits & MODIFIER_COMMAND != 0,
            option: self.bits & MODIFIER_OPTION != 0,
        }
    }
}

impl DeepView for ModSet {
    type V = ModV;

    open spec fn deep_view(&self) -> ModV {
        self.view()
    }
}

/// Does `flag` name one of the four modifier flags?
pub open spec fn is_modifier_flag(flag: u32) -> bool {
    flag == MODIFIER_SHIFT || flag == MODIFIER_CONTROL || flag == MODIFIER_COMMAND
        || flag == MODIFIER_OPTION
}

/// The flag set after turning `flag` on in `m`.
pub open spec fn set_flag(m: ModV, flag: u32) -> ModV {
    ModV {
        shift: m.shift || flag == MODIFIER_SHIFT,
        control: m.control || flag == MODIFIER_CONTROL,
        command: m.command || flag == MODIFIER_COMMAND,
        option: m.option || flag == MODIFIER_OPTION,
    }
}

/// The flag set after turning `flag` off in `m`.
pub open spec fn clear_flag(m: ModV, flag: u32) -> ModV {
    ModV {
        shift: m.shift && flag != MODIFIER_SHIFT,
        control: m.control && flag != MODIFIER_CONTROL,
        command: m.command && flag != MODIFIER_COMMAND,
        option: m.option && flag != MODIFIER_OPTION,
    }
}

impl ModSet {
    /// A well-formed modifier set uses only the four modifier bits.
    pub open spec fn wf(self) -> bool {
        self.bits < 16
    }

    /// The empty modifier set.
    pub fn empty() -> (r: ModSet)
        ensures
            r.bits == 0,
            r.wf(),
            r@ == ModV::none(),
    {
        proof {
            assert(0u32 & 1 == 0 && 0u32 & 2 == 0 && 0u32 & 4 == 0 && 0u32 & 8 == 0)
                by (bit_vector);
        }
        ModSet { bits: 0 }
    }

    /// Add one modifier flag to the set.
    pub fn insert(self, flag: u32) -> (r: ModSet)
        requires
            is_modifier_flag(flag),
        ensures
            r.bits == self.bits | flag,
            self.wf() ==> r.wf(),
            r@ == set_flag(self@, flag),
    {
        let b = self.bits;
        proof {
            assert(b < 16 ==> (b | flag) < 16) by (bit_vector)
                requires
                    flag == 1 || flag == 2 || flag == 4 || flag == 8,
            ;
            assert((((b | flag) & 1 != 0) == ((b & 1 != 0) || flag == 1)) && (((b | flag) & 2
                != 0) == ((b & 2 != 0) || flag == 2)) && (((b | flag) & 4 != 0) == ((b & 4 != 0)
                || flag == 4)) && (((b | flag) & 8 != 0) == ((b & 8 != 0) || flag == 8)))
                by (bit_vector)
                requires
                    flag == 1 || flag == 2 || flag == 4 || flag == 8,
            ;
        }
        ModSet { bits: b | flag }
    }

    /// Remove one modifier flag from the set.
    pub fn remove(self, flag: u32) -> (r: ModSet)
        requires
            is_modifier_flag(flag),
        ensures
            r.bits == self.bits & !flag,
            self.wf() ==> r.wf(),
            r@ == clear_flag(self@, flag),
    {
        let b = self.bits;
        proof {
            assert(b < 16 ==> (b & !flag) < 16) by (bit_vector);
            assert((((b & !flag) & 1 != 0) == ((b & 1 != 0) && flag != 1)) && (((b & !flag) & 2
                != 0) == ((b & 2 != 0) && flag != 2)) && (((b & !flag) & 4 != 0) == ((b & 4 != 0)
                && flag != 4)) && (((b & !flag) & 8 != 0) == ((b & 8 != 0) && flag != 8)))
                by (bit_vector)
                requires
                    flag == 1 || flag == 2 || flag == 4 || flag == 8,
            ;
        }
        ModSet { bits: b & !flag }
    }

    /// Is one modifier flag present in the set?
    pub fn contains(self, flag: u32) -> (r: bool)
        requires
            is_modifier_flag(flag),
        ensures
            r == (if flag == MODIFIER_SHIFT {
                self@.shift
            } else if flag == MODIFIER_CONTROL {
                self@.control
            } else if flag == MODIFIER_COMMAND {
                self@.command
            } else {
                self@.option
            }),
    {
        self.bits & flag != 0
    }
}

/// On well-formed modifier sets the flag view determines the bitmask: two
/// well-formed sets showing the same flags are the same value.
pub proof fn lemma_mod_set_view_injective(a: ModSet, b: ModSet)
    requires
        a.wf(),
        b.wf(),
        a@ == b@,
    ensures
        a == b,
{
    let x = a.bits;
    let y = b.bits;
    assert(x == y) by (bit_vector)
        requires
            x < 16,
            y < 16,
            (x & 1 != 0) == (y & 1 != 0),
            (x & 2 != 0) == (y & 2 != 0),
            (x & 4 != 0) == (y & 4 != 0),
            (x & 8 != 0) == (y & 8 != 0),
    ;
}

/// The chord-text piece naming the Control modifier.
pub open spec fn ctrl_piece() -> Seq<char> {
    seq!['c', 't', 'r', 'l', '+']
}

/// The chord-text piece naming the Shift modifier.
pub open spec fn shift_piece() -> Seq<char> {
    seq!['s', 'h', 'i', 'f', 't', '+']
}

/// One spelling of the Command modifier in chord text.
pub open spec fn super_piece() -> Seq<char> {
    seq!['s', 'u', 'p', 'e', 'r', '+']
}

/// One spelling of the Command modifier in chord text.
pub open spec fn cmd_piece() -> Seq<char> {
    seq!['c', 'm', 'd', '+']
}

/// The canonical spelling of the Command modifier in chord text.
pub open spec fn meta_piece() -> Seq<char> {
    seq!['m', 'e', 't', 'a', '+']
}

/// One spelling of the Command modifier in chord text.
pub open spec fn win_piece() -> Seq<char> {
    seq!['w', 'i', 'n', '+']
}

/// The chord-text piece naming the Option modifier.
pub open spec fn alt_piece() -> Seq<char> {
    seq!['a', 'l', 't', '+']
}

} // verus!

//! Key chords and chord sequences: a key chord is a modifier set together
//! with a base key label, and a chord sequence is one mandatory chord plus
//! an optional second chord.  Display formatting emits the canonical text
//! `meta+`, `alt+`, `ctrl+`, `shift+` followed by the label.

use vstd::prelude::*;
use crate::modifiers::{
    alt_piece, ctrl_piece, meta_piece, shift_piece, ModSet, ModV, MODIFIER_COMMAND,
    MODIFIER_CONTROL, MODIFIER_OPTION, MODIFIER_SHIFT,
};

verus! {

/// Mathematical value of a key chord: a modifier set and a base key label.
pub ghost struct KeyV {
    pub modifiers: ModV,
    pub label: Seq<char>,
}

/// One key chord: a modifier set plus a base key label.  An empty label is
/// a valid placeholder meaning "unspecified key".
#[derive(Clone, PartialEq, Eq, Hash, Debug)]
pub struct Key {
    pub modifiers: ModSet,
    pub key: String,
}

impl View for Key {
    type V = KeyV;

    open spec fn view(&self) -> KeyV {
        KeyV { modifiers: self.modifiers@, label: self.key@ }
    }
}

impl DeepView for Key {
    type V = KeyV;

    open spec fn deep_view(&self) -> KeyV {
        self.view()
    }
}

/// The chord with no modifiers and the empty (unspecified) key label.
pub open spec fn empty_key() -> KeyV {
    KeyV { modifiers: ModV::none(), label: Seq::<char>::empty() }
}

/// A chord that stands for "any key": no modifiers, empty label.
pub fn anykey() -> (k: Key)
    ensures
        k@ == empty_key(),
        k.modifiers.bits == 0,
        k.wf(),
{
    Key { modifiers: ModSet::empty(), key: String::new() }
}

/// The canonical display text of one chord: `meta+`, `alt+`, `ctrl+`,
/// `shift+` for each present modifier, in that fixed order, then the label.
pub open spec fn display_key_spec(k: KeyV) -> Seq<char> {
    (if k.modifiers.command {
        meta_piece()
    } else {
        Seq::<char>::empty()
    }) + (if k.modifiers.option {
        alt_piece()
    } else {
        Seq::<char>::empty()
    }) + (if k.modifiers.control {
        ctrl_piece()
    } else {
        Seq::<char>::empty()
    }) + (if k.modifiers.shift {
        shift_piece()
    } else {
        Seq::<char>::empty()
    }) + k.label
}

impl Key {
    /// A well-formed chord carries a well-formed modifier set.
    pub open spec fn wf(self) -> bool {
        self.modifiers.wf()
    }

    /// A copy of this chord.
    pub fn duplicate(&self) -> (r: Key)
        ensures
            r == *self,
    {
        Key { modifiers: self.modifiers, key: self.key.clone() }
    }

    /// The canonical display text of this chord.
    pub fn display(&self) -> (s: String)
        ensures
            s@ == display_key_spec(self@),
    {
        proof {
            reveal_strlit("meta+");
            reveal_strlit("alt+");
            reveal_strlit("ctrl+");
            reveal_strlit("shift+");
            assert("meta+"@ =~= meta_piece());
            assert("alt+"@ =~= alt_piece());
            assert("ctrl+"@ =~= ctrl_piece());
            assert("shift+"@ =~= shift_piece());
        }
        let mut s = String::new();
        if self.modifiers.contains(MODIFIER_COMMAND) {
            s.append("meta+");
        }
        if self.modifiers.contains(MODIFIER_OPTION) {
            s.append("alt+");
        }
        if self.modifiers.contains(MODIFIER_CONTROL) {
            s.append("ctrl+");
        }
        if self.modifiers.contains(MODIFIER_SHIFT) {
            s.append("shift+");
        }
        s.append(self.key.as_str());
        proof {
            assert(s@ =~= display_key_spec(self@));
        }
        s
    }
}

/// Mathematical value of a chord sequence.
pub ghost struct RuleV {
    pub first: KeyV,
    pub second: Option<KeyV>,
}

/// A chord sequence: one mandatory chord and an optional second chord,
/// pressed in order.
#[derive(Clone, PartialEq, Eq, Hash, Debug)]
pub struct KeyRule {
    pub first: Key,
    pub second: Option<Key>,
}

impl View for KeyRule {
    type V = RuleV;

    open spec fn view(&self) -> RuleV {
        RuleV {
            first: self.first@,
            second: match self.second {
                Some(k) => Some(k@),
                None => None,
            },
        }
    }
}

impl DeepView for KeyRule {
    type V = RuleV;

    open spec fn deep_view(&self) -> RuleV {
        self.view()
    }
}

/// The canonical display text of a chord sequence: the first chord's text,
/// then, if a second chord exists, one space and its text.
pub open spec fn display_rule_spec(r: RuleV) -> Seq<char> {
    display_key_spec(r.first) + (match r.second {
        Some(k) => seq![' '] + display_key_spec(k),
        None => Seq::<char>::empty(),
    })
}

impl KeyRule {
    /// A well-formed chord sequence carries well-formed modifier sets.
    pub open spec fn wf(self) -> bool {
        &&& self.first.wf()
        &&& match self.second {
            Some(k) => k.wf(),
            None => true,
        }
    }

    /// A copy of this chord sequence.
    pub fn duplicate(&self) -> (r: KeyRule)
        ensures
            r == *self,
    {
        KeyRule {
            first: self.first.duplicate(),
            second: match &self.second {
                Some(k) => Some(k.duplicate()),
                None => None,
            },
        }
    }

    /// The canonical display text of this chord sequence.
    pub fn display(&self) -> (s: String)
        ensures
            s@ == display_rule_spec(self@),
    {
        let mut s = self.first.display();
        match &self.second {
            Some(k) => {
                proof {
                    reveal_strlit(" ");
                }
                s.append(" ");
                let d = k.display();
                s.append(d.as_str());
                proof {
                    assert(s@ =~= display_rule_spec(self@));
                }
            },
            None => {
                proof {
                    assert(s@ =~= display_rule_spec(self@));
                }
            },
        }
        s
    }
}

} // verus!

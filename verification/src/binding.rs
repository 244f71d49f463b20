//! The binding model: one configured binding associates a chord sequence
//! with a command name, an optional conditional-context expression and
//! optional arguments, the latter two passed through unexamined.

use vstd::prelude::*;
use crate::args::{duplicate_args, ArgV, ArgValue};
use crate::keys::{KeyRule, RuleV};
use crate::modifiers::MODIFIER_CONTROL;

verus! {

/// Mathematical value of one binding.
pub ghost struct BindingV {
    pub keys: RuleV,
    pub command: Seq<char>,
    pub when: Option<Seq<char>>,
    pub args: Option<ArgV>,
}

/// One configured binding.
pub struct KeyBinding {
    pub keys: KeyRule,
    pub command: String,
    pub when: Option<String>,
    pub args: Option<ArgValue>,
}

impl DeepView for KeyBinding {
    type V = BindingV;

    open spec fn deep_view(&self) -> BindingV {
        BindingV {
            keys: self.keys@,
            command: self.command@,
            when: self.when.deep_view(),
            args: self.args.deep_view(),
        }
    }
}

/// A command name with the disable marker: a leading `-` is prepended
/// unless already present, so disabling is idempotent.
pub open spec fn disable_command_spec(c: Seq<char>) -> Seq<char> {
    if c.len() > 0 && c[0] == '-' {
        c
    } else {
        seq!['-'] + c
    }
}

/// The disabled copy of a binding: identical chords, context and
/// arguments; the command name gains the disable marker.
pub open spec fn disabled_spec(b: BindingV) -> BindingV {
    BindingV { command: disable_command_spec(b.command), ..b }
}

/// A copy of an optional context expression.
pub fn duplicate_when(w: &Option<String>) -> (r: Option<String>)
    ensures
        r.deep_view() == w.deep_view(),
{
    match w {
        Some(s) => Some(s.clone()),
        None => None,
    }
}

impl KeyBinding {
    /// A well-formed binding carries well-formed modifier sets.
    pub open spec fn wf(self) -> bool {
        self.keys.wf()
    }

    /// Does the first chord of this binding include the Control modifier?
    pub fn has_control(&self) -> (r: bool)
        ensures
            r == self.deep_view().keys.first.modifiers.control,
    {
        self.keys.first.modifiers.contains(MODIFIER_CONTROL)
    }

    /// A copy of this binding.
    pub fn duplicate(&self) -> (r: KeyBinding)
        ensures
            r.deep_view() == self.deep_view(),
            r.keys == self.keys,
    {
        KeyBinding {
            keys: self.keys.duplicate(),
            command: self.command.clone(),
            when: duplicate_when(&self.when),
            args: duplicate_args(&self.args),
        }
    }

    /// The disabled copy of this binding: the same chord sequence, context
    /// and arguments, with the command name prefixed by the disable marker
    /// unless it already is.
    pub fn copy_disabled(&self) -> (r: KeyBinding)
        ensures
            r.deep_view() == disabled_spec(self.deep_view()),
            r.keys == self.keys,
    {
        let cmd = self.command.as_str();
        if cmd.unicode_len() > 0 && cmd.get_char(0) == '-' {
            self.duplicate()
        } else {
            let mut marked = String::new();
            proof {
                reveal_strlit("-");
            }
            marked.append("-");
            marked.append(self.command.as_str());
            proof {
                assert(marked@ =~= disable_command_spec(self.command@));
            }
            KeyBinding {
                keys: self.keys.duplicate(),
                command: marked,
                when: duplicate_when(&self.when),
                args: duplicate_args(&self.args),
            }
        }
    }
}

} // verus!

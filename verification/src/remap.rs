//! The Control-to-Command remapper: a binding whose first chord includes
//! Control is expanded into a disabled copy of itself plus a copy whose
//! chords have Control swapped for Command; any other binding produces no
//! output.

use vstd::prelude::*;
use crate::binding::{disabled_spec, duplicate_when, BindingV, KeyBinding};
use crate::keys::{Key, KeyRule, KeyV, RuleV};
use crate::modifiers::{clear_flag, set_flag, MODIFIER_COMMAND, MODIFIER_CONTROL};

verus! {

/// The modifier-swap rule for one chord: if its modifiers include Control
/// and not Command, Control is removed and Command added; otherwise the
/// chord is unchanged.  The base key label is never touched.
pub open spec fn swap_key_spec(k: KeyV) -> KeyV {
    if k.modifiers.control && !k.modifiers.command {
        KeyV {
            modifiers: set_flag(clear_flag(k.modifiers, MODIFIER_CONTROL), MODIFIER_COMMAND),
            ..k
        }
    } else {
        k
    }
}

/// The swap rule applied to each chord of a sequence independently.
pub open spec fn swap_rule_spec(r: RuleV) -> RuleV {
    RuleV {
        first: swap_key_spec(r.first),
        second: match r.second {
            Some(k) => Some(swap_key_spec(k)),
            None => None,
        },
    }
}

/// The transformed copy of a binding: identical command, context and
/// arguments; every chord passed through the swap rule.
pub open spec fn swapped_spec(b: BindingV) -> BindingV {
    BindingV { keys: swap_rule_spec(b.keys), ..b }
}

/// The remapper's output for one binding: nothing when the first chord
/// lacks Control, else exactly the disabled copy followed by the
/// transformed copy.
pub open spec fn remap_spec(b: BindingV) -> Seq<BindingV> {
    if b.keys.first.modifiers.control {
        seq![disabled_spec(b), swapped_spec(b)]
    } else {
        seq![]
    }
}

/// The modifier-swap rule for one chord.  The result is always present;
/// the chord comes back unchanged when the rule does not apply.
pub fn map_ctrl_to_cmd(key: &Key) -> (r: Option<Key>)
    ensures
        r is Some,
        r->Some_0@ == swap_key_spec(key@),
        key.wf() ==> r->Some_0.wf(),
{
    if key.modifiers.contains(MODIFIER_CONTROL) && !key.modifiers.contains(MODIFIER_COMMAND) {
        let m = key.modifiers.remove(MODIFIER_CONTROL).insert(MODIFIER_COMMAND);
        Some(Key { modifiers: m, key: key.key.clone() })
    } else {
        Some(key.duplicate())
    }
}

/// Expand one binding: a binding whose first chord includes Control
/// yields its disabled copy and its Control-to-Command transformed copy,
/// in that order; any other binding yields nothing.
pub fn map_ctrl_binding(kb: &KeyBinding) -> (r: Vec<KeyBinding>)
    ensures
        r.deep_view() == remap_spec(kb.deep_view()),
        kb.wf() ==> forall|i: int| 0 <= i < r@.len() ==> (#[trigger] r@[i]).wf(),
{
    let mut r: Vec<KeyBinding> = Vec::new();
    if kb.has_control() {
        if let Some(k1) = map_ctrl_to_cmd(&kb.keys.first) {
            let k2 = match &kb.keys.second {
                Some(k) => map_ctrl_to_cmd(k),
                None => None,
            };
            r.push(kb.copy_disabled());
            r.push(
                KeyBinding {
                    keys: KeyRule { first: k1, second: k2 },
                    command: kb.command.clone(),
                    when: duplicate_when(&kb.when),
                    args: crate::args::duplicate_args(&kb.args),
                },
            );
        }
    }
    proof {
        assert(r.deep_view() =~= remap_spec(kb.deep_view()));
    }
    r
}

/// What becomes of a binding whose first chord lacks Control: dropped from
/// the output (the recorded behavior of the remapper), or passed through
/// unchanged.
#[derive(Clone, Copy, PartialEq, Eq, Structural, Debug)]
pub enum NonControlPolicy {
    Drop,
    Keep,
}

/// The remapper's output under an explicit policy for non-Control
/// bindings: a Control binding always becomes its disabled copy followed
/// by its transformed copy.
pub open spec fn remap_policy_spec(b: BindingV, policy: NonControlPolicy) -> Seq<BindingV> {
    if b.keys.first.modifiers.control {
        seq![disabled_spec(b), swapped_spec(b)]
    } else if policy is Keep {
        seq![b]
    } else {
        seq![]
    }
}

/// Expand one binding under the given policy for bindings whose first
/// chord lacks Control.  With `NonControlPolicy::Drop` this is exactly
/// `map_ctrl_binding`.
pub fn map_ctrl_binding_with(kb: &KeyBinding, policy: NonControlPolicy) -> (r: Vec<KeyBinding>)
    ensures
        r.deep_view() == remap_policy_spec(kb.deep_view(), policy),
        kb.wf() ==> forall|i: int| 0 <= i < r@.len() ==> (#[trigger] r@[i]).wf(),
{
    if kb.has_control() {
        let r = map_ctrl_binding(kb);
        proof {
            assert(r.deep_view() =~= remap_policy_spec(kb.deep_view(), policy));
        }
        r
    } else {
        let mut r: Vec<KeyBinding> = Vec::new();
        match policy {
            NonControlPolicy::Keep => {
                r.push(kb.duplicate());
            },
            NonControlPolicy::Drop => {},
        }
        proof {
            assert(r.deep_view() =~= remap_policy_spec(kb.deep_view(), policy));
        }
        r
    }
}

} // verus!

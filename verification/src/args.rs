//! The opaque structured argument payload of a binding: a generic
//! tagged-variant value (null / bool / number / string / array / mapping).
//! The library never inspects it; it is carried through unchanged.  A
//! number is carried as its literal text, so that any numeric value
//! round-trips losslessly.

use vstd::prelude::*;

verus! {

/// Mathematical value of a structured argument value.
pub ghost enum ArgV {
    Null,
    Bool(bool),
    Num(Seq<char>),
    Str(Seq<char>),
    Arr(Seq<ArgV>),
    Obj(Seq<ArgEntryV>),
}

/// Mathematical value of one key/value entry of a mapping.
pub ghost struct ArgEntryV {
    pub key: Seq<char>,
    pub value: ArgV,
}

/// A structured argument value, passed through the remapper unexamined.
#[derive(PartialEq, Eq, Debug)]
pub enum ArgValue {
    Null,
    Bool(bool),
    Num(String),
    Str(String),
    Arr(Vec<ArgValue>),
    Obj(Vec<ArgEntry>),
}

/// One key/value entry of a mapping argument value.  Entries keep the
/// order in which they were supplied.
#[derive(PartialEq, Eq, Debug)]
pub struct ArgEntry {
    pub key: String,
    pub value: ArgValue,
}

impl DeepView for ArgValue {
    type V = ArgV;

    open spec fn deep_view(&self) -> ArgV
        decreases self,
    {
        match self {
            ArgValue::Null => ArgV::Null,
            ArgValue::Bool(b) => ArgV::Bool(*b),
            ArgValue::Num(s) => ArgV::Num(s@),
            ArgValue::Str(s) => ArgV::Str(s@),
            ArgValue::Arr(v) => ArgV::Arr(arg_list_view(v@)),
            ArgValue::Obj(v) => ArgV::Obj(entry_list_view(v@)),
        }
    }
}

/// The mathematical values of a list of argument values, in order.
pub open spec fn arg_list_view(s: Seq<ArgValue>) -> Seq<ArgV>
    decreases s,
{
    if s.len() == 0 {
        Seq::<ArgV>::empty()
    } else {
        seq![s[0].deep_view()] + arg_list_view(s.drop_first())
    }
}

/// The mathematical values of a list of mapping entries, in order.
pub open spec fn entry_list_view(s: Seq<ArgEntry>) -> Seq<ArgEntryV>
    decreases s,
{
    if s.len() == 0 {
        Seq::<ArgEntryV>::empty()
    } else {
        seq![s[0].deep_view()] + entry_list_view(s.drop_first())
    }
}

impl DeepView for ArgEntry {
    type V = ArgEntryV;

    open spec fn deep_view(&self) -> ArgEntryV
        decreases self,
    {
        ArgEntryV { key: self.key@, value: self.value.deep_view() }
    }
}

/// `arg_list_view` maps the list elementwise.
pub proof fn lemma_arg_list_view(s: Seq<ArgValue>)
    ensures
        arg_list_view(s).len() == s.len(),
        forall|i: int| 0 <= i < s.len() ==> arg_list_view(s)[i] == (#[trigger] s[i]).deep_view(),
    decreases s.len(),
{
    if s.len() > 0 {
        lemma_arg_list_view(s.drop_first());
        assert forall|i: int| 0 <= i < s.len() implies arg_list_view(s)[i] == (#[trigger] s[i])
            .deep_view() by {
            let rest = arg_list_view(s.drop_first());
            assert(arg_list_view(s) == seq![s[0].deep_view()] + rest);
            if i > 0 {
                assert((seq![s[0].deep_view()] + rest)[i] == rest[i - 1]);
                assert(rest[i - 1] == s.drop_first()[i - 1].deep_view());
                assert(s.drop_first()[i - 1] == s[i]);
            } else {
                assert((seq![s[0].deep_view()] + rest)[0] == s[0].deep_view());
            }
        }
    }
}

/// `entry_list_view` maps the list elementwise.
pub proof fn lemma_entry_list_view(s: Seq<ArgEntry>)
    ensures
        entry_list_view(s).len() == s.len(),
        forall|i: int| 0 <= i < s.len() ==> entry_list_view(s)[i] == (#[trigger] s[i]).deep_view(),
    decreases s.len(),
{
    if s.len() > 0 {
        lemma_entry_list_view(s.drop_first());
        assert forall|i: int| 0 <= i < s.len() implies entry_list_view(s)[i] == (#[trigger] s[i])
            .deep_view() by {
            let rest = entry_list_view(s.drop_first());
            assert(entry_list_view(s) == seq![s[0].deep_view()] + rest);
            if i > 0 {
                assert((seq![s[0].deep_view()] + rest)[i] == rest[i - 1]);
                assert(rest[i - 1] == s.drop_first()[i - 1].deep_view());
                assert(s.drop_first()[i - 1] == s[i]);
            } else {
                assert((seq![s[0].deep_view()] + rest)[0] == s[0].deep_view());
            }
        }
    }
}

impl ArgValue {
    /// A copy of this value.
    #[verifier::loop_isolation(false)]
    pub fn duplicate(&self) -> (r: ArgValue)
        ensures
            r.deep_view() == self.deep_view(),
        decreases *self,
    {
        match self {
            ArgValue::Null => ArgValue::Null,
            ArgValue::Bool(b) => ArgValue::Bool(*b),
            ArgValue::Num(s) => ArgValue::Num(s.clone()),
            ArgValue::Str(s) => ArgValue::Str(s.clone()),
            ArgValue::Arr(v) => {
                let mut out: Vec<ArgValue> = Vec::new();
                let mut i: usize = 0;
                while i < v.len()
                    invariant
                        i <= v.len(),
                        out@.len() == i,
                        forall|k: int|
                            0 <= k < i ==> (#[trigger] out@[k].deep_view())
                                == v@[k].deep_view(),
                    decreases v.len() - i,
                {
                    proof {
                        assert(self->Arr_0 == *v);
                        assert(decreases_to!(*self => self->Arr_0));
                        assert(decreases_to!(*v => v@));
                        assert(decreases_to!(v@ => v@[i as int]));
                        assert(decreases_to!(*self => v@[i as int]));
                    }
                    let c = v[i].duplicate();
                    out.push(c);
                    i = i + 1;
                }
                proof {
                    lemma_arg_list_view(out@);
                    lemma_arg_list_view(v@);
                    assert forall|k: int| 0 <= k < out@.len() implies arg_list_view(out@)[k]
                        == arg_list_view(v@)[k] by {
                        assert(out@[k].deep_view() == v@[k].deep_view());
                    }
                    assert(arg_list_view(out@) =~= arg_list_view(v@));
                }
                ArgValue::Arr(out)
            },
            ArgValue::Obj(v) => {
                let mut out: Vec<ArgEntry> = Vec::new();
                let mut i: usize = 0;
                while i < v.len()
                    invariant
                        i <= v.len(),
                        out@.len() == i,
                        forall|k: int|
                            0 <= k < i ==> (#[trigger] out@[k].deep_view())
                                == v@[k].deep_view(),
                    decreases v.len() - i,
                {
                    proof {
                        assert(self->Obj_0 == *v);
                        assert(decreases_to!(*self => self->Obj_0));
                        assert(decreases_to!(*v => v@));
                        assert(decreases_to!(v@ => v@[i as int]));
                        assert(decreases_to!(*self => v@[i as int]));
                    }
                    let c = v[i].duplicate();
                    out.push(c);
                    i = i + 1;
                }
                proof {
                    lemma_entry_list_view(out@);
                    lemma_entry_list_view(v@);
                    assert forall|k: int| 0 <= k < out@.len() implies entry_list_view(out@)[k]
                        == entry_list_view(v@)[k] by {
                        assert(out@[k].deep_view() == v@[k].deep_view());
                    }
                    assert(entry_list_view(out@) =~= entry_list_view(v@));
                }
                ArgValue::Obj(out)
            },
        }
    }
}

impl ArgEntry {
    /// A copy of this entry.
    pub fn duplicate(&self) -> (r: ArgEntry)
        ensures
            r.deep_view() == self.deep_view(),
        decreases *self,
    {
        ArgEntry { key: self.key.clone(), value: self.value.duplicate() }
    }
}

/// A copy of an optional argument value.
pub fn duplicate_args(a: &Option<ArgValue>) -> (r: Option<ArgValue>)
    ensures
        r.deep_view() == a.deep_view(),
{
    match a {
        Some(v) => Some(v.duplicate()),
        None => None,
    }
}

} // verus!

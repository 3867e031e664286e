//! The type-erased, self-describing form of an effect's result.
//!
//! Every value an effect returns is converted to a [`WireValue`], a closed
//! self-describing document: the variant tag is the description.  Decoding
//! asks for a [`Shape`] and fails when the stored document does not carry it,
//! which is how a replayed call tree that no longer lines up with the code
//! driving it is detected.

use vstd::prelude::*;

verus! {

/// A self-describing serialized value.  The effect bodies of this crate
/// return text, lists of text, success-or-failure outcomes and optional
/// numbers, and each of those is captured by exactly one constructor.
#[derive(Debug, PartialEq, Eq)]
pub enum WireValue {
    /// The unit value, and the absent case of an optional number.
    Null,
    /// An unsigned number.
    Num(u64),
    /// A piece of text.
    Text(String),
    /// A list of pieces of text.
    TextList(Vec<String>),
    /// A success outcome carrying another value.
    Okay(Box<WireValue>),
    /// A failure outcome carrying another value.
    Fail(Box<WireValue>),
}

/// The mathematical model of a [`WireValue`]: text becomes a sequence of
/// characters.
pub enum WireV {
    Null,
    Num(u64),
    Text(Seq<char>),
    TextList(Seq<Seq<char>>),
    Okay(Box<WireV>),
    Fail(Box<WireV>),
}

impl View for WireValue {
    type V = WireV;

    open spec fn view(&self) -> WireV
        decreases self,
    {
        match self {
            WireValue::Null => WireV::Null,
            WireValue::Num(n) => WireV::Num(*n),
            WireValue::Text(s) => WireV::Text(s@),
            WireValue::TextList(l) => WireV::TextList(l.deep_view()),
            WireValue::Okay(b) => WireV::Okay(Box::new((**b)@)),
            WireValue::Fail(b) => WireV::Fail(Box::new((**b)@)),
        }
    }
}

impl WireValue {
    /// A deep copy with the same model as the value copied.
    pub fn duplicate(&self) -> (r: WireValue)
        ensures
            r@ == self@,
        decreases self,
    {
        match self {
            WireValue::Null => WireValue::Null,
            WireValue::Num(n) => WireValue::Num(*n),
            WireValue::Text(s) => WireValue::Text(s.clone()),
            WireValue::TextList(l) => {
                let mut copy: Vec<String> = Vec::new();
                let mut i: usize = 0;
                while i < l.len()
                    invariant
                        i <= l.len(),
                        copy@.len() == i,
                        forall|j: int| 0 <= j < i ==> copy@[j]@ == l@[j]@,
                    decreases l.len() - i,
                {
                    copy.push(l[i].clone());
                    i = i + 1;
                }
                proof {
                    assert(copy.deep_view() =~= l.deep_view());
                }
                WireValue::TextList(copy)
            },
            WireValue::Okay(b) => WireValue::Okay(Box::new(b.duplicate())),
            WireValue::Fail(b) => WireValue::Fail(Box::new(b.duplicate())),
        }
    }
}

/// The shape a decoder may request of a stored value: one for each result
/// type the effect bodies produce.
#[derive(Clone, Copy, Debug, PartialEq, Eq)]
pub enum Shape {
    /// A plain message.
    Text,
    /// A draw outcome: success with a message, or failure with a message.
    DrawResult,
    /// A multi-draw outcome: success with the list of messages, or failure
    /// with a message.
    DrawsResult,
    /// The unit value.
    Unit,
    /// An optional number.
    OptNum,
}

/// Whether a stored value carries the requested shape.
pub open spec fn wire_has_shape(v: WireV, s: Shape) -> bool {
    match s {
        Shape::Text => v is Text,
        Shape::DrawResult => match v {
            WireV::Okay(b) => *b is Text,
            WireV::Fail(b) => *b is Text,
            _ => false,
        },
        Shape::DrawsResult => match v {
            WireV::Okay(b) => *b is TextList,
            WireV::Fail(b) => *b is Text,
            _ => false,
        },
        Shape::Unit => v is Null,
        Shape::OptNum => v is Null || v is Num,
    }
}

/// Decides [`wire_has_shape`] on the executable form.
pub fn has_shape(v: &WireValue, s: Shape) -> (res: bool)
    ensures
        res == wire_has_shape(v@, s),
{
    match s {
        Shape::Text => match v {
            WireValue::Text(_) => true,
            _ => false,
        },
        Shape::DrawResult => match v {
            WireValue::Okay(inner) => {
                proof {
                    assert(v@ == WireV::Okay(Box::new((**inner)@)));
                }
                match &**inner {
                    WireValue::Text(_) => true,
                    _ => false,
                }
            },
            WireValue::Fail(inner) => {
                proof {
                    assert(v@ == WireV::Fail(Box::new((**inner)@)));
                }
                match &**inner {
                    WireValue::Text(_) => true,
                    _ => false,
                }
            },
            _ => false,
        },
        Shape::DrawsResult => match v {
            WireValue::Okay(inner) => {
                proof {
                    assert(v@ == WireV::Okay(Box::new((**inner)@)));
                }
                match &**inner {
                    WireValue::TextList(_) => true,
                    _ => false,
                }
            },
            WireValue::Fail(inner) => {
                proof {
                    assert(v@ == WireV::Fail(Box::new((**inner)@)));
                }
                match &**inner {
                    WireValue::Text(_) => true,
                    _ => false,
                }
            },
            _ => false,
        },
        Shape::Unit => match v {
            WireValue::Null => true,
            _ => false,
        },
        Shape::OptNum => match v {
            WireValue::Null => true,
            WireValue::Num(_) => true,
            _ => false,
        },
    }
}

/// The two failures the interpreter itself can report.  Domain-level
/// failures (an empty library, say) are ordinary outcomes, not these.
#[derive(Clone, Copy, Debug, PartialEq, Eq)]
pub enum InterpError {
    /// A recorded result does not carry the shape the replaying code asked
    /// for: the call tree has diverged from the code driving it.
    DecodeMismatch,
    /// More than one replacement candidate applies and no choice-resolution
    /// hook exists to pick one.
    UnresolvedChoice,
}

/// Wrapper for one serialized effect result, owned by its tree node and
/// never changed after the call that produced it completes.
#[derive(Debug, PartialEq, Eq)]
pub struct EffectValue {
    pub serialized: WireValue,
}

impl View for EffectValue {
    type V = WireV;

    open spec fn view(&self) -> WireV {
        self.serialized@
    }
}

impl EffectValue {
    /// Wraps a value.  Every value the effect bodies produce is
    /// representable, so wrapping cannot fail.
    pub fn new(value: WireValue) -> (r: EffectValue)
        ensures
            r@ == value@,
    {
        EffectValue { serialized: value }
    }

    /// Decodes the stored value at the requested shape.  This is the sole
    /// type-safety checkpoint of replay: a request for a shape the value
    /// does not carry fails.
    pub fn get(&self, s: Shape) -> (r: Result<WireValue, InterpError>)
        ensures
            wire_has_shape(self@, s) ==> (r matches Ok(w) && w@ == self@),
            !wire_has_shape(self@, s) ==> r == Err::<WireValue, InterpError>(InterpError::DecodeMismatch),
    {
        if has_shape(&self.serialized, s) {
            Ok(self.serialized.duplicate())
        } else {
            Err(InterpError::DecodeMismatch)
        }
    }
}

/// One completed call: its serialized result and, in call order, the records
/// of the nested calls it made.  Position in `children` is the identity of a
/// nested call; there is no separate key.
#[derive(Debug, PartialEq, Eq)]
pub struct EffectTree {
    pub result: EffectValue,
    pub children: Vec<EffectTree>,
}

/// The mathematical model of an [`EffectTree`].
pub struct NodeV {
    pub result: WireV,
    pub children: Seq<NodeV>,
}

/// The model of a recorded subtree, in call order.
pub open spec fn trees_view(ts: Seq<EffectTree>) -> Seq<NodeV>
    decreases ts,
{
    if ts.len() == 0 {
        Seq::empty()
    } else {
        trees_view(ts.drop_last()).push(tree_view(ts.last()))
    }
}

/// The model of one recorded node.
pub open spec fn tree_view(t: EffectTree) -> NodeV
    decreases t,
{
    NodeV { result: t.result@, children: trees_view(t.children@) }
}

impl View for EffectTree {
    type V = NodeV;

    open spec fn view(&self) -> NodeV {
        tree_view(*self)
    }
}

/// `trees_view` is pointwise `tree_view`.
pub proof fn lemma_trees_view_index(ts: Seq<EffectTree>)
    ensures
        trees_view(ts).len() == ts.len(),
        forall|i: int| 0 <= i < ts.len() ==> trees_view(ts)[i] == tree_view(ts[i]),
    decreases ts,
{
    if ts.len() > 0 {
        lemma_trees_view_index(ts.drop_last());
    }
}

/// Appending a record appends its model.
pub proof fn lemma_trees_view_push(ts: Seq<EffectTree>, t: EffectTree)
    ensures
        trees_view(ts.push(t)) == trees_view(ts).push(tree_view(t)),
{
    assert(ts.push(t).drop_last() =~= ts);
    assert(ts.push(t).last() == t);
}

/// Two or more shapes can claim the same stored value only at a failure
/// outcome or at the null document; everywhere else a value decodes at
/// exactly the shape it was encoded with.
pub open spec fn wire_ambiguous(v: WireV) -> bool {
    ||| v is Null
    ||| match v {
        WireV::Fail(b) => *b is Text,
        _ => false,
    }
}

/// Positional type-stability: an unambiguous stored value refuses every
/// shape other than its own, so decoding a recorded result as a type
/// different from the recorded one fails.
pub proof fn lemma_positional_type_stability(v: WireV, s1: Shape, s2: Shape)
    requires
        wire_has_shape(v, s1),
        s1 != s2,
        !wire_ambiguous(v),
    ensures
        !wire_has_shape(v, s2),
{
}

} // verus!

//! The memoizing effect-tree interpreter.
//!
//! Every nested call goes through `apply`.  At a position where a node was
//! recorded by an earlier run the interpreter replays: it decodes the stored
//! result, touches neither the shared state nor the counters, and skips the
//! effect body.  Past the record it executes the body freshly against a
//! private child frame and appends one node holding the encoded outcome and
//! the child's records.  Position in the frame is the identity of a call, so
//! the sequence of calls a piece of logic makes must be the same across runs
//! over the same state: positional determinism.

use vstd::prelude::*;

use crate::effect_value::{
    trees_view, tree_view, lemma_trees_view_push, wire_has_shape, EffectTree, EffectValue,
    InterpError, NodeV, Shape, WireV, WireValue,
};
use crate::{
    added_message, added_msg, candidate_effect, dispatch_of, drew_message, drew_msg,
    empty_library_msg, find_bucket, handle_replacement, sat_add, sat_inc, GameV, Game, RegBucket,
    RegEntry, Tally, BucketV, bucket_index, lemma_bucket_index_range,
};

verus! {

/// One effect call, deeply embedded: the call tree a caller drives the
/// interpreter with is a value of this type.  A `Turn` bundles sub-calls
/// that run as siblings in its own child frame and yields an optional
/// number of its own.
#[derive(Debug, PartialEq, Eq)]
pub enum Call {
    /// Add to the life total (saturating), yielding a message.
    GainLife(usize),
    /// Draw one card, subject to replacement dispatch.
    DrawCard,
    /// Draw several cards, one nested draw call each.
    DrawCards(usize),
    /// Register the discard replacement for the draw event.
    ReplaceDrawWithDiscard,
    /// Run the sub-calls in order, then yield the given number.
    Turn(Vec<Call>, Option<u64>),
}

/// The result shape each call encodes at its recorded position.
pub open spec fn shape_of(c: Call) -> Shape {
    match c {
        Call::GainLife(_) => Shape::Text,
        Call::DrawCard => Shape::DrawResult,
        Call::DrawCards(_) => Shape::DrawsResult,
        Call::ReplaceDrawWithDiscard => Shape::Unit,
        Call::Turn(_, _) => Shape::OptNum,
    }
}

/// Decides [`shape_of`] on the executable form.
pub fn call_shape(c: &Call) -> (s: Shape)
    ensures
        s == shape_of(*c),
{
    match c {
        Call::GainLife(_) => Shape::Text,
        Call::DrawCard => Shape::DrawResult,
        Call::DrawCards(_) => Shape::DrawsResult,
        Call::ReplaceDrawWithDiscard => Shape::Unit,
        Call::Turn(_, _) => Shape::OptNum,
    }
}

/// A termination measure for the interpreter: how much work one call can
/// spawn.
pub open spec fn call_size(c: Call) -> nat
    decreases c, 0int,
{
    match c {
        Call::GainLife(_) => 1,
        Call::DrawCard => 1,
        Call::DrawCards(n) => (n + 3) as nat,
        Call::ReplaceDrawWithDiscard => 1,
        Call::Turn(cs, _) => 1 + calls_size(cs@, 0),
    }
}

/// The summed measure of the calls of `cs` from index `i` on.
pub open spec fn calls_size(cs: Seq<Call>, i: int) -> nat
    decreases cs, cs.len() - i,
{
    if i < 0 || i >= cs.len() {
        0
    } else {
        call_size(cs[i]) + calls_size(cs, i + 1)
    }
}

/// One interpreter frame: the recorded nodes of a prior run at this level
/// and the cursor into them.  The cursor only ever advances.
#[derive(Debug, PartialEq, Eq)]
pub struct Frame {
    pub effects: Vec<EffectTree>,
    pub position: usize,
}

/// The mathematical model of a [`Frame`].
pub struct FrameV {
    pub effects: Seq<NodeV>,
    pub position: int,
}

impl View for Frame {
    type V = FrameV;

    open spec fn view(&self) -> FrameV {
        FrameV { effects: trees_view(self.effects@), position: self.position as int }
    }
}

/// An empty frame: nothing recorded, cursor at the start.
pub open spec fn empty_frame() -> FrameV {
    FrameV { effects: Seq::empty(), position: 0 }
}

/// What one `apply` step leaves behind.
pub struct StepV {
    pub game: GameV,
    pub tally: Tally,
    pub frame: FrameV,
    pub outcome: Result<WireV, InterpError>,
}

/// What one fresh execution of a call body leaves behind.
pub struct FreshV {
    pub game: GameV,
    pub tally: Tally,
    pub children: Seq<NodeV>,
    pub outcome: Result<WireV, InterpError>,
}

/// What a multi-draw loop leaves behind.
pub struct DrawsV {
    pub game: GameV,
    pub tally: Tally,
    pub frame: FrameV,
    pub outcome: Result<Result<Seq<Seq<char>>, Seq<char>>, InterpError>,
}

/// What running a sequence of sibling calls leaves behind.
pub struct RunV {
    pub game: GameV,
    pub tally: Tally,
    pub frame: FrameV,
    pub err: Option<InterpError>,
}

/// The wire form of a draw outcome.
pub open spec fn draw_wire(r: Result<Seq<char>, Seq<char>>) -> WireV {
    match r {
        Ok(m) => WireV::Okay(Box::new(WireV::Text(m))),
        Err(m) => WireV::Fail(Box::new(WireV::Text(m))),
    }
}

/// The wire form of a multi-draw outcome.
pub open spec fn draws_wire(r: Result<Seq<Seq<char>>, Seq<char>>) -> WireV {
    match r {
        Ok(ms) => WireV::Okay(Box::new(WireV::TextList(ms))),
        Err(m) => WireV::Fail(Box::new(WireV::Text(m))),
    }
}

/// The wire form of an optional number.
pub open spec fn opt_num_wire(r: Option<u64>) -> WireV {
    match r {
        Some(n) => WireV::Num(n),
        None => WireV::Null,
    }
}

/// The model of one `apply` step: replay the recorded node at the cursor,
/// or reserve the slot, run the body freshly, and append its record.
pub open spec fn s_apply(g: GameV, t: Tally, fr: FrameV, c: Call) -> StepV
    decreases call_size(c), 0nat, 1int,
{
    if 0 <= fr.position < fr.effects.len() {
        let node = fr.effects[fr.position];
        let fr2 = FrameV { effects: fr.effects, position: fr.position + 1 };
        if wire_has_shape(node.result, shape_of(c)) {
            StepV { game: g, tally: t, frame: fr2, outcome: Ok(node.result) }
        } else {
            StepV { game: g, tally: t, frame: fr2, outcome: Err(InterpError::DecodeMismatch) }
        }
    } else {
        let fresh = s_fresh(g, t, c);
        match fresh.outcome {
            Ok(w) => StepV {
                game: fresh.game,
                tally: fresh.tally,
                frame: FrameV {
                    effects: fr.effects.push(NodeV { result: w, children: fresh.children }),
                    position: fr.position + 1,
                },
                outcome: Ok(w),
            },
            Err(e) => StepV {
                game: fresh.game,
                tally: fresh.tally,
                frame: FrameV { effects: fr.effects, position: fr.position + 1 },
                outcome: Err(e),
            },
        }
    }
}

/// The model of the default draw: take the top of the library into the
/// hand, or fail on an empty library.
pub open spec fn s_default_draw(g: GameV) -> (GameV, Result<Seq<char>, Seq<char>>) {
    if g.library.len() > 0 {
        let card = g.library.last();
        (
            GameV { library: g.library.drop_last(), hand: g.hand.push(card), ..g },
            Ok(drew_msg(card)),
        )
    } else {
        (g, Err(empty_library_msg()))
    }
}

/// The model of one fresh draw-card body: count the call, consult the
/// replacement dispatch, and fall back to the default draw.
pub open spec fn s_draw_card(g: GameV, t: Tally) -> (GameV, Tally, Result<WireV, InterpError>) {
    let t2 = Tally { draw_card_calls: sat_inc(t.draw_card_calls), ..t };
    match dispatch_of(g, "DRAW"@) {
        Ok(None) => {
            let (g2, res) = s_default_draw(g);
            (g2, t2, Ok(draw_wire(res)))
        },
        Ok(Some((g2, res))) => (g2, t2, Ok(draw_wire(res))),
        Err(e) => (g, t2, Err(e)),
    }
}

/// The model of registering the discard replacement under the draw key:
/// append to the key's bucket, creating it at the back if absent.
pub open spec fn s_register(g: GameV) -> GameV {
    let i = bucket_index(g.replacement_effects, "DRAW"@);
    if i == -1 {
        GameV {
            replacement_effects: g.replacement_effects.push(
                BucketV { key: "DRAW"@, entries: seq![crate::random_discard_tag()] },
            ),
            ..g
        }
    } else {
        let b = g.replacement_effects[i];
        GameV {
            replacement_effects: g.replacement_effects.update(
                i,
                BucketV { key: b.key, entries: b.entries.push(crate::random_discard_tag()) },
            ),
            ..g
        }
    }
}

/// The model of one fresh execution of a call body against an empty child
/// frame.
pub open spec fn s_fresh(g: GameV, t: Tally, c: Call) -> FreshV
    decreases call_size(c), 0nat, 0int,
{
    match c {
        Call::GainLife(amount) => FreshV {
            game: GameV { life: sat_add(g.life, amount), ..g },
            tally: Tally { gain_life_calls: sat_inc(t.gain_life_calls), ..t },
            children: Seq::empty(),
            outcome: Ok(WireV::Text(added_msg(amount))),
        },
        Call::DrawCard => {
            let (g2, t2, out) = s_draw_card(g, t);
            FreshV { game: g2, tally: t2, children: Seq::empty(), outcome: out }
        },
        Call::DrawCards(n) => {
            let d = s_draws(g, t, empty_frame(), n as nat);
            FreshV {
                game: d.game,
                tally: d.tally,
                children: d.frame.effects,
                outcome: match d.outcome {
                    Ok(res) => Ok(draws_wire(res)),
                    Err(e) => Err(e),
                },
            }
        },
        Call::ReplaceDrawWithDiscard => FreshV {
            game: s_register(g),
            tally: t,
            children: Seq::empty(),
            outcome: Ok(WireV::Null),
        },
        Call::Turn(cs, ret) => {
            let r = s_run(g, t, empty_frame(), cs@, 0);
            FreshV {
                game: r.game,
                tally: r.tally,
                children: r.frame.effects,
                outcome: match r.err {
                    Some(e) => Err(e),
                    None => Ok(opt_num_wire(ret)),
                },
            }
        },
    }
}

/// The model of the multi-draw loop: `k` nested draw calls against the
/// multi-draw's child frame, stopping at the first failed draw, whose
/// message becomes the whole outcome.
pub open spec fn s_draws(g: GameV, t: Tally, fr: FrameV, k: nat) -> DrawsV
    decreases 2nat, k, 0int,
{
    if k == 0 {
        DrawsV { game: g, tally: t, frame: fr, outcome: Ok(Ok(Seq::empty())) }
    } else {
        let a = s_apply(g, t, fr, Call::DrawCard);
        match a.outcome {
            Err(e) => DrawsV { game: a.game, tally: a.tally, frame: a.frame, outcome: Err(e) },
            Ok(w) => match w {
                WireV::Okay(m) => {
                    let msg = *m;
                    if msg is Text {
                        let rest = s_draws(a.game, a.tally, a.frame, (k - 1) as nat);
                        DrawsV {
                            game: rest.game,
                            tally: rest.tally,
                            frame: rest.frame,
                            outcome: match rest.outcome {
                                Ok(Ok(ms)) => Ok(Ok(seq![msg->Text_0].add(ms))),
                                other => other,
                            },
                        }
                    } else {
                        DrawsV {
                            game: a.game,
                            tally: a.tally,
                            frame: a.frame,
                            outcome: Err(InterpError::DecodeMismatch),
                        }
                    }
                },
                WireV::Fail(m) => {
                    let msg = *m;
                    if msg is Text {
                        DrawsV {
                            game: a.game,
                            tally: a.tally,
                            frame: a.frame,
                            outcome: Ok(Err(msg->Text_0)),
                        }
                    } else {
                        DrawsV {
                            game: a.game,
                            tally: a.tally,
                            frame: a.frame,
                            outcome: Err(InterpError::DecodeMismatch),
                        }
                    }
                },
                _ => DrawsV {
                    game: a.game,
                    tally: a.tally,
                    frame: a.frame,
                    outcome: Err(InterpError::DecodeMismatch),
                },
            },
        }
    }
}

/// The model of running sibling calls in order from index `i`, stopping at
/// the first interpreter error.  Their own outcomes are not kept here: only
/// their recorded nodes in the frame.
pub open spec fn s_run(g: GameV, t: Tally, fr: FrameV, cs: Seq<Call>, i: int) -> RunV
    decreases calls_size(cs, i), cs.len() - i, 2int,
{
    if i < 0 || i >= cs.len() {
        RunV { game: g, tally: t, frame: fr, err: None }
    } else {
        let a = s_apply(g, t, fr, cs[i]);
        match a.outcome {
            Err(e) => RunV { game: a.game, tally: a.tally, frame: a.frame, err: Some(e) },
            Ok(_) => s_run(a.game, a.tally, a.frame, cs, i + 1),
        }
    }
}

} // verus!

verus! {

/// The model of an executable interpreter outcome.
pub open spec fn outcome_view(r: Result<WireValue, InterpError>) -> Result<WireV, InterpError> {
    match r {
        Ok(w) => Ok(w@),
        Err(e) => Err(e),
    }
}

/// The model of a draw outcome held in executable form.
pub open spec fn msg_res_view(r: Result<String, String>) -> Result<Seq<char>, Seq<char>> {
    match r {
        Ok(m) => Ok(m@),
        Err(m) => Err(m@),
    }
}

/// The model of a multi-draw outcome held in executable form.
pub open spec fn msgs_res_view(r: Result<Vec<String>, String>) -> Result<
    Seq<Seq<char>>,
    Seq<char>,
> {
    match r {
        Ok(v) => Ok(v.deep_view()),
        Err(m) => Err(m@),
    }
}

/// Saturating increment on a counter.
fn counter_inc(n: usize) -> (r: usize)
    ensures
        r == sat_inc(n),
{
    if n == usize::MAX {
        n
    } else {
        n + 1
    }
}

/// Encodes a draw outcome.
fn encode_draw(r: Result<String, String>) -> (w: WireValue)
    ensures
        w@ == draw_wire(msg_res_view(r)),
{
    match r {
        Ok(m) => {
            let ghost mv = m@;
            let inner = WireValue::Text(m);
            proof {
                assert(inner@ == WireV::Text(mv));
            }
            WireValue::Okay(Box::new(inner))
        },
        Err(m) => {
            let ghost mv = m@;
            let inner = WireValue::Text(m);
            proof {
                assert(inner@ == WireV::Text(mv));
            }
            WireValue::Fail(Box::new(inner))
        },
    }
}

/// Encodes a multi-draw outcome.
fn encode_draws(r: Result<Vec<String>, String>) -> (w: WireValue)
    ensures
        w@ == draws_wire(msgs_res_view(r)),
{
    match r {
        Ok(v) => {
            let ghost vv = v.deep_view();
            let inner = WireValue::TextList(v);
            proof {
                assert(inner@ == WireV::TextList(vv));
            }
            WireValue::Okay(Box::new(inner))
        },
        Err(m) => {
            let ghost mv = m@;
            let inner = WireValue::Text(m);
            proof {
                assert(inner@ == WireV::Text(mv));
            }
            WireValue::Fail(Box::new(inner))
        },
    }
}

/// Encodes an optional number.
fn encode_opt_num(r: &Option<u64>) -> (w: WireValue)
    ensures
        w@ == opt_num_wire(*r),
{
    match r {
        Some(n) => WireValue::Num(*n),
        None => WireValue::Null,
    }
}

/// The default draw body.
fn default_draw(game: &mut Game) -> (r: Result<String, String>)
    ensures
        final(game)@ == s_default_draw(old(game)@).0,
        msg_res_view(r) == s_default_draw(old(game)@).1,
{
    if let Some(card) = game.library.pop() {
        let message = drew_message(&card);
        game.hand.push(card);
        proof {
            assert(game@.library =~= old(game)@.library.drop_last());
            assert(game@.hand =~= old(game)@.hand.push(old(game)@.library.last()));
        }
        Ok(message)
    } else {
        proof {
            assert(game@.library =~= old(game)@.library);
        }
        Err(String::from_str("Drew from empty library! 💀"))
    }
}

/// One fresh draw-card body: count the call, consult the replacement
/// dispatch, and fall back to the default draw.
fn draw_card_run(game: &mut Game, tally: &mut Tally) -> (r: Result<WireValue, InterpError>)
    ensures
        final(game)@ == s_draw_card(old(game)@, *old(tally)).0,
        *final(tally) == s_draw_card(old(game)@, *old(tally)).1,
        outcome_view(r) == s_draw_card(old(game)@, *old(tally)).2,
{
    tally.draw_card_calls = counter_inc(tally.draw_card_calls);
    match handle_replacement(game, "DRAW") {
        Err(e) => Err(e),
        Ok(Some(outcome)) => Ok(encode_draw(outcome)),
        Ok(None) => Ok(encode_draw(default_draw(game))),
    }
}

/// One fresh gain-life body: count the call and add to the life total,
/// saturating rather than overflowing.
fn gain_life_run(game: &mut Game, tally: &mut Tally, amount: usize) -> (r: WireValue)
    ensures
        final(game)@ == (GameV { life: sat_add(old(game)@.life, amount), ..old(game)@ }),
        *final(tally) == (Tally {
            gain_life_calls: sat_inc(old(tally).gain_life_calls),
            ..*old(tally)
        }),
        r@ == WireV::Text(added_msg(amount)),
{
    tally.gain_life_calls = counter_inc(tally.gain_life_calls);
    if amount > usize::MAX - game.life {
        game.life = usize::MAX;
    } else {
        game.life = game.life + amount;
    }
    WireValue::Text(added_message(amount))
}

/// Registers the discard replacement under the draw key, appending to the
/// key's bucket or creating it.
fn register_run(game: &mut Game) -> (r: WireValue)
    ensures
        final(game)@ == s_register(old(game)@),
        r@ == WireV::Null,
{
    let key = String::from_str("DRAW");
    let entry = RegEntry { tag: String::from_str("RandomDiscardReplacement") };
    match find_bucket(&game.replacement_effects, &key) {
        None => {
            let mut entries: Vec<RegEntry> = Vec::new();
            entries.push(entry);
            let bucket = RegBucket { key, entries };
            proof {
                assert(bucket@.entries =~= seq![crate::random_discard_tag()]);
            }
            game.replacement_effects.push(bucket);
            proof {
                assert(game@.replacement_effects =~= s_register(old(game)@).replacement_effects);
            }
        },
        Some(i) => {
            let mut bucket = game.replacement_effects.remove(i);
            bucket.entries.push(entry);
            proof {
                lemma_bucket_index_range(old(game)@.replacement_effects, "DRAW"@);
                let old_b = old(game)@.replacement_effects[i as int];
                assert(bucket@.entries =~= old_b.entries.push(crate::random_discard_tag()));
            }
            game.replacement_effects.insert(i, bucket);
            proof {
                assert(game@.replacement_effects =~= s_register(old(game)@).replacement_effects);
            }
        },
    }
    WireValue::Null
}

} // verus!

verus! {

/// One `apply` step against an explicit frame: replay the node recorded at
/// the cursor, or reserve the slot, execute the call freshly against a new
/// child frame, and append the node made of its encoded outcome and the
/// child's records.  On an interpreter error no node is recorded.
pub(crate) fn apply_frame(
    game: &mut Game,
    tally: &mut Tally,
    frame: &mut Frame,
    call: &Call,
) -> (r: Result<WireValue, InterpError>)
    requires
        old(frame).position <= old(frame).effects@.len(),
        old(frame).position < usize::MAX,
    ensures
        ({
            let st = s_apply(old(game)@, *old(tally), old(frame)@, *call);
            &&& final(game)@ == st.game
            &&& *final(tally) == st.tally
            &&& final(frame)@ == st.frame
            &&& outcome_view(r) == st.outcome
        }),
        final(frame).position == old(frame).position + 1,
        (r is Ok && old(frame).position == old(frame).effects@.len()) ==> final(frame).effects@.len()
            == old(frame).effects@.len() + 1,
        r is Ok && old(frame).position < old(frame).effects@.len() ==> final(frame).effects@
            == old(frame).effects@,
        r is Err ==> final(frame).effects@ == old(frame).effects@,
    decreases call_size(*call), 0nat, 1int,
{
    proof {
        crate::effect_value::lemma_trees_view_index(frame.effects@);
    }
    if frame.position < frame.effects.len() {
        let shape = call_shape(call);
        let decoded = frame.effects[frame.position].result.get(shape);
        frame.position = frame.position + 1;
        proof {
            assert(old(frame)@.effects[old(frame)@.position] == tree_view(
                old(frame).effects@[old(frame).position as int],
            ));
        }
        decoded
    } else {
        frame.position = frame.position + 1;
        let out = run_fresh(game, tally, call);
        let (children, outcome) = out;
        match outcome {
            Ok(w) => {
                let ghost wv = w@;
                let ghost cv = trees_view(children@);
                let node = EffectTree {
                    result: EffectValue { serialized: w.duplicate() },
                    children,
                };
                proof {
                    assert(tree_view(node) == NodeV { result: wv, children: cv });
                }
                frame.effects.push(node);
                proof {
                    lemma_trees_view_push(old(frame).effects@, node);
                    crate::effect_value::lemma_trees_view_index(frame.effects@);
                }
                Ok(w)
            },
            Err(e) => Err(e),
        }
    }
}

/// One fresh execution of a call body: runs it against a new child frame
/// and hands back the child's records beside the outcome.
fn run_fresh(game: &mut Game, tally: &mut Tally, call: &Call) -> (r: (
    Vec<EffectTree>,
    Result<WireValue, InterpError>,
))
    ensures
        ({
            let f = s_fresh(old(game)@, *old(tally), *call);
            &&& final(game)@ == f.game
            &&& *final(tally) == f.tally
            &&& trees_view(r.0@) == f.children
            &&& outcome_view(r.1) == f.outcome
        }),
    decreases call_size(*call), 0nat, 0int,
{
    match call {
        Call::GainLife(amount) => {
            let w = gain_life_run(game, tally, *amount);
            (Vec::new(), Ok(w))
        },
        Call::DrawCard => {
            let out = draw_card_run(game, tally);
            (Vec::new(), out)
        },
        Call::DrawCards(n) => {
            let mut child = Frame { effects: Vec::new(), position: 0 };
            proof {
                assert(child@.effects =~= empty_frame().effects);
            }
            let res = draw_n(game, tally, &mut child, *n);
            let out = match res {
                Ok(dom) => Ok(encode_draws(dom)),
                Err(e) => Err(e),
            };
            (child.effects, out)
        },
        Call::ReplaceDrawWithDiscard => {
            let w = register_run(game);
            (Vec::new(), Ok(w))
        },
        Call::Turn(calls, ret) => {
            let mut child = Frame { effects: Vec::new(), position: 0 };
            proof {
                assert(child@.effects =~= empty_frame().effects);
            }
            let n = calls.len();
            proof {
                assert(calls@.len() == n);
            }
            let res = run_seq(game, tally, &mut child, calls, 0);
            let out = match res {
                Ok(_) => Ok(encode_opt_num(ret)),
                Err(e) => Err(e),
            };
            (child.effects, out)
        },
    }
}

/// The multi-draw loop: `k` nested draw calls through `apply`, stopping at
/// the first failed draw.
fn draw_n(game: &mut Game, tally: &mut Tally, frame: &mut Frame, k: usize) -> (r: Result<
    Result<Vec<String>, String>,
    InterpError,
>)
    requires
        old(frame).position == old(frame).effects@.len(),
        old(frame).effects@.len() + k <= usize::MAX,
    ensures
        ({
            let d = s_draws(old(game)@, *old(tally), old(frame)@, k as nat);
            &&& final(game)@ == d.game
            &&& *final(tally) == d.tally
            &&& final(frame)@ == d.frame
            &&& (match (r, d.outcome) {
                (Ok(dom), Ok(domv)) => msgs_res_view(dom) == domv,
                (Err(e1), Err(e2)) => e1 == e2,
                _ => false,
            })
        }),
        r is Ok ==> final(frame).position == final(frame).effects@.len(),
    decreases 2nat, k as nat, 0int,
{
    if k == 0 {
        let none: Vec<String> = Vec::new();
        proof {
            assert(none.deep_view() =~= Seq::<Seq<char>>::empty());
        }
        Ok(Ok(none))
    } else {
        let w = match apply_frame(game, tally, frame, &Call::DrawCard) {
            Ok(w) => w,
            Err(e) => {
                return Err(e);
            },
        };
        match &w {
            WireValue::Okay(b) => match &**b {
                WireValue::Text(m) => {
                    let msg = m.clone();
                    proof {
                        assert((**b)@ == WireV::Text(msg@));
                        assert(w@ == WireV::Okay(Box::new((**b)@)));
                    }
                    let rest = draw_n(game, tally, frame, k - 1);
                    match rest {
                        Ok(Ok(mut v)) => {
                            let ghost tailv = v.deep_view();
                            v.insert(0, msg);
                            proof {
                                assert(v.deep_view() =~= seq![w@->Okay_0->Text_0].add(tailv));
                            }
                            Ok(Ok(v))
                        },
                        other => other,
                    }
                },
                _ => {
                    proof {
                        assert(w@ == WireV::Okay(Box::new((**b)@)));
                    }
                    Err(InterpError::DecodeMismatch)
                },
            },
            WireValue::Fail(b) => match &**b {
                WireValue::Text(m) => {
                    let msg = m.clone();
                    proof {
                        assert((**b)@ == WireV::Text(msg@));
                        assert(w@ == WireV::Fail(Box::new((**b)@)));
                    }
                    Ok(Err(msg))
                },
                _ => {
                    proof {
                        assert(w@ == WireV::Fail(Box::new((**b)@)));
                    }
                    Err(InterpError::DecodeMismatch)
                },
            },
            _ => Err(InterpError::DecodeMismatch),
        }
    }
}

/// Runs the sibling calls of a turn in order from index `i`, stopping at
/// the first interpreter error.
fn run_seq(game: &mut Game, tally: &mut Tally, frame: &mut Frame, calls: &Vec<Call>, i: usize) -> (r:
    Result<(), InterpError>)
    requires
        old(frame).position == old(frame).effects@.len(),
        i <= calls@.len(),
        old(frame).effects@.len() + (calls@.len() - i) <= usize::MAX,
    ensures
        ({
            let rn = s_run(old(game)@, *old(tally), old(frame)@, calls@, i as int);
            &&& final(game)@ == rn.game
            &&& *final(tally) == rn.tally
            &&& final(frame)@ == rn.frame
            &&& (match r {
                Ok(_) => rn.err is None,
                Err(e) => rn.err == Some(e),
            })
        }),
        r is Ok ==> final(frame).position == final(frame).effects@.len(),
    decreases calls_size(calls@, i as int), calls@.len() - i, 2int,
{
    if i == calls.len() {
        Ok(())
    } else {
        match apply_frame(game, tally, frame, &calls[i]) {
            Err(e) => Err(e),
            Ok(_) => run_seq(game, tally, frame, calls, i + 1),
        }
    }
}

/// The interpreter: exclusive owner of the shared state for the duration of
/// a run, the recorded nodes of a prior run, and the cursor into them.
#[derive(Debug, PartialEq, Eq)]
pub struct Interpreter {
    pub game: Game,
    pub tally: Tally,
    pub frame: Frame,
}

impl Interpreter {
    /// An interpreter over `game` with nothing recorded: every call will
    /// execute freshly.
    pub fn new(game: Game) -> (r: Interpreter)
        ensures
            r.game@ == game@,
            r.tally == (Tally { gain_life_calls: 0, draw_card_calls: 0 }),
            r.frame@ == empty_frame(),
    {
        let frame = Frame { effects: Vec::new(), position: 0 };
        proof {
            assert(frame@.effects =~= empty_frame().effects);
        }
        Interpreter { game, tally: Tally::new(), frame }
    }

    /// An interpreter seeded with the record of a prior run: calls replay
    /// from it until it is exhausted.
    pub fn seeded(game: Game, tally: Tally, effects: Vec<EffectTree>) -> (r: Interpreter)
        ensures
            r.game@ == game@,
            r.tally == tally,
            r.frame@ == (FrameV { effects: trees_view(effects@), position: 0 }),
    {
        Interpreter { game, tally, frame: Frame { effects, position: 0 } }
    }

    /// One nested call.  At a recorded position the stored result is
    /// decoded and returned, the effect body is skipped and neither the
    /// state nor the counters move; past the record the body runs freshly
    /// and its record is appended.
    pub fn apply(&mut self, call: &Call) -> (r: Result<WireValue, InterpError>)
        requires
            old(self).frame.position <= old(self).frame.effects@.len(),
            old(self).frame.position < usize::MAX,
        ensures
            ({
                let st = s_apply(old(self).game@, old(self).tally, old(self).frame@, *call);
                &&& final(self).game@ == st.game
                &&& final(self).tally == st.tally
                &&& final(self).frame@ == st.frame
                &&& outcome_view(r) == st.outcome
            }),
            final(self).frame.position == old(self).frame.position + 1,
    {
        apply_frame(&mut self.game, &mut self.tally, &mut self.frame, call)
    }

    /// Read access to the shared state.
    pub fn game(&self) -> (g: &Game)
        ensures
            *g == self.game,
    {
        &self.game
    }

    /// Exclusive mutable access to the shared state.
    pub fn game_mut(&mut self) -> (g: &mut Game)
        ensures
            *g == old(self).game,
            final(self).game == *final(g),
            final(self).tally == old(self).tally,
            final(self).frame == old(self).frame,
    {
        &mut self.game
    }
}

} // verus!

verus! {

/// A fresh execution's successful outcome always carries its call's shape,
/// so a faithful record replays without a decode failure.
pub proof fn lemma_fresh_shape(g: GameV, t: Tally, c: Call)
    ensures
        s_fresh(g, t, c).outcome matches Ok(w) ==> wire_has_shape(w, shape_of(c)),
{
}

/// A run that starts at the end of its record only appends: it keeps every
/// node already recorded, and, when it succeeds, its cursor ends at the end
/// of the grown record.
pub proof fn lemma_run_appends(g: GameV, t: Tally, fr: FrameV, cs: Seq<Call>, i: int)
    requires
        fr.position == fr.effects.len(),
    ensures
        ({
            let rn = s_run(g, t, fr, cs, i);
            &&& rn.frame.effects.len() >= fr.effects.len()
            &&& forall|j: int| 0 <= j < fr.effects.len() ==> rn.frame.effects[j] == fr.effects[j]
            &&& (rn.err is None ==> rn.frame.position == rn.frame.effects.len())
        }),
    decreases calls_size(cs, i), cs.len() - i,
{
    if 0 <= i < cs.len() {
        let a = s_apply(g, t, fr, cs[i]);
        match a.outcome {
            Err(_) => {},
            Ok(_) => {
                lemma_run_appends(a.game, a.tally, a.frame, cs, i + 1);
                let rn = s_run(g, t, fr, cs, i);
                assert(rn == s_run(a.game, a.tally, a.frame, cs, i + 1));
                assert forall|j: int| 0 <= j < fr.effects.len() implies rn.frame.effects[j]
                    == fr.effects[j] by {
                    assert(rn.frame.effects[j] == a.frame.effects[j]);
                    assert(a.frame.effects[j] == fr.effects[j]);
                }
            },
        }
    }
}

/// Replaying a recorded run is pure: over the full record of a successful
/// fresh run, the same calls all replay successfully, and neither the state,
/// nor the counters, nor the record change.
pub proof fn lemma_replay_run(
    g: GameV,
    t: Tally,
    fr: FrameV,
    g2: GameV,
    t2: Tally,
    cs: Seq<Call>,
    i: int,
)
    requires
        fr.position == fr.effects.len(),
        s_run(g, t, fr, cs, i).err is None,
    ensures
        ({
            let fresh = s_run(g, t, fr, cs, i);
            let re = s_run(
                g2,
                t2,
                FrameV { effects: fresh.frame.effects, position: fr.position },
                cs,
                i,
            );
            &&& re.game == g2
            &&& re.tally == t2
            &&& re.frame.effects == fresh.frame.effects
            &&& re.frame.position == fresh.frame.position
            &&& re.err is None
        }),
    decreases calls_size(cs, i), cs.len() - i,
{
    let fresh = s_run(g, t, fr, cs, i);
    if 0 <= i < cs.len() {
        let a = s_apply(g, t, fr, cs[i]);
        match a.outcome {
            Err(_) => {},
            Ok(w) => {
                let f = s_fresh(g, t, cs[i]);
                let node = NodeV { result: w, children: f.children };
                assert(a.frame.effects == fr.effects.push(node));
                assert(a.frame.effects[fr.position] == node);
                assert(fresh == s_run(a.game, a.tally, a.frame, cs, i + 1));
                lemma_fresh_shape(g, t, cs[i]);
                lemma_run_appends(a.game, a.tally, a.frame, cs, i + 1);
                assert(fresh.frame.effects.len() >= a.frame.effects.len());
                assert(fresh.frame.effects[fr.position] == node);
                lemma_replay_run(a.game, a.tally, a.frame, g2, t2, cs, i + 1);
                let e = fresh.frame.effects;
                let a2 = s_apply(g2, t2, FrameV { effects: e, position: fr.position }, cs[i]);
                assert(wire_has_shape(node.result, shape_of(cs[i])));
                assert(a2.outcome == Ok::<WireV, InterpError>(node.result));
                assert(a2.game == g2 && a2.tally == t2);
                assert(a2.frame == FrameV { effects: e, position: fr.position + 1 });
                assert(s_run(g2, t2, FrameV { effects: e, position: fr.position }, cs, i)
                    == s_run(g2, t2, a2.frame, cs, i + 1));
            },
        }
    }
}

/// Replay equivalence: a call sequence run once from an empty record
/// produces a record; the same sequence, seeded with that record, replays
/// it completely.  Seeded with the final state it reproduces that state,
/// because replay touches no state at all; it invokes no domain effect
/// body, so the counters do not move; and the record it leaves is the very
/// record it was given.
pub proof fn lemma_replay_equivalence(g: GameV, t: Tally, cs: Seq<Call>, g2: GameV, t2: Tally)
    requires
        s_run(g, t, empty_frame(), cs, 0).err is None,
    ensures
        ({
            let first = s_run(g, t, empty_frame(), cs, 0);
            let re = s_run(
                g2,
                t2,
                FrameV { effects: first.frame.effects, position: 0 },
                cs,
                0,
            );
            &&& re.game == g2
            &&& re.tally == t2
            &&& re.frame.effects == first.frame.effects
            &&& re.frame.position == first.frame.position
            &&& re.err is None
        }),
{
    lemma_replay_run(g, t, empty_frame(), g2, t2, cs, 0);
}

/// Splitting a run: running the concatenation of two call sequences is
/// running the first, then the second from where the first left off.
pub proof fn lemma_run_concat(
    g: GameV,
    t: Tally,
    fr: FrameV,
    cs1: Seq<Call>,
    cs2: Seq<Call>,
    i: int,
)
    requires
        0 <= i <= cs1.len(),
    ensures
        ({
            let m = s_run(g, t, fr, cs1, i);
            let whole = s_run(g, t, fr, cs1 + cs2, i);
            &&& (m.err is Some ==> whole == m)
            &&& (m.err is None ==> whole == s_run(
                m.game,
                m.tally,
                m.frame,
                cs1 + cs2,
                cs1.len() as int,
            ))
        }),
    decreases cs1.len() - i,
{
    if i < cs1.len() {
        assert((cs1 + cs2)[i] == cs1[i]);
        let a = s_apply(g, t, fr, cs1[i]);
        match a.outcome {
            Err(_) => {},
            Ok(_) => {
                lemma_run_concat(a.game, a.tally, a.frame, cs1, cs2, i + 1);
            },
        }
    }
}

/// Incremental extension: record a prefix of calls, then run a longer
/// sequence that extends it, seeded with the prefix's record and state.
/// Only the calls beyond the record execute freshly, and the final state
/// and record equal those of running the whole sequence from scratch.
pub proof fn lemma_incremental_extension(g: GameV, t: Tally, cs1: Seq<Call>, cs2: Seq<Call>)
    requires
        s_run(g, t, empty_frame(), cs1, 0).err is None,
    ensures
        ({
            let first = s_run(g, t, empty_frame(), cs1, 0);
            let seeded = s_run(
                first.game,
                first.tally,
                FrameV { effects: first.frame.effects, position: 0 },
                cs1 + cs2,
                0,
            );
            let full = s_run(g, t, empty_frame(), cs1 + cs2, 0);
            &&& seeded.game == full.game
            &&& seeded.tally == full.tally
            &&& seeded.frame.effects == full.frame.effects
            &&& seeded.frame.position == full.frame.position
            &&& seeded.err == full.err
        }),
{
    let first = s_run(g, t, empty_frame(), cs1, 0);
    lemma_run_appends(g, t, empty_frame(), cs1, 0);
    lemma_run_concat(g, t, empty_frame(), cs1, cs2, 0);
    lemma_run_concat(first.game, first.tally, FrameV { effects: first.frame.effects, position: 0 }, cs1, cs2, 0);
    lemma_replay_run(g, t, empty_frame(), first.game, first.tally, cs1, 0);
}

/// Replacement substitution: with exactly one applicable candidate for the
/// draw event, a fresh draw returns the candidate's outcome and the default
/// behaviour never runs (the library is untouched); with none, the default
/// draw runs unmodified; with two or more, the run fails with the
/// unresolved-choice error and the state is untouched.
pub proof fn lemma_replacement_substitution(g: GameV, t: Tally)
    ensures
        ({
            let apps = crate::applicable_of(
                crate::lookup_entries(g.replacement_effects, "DRAW"@),
                g,
            );
            let f = s_fresh(g, t, Call::DrawCard);
            &&& apps.len() == 1 ==> f.game == candidate_effect(apps[0], g).0 && f.outcome
                == Ok::<WireV, InterpError>(draw_wire(candidate_effect(apps[0], g).1))
                && f.game.library == g.library
            &&& apps.len() == 0 ==> f.game == s_default_draw(g).0 && f.outcome == Ok::<
                WireV,
                InterpError,
            >(draw_wire(s_default_draw(g).1))
            &&& apps.len() >= 2 ==> f.outcome == Err::<WireV, InterpError>(
                InterpError::UnresolvedChoice,
            ) && f.game == g
        }),
{
}

} // verus!

verus! {

/// Idempotent counter check: the counters move only when a domain effect
/// body actually runs.  Replay, the recorded branch of `apply`, leaves
/// both counters untouched whatever the call; one fresh draw-card body
/// advances the draw counter by exactly one and nothing else; one fresh
/// gain-life body advances the gain-life counter by exactly one and
/// nothing else.
pub proof fn lemma_idempotent_counter(g: GameV, t: Tally, fr: FrameV, c: Call, amount: usize)
    ensures
        0 <= fr.position < fr.effects.len() ==> s_apply(g, t, fr, c).tally == t,
        s_fresh(g, t, Call::DrawCard).tally == (Tally {
            draw_card_calls: sat_inc(t.draw_card_calls),
            ..t
        }),
        s_fresh(g, t, Call::GainLife(amount)).tally == (Tally {
            gain_life_calls: sat_inc(t.gain_life_calls),
            ..t
        }),
{
}

} // verus!

//! A deterministic, replayable effect-tree interpreter.
//!
//! A run executes a tree of nested effect calls against a shared game state
//! and memoizes every call's result by its position in the call tree.  A
//! later run seeded with the recorded tree replays those results instead of
//! re-executing the effects, until it runs past the record and fresh work
//! begins.  Replacement effects registered in the shared state may substitute
//! for an effect's default behaviour.

use vstd::prelude::*;

pub mod effect_value;
pub mod interpreter;

use effect_value::InterpError;

verus! {

/// Counters for fresh executions of the domain effect bodies.  Replay must
/// never change them; only a fresh run of the corresponding effect does.
#[derive(Clone, Copy, Debug, PartialEq, Eq)]
pub struct Tally {
    pub gain_life_calls: usize,
    pub draw_card_calls: usize,
}

impl Tally {
    pub fn new() -> (t: Tally)
        ensures
            t.gain_life_calls == 0,
            t.draw_card_calls == 0,
    {
        Tally { gain_life_calls: 0, draw_card_calls: 0 }
    }
}

/// Saturating increment, so that counting can never abort a run.
pub open spec fn sat_inc(n: usize) -> usize {
    if n == usize::MAX {
        n
    } else {
        (n + 1) as usize
    }
}

/// Saturating addition on the life total.
pub open spec fn sat_add(a: usize, b: usize) -> usize {
    if a + b > usize::MAX {
        usize::MAX
    } else {
        (a + b) as usize
    }
}

/// One serialized replacement-effect candidate: a tag naming the concrete
/// handler variant.  The known variants carry no fields of their own, so the
/// tag is the whole record; a tag this build does not know is kept but
/// skipped by the decoder.
#[derive(Debug, PartialEq, Eq)]
pub struct RegEntry {
    pub tag: String,
}

impl View for RegEntry {
    type V = Seq<char>;

    open spec fn view(&self) -> Seq<char> {
        self.tag@
    }
}

impl DeepView for RegEntry {
    type V = Seq<char>;

    open spec fn deep_view(&self) -> Seq<char> {
        self.tag@
    }
}

/// The candidates registered for one event key, in registration order.
#[derive(Debug, PartialEq, Eq)]
pub struct RegBucket {
    pub key: String,
    pub entries: Vec<RegEntry>,
}

/// The mathematical model of a [`RegBucket`].
pub struct BucketV {
    pub key: Seq<char>,
    pub entries: Seq<Seq<char>>,
}

impl View for RegBucket {
    type V = BucketV;

    open spec fn view(&self) -> BucketV {
        BucketV { key: self.key@, entries: self.entries.deep_view() }
    }
}

impl DeepView for RegBucket {
    type V = BucketV;

    open spec fn deep_view(&self) -> BucketV {
        self@
    }
}

/// The shared game state: the example payload the interpreter runs against,
/// plus the replacement-effect registry that the dispatch consults.
#[derive(Debug, PartialEq, Eq)]
pub struct Game {
    pub life: usize,
    pub library: Vec<String>,
    pub hand: Vec<String>,
    pub graveyard: Vec<String>,

    pub replacement_effects: Vec<RegBucket>,
}

/// The mathematical model of a [`Game`].
pub struct GameV {
    pub life: usize,
    pub library: Seq<Seq<char>>,
    pub hand: Seq<Seq<char>>,
    pub graveyard: Seq<Seq<char>>,
    pub replacement_effects: Seq<BucketV>,
}

impl View for Game {
    type V = GameV;

    open spec fn view(&self) -> GameV {
        GameV {
            life: self.life,
            library: self.library.deep_view(),
            hand: self.hand.deep_view(),
            graveyard: self.graveyard.deep_view(),
            replacement_effects: self.replacement_effects.deep_view(),
        }
    }
}

/// The index of the first bucket registered under `key`, or `-1`.
pub open spec fn bucket_index(regs: Seq<BucketV>, key: Seq<char>) -> int
    decreases regs.len(),
{
    if regs.len() == 0 {
        -1
    } else if regs[0].key == key {
        0
    } else {
        let rest = bucket_index(regs.drop_first(), key);
        if rest == -1 {
            -1
        } else {
            rest + 1
        }
    }
}

/// `bucket_index` finds a proper index or `-1`.
pub proof fn lemma_bucket_index_range(regs: Seq<BucketV>, key: Seq<char>)
    ensures
        -1 <= bucket_index(regs, key) < regs.len(),
        bucket_index(regs, key) >= 0 ==> regs[bucket_index(regs, key)].key == key,
    decreases regs.len(),
{
    if regs.len() > 0 && regs[0].key != key {
        lemma_bucket_index_range(regs.drop_first(), key);
    }
}

/// `bucket_index` is the first matching index.
pub proof fn lemma_bucket_index_first(regs: Seq<BucketV>, key: Seq<char>, i: int)
    requires
        0 <= i < regs.len(),
        regs[i].key == key,
        forall|j: int| 0 <= j < i ==> regs[j].key != key,
    ensures
        bucket_index(regs, key) == i,
    decreases regs.len(),
{
    if i > 0 {
        lemma_bucket_index_first(regs.drop_first(), key, i - 1);
    }
}

/// Without a matching bucket, `bucket_index` is `-1`.
pub proof fn lemma_bucket_index_none(regs: Seq<BucketV>, key: Seq<char>)
    requires
        forall|j: int| 0 <= j < regs.len() ==> regs[j].key != key,
    ensures
        bucket_index(regs, key) == -1,
    decreases regs.len(),
{
    if regs.len() > 0 {
        lemma_bucket_index_none(regs.drop_first(), key);
    }
}

/// The candidates registered under `key`, or none.
pub open spec fn lookup_entries(regs: Seq<BucketV>, key: Seq<char>) -> Seq<Seq<char>> {
    let i = bucket_index(regs, key);
    if i == -1 {
        Seq::empty()
    } else {
        regs[i].entries
    }
}

/// The concrete replacement-effect handlers this build knows.  The set is a
/// closed tagged enumeration: each serialized candidate names its variant by
/// tag, and decoding dispatches on that tag.
#[derive(Clone, Copy, Debug, PartialEq, Eq)]
pub enum ReplacementCandidate {
    /// Replaces a draw by discarding the top card of the hand.
    RandomDiscard,
}

/// The tag under which the discard replacement serializes.
pub open spec fn random_discard_tag() -> Seq<char> {
    "RandomDiscardReplacement"@
}

/// Decoding a serialized candidate: known tags produce their handler,
/// unknown or future tags are tolerated and produce nothing.
pub open spec fn decode_candidate_spec(tag: Seq<char>) -> Option<ReplacementCandidate> {
    if tag == random_discard_tag() {
        Some(ReplacementCandidate::RandomDiscard)
    } else {
        None
    }
}

/// Whether a candidate's `check` accepts the current state.
pub open spec fn candidate_applies(c: ReplacementCandidate, g: GameV) -> bool {
    match c {
        ReplacementCandidate::RandomDiscard => g.hand.len() > 0,
    }
}

/// What a candidate's `apply` does to the state, and its outcome.
pub open spec fn candidate_effect(c: ReplacementCandidate, g: GameV) -> (GameV, Result<
    Seq<char>,
    Seq<char>,
>) {
    match c {
        ReplacementCandidate::RandomDiscard => {
            let card = g.hand.last();
            (
                GameV {
                    hand: g.hand.drop_last(),
                    graveyard: g.graveyard.push(card),
                    ..g
                },
                Ok(discarded_msg(card)),
            )
        },
    }
}

/// The applicable handlers among `entries`, in registration order: each
/// entry that decodes to a known candidate whose `check` accepts `g`.
pub open spec fn applicable_of(entries: Seq<Seq<char>>, g: GameV) -> Seq<ReplacementCandidate>
    decreases entries.len(),
{
    if entries.len() == 0 {
        Seq::empty()
    } else {
        let front = applicable_of(entries.drop_last(), g);
        match decode_candidate_spec(entries.last()) {
            Some(c) => if candidate_applies(c, g) {
                front.push(c)
            } else {
                front
            },
            None => front,
        }
    }
}

/// The digit character of one decimal digit.
pub open spec fn dec_digit(d: nat) -> char {
    if d == 0 {
        '0'
    } else if d == 1 {
        '1'
    } else if d == 2 {
        '2'
    } else if d == 3 {
        '3'
    } else if d == 4 {
        '4'
    } else if d == 5 {
        '5'
    } else if d == 6 {
        '6'
    } else if d == 7 {
        '7'
    } else if d == 8 {
        '8'
    } else {
        '9'
    }
}

/// The decimal digits of a number, most significant first.
pub open spec fn dec_str(n: nat) -> Seq<char>
    decreases n,
{
    if n < 10 {
        seq![dec_digit(n)]
    } else {
        dec_str(n / 10).push(dec_digit(n % 10))
    }
}

/// The message a fresh gain-life effect returns.
pub open spec fn added_msg(amount: usize) -> Seq<char> {
    "Added "@ + dec_str(amount as nat) + " life"@
}

/// The message a successful default draw returns.
pub open spec fn drew_msg(card: Seq<char>) -> Seq<char> {
    "Drew "@ + card
}

/// The message the discard replacement returns.
pub open spec fn discarded_msg(card: Seq<char>) -> Seq<char> {
    "Discarded "@ + card
}

/// The failure message of a draw from an empty library.
pub open spec fn empty_library_msg() -> Seq<char> {
    "Drew from empty library! 💀"@
}

/// Relies on the standard formatter for `usize` (`format!`): it returns
/// exactly the decimal digits of the value, no sign and no padding.
#[verifier::external_body]
fn fmt_usize(n: usize) -> (s: String)
    ensures
        s@ == dec_str(n as nat),
{
    format!("{}", n)
}

/// Builds the gain-life message.
pub(crate) fn added_message(amount: usize) -> (s: String)
    ensures
        s@ == added_msg(amount),
{
    let digits = fmt_usize(amount);
    String::from_str("Added ").concat(digits.as_str()).concat(" life")
}

/// Builds the draw message.
pub(crate) fn drew_message(card: &String) -> (s: String)
    ensures
        s@ == drew_msg(card@),
{
    String::from_str("Drew ").concat(card.as_str())
}

/// Builds the discard message.
pub(crate) fn discarded_message(card: &String) -> (s: String)
    ensures
        s@ == discarded_msg(card@),
{
    String::from_str("Discarded ").concat(card.as_str())
}

impl ReplacementCandidate {
    /// Whether this handler applies to the current state.
    pub fn check(&self, game: &Game) -> (b: bool)
        ensures
            b == candidate_applies(*self, game@),
    {
        match self {
            ReplacementCandidate::RandomDiscard => game.hand.len() > 0,
        }
    }

    /// Performs this handler's substitute behaviour.  The known handlers
    /// need only the shared state, so this takes the game alone; a future
    /// handler that recursed through `apply` would have to be handed the
    /// dispatching call's frame as well.
    pub fn apply(&self, game: &mut Game) -> (r: Result<String, String>)
        requires
            candidate_applies(*self, old(game)@),
        ensures
            final(game)@ == candidate_effect(*self, old(game)@).0,
            (match (r, candidate_effect(*self, old(game)@).1) {
                (Ok(m), Ok(mv)) => m@ == mv,
                (Err(m), Err(mv)) => m@ == mv,
                _ => false,
            }),
    {
        match self {
            ReplacementCandidate::RandomDiscard => {
                let card = game.hand.pop().unwrap();
                let message = discarded_message(&card);
                game.graveyard.push(card);
                proof {
                    assert(game@.hand =~= old(game)@.hand.drop_last());
                    assert(game@.graveyard =~= old(game)@.graveyard.push(
                        old(game)@.hand.last(),
                    ));
                }
                Ok(message)
            },
        }
    }
}

/// Decodes one serialized candidate, skipping unknown tags.
pub fn decode_candidate(entry: &RegEntry) -> (r: Option<ReplacementCandidate>)
    ensures
        r == decode_candidate_spec(entry@),
{
    let known = String::from_str("RandomDiscardReplacement");
    if entry.tag == known {
        Some(ReplacementCandidate::RandomDiscard)
    } else {
        None
    }
}

/// The index of the first bucket registered under `key`, if any.
pub(crate) fn find_bucket(regs: &Vec<RegBucket>, key: &String) -> (r: Option<usize>)
    ensures
        (match r {
            Some(i) => i < regs@.len() && bucket_index(regs.deep_view(), key@) == i as int,
            None => bucket_index(regs.deep_view(), key@) == -1,
        }),
{
    let mut i: usize = 0;
    while i < regs.len()
        invariant
            i <= regs.len(),
            forall|j: int| 0 <= j < i ==> regs.deep_view()[j].key != key@,
        decreases regs.len() - i,
    {
        if regs[i].key == *key {
            proof {
                lemma_bucket_index_first(regs.deep_view(), key@, i as int);
            }
            return Some(i);
        }
        i = i + 1;
    }
    proof {
        lemma_bucket_index_none(regs.deep_view(), key@);
    }
    None
}

/// The applicable candidates for `key` in the current state, in
/// registration order.
fn applicable_candidates(game: &Game, key: &String) -> (r: Vec<ReplacementCandidate>)
    ensures
        r@ == applicable_of(lookup_entries(game@.replacement_effects, key@), game@),
{
    let mut found: Vec<ReplacementCandidate> = Vec::new();
    let bucket = find_bucket(&game.replacement_effects, key);
    match bucket {
        None => {
            proof {
                assert(found@ =~= applicable_of(
                    lookup_entries(game@.replacement_effects, key@),
                    game@,
                ));
            }
        },
        Some(bi) => {
            let ghost entries = lookup_entries(game@.replacement_effects, key@);
            let n = game.replacement_effects[bi].entries.len();
            let mut i: usize = 0;
            proof {
                assert(entries =~= game.replacement_effects[bi as int].entries.deep_view());
            }
            while i < n
                invariant
                    i <= n,
                    bi < game.replacement_effects@.len(),
                    n == game.replacement_effects[bi as int].entries.len(),
                    entries == game.replacement_effects[bi as int].entries.deep_view(),
                    found@ == applicable_of(entries.subrange(0, i as int), game@),
                decreases n - i,
            {
                let entry = &game.replacement_effects[bi].entries[i];
                proof {
                    assert(entries.subrange(0, i + 1).drop_last() =~= entries.subrange(
                        0,
                        i as int,
                    ));
                    assert(entries.subrange(0, i + 1).last() == entry@);
                }
                match decode_candidate(entry) {
                    Some(c) => {
                        if c.check(game) {
                            found.push(c);
                        }
                    },
                    None => {},
                }
                i = i + 1;
            }
            proof {
                assert(entries.subrange(0, n as int) =~= entries);
            }
        },
    }
    found
}

/// The outcome of the replacement dispatch for one event.
pub open spec fn dispatch_of(g: GameV, key: Seq<char>) -> Result<
    Option<(GameV, Result<Seq<char>, Seq<char>>)>,
    InterpError,
> {
    let apps = applicable_of(lookup_entries(g.replacement_effects, key), g);
    if apps.len() == 0 {
        Ok(None)
    } else if apps.len() == 1 {
        Ok(Some(candidate_effect(apps[0], g)))
    } else {
        Err(InterpError::UnresolvedChoice)
    }
}

/// Queries the registry for the event key, decodes the registered
/// candidates tolerantly, filters them by `check`, and applies the single
/// applicable one in full substitution for the default behaviour.  With no
/// applicable candidate the default should proceed; with several, choice
/// resolution would be needed and no hook for it exists, so the run fails.
pub fn handle_replacement(game: &mut Game, replacement_key: &str) -> (r: Result<
    Option<Result<String, String>>,
    InterpError,
>)
    ensures
        (match dispatch_of(old(game)@, replacement_key@) {
            Ok(None) => final(game)@ == old(game)@ && r matches Ok(None),
            Ok(Some((g2, res))) => final(game)@ == g2 && (match r {
                Ok(Some(rr)) => match (rr, res) {
                    (Ok(m), Ok(mv)) => m@ == mv,
                    (Err(m), Err(mv)) => m@ == mv,
                    _ => false,
                },
                _ => false,
            }),
            Err(e) => final(game)@ == old(game)@ && r == Err::<
                Option<Result<String, String>>,
                InterpError,
            >(e),
        }),
{
    let key = String::from_str(replacement_key);
    let alts = applicable_candidates(game, &key);
    if alts.len() == 1 {
        let c = alts[0];
        proof {
            lemma_applicable_all_apply(
                lookup_entries(game@.replacement_effects, replacement_key@),
                game@,
            );
        }
        let outcome = c.apply(game);
        Ok(Some(outcome))
    } else if alts.len() == 0 {
        Ok(None)
    } else {
        Err(InterpError::UnresolvedChoice)
    }
}

/// Members of `applicable_of` pass their `check`.
pub proof fn lemma_applicable_all_apply(entries: Seq<Seq<char>>, g: GameV)
    ensures
        forall|i: int|
            0 <= i < applicable_of(entries, g).len() ==> candidate_applies(
                applicable_of(entries, g)[i],
                g,
            ),
    decreases entries.len(),
{
    if entries.len() > 0 {
        lemma_applicable_all_apply(entries.drop_last(), g);
        let front = applicable_of(entries.drop_last(), g);
        let whole = applicable_of(entries, g);
        assert forall|i: int| 0 <= i < whole.len() implies candidate_applies(whole[i], g) by {
            if i < front.len() {
                assert(whole[i] == front[i]);
            }
        }
    }
}

} // verus!

verus! {

/// Gain-life effect: a regular-looking call value for `apply`.  Fresh
/// execution adds `amount` to the life total (saturating at the machine
/// limit) and yields the message the model states.
pub fn gain_life(amount: usize) -> (c: interpreter::Call)
    ensures
        c == interpreter::Call::GainLife(amount),
{
    interpreter::Call::GainLife(amount)
}

/// Draw a single card: fresh execution consults the replacement dispatch
/// for the draw event and otherwise performs the default draw.
pub fn draw_card() -> (c: interpreter::Call)
    ensures
        c == interpreter::Call::DrawCard,
{
    interpreter::Call::DrawCard
}

/// Draw multiple cards: fresh execution makes one nested draw-card call
/// per card, each recorded in its own child position.
pub fn draw_cards(count: usize) -> (c: interpreter::Call)
    ensures
        c == interpreter::Call::DrawCards(count),
{
    interpreter::Call::DrawCards(count)
}

/// Register the discard replacement under the draw event key.
pub fn replace_draw_with_discard() -> (c: interpreter::Call)
    ensures
        c == interpreter::Call::ReplaceDrawWithDiscard,
{
    interpreter::Call::ReplaceDrawWithDiscard
}

} // verus!

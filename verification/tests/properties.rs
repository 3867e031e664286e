use effect_replay::effect_value::{EffectValue, InterpError, Shape, WireValue};
use effect_replay::interpreter::{Call, Interpreter};
use effect_replay::{
    draw_card, draw_cards, gain_life, replace_draw_with_discard, Game, RegBucket, RegEntry,
};

fn s(x: &str) -> String {
    x.to_string()
}

fn ok_text(m: &str) -> WireValue {
    WireValue::Okay(Box::new(WireValue::Text(s(m))))
}

fn fail_text(m: &str) -> WireValue {
    WireValue::Fail(Box::new(WireValue::Text(s(m))))
}

fn game_with_library(cards: &[&str]) -> Game {
    Game {
        life: 20,
        library: cards.iter().map(|c| s(c)).collect(),
        hand: Vec::new(),
        graveyard: Vec::new(),
        replacement_effects: Vec::new(),
    }
}

#[test]
fn scenario_draw_then_discard_replacement() {
    let mut it = Interpreter::new(game_with_library(&["A", "B"]));

    // First draw takes the top of the library: B.
    let r = it.apply(&draw_card()).unwrap();
    assert_eq!(r, ok_text("Drew B"));
    assert_eq!(it.game().library, vec![s("A")]);
    assert_eq!(it.game().hand, vec![s("B")]);

    // Second draw takes A.
    let r = it.apply(&draw_card()).unwrap();
    assert_eq!(r, ok_text("Drew A"));
    assert!(it.game().library.is_empty());
    assert_eq!(it.game().hand, vec![s("B"), s("A")]);

    // Register the discard replacement, then draw once more: the draw is
    // replaced in full, discarding the top of the hand.
    it.apply(&replace_draw_with_discard()).unwrap();
    let r = it.apply(&draw_card()).unwrap();
    assert_eq!(r, ok_text("Discarded A"));
    assert_eq!(it.game().hand, vec![s("B")]);
    assert_eq!(it.game().graveyard, vec![s("A")]);

    // A subsequent gain-life call adds five and is memoized as a sibling.
    let before = it.frame.effects.len();
    let r = it.apply(&gain_life(5)).unwrap();
    assert_eq!(r, WireValue::Text(s("Added 5 life")));
    assert_eq!(it.game().life, 25);
    assert_eq!(it.frame.effects.len(), before + 1);
}

#[test]
fn positional_type_stability() {
    // Record a gain-life result, then replay the same position as a draw:
    // the requested shape differs from the recorded one and decoding fails.
    let mut it = Interpreter::new(game_with_library(&["A"]));
    it.apply(&gain_life(1)).unwrap();

    let Interpreter { game, tally, frame } = it;
    let mut it = Interpreter::seeded(game, tally, frame.effects);
    let r = it.apply(&draw_card());
    assert_eq!(r, Err(InterpError::DecodeMismatch));
}

#[test]
fn effect_value_decodes_only_its_own_shape() {
    let v = EffectValue { serialized: WireValue::Text(s("Added 1 life")) };
    assert_eq!(v.get(Shape::Text), Ok(WireValue::Text(s("Added 1 life"))));
    assert_eq!(v.get(Shape::DrawResult), Err(InterpError::DecodeMismatch));
    assert_eq!(v.get(Shape::DrawsResult), Err(InterpError::DecodeMismatch));
    assert_eq!(v.get(Shape::Unit), Err(InterpError::DecodeMismatch));
    assert_eq!(v.get(Shape::OptNum), Err(InterpError::DecodeMismatch));
}

#[test]
fn replacement_with_zero_candidates_runs_default() {
    let mut g = game_with_library(&["A"]);
    // A registered candidate whose check fails (empty hand) is filtered
    // out, so the default draw runs.
    g.replacement_effects = vec![RegBucket {
        key: s("DRAW"),
        entries: vec![RegEntry { tag: s("RandomDiscardReplacement") }],
    }];
    let mut it = Interpreter::new(g);
    let r = it.apply(&draw_card()).unwrap();
    assert_eq!(r, ok_text("Drew A"));
    assert_eq!(it.game().hand, vec![s("A")]);
}

#[test]
fn replacement_with_two_candidates_is_unresolved() {
    let mut it = Interpreter::new(game_with_library(&["A", "B"]));
    it.apply(&draw_card()).unwrap();
    it.apply(&replace_draw_with_discard()).unwrap();
    it.apply(&replace_draw_with_discard()).unwrap();
    let r = it.apply(&draw_card());
    assert_eq!(r, Err(InterpError::UnresolvedChoice));
    // The failed call recorded nothing.
    assert_eq!(it.frame.effects.len(), 3);
}

#[test]
fn unknown_candidate_tags_are_skipped() {
    let mut g = game_with_library(&["A"]);
    g.hand = vec![s("H")];
    g.replacement_effects = vec![RegBucket {
        key: s("DRAW"),
        entries: vec![RegEntry { tag: s("SomeFutureReplacement") }],
    }];
    let mut it = Interpreter::new(g);
    // The unknown tag fails to decode and is tolerated; the default runs.
    let r = it.apply(&draw_card()).unwrap();
    assert_eq!(r, ok_text("Drew A"));
}

#[test]
fn draw_from_empty_library_is_a_domain_failure() {
    let mut it = Interpreter::new(game_with_library(&[]));
    // A domain failure is an ordinary outcome, memoized like any other.
    let r = it.apply(&draw_card()).unwrap();
    assert_eq!(r, fail_text("Drew from empty library! 💀"));
    assert_eq!(it.frame.effects.len(), 1);
}

#[test]
fn draw_cards_zero_draws_nothing() {
    let mut it = Interpreter::new(game_with_library(&["A"]));
    let r = it.apply(&draw_cards(0)).unwrap();
    assert_eq!(
        r,
        WireValue::Okay(Box::new(WireValue::TextList(Vec::new())))
    );
    assert_eq!(it.game().library, vec![s("A")]);
    assert_eq!(it.tally.draw_card_calls, 0);
}

#[test]
fn draw_cards_stops_at_the_first_failure() {
    let mut it = Interpreter::new(game_with_library(&["A"]));
    let r = it.apply(&draw_cards(3)).unwrap();
    assert_eq!(r, fail_text("Drew from empty library! 💀"));
    // The successful draw and the failing draw were both recorded as
    // children; the third draw never ran.
    assert_eq!(it.frame.effects[0].children.len(), 2);
    assert_eq!(it.tally.draw_card_calls, 2);
    assert_eq!(it.game().hand, vec![s("A")]);
}

#[test]
fn gain_life_saturates_at_the_machine_limit() {
    let mut g = game_with_library(&[]);
    g.life = usize::MAX - 2;
    let mut it = Interpreter::new(g);
    let r = it.apply(&gain_life(5)).unwrap();
    assert_eq!(r, WireValue::Text(s("Added 5 life")));
    assert_eq!(it.game().life, usize::MAX);
}

#[test]
fn gain_life_message_spells_the_amount() {
    let mut it = Interpreter::new(game_with_library(&[]));
    let r = it.apply(&gain_life(0)).unwrap();
    assert_eq!(r, WireValue::Text(s("Added 0 life")));
    let r = it.apply(&gain_life(12305)).unwrap();
    assert_eq!(r, WireValue::Text(s("Added 12305 life")));
}

#[test]
fn incremental_extension_matches_a_scratch_run() {
    let turn_a = || Call::Turn(vec![draw_cards(2)], Some(1));
    let turn_b = || Call::Turn(vec![replace_draw_with_discard(), draw_card()], None);

    // Run only the prefix, recording it.
    let mut prefix = Interpreter::new(game_with_library(&["A", "B", "C"]));
    prefix.apply(&turn_a()).unwrap();

    // Extend: the same state and record, the longer call sequence.
    let Interpreter { game, tally, frame } = prefix;
    let mut extended = Interpreter::seeded(game, tally, frame.effects);
    extended.apply(&turn_a()).unwrap();
    extended.apply(&turn_b()).unwrap();

    // Only the fresh suffix executed.
    assert_eq!(extended.tally.draw_card_calls, 3);

    // From scratch, for comparison.
    let mut scratch = Interpreter::new(game_with_library(&["A", "B", "C"]));
    scratch.apply(&turn_a()).unwrap();
    scratch.apply(&turn_b()).unwrap();

    assert_eq!(extended.frame.effects, scratch.frame.effects);
    assert_eq!(extended.game(), scratch.game());
}

#[test]
fn registry_keeps_registration_order() {
    let mut it = Interpreter::new(game_with_library(&[]));
    it.apply(&replace_draw_with_discard()).unwrap();
    it.apply(&replace_draw_with_discard()).unwrap();
    let regs = &it.game().replacement_effects;
    assert_eq!(regs.len(), 1);
    assert_eq!(regs[0].key, s("DRAW"));
    assert_eq!(
        regs[0].entries,
        vec![
            RegEntry { tag: s("RandomDiscardReplacement") },
            RegEntry { tag: s("RandomDiscardReplacement") },
        ]
    );
}

use effect_replay::effect_value::{EffectTree, EffectValue, WireValue};
use effect_replay::interpreter::{Call, Interpreter};
use effect_replay::{
    draw_card, draw_cards, gain_life, replace_draw_with_discard, Game, RegEntry,
};

fn s(x: &str) -> String {
    x.to_string()
}

fn node(result: WireValue, children: Vec<EffectTree>) -> EffectTree {
    EffectTree { result: EffectValue { serialized: result }, children }
}

fn ok_text(m: &str) -> WireValue {
    WireValue::Okay(Box::new(WireValue::Text(s(m))))
}

fn ok_texts(ms: &[&str]) -> WireValue {
    WireValue::Okay(Box::new(WireValue::TextList(ms.iter().map(|m| s(m)).collect())))
}

fn turn_one() -> Call {
    Call::Turn(vec![draw_card()], Some(42))
}

fn turn_two() -> Call {
    Call::Turn(vec![draw_cards(1), replace_draw_with_discard()], Some(69))
}

fn turn_three() -> Call {
    Call::Turn(vec![draw_cards(1), gain_life(5)], None)
}

fn expected_tree() -> Vec<EffectTree> {
    vec![
        node(WireValue::Num(42), vec![node(ok_text("Drew Mox Awesome"), vec![])]),
        node(
            WireValue::Num(69),
            vec![
                node(
                    ok_texts(&["Drew Mox Tombstone"]),
                    vec![node(ok_text("Drew Mox Tombstone"), vec![])],
                ),
                node(WireValue::Null, vec![]),
            ],
        ),
        node(
            WireValue::Null,
            vec![
                node(
                    ok_texts(&["Discarded Mox Tombstone"]),
                    vec![node(ok_text("Discarded Mox Tombstone"), vec![])],
                ),
                node(WireValue::Text(s("Added 5 life")), vec![]),
            ],
        ),
    ]
}

#[test]
fn it_works() {
    // A mock game state with two cards in the library, none in hand, none in
    // the graveyard.
    let g = Game {
        life: 20,
        library: vec![s("Mox Tombstone"), s("Mox Awesome")],
        hand: Vec::new(),
        graveyard: Vec::new(),
        replacement_effects: Vec::new(),
    };
    let mut interpreter = Interpreter::new(g);

    // Start of game.
    assert_eq!(interpreter.game().life, 20);
    assert_eq!(
        interpreter.game().library,
        vec![s("Mox Tombstone"), s("Mox Awesome")]
    );
    assert!(interpreter.game().hand.is_empty());
    assert!(interpreter.game().graveyard.is_empty());
    assert!(interpreter.game().replacement_effects.is_empty());

    // Turn one: draw a card, return some state just to prove we can.
    let r1 = interpreter.apply(&turn_one()).unwrap();
    assert_eq!(r1, WireValue::Num(42));
    assert_eq!(
        interpreter.frame.effects[0].children[0].result.serialized,
        ok_text("Drew Mox Awesome")
    );
    assert_eq!(interpreter.game().life, 20);
    assert_eq!(interpreter.game().library, vec![s("Mox Tombstone")]);
    assert_eq!(interpreter.game().hand, vec![s("Mox Awesome")]);
    assert!(interpreter.game().graveyard.is_empty());

    // Turn two: draw through the multi-draw helper, then "play" a card that
    // registers a replacement effect for draws.
    let r2 = interpreter.apply(&turn_two()).unwrap();
    assert_eq!(r2, WireValue::Num(69));
    assert_eq!(
        interpreter.frame.effects[1].children[0].result.serialized,
        ok_texts(&["Drew Mox Tombstone"])
    );
    assert_eq!(interpreter.game().life, 20);
    assert!(interpreter.game().library.is_empty());
    assert_eq!(
        interpreter.game().hand,
        vec![s("Mox Awesome"), s("Mox Tombstone")]
    );
    assert!(interpreter.game().graveyard.is_empty());
    assert_eq!(interpreter.game().replacement_effects.len(), 1);
    assert_eq!(interpreter.game().replacement_effects[0].key, s("DRAW"));
    assert_eq!(
        interpreter.game().replacement_effects[0].entries,
        vec![RegEntry { tag: s("RandomDiscardReplacement") }]
    );

    // Turn three: the draw is replaced by a discard, and life is gained as
    // an independently memoized sibling call.
    let r3 = interpreter.apply(&turn_three()).unwrap();
    assert_eq!(r3, WireValue::Null);
    assert_eq!(
        interpreter.frame.effects[2].children[0].result.serialized,
        ok_texts(&["Discarded Mox Tombstone"])
    );
    assert_eq!(interpreter.game().life, 25);
    assert!(interpreter.game().library.is_empty());
    assert_eq!(interpreter.game().hand, vec![s("Mox Awesome")]);
    assert_eq!(interpreter.game().graveyard, vec![s("Mox Tombstone")]);

    assert_eq!(interpreter.tally.gain_life_calls, 1);
    assert_eq!(interpreter.tally.draw_card_calls, 3);

    // The full recorded tree, spelled out.
    let initial_snapshot = expected_tree();
    assert_eq!(interpreter.frame.effects, initial_snapshot);

    // Re-run the interpreter, re-using all existing effects.  No effect body
    // runs: each result is replayed from the record.
    let Interpreter { game, tally, frame } = interpreter;
    let mut interpreter = Interpreter::seeded(game, tally, frame.effects);

    let r1 = interpreter.apply(&turn_one()).unwrap();
    assert_eq!(r1, WireValue::Num(42));
    let r2 = interpreter.apply(&turn_two()).unwrap();
    assert_eq!(r2, WireValue::Num(69));
    let r3 = interpreter.apply(&turn_three()).unwrap();
    assert_eq!(r3, WireValue::Null);

    // Replay incremented no counter.
    assert_eq!(interpreter.tally.gain_life_calls, 1);
    assert_eq!(interpreter.tally.draw_card_calls, 3);

    // The state and the record are exactly as before the replay.
    assert_eq!(interpreter.game().life, 25);
    assert!(interpreter.game().library.is_empty());
    assert_eq!(interpreter.game().hand, vec![s("Mox Awesome")]);
    assert_eq!(interpreter.game().graveyard, vec![s("Mox Tombstone")]);
    assert_eq!(interpreter.frame.effects, initial_snapshot);
    assert_eq!(interpreter.frame.position, 3);
}

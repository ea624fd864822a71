use lsystem::engine::LSystem;
use lsystem::engine::to_string;
use lsystem::rng::RandomSource;
use lsystem::rules::MapRules;
use lsystem::rules::PROB_SCALE;
use lsystem::rules::Rule;
use lsystem::rules::select_with_draws;
use lsystem::rules::str_chars;

#[test]
fn certain_rule_rewrites_in_one_generation() {
    let mut rules = MapRules::new();
    rules.set_str('X', "F");
    let mut system = LSystem::new(rules, str_chars("X"));
    let mut source = RandomSource::from_seed(1);
    let out = system.next(&mut source).expect("a live symbol must expand");
    assert_eq!(to_string(&out), "F");
    assert_eq!(to_string(&system.state), "F");
}

#[test]
fn unregistered_symbol_signals_fixed_point_immediately() {
    let rules = MapRules::new();
    let mut system = LSystem::new(rules, str_chars("X"));
    let mut source = RandomSource::from_seed(1);
    assert!(system.next(&mut source).is_none());
    assert_eq!(to_string(&system.state), "X");
}

#[test]
fn repeated_advance_on_terminal_state_is_idempotent() {
    let mut rules = MapRules::new();
    rules.set_str('Q', "AB");
    let mut system = LSystem::new(rules, str_chars("XYZ"));
    let mut source = RandomSource::from_seed(9);
    for _ in 0..4 {
        assert!(system.next(&mut source).is_none());
        assert_eq!(to_string(&system.state), "XYZ");
    }
}

#[test]
fn empty_start_state_is_a_fixed_point() {
    let mut rules = MapRules::new();
    rules.set_str('X', "F");
    let mut system = LSystem::new(rules, Vec::new());
    let mut source = RandomSource::from_seed(3);
    assert!(system.next(&mut source).is_none());
    assert_eq!(to_string(&system.state), "");
}

#[test]
fn reset_restores_the_start_state() {
    let mut rules = MapRules::new();
    rules.set_str('X', "XX");
    let mut system = LSystem::new(rules, str_chars("X"));
    let mut source = RandomSource::from_seed(5);
    system.next(&mut source);
    system.next(&mut source);
    assert_eq!(to_string(&system.state), "XXXX");
    system.reset();
    assert_eq!(to_string(&system.state), "X");
    assert_eq!(to_string(&system.start), "X");
}

#[test]
fn terminal_symbols_are_kept_in_place() {
    let mut rules = MapRules::new();
    rules.set_str('X', "FXF");
    let mut system = LSystem::new(rules, str_chars("aXb"));
    let mut source = RandomSource::from_seed(2);
    let out = system.next(&mut source).expect("X is live");
    assert_eq!(to_string(&out), "aFXFb");
}

#[test]
fn first_registration_returns_the_replacement() {
    let mut rules = MapRules::new();
    let first = rules.set_str('X', "AB");
    assert_eq!(first.map(|v| to_string(&v)), Some(String::from("AB")));
    let second = rules.set_str('X', "CD");
    assert!(second.is_none());
    let other = rules.set_str_prob('Y', "E", 250_000);
    assert_eq!(other.map(|v| to_string(&v)), Some(String::from("E")));
}

#[test]
fn zero_weight_rule_never_fires_and_reports_identity() {
    let mut rules = MapRules::new();
    rules.set_str_prob('X', "F", 0);
    let mut source = RandomSource::from_seed(11);
    for _ in 0..8 {
        let out = rules.map(&'X', &mut source).expect("X has a rule");
        assert_eq!(to_string(&out), "X");
    }
}

#[test]
fn full_weight_rule_always_fires() {
    let mut rules = MapRules::new();
    rules.set_str_prob('X', "FF", PROB_SCALE);
    let mut source = RandomSource::from_seed(13);
    for _ in 0..8 {
        let out = rules.map(&'X', &mut source).expect("X has a rule");
        assert_eq!(to_string(&out), "FF");
    }
}

#[test]
fn lookup_of_terminal_symbol_is_none() {
    let mut rules = MapRules::new();
    rules.set_str('X', "F");
    let mut source = RandomSource::from_seed(17);
    assert!(rules.map(&'Y', &mut source).is_none());
}

#[test]
fn selection_takes_the_first_accepting_rule() {
    let rules = vec![
        Rule { replacement: str_chars("AA"), weight: 0 },
        Rule { replacement: str_chars("BB"), weight: 500_000 },
    ];
    let picked = select_with_draws(&rules, &vec![0, 499_999], 'X');
    assert_eq!(to_string(&picked), "BB");
    let identity = select_with_draws(&rules, &vec![0, 500_000], 'X');
    assert_eq!(to_string(&identity), "X");
    let first = select_with_draws(
        &vec![
            Rule { replacement: str_chars("AA"), weight: 1 },
            Rule { replacement: str_chars("BB"), weight: PROB_SCALE },
        ],
        &vec![0, 3],
        'X',
    );
    assert_eq!(to_string(&first), "AA");
}

#[test]
fn to_string_returns_the_characters_in_order() {
    assert_eq!(to_string(&Vec::new()), "");
    assert_eq!(to_string(&str_chars("F+[X]")), "F+[X]");
}

#[test]
fn draws_stay_below_the_bound() {
    let mut source = RandomSource::from_seed(23);
    for _ in 0..100 {
        assert!(source.next_below(7) < 7);
    }
}

#[test]
fn seeded_grammar_runs_are_bit_identical() {
    let mut outputs: Vec<String> = Vec::new();
    for _ in 0..2 {
        let mut rules = MapRules::new();
        rules.set_str_prob('X', "F+[[X]-X]-F[-FX]+X", 900_000);
        rules.set_str_prob('X', "M", 250_000);
        rules.set_str('F', "FF");
        let mut system = LSystem::new(rules, str_chars("X"));
        let mut source = RandomSource::from_seed(42);
        for _ in 0..5 {
            system.next(&mut source);
        }
        outputs.push(to_string(&system.state));
    }
    assert_eq!(outputs[0], outputs[1]);
}

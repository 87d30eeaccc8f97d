use otternel::patterns::PatternError;
use otternel::triggers::{
    compile_trigger, contains_id, keep_compiled, load, load_triggers, matching_actions,
    CompiledTrigger, TriggerDefinition,
};
use regex::Regex;

fn definition(name: Option<&str>, pattern: &str, action: &str, scope: Option<Vec<u32>>) -> TriggerDefinition {
    TriggerDefinition {
        name: name.map(|n| n.to_string()),
        pattern: pattern.to_string(),
        action: action.to_string(),
        scope,
    }
}

fn trigger(pattern: &str, action: &str, scope: Option<Vec<u32>>) -> CompiledTrigger {
    CompiledTrigger {
        name: String::new(),
        pattern: Regex::new(pattern).unwrap(),
        action: action.to_string(),
        scope,
    }
}

const JOINED: &str = "[12:00:00] [Server thread/INFO]: Bob joined the game";

#[test]
fn unscoped_trigger_matches_whatever_the_source() {
    let t = trigger("joined the game", "on_player_joined", None);
    assert!(t.fires_on(JOINED, Some(0)));
    assert!(t.fires_on(JOINED, Some(5)));
    assert!(t.fires_on(JOINED, Some(u32::MAX)));
    assert!(t.fires_on(JOINED, None));
    assert!(!t.fires_on("[12:00:00] [Server thread/INFO]: Bob left the game", Some(5)));
}

#[test]
fn scoped_trigger_stays_in_its_scope() {
    let t = trigger("joined the game", "on_player_joined", Some(vec![5]));
    assert!(t.fires_on(JOINED, Some(5)));
    assert!(!t.fires_on(JOINED, Some(7)));
    assert!(!t.fires_on(JOINED, None));
    let empty = trigger("joined the game", "on_player_joined", Some(vec![]));
    assert!(!empty.fires_on(JOINED, Some(5)));
    assert!(!empty.applies_to(None));
    let several = trigger("joined", "a", Some(vec![1, 2, 3]));
    assert!(several.applies_to(Some(3)));
    assert!(!several.applies_to(Some(4)));
}

#[test]
fn scope_membership() {
    assert!(contains_id(&vec![4, 8, 15], 15));
    assert!(!contains_id(&vec![4, 8, 15], 16));
    assert!(!contains_id(&vec![], 0));
}

#[test]
fn every_matching_trigger_is_invoked_once() {
    let triggers = vec![
        trigger("joined", "first", None),
        trigger("left", "never", None),
        trigger("Bob", "second", Some(vec![5])),
        trigger("game$", "elsewhere", Some(vec![6])),
        trigger("joined the game", "first", None),
    ];
    assert_eq!(matching_actions(&triggers, JOINED, Some(5)), vec!["first", "second", "first"]);
    assert_eq!(matching_actions(&triggers, JOINED, Some(6)), vec!["first", "elsewhere", "first"]);
    assert_eq!(matching_actions(&triggers, JOINED, None), vec!["first", "first"]);
    assert_eq!(matching_actions(&triggers, "nothing", Some(5)), Vec::<String>::new());
    assert_eq!(matching_actions(&Vec::new(), JOINED, Some(5)), Vec::<String>::new());
}

#[test]
fn compiled_trigger_keeps_what_the_record_says() {
    let compiled = compile_trigger(definition(Some("join"), r"(\w+) joined", "on_player_joined", Some(vec![5, 6])));
    let t = match compiled {
        Ok(t) => t,
        Err(_) => panic!("the pattern is well-formed"),
    };
    assert_eq!(t.name, "join");
    assert_eq!(t.pattern_text(), r"(\w+) joined");
    assert_eq!(t.pattern.as_str(), r"(\w+) joined");
    assert_eq!(t.action, "on_player_joined");
    assert_eq!(t.scope, Some(vec![5, 6]));
    let unnamed = compile_trigger(definition(None, "x", "y", None));
    assert!(matches!(unnamed, Ok(ref t) if t.name.is_empty() && t.scope.is_none()));
}

#[test]
fn ill_formed_pattern_is_rejected_with_its_name() {
    match compile_trigger(definition(Some("broken"), "foo(bar", "a", None)) {
        Ok(_) => panic!("an unclosed group does not compile"),
        Err(rejected) => {
            assert_eq!(rejected.name, "broken");
            assert_eq!(rejected.pattern, "foo(bar");
            assert!(matches!(rejected.error, PatternError::Syntax(_)));
        }
    }
    match compile_trigger(definition(None, r"\w{100000}", "a", None)) {
        Ok(_) => panic!("the expression is beyond the size limit"),
        Err(rejected) => {
            assert_eq!(rejected.name, "");
            assert!(matches!(rejected.error, PatternError::TooBig(_)));
        }
    }
}

#[test]
fn bad_pattern_does_not_stop_the_others_from_loading() {
    let loaded = load_triggers(vec![
        definition(Some("one"), "joined the game", "on_player_joined", None),
        definition(Some("two"), "foo(bar", "on_test", None),
        definition(Some("three"), "left the game", "on_player_left", Some(vec![5])),
        definition(None, "[", "on_test", None),
    ]);
    assert_eq!(loaded.triggers.len(), 2);
    assert_eq!(loaded.rejected.len(), 2);
    assert_eq!(loaded.triggers[0].name, "one");
    assert_eq!(loaded.triggers[0].action, "on_player_joined");
    assert_eq!(loaded.triggers[1].name, "three");
    assert_eq!(loaded.triggers[1].pattern_text(), "left the game");
    assert_eq!(loaded.triggers[1].scope, Some(vec![5]));
    assert_eq!(loaded.rejected[0].name, "two");
    assert_eq!(loaded.rejected[1].name, "");
    assert_eq!(loaded.rejected[1].pattern, "[");
    assert_eq!(
        matching_actions(&loaded.triggers, "[00:00:01] [Server thread/INFO]: Steve left the game", Some(5)),
        vec!["on_player_left"]
    );
    assert_eq!(matching_actions(&loaded.triggers, JOINED, Some(5)), vec!["on_player_joined"]);
}

#[test]
fn no_records_give_no_triggers() {
    let loaded = load_triggers(Vec::new());
    assert!(loaded.triggers.is_empty());
    assert!(loaded.rejected.is_empty());
}

#[test]
fn outcomes_are_sorted_in_order() {
    let outcomes = vec![
        compile_trigger(definition(Some("a"), "(", "x", None)),
        compile_trigger(definition(Some("b"), "b", "x", None)),
        compile_trigger(definition(Some("c"), "c", "x", None)),
        compile_trigger(definition(Some("d"), ")", "x", None)),
    ];
    let loaded = keep_compiled(outcomes);
    let kept: Vec<&str> = loaded.triggers.iter().map(|t| t.name.as_str()).collect();
    let left: Vec<&str> = loaded.rejected.iter().map(|r| r.name.as_str()).collect();
    assert_eq!(kept, vec!["b", "c"]);
    assert_eq!(left, vec!["a", "d"]);
}

#[test]
fn missing_configuration_gives_no_triggers() {
    let loaded = load(None);
    assert!(loaded.triggers.is_empty());
    assert!(loaded.rejected.is_empty());
    let loaded = load(Some(vec![
        definition(None, "a", "x", None),
        definition(None, "(", "y", None),
    ]));
    assert_eq!(loaded.triggers.len(), 1);
    assert_eq!(loaded.triggers[0].action, "x");
    assert_eq!(loaded.rejected.len(), 1);
    assert_eq!(loaded.rejected[0].pattern, "(");
}

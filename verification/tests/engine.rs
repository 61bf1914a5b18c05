use std::rc::Rc;

use dotgk::cache::sync::{SourceInfo, SyncReport};
use dotgk::cache::{set_command, Cache, CacheEntry, SourceState, UpdateType};
use dotgk::engine::{Engine, Layout};
use dotgk::environment::Environment;
use dotgk::error::Error;
use dotgk::evaluators::{BoolEvaluator, ConditionType, EvaluatorType, GatekeeperEvaluator, OneOrMany};
use dotgk::gatekeeper::{Evaluator, Gatekeeper, Group};
use dotgk::lua_executor::LuaGatekeeperResult;
use dotgk::names::NameMap;
use dotgk::primitives::{HostnameLookup, Platform};

fn flag(pass: bool) -> Group {
    Group {
        evaluator: Evaluator {
            evaluator_type: EvaluatorType::Bool(OneOrMany::One(BoolEvaluator { pass })),
            condition: ConditionType::Eq,
        },
    }
}

fn reference(name: &str) -> Group {
    Group {
        evaluator: Evaluator {
            evaluator_type: EvaluatorType::Gatekeeper(OneOrMany::One(GatekeeperEvaluator {
                name: name.to_string(),
            })),
            condition: ConditionType::Eq,
        },
    }
}

fn engine() -> Engine {
    let mut scripts = NameMap::new();
    scripts.insert("office/printer".to_string(), "-- ttl: 60\nreturn os(\"linux\")".to_string());
    scripts.insert("broken".to_string(), "return 3".to_string());
    scripts.insert("ring".to_string(), "return require(\"ring\")".to_string());
    scripts.insert("forever".to_string(), "-- ttl: 18446744073709551615\nreturn true".to_string());
    let mut environment = Environment::new(Platform {
        os: "linux".to_string(),
        unix: true,
        hostname: HostnameLookup::Name("workstation".to_string()),
    });
    environment.gatekeepers.insert(
        "declared".to_string(),
        Gatekeeper { groups: vec![flag(true)], condition: ConditionType::All, ttl: Some(30) },
    );
    environment.gatekeepers.insert(
        "circle".to_string(),
        Gatekeeper { groups: vec![reference("circle")], condition: ConditionType::Any, ttl: None },
    );
    environment.gatekeepers.insert(
        "office/printer".to_string(),
        Gatekeeper { groups: vec![flag(false)], condition: ConditionType::Any, ttl: None },
    );
    let mut faults = NameMap::new();
    faults.insert(
        "garbled".to_string(),
        Error::ParseError { message: "expected value at line 1 column 1".to_string() },
    );
    faults.insert("locked".to_string(), Error::IoError { message: "permission denied".to_string() });
    scripts.insert("locked".to_string(), "return true".to_string());
    let layout = Layout { config_dir: "/c".to_string(), script_extension: "lua".to_string() };
    Engine { layout, scripts: Rc::new(scripts), environment, faults }
}

#[test]
fn a_name_is_evaluated_from_its_script_or_else_its_declaration() {
    let engine = engine();
    assert_eq!(
        engine.evaluate("office/printer").unwrap(),
        LuaGatekeeperResult { value: true, ttl: Some(60) }
    );
    assert_eq!(engine.evaluate("declared").unwrap(), LuaGatekeeperResult { value: true, ttl: Some(30) });
    assert!(matches!(engine.evaluate("circle"), Err(Error::CircularDependency { .. })));
    assert!(matches!(engine.evaluate("ring"), Err(Error::CircularDependency { .. })));
    assert!(matches!(engine.evaluate("broken"), Err(Error::ParseError { .. })));
    match engine.evaluate("nothing") {
        Err(Error::NotFound { name, tried }) => {
            assert_eq!(name, "nothing");
            assert_eq!(tried, vec!["/c/gatekeepers/nothing.lua".to_string()]);
        },
        other => panic!("unexpected: {:?}", other),
    }
    assert_eq!(
        engine.evaluate("meta/nothing").unwrap_err().message(),
        "Gatekeeper 'meta/nothing' not found (tried: /c/gatekeepers/meta/nothing.lua)"
    );
}

#[test]
fn a_source_that_could_not_be_read_fails_with_its_own_failure() {
    let engine = engine();
    let garbled = engine.evaluate("garbled").unwrap_err();
    assert!(matches!(garbled, Error::ParseError { .. }));
    assert_eq!(garbled.message(), "expected value at line 1 column 1");
    let locked = engine.evaluate("locked").unwrap_err();
    assert!(matches!(locked, Error::IoError { .. }));
    let names = vec!["garbled".to_string(), "locked".to_string(), "declared".to_string()];
    assert_eq!(engine.evaluate_all(&names, 5).names(), vec!["declared".to_string()]);
}

#[test]
fn evaluate_all_gathers_what_can_be_cached() {
    let engine = engine();
    let names: Vec<String> = ["declared", "broken", "circle", "nothing", "office/printer", "forever", "declared"]
        .iter()
        .map(|n| n.to_string())
        .collect();
    let outcomes = engine.evaluate_all(&names, 1000);
    assert_eq!(outcomes.names(), vec!["declared".to_string(), "office/printer".to_string()]);
    assert_eq!(outcomes.get("declared"), Some(&LuaGatekeeperResult { value: true, ttl: Some(30) }));
    let at_zero = engine.evaluate_all(&vec!["forever".to_string()], 0);
    assert_eq!(at_zero.get("forever"), Some(&LuaGatekeeperResult { value: true, ttl: Some(u64::MAX) }));
}

#[test]
fn get_answers_from_the_cache_or_evaluates_and_writes_back() {
    let engine = engine();
    let mut cache = Cache::new(0);
    let source = SourceState::ModifiedAt(500);

    assert_eq!(engine.get(&mut cache, "office/printer", source, 1000).unwrap(), true);
    let written = CacheEntry { value: true, ts: 1000, update_type: UpdateType::Evaluate, expires_at: Some(1060) };
    assert_eq!(cache.cache.get("office/printer"), Some(&written));
    assert_eq!(cache.ts, 1000);

    assert_eq!(engine.get(&mut cache, "office/printer", source, 1059).unwrap(), true);
    assert_eq!(cache.cache.get("office/printer"), Some(&written));
    assert_eq!(cache.ts, 1000);

    assert_eq!(engine.get(&mut cache, "office/printer", source, 1060).unwrap(), true);
    assert_eq!(cache.cache.get("office/printer").unwrap().ts, 1060);
    assert_eq!(cache.cache.get("office/printer").unwrap().expires_at, Some(1120));

    assert_eq!(engine.get(&mut cache, "office/printer", SourceState::ModifiedAt(1061), 1070).unwrap(), true);
    assert_eq!(cache.cache.get("office/printer").unwrap().ts, 1070);

    set_command(&mut cache, "flag", false, None, 1080);
    assert_eq!(engine.get(&mut cache, "flag", SourceState::Missing, 99999).unwrap(), false);
    assert!(matches!(engine.get(&mut cache, "nothing", SourceState::Missing, 1), Err(Error::NotFound { .. })));
    assert!(!cache.cache.contains_key("nothing"));

    assert_eq!(engine.get(&mut cache, "forever", source, 2000).unwrap(), true);
    assert!(!cache.cache.contains_key("forever"));
}

#[test]
fn sync_evaluates_what_is_due_and_skips_what_fails() {
    let engine = engine();
    let mut sources = NameMap::new();
    for name in ["office/printer", "declared", "broken", "circle"] {
        sources.insert(
            name.to_string(),
            SourceInfo { is_gatekeeper: true, state: SourceState::ModifiedAt(10) },
        );
    }
    let mut existing = Cache::new(0);
    set_command(&mut existing, "legacy_flag", true, None, 1000);

    let (first, report) = engine.sync(&existing, &sources, false, 2000);
    assert_eq!(report, SyncReport { updated: 2, skipped: 0, preserved: 1, removed: 0 });
    assert_eq!(first.cache.len(), 3);
    assert_eq!(
        first.cache.get("office/printer"),
        Some(&CacheEntry { value: true, ts: 2000, update_type: UpdateType::Sync, expires_at: Some(2060) })
    );
    assert_eq!(
        first.cache.get("declared"),
        Some(&CacheEntry { value: true, ts: 2000, update_type: UpdateType::Sync, expires_at: Some(2030) })
    );
    assert_eq!(first.cache.get("legacy_flag"), existing.cache.get("legacy_flag"));

    let (second, report) = engine.sync(&first, &sources, false, 2001);
    assert_eq!(report, SyncReport { updated: 0, skipped: 2, preserved: 1, removed: 0 });
    assert_eq!(second.cache.get("declared"), first.cache.get("declared"));

    let (forced, report) = engine.sync(&second, &sources, true, 2002);
    assert_eq!(report, SyncReport { updated: 2, skipped: 0, preserved: 1, removed: 0 });
    assert_eq!(forced.cache.get("declared").unwrap().ts, 2002);
}

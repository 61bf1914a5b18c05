use std::rc::Rc;

use dotgk::context::EvaluationContext;
use dotgk::error::Error;
use dotgk::lua_executor::offer::{
    emptied_fields, offered_functions, ttl_key, value_key, withheld_globals,
};
use dotgk::lua_executor::{
    candidate_names_in, directory_of, evaluate, find_script, format_script, has_script, interpret,
    load_required, parse_ttl_comment, resolve_required, HostFunction, LuaExecutor,
    LuaGatekeeperResult, Scope, ScriptValue, TextPredicate,
};
use dotgk::primitives::Combinator;
use dotgk::names::NameMap;
use dotgk::primitives::{HostnameLookup, Platform};

fn linux() -> Platform {
    Platform::probe("linux".to_string(), true)
}

fn scripts(all: &[(&str, &str)]) -> Rc<NameMap<String>> {
    let mut map = NameMap::new();
    for (name, text) in all {
        map.insert(name.to_string(), text.to_string());
    }
    Rc::new(map)
}

#[test]
fn test_file_exists() {
    let executor = LuaExecutor::new(&linux()).unwrap();
    let result = executor.execute(r#"return file_exists("/etc/passwd")"#).unwrap();
    assert_eq!(result.value, true);
}

#[test]
fn test_file_not_exists() {
    let executor = LuaExecutor::new(&linux()).unwrap();
    let result = executor.execute(r#"return file_exists("/nonexistent/path/12345")"#).unwrap();
    assert_eq!(result.value, false);
}

#[test]
fn test_os_check() {
    let executor = LuaExecutor::new(&linux()).unwrap();
    let result = executor.execute(r#"return os("linux")"#).unwrap();
    assert_eq!(result.value, true);
}

#[test]
fn test_any_combinator() {
    let executor = LuaExecutor::new(&linux()).unwrap();
    let result = executor
        .execute(
            r#"
            return any({
                file_exists("/nonexistent1"),
                file_exists("/etc/passwd"),
            })
        "#,
        )
        .unwrap();
    assert_eq!(result.value, true);
}

#[test]
fn test_all_combinator() {
    let executor = LuaExecutor::new(&linux()).unwrap();
    let result = executor
        .execute(
            r#"
            return all({
                file_exists("/etc/passwd"),
                file_exists("/etc/passwd"),
            })
        "#,
        )
        .unwrap();
    assert_eq!(result.value, true);
}

#[test]
fn test_none_combinator() {
    let executor = LuaExecutor::new(&linux()).unwrap();
    let result = executor
        .execute(
            r#"
            return none({
                file_exists("/nonexistent1"),
                file_exists("/nonexistent2"),
            })
        "#,
        )
        .unwrap();
    assert_eq!(result.value, true);
}

#[test]
fn test_ttl_parsing() {
    let executor = LuaExecutor::new(&linux()).unwrap();
    let result = executor
        .execute(
            r#"
            -- ttl: 3600
            return true
        "#,
        )
        .unwrap();
    assert_eq!(result.value, true);
    assert_eq!(result.ttl, Some(3600));
}

#[test]
fn test_table_return() {
    let executor = LuaExecutor::new(&linux()).unwrap();
    let result = executor
        .execute(
            r#"
            return {
                value = true,
                ttl = 7200,
            }
        "#,
        )
        .unwrap();
    assert_eq!(result.value, true);
    assert_eq!(result.ttl, Some(7200));
}

#[test]
fn test_variables() {
    let executor = LuaExecutor::new(&linux()).unwrap();
    let result = executor
        .execute(
            r#"
            local is_linux = os("linux")
            local has_passwd = file_exists("/etc/passwd")
            return is_linux and has_passwd
        "#,
        )
        .unwrap();
    assert_eq!(result.value, true);
}

#[test]
fn the_ttl_of_the_table_goes_before_that_of_the_comment() {
    let executor = LuaExecutor::new(&linux()).unwrap();
    let both = executor.execute("-- ttl: 60\nreturn { value = true, ttl = 5 }").unwrap();
    assert_eq!(both, LuaGatekeeperResult { value: true, ttl: Some(5) });
    let comment_only = executor.execute("-- ttl: 60\nreturn { value = false }").unwrap();
    assert_eq!(comment_only, LuaGatekeeperResult { value: false, ttl: Some(60) });
    let neither = executor.execute("return { value = false }").unwrap();
    assert_eq!(neither, LuaGatekeeperResult { value: false, ttl: None });
}

#[test]
fn a_table_without_a_boolean_value_is_refused() {
    let executor = LuaExecutor::new(&linux()).unwrap();
    for script in ["return { ttl = 5 }", "return { value = 1 }", "return { value = \"true\" }"] {
        let error = executor.execute(script).unwrap_err();
        assert!(matches!(error, Error::ParseError { .. }));
        assert_eq!(error.message(), "Table must contain a 'value' field of type boolean");
    }
}

#[test]
fn interpret_reads_each_kind_of_value() {
    let missing = || Some(Error::NotFound { name: "x".to_string(), tried: vec![] });
    assert_eq!(
        interpret(ScriptValue::Boolean(true), None, Some(9), "x").unwrap(),
        LuaGatekeeperResult { value: true, ttl: Some(9) }
    );
    assert_eq!(
        interpret(ScriptValue::Boolean(true), missing(), None, "x").unwrap(),
        LuaGatekeeperResult { value: true, ttl: None }
    );
    assert_eq!(
        interpret(ScriptValue::Record { value: Some(false), ttl: None }, None, Some(9), "x").unwrap(),
        LuaGatekeeperResult { value: false, ttl: Some(9) }
    );
    assert_eq!(
        interpret(ScriptValue::Record { value: Some(false), ttl: Some(1) }, None, Some(9), "x").unwrap(),
        LuaGatekeeperResult { value: false, ttl: Some(1) }
    );
    assert_eq!(
        interpret(ScriptValue::Other("Integer(3)".to_string()), None, None, "return 3")
            .unwrap_err()
            .message(),
        "Lua script must return a boolean or table with 'value' field.\nGot: Integer(3)"
    );
    assert_eq!(
        interpret(ScriptValue::Failed("boom".to_string()), None, None, "a\nb").unwrap_err().message(),
        "Lua execution failed:\n  1 | a\n  2 | b\nError: boom"
    );
    let died = "runtime error: Gatekeeper 'x' not found\nstack traceback: ...".to_string();
    assert!(matches!(
        interpret(ScriptValue::Failed(died), missing(), None, "a"),
        Err(Error::NotFound { name, .. }) if name == "x"
    ));
    assert!(matches!(
        interpret(ScriptValue::Failed("boom".to_string()), missing(), None, "a"),
        Err(Error::ParseError { .. })
    ));
}

#[test]
fn a_failure_that_the_script_caught_is_not_its_failure() {
    let store = scripts(&[
        ("caught", "local ok = pcall(require, \"nothing\")\nerror(\"for another reason\")"),
        ("passed_on", "local ok, why = pcall(require, \"nothing\")\nerror(why)"),
        ("survived", "local ok = pcall(os, \"plan9\")\nreturn not ok"),
    ]);
    assert!(matches!(evaluate(&linux(), &store, "caught"), Err(Error::ParseError { .. })));
    assert!(matches!(evaluate(&linux(), &store, "passed_on"), Err(Error::NotFound { .. })));
    assert_eq!(evaluate(&linux(), &store, "survived").unwrap().value, true);
}

#[test]
fn parse_ttl_comment_finds_the_first_annotation() {
    assert_eq!(parse_ttl_comment("return true"), None);
    assert_eq!(parse_ttl_comment("-- ttl: 3600\nreturn true"), Some(3600));
    assert_eq!(parse_ttl_comment("--ttl:7"), Some(7));
    assert_eq!(parse_ttl_comment("  \t--   ttl:   42 seconds\r\nreturn true"), Some(42));
    assert_eq!(parse_ttl_comment("return true\n-- ttl: 1\n-- ttl: 2"), Some(1));
    assert_eq!(parse_ttl_comment("return true -- ttl: 5"), None);
    assert_eq!(parse_ttl_comment("-- TTL: 5"), None);
    assert_eq!(parse_ttl_comment("-- ttl: -5"), None);
    assert_eq!(parse_ttl_comment("-- ttl: 18446744073709551615"), Some(u64::MAX));
    assert_eq!(parse_ttl_comment("-- ttl: 18446744073709551616\n-- ttl: 3"), None);
    assert_eq!(parse_ttl_comment("-- ttl: \u{0663}\n-- ttl: 3"), None);
}

#[test]
fn format_script_numbers_the_lines() {
    assert_eq!(format_script(""), "");
    assert_eq!(format_script("return true"), "  1 | return true");
    assert_eq!(format_script("a\r\nb\n\nc\n"), "  1 | a\n  2 | b\n  3 | \n  4 | c");
    let long: String = (0..120).map(|_| "x\n").collect();
    let shown = format_script(&long);
    assert!(shown.contains("\n  9 | x\n 10 | x\n"));
    assert!(shown.contains("\n 99 | x\n100 | x\n"));
    assert!(shown.ends_with("\n120 | x"));
}

#[test]
fn the_interpreter_offers_nothing_of_the_machine() {
    let executor = LuaExecutor::new(&linux()).unwrap();
    for gone in ["io", "dofile", "loadfile", "print"] {
        let result = executor.execute(&format!("return {} == nil", gone)).unwrap();
        assert_eq!(result.value, true);
    }
    assert_eq!(executor.execute("return package.path == ''").unwrap().value, true);
    assert_eq!(executor.execute("return bool(false)").unwrap().value, false);
}

#[test]
fn an_unknown_system_is_a_failure_not_false() {
    let executor = LuaExecutor::new(&linux()).unwrap();
    let error = executor.execute(r#"return os("plan9")"#).unwrap_err();
    assert!(matches!(&error, Error::UnknownOsIdentifier { name } if name == "plan9"));
    assert_eq!(error.message(), "Unknown OS 'plan9'. Valid options: linux, macos, windows, unix");
    assert_eq!(executor.execute(r#"return os_equals("darwin")"#).unwrap().value, false);
    assert_eq!(executor.execute(r#"return os_equals("unix")"#).unwrap().value, true);
}

#[test]
fn hostname_equals_compares_with_this_machine() {
    let executor = LuaExecutor::new(&linux()).unwrap();
    let other = executor.execute(r#"return hostname_equals("hopefullynotarealhostname")"#).unwrap();
    assert_eq!(other.value, false);
    let same = executor.execute(r#"return hostname("hopefullynotarealhostname")"#).unwrap();
    assert_eq!(same.value, false);
}

fn machine_called(name: &str) -> Platform {
    Platform { os: "linux".to_string(), unix: true, hostname: HostnameLookup::Name(name.to_string()) }
}

#[test]
fn the_printer_gatekeeper_holds_on_the_corp_laptop_only() {
    let store = scripts(&[("office/printer", "return hostname_equals(\"corp-laptop\")")]);
    let here = evaluate(&machine_called("corp-laptop"), &store, "office/printer").unwrap();
    assert_eq!(here, LuaGatekeeperResult { value: true, ttl: None });
    for other in ["corp-laptop-2", "Corp-Laptop", "home", ""] {
        let there = evaluate(&machine_called(other), &store, "office/printer").unwrap();
        assert_eq!(there.value, false, "on {:?}", other);
    }
    let nameless = Platform {
        os: "linux".to_string(),
        unix: true,
        hostname: HostnameLookup::Failed(dotgk::error::HostLookupFailure::Unavailable),
    };
    let error = evaluate(&nameless, &store, "office/printer").unwrap_err();
    assert!(matches!(error, Error::HostLookup { .. }));
    assert_eq!(error.message(), "Failed to get hostname");
}

#[test]
fn a_script_gives_the_same_answer_each_time() {
    let store = scripts(&[
        ("leaf", "return file_exists(\"/etc/passwd\")"),
        ("g", "-- ttl: 5\nreturn all({ hostname(\"box\"), os(\"unix\"), require(\"leaf\") })"),
    ]);
    let first = evaluate(&machine_called("box"), &store, "g").unwrap();
    let second = evaluate(&machine_called("box"), &store, "g").unwrap();
    assert_eq!(first, LuaGatekeeperResult { value: true, ttl: Some(5) });
    assert_eq!(first, second);
}

#[test]
fn require_gives_the_value_of_the_other_gatekeeper_without_its_ttl() {
    let store = scripts(&[
        ("meta/devserver", "-- ttl: 5\nreturn true"),
        ("office/printer", "-- ttl: 60\nreturn require(\"meta.devserver\")"),
        ("negated", "return not require(\"meta/devserver\")"),
    ]);
    assert_eq!(
        evaluate(&linux(), &store, "office/printer").unwrap(),
        LuaGatekeeperResult { value: true, ttl: Some(60) }
    );
    assert_eq!(
        evaluate(&linux(), &store, "negated").unwrap(),
        LuaGatekeeperResult { value: false, ttl: None }
    );
}

#[test]
fn a_name_without_separator_falls_back_to_the_entrypoint() {
    let store = scripts(&[
        ("meta/init", "return require(\"laptop\")"),
        ("meta/laptop", "return true"),
        ("both", "return true"),
        ("both/init", "return false"),
        ("user", "return require(\"meta\") and require(\"both\")"),
    ]);
    assert_eq!(evaluate(&linux(), &store, "meta").unwrap().value, true);
    assert_eq!(evaluate(&linux(), &store, "both").unwrap().value, true);
    assert_eq!(evaluate(&linux(), &store, "user").unwrap().value, true);
    assert!(matches!(evaluate(&linux(), &store, "meta/nothing"), Err(Error::NotFound { .. })));
    assert!(matches!(evaluate(&linux(), &store, "laptop"), Err(Error::NotFound { .. })));
}

#[test]
fn a_circle_of_scripts_fails_and_ends() {
    let store = scripts(&[
        ("a", "return require(\"b\")"),
        ("b", "return require(\"c\")"),
        ("c", "return require(\"a\")"),
        ("self", "return require(\"self\")"),
    ]);
    match evaluate(&linux(), &store, "a") {
        Err(Error::CircularDependency { name, chain }) => {
            assert_eq!(name, "a");
            assert_eq!(chain, vec!["a".to_string(), "b".to_string(), "c".to_string()]);
        },
        other => panic!("unexpected: {:?}", other),
    }
    let error = evaluate(&linux(), &store, "b").unwrap_err();
    assert_eq!(
        error.message(),
        "Circular dependency detected: gatekeeper 'b' references itself\nCall chain: b → c → a → b"
    );
    let error = evaluate(&linux(), &store, "self").unwrap_err();
    assert!(matches!(error, Error::CircularDependency { .. }));
    assert_eq!(
        error.message(),
        "Circular dependency detected: gatekeeper 'self' references itself\nCall chain: self → self"
    );
}

#[test]
fn a_sibling_requirement_of_the_same_name_is_no_circle() {
    let store = scripts(&[
        ("leaf", "return true"),
        ("broken", "return 7"),
        ("twice", "return require(\"leaf\") and require(\"leaf\")"),
        ("after_failure", "local ok = pcall(require, \"broken\")\nlocal again = pcall(require, \"broken\")\nreturn (not ok) and (not again) and require(\"leaf\")"),
    ]);
    assert_eq!(evaluate(&linux(), &store, "twice").unwrap().value, true);
    assert_eq!(evaluate(&linux(), &store, "after_failure").unwrap().value, true);
}

#[test]
fn a_missing_requirement_fails_the_script() {
    let store = scripts(&[("user", "return require(\"nothing.here\")")]);
    let error = evaluate(&linux(), &store, "user").unwrap_err();
    assert!(matches!(&error, Error::NotFound { name, .. } if name == "nothing.here"));
    assert_eq!(error.message(), "Gatekeeper 'nothing.here' not found (tried: nothing/here)");
    let error = evaluate(&linux(), &store, "absent").unwrap_err();
    assert_eq!(error.message(), "Gatekeeper 'absent' not found (tried: absent, absent/init)");
}

#[test]
fn resolve_required_tries_the_candidates_in_order() {
    let store = scripts(&[("meta/init", ""), ("meta/laptop", ""), ("os", ""), ("os/init", "")]);
    let mut path = EvaluationContext::new();
    path.visit("meta/init").unwrap();
    let none = None;
    let meta = Some("meta".to_string());
    assert_eq!(resolve_required(&store, &path, &none, "os").unwrap(), "os");
    assert_eq!(resolve_required(&store, &path, &none, "meta.laptop").unwrap(), "meta/laptop");
    assert_eq!(resolve_required(&store, &path, &meta, "laptop").unwrap(), "meta/laptop");
    assert!(matches!(resolve_required(&store, &path, &none, "laptop"), Err(Error::NotFound { .. })));
    match resolve_required(&store, &path, &none, "meta") {
        Err(Error::CircularDependency { name, chain }) => {
            assert_eq!(name, "meta/init");
            assert_eq!(chain, vec!["meta/init".to_string()]);
        },
        other => panic!("unexpected: {:?}", other),
    }
    assert_eq!(
        candidate_names_in(&meta, "laptop"),
        vec!["laptop".to_string(), "laptop/init".to_string(), "meta/laptop".to_string()]
    );
    assert_eq!(directory_of("meta/init"), Some("meta".to_string()));
    assert_eq!(directory_of("meta/laptop"), None);
    assert_eq!(directory_of("/init"), None);
    assert_eq!(directory_of("init"), None);
}

#[test]
fn load_required_refuses_a_name_in_progress() {
    let store = scripts(&[("a", "return true")]);
    let mut path = EvaluationContext::new();
    path.visit("a").unwrap();
    let scope = Scope { platform: linux(), scripts: store.clone(), context: path, directory: None };
    assert!(matches!(load_required(&scope, "a"), Err(Error::CircularDependency { .. })));
    assert!(matches!(load_required(&scope, "b"), Err(Error::NotFound { .. })));
    let fresh = Scope {
        platform: linux(),
        scripts: store,
        context: EvaluationContext::new(),
        directory: None,
    };
    assert_eq!(load_required(&fresh, "a").unwrap(), true);
}

#[test]
fn a_script_can_ask_relative_to_its_directory() {
    let store = scripts(&[
        ("office/init", "return require(\"printer\")"),
        ("office/printer", "return hostname_equals(\"hopefullynotarealhostname\") or true"),
    ]);
    assert_eq!(evaluate(&linux(), &store, "office").unwrap().value, true);
}

#[test]
fn what_a_script_is_offered_and_what_is_kept_from_it() {
    let table: Vec<(String, HostFunction)> =
        offered_functions().into_iter().map(|o| (o.name, o.function)).collect();
    let expected = vec![
        ("file_exists", HostFunction::Condition(TextPredicate::FileExists)),
        ("hostname", HostFunction::Condition(TextPredicate::HostnameEquals)),
        ("hostname_equals", HostFunction::Condition(TextPredicate::HostnameEquals)),
        ("os", HostFunction::Condition(TextPredicate::OsEquals)),
        ("os_equals", HostFunction::Condition(TextPredicate::OsEquals)),
        ("any", HostFunction::Combination(Combinator::Any)),
        ("all", HostFunction::Combination(Combinator::All)),
        ("none", HostFunction::Combination(Combinator::NoneOf)),
        ("bool", HostFunction::Identity),
    ];
    assert_eq!(table.len(), expected.len());
    for ((name, function), (wanted, kind)) in table.iter().zip(expected) {
        assert_eq!(name, wanted);
        assert_eq!(*function, kind);
    }
    assert_eq!(withheld_globals(), vec!["io", "os", "dofile", "loadfile", "print"]);
    assert_eq!(emptied_fields(), vec!["path", "cpath"]);
    assert_eq!(value_key(), "value");
    assert_eq!(ttl_key(), "ttl");

    let executor = LuaExecutor::new(&linux()).unwrap();
    for name in ["file_exists", "hostname", "hostname_equals", "os", "os_equals", "any", "all", "none", "bool", "require"] {
        let result = executor.execute(&format!("return type({}) == \"function\"", name)).unwrap();
        assert_eq!(result.value, true, "for {}", name);
    }
    assert_eq!(executor.execute("return package.cpath == ''").unwrap().value, true);
    assert_eq!(executor.execute("return any({false, true}) and not all({false, true})").unwrap().value, true);
    assert_eq!(executor.execute("return none({true})").unwrap().value, false);
}

#[test]
fn the_first_candidate_with_a_script_is_found() {
    let store = scripts(&[("b", ""), ("c", "")]);
    let tries: Vec<String> = ["a", "b", "c"].iter().map(|n| n.to_string()).collect();
    assert_eq!(find_script(&store, &tries), Some("b".to_string()));
    assert_eq!(find_script(&store, &vec!["a".to_string()]), None);
    assert_eq!(find_script(&store, &Vec::new()), None);
    assert!(has_script(&store, "b"));
    assert!(!has_script(&store, "a"));
}

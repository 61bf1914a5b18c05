use dotgk::lua_executor::LuaExecutor;
use dotgk::primitives::Platform;

fn linux() -> Platform {
    Platform::probe("linux".to_string(), true)
}

#[test]
fn test_lua_simple_boolean() {
    let executor = LuaExecutor::new(&linux()).unwrap();
    let result = executor.execute("return true").unwrap();
    assert_eq!(result.value, true);
    assert_eq!(result.ttl, None);
}

#[test]
fn test_lua_file_exists() {
    let executor = LuaExecutor::new(&linux()).unwrap();

    let result = executor.execute(r#"return file_exists("/etc/passwd")"#).unwrap();
    assert_eq!(result.value, true);

    let result = executor
        .execute(r#"return file_exists("/nonexistent/test/file/12345")"#)
        .unwrap();
    assert_eq!(result.value, false);
}

#[test]
fn test_lua_os_check() {
    let executor = LuaExecutor::new(&linux()).unwrap();

    let result = executor.execute(r#"return os("linux")"#).unwrap();
    assert_eq!(result.value, true);

    let result = executor.execute(r#"return os("macos")"#).unwrap();
    assert_eq!(result.value, false);

    let result = executor.execute(r#"return os("windows")"#).unwrap();
    assert_eq!(result.value, false);
}

#[test]
fn test_lua_any_combinator() {
    let executor = LuaExecutor::new(&linux()).unwrap();

    let result = executor.execute(r#"return any({true, false, false})"#).unwrap();
    assert_eq!(result.value, true);

    let result = executor.execute(r#"return any({false, false, false})"#).unwrap();
    assert_eq!(result.value, false);

    let result = executor.execute(r#"return any({true, true, true})"#).unwrap();
    assert_eq!(result.value, true);
}

#[test]
fn test_lua_all_combinator() {
    let executor = LuaExecutor::new(&linux()).unwrap();

    let result = executor.execute(r#"return all({true, true, true})"#).unwrap();
    assert_eq!(result.value, true);

    let result = executor.execute(r#"return all({true, false, true})"#).unwrap();
    assert_eq!(result.value, false);

    let result = executor.execute(r#"return all({false, false, false})"#).unwrap();
    assert_eq!(result.value, false);
}

#[test]
fn test_lua_none_combinator() {
    let executor = LuaExecutor::new(&linux()).unwrap();

    let result = executor.execute(r#"return none({false, false, false})"#).unwrap();
    assert_eq!(result.value, true);

    let result = executor.execute(r#"return none({false, true, false})"#).unwrap();
    assert_eq!(result.value, false);

    let result = executor.execute(r#"return none({true, true, true})"#).unwrap();
    assert_eq!(result.value, false);
}

#[test]
fn test_lua_variables() {
    let executor = LuaExecutor::new(&linux()).unwrap();

    let result = executor
        .execute(
            r#"
        local is_linux = os("linux")
        local is_unix = os("unix")
        return is_linux or is_unix
    "#,
        )
        .unwrap();

    assert_eq!(result.value, true);
}

#[test]
fn test_lua_ttl_comment() {
    let executor = LuaExecutor::new(&linux()).unwrap();

    let result = executor
        .execute(
            r#"
        -- ttl: 3600
        return true
    "#,
        )
        .unwrap();

    assert_eq!(result.value, true);
    assert_eq!(result.ttl, Some(3600));
}

#[test]
fn test_lua_ttl_table() {
    let executor = LuaExecutor::new(&linux()).unwrap();

    let result = executor
        .execute(
            r#"
        return {
            value = false,
            ttl = 7200,
        }
    "#,
        )
        .unwrap();

    assert_eq!(result.value, false);
    assert_eq!(result.ttl, Some(7200));
}

#[test]
fn test_lua_complex_logic() {
    let executor = LuaExecutor::new(&linux()).unwrap();

    let result = executor
        .execute(
            r#"
        local is_unix = os("unix")
        local has_etc = file_exists("/etc")

        return all({
            is_unix,
            has_etc or os("windows"),
        })
    "#,
        )
        .unwrap();

    assert_eq!(result.value, true);
}

#[test]
fn test_lua_syntax_error() {
    let executor = LuaExecutor::new(&linux()).unwrap();

    let result = executor.execute("return invalid syntax here");
    assert!(result.is_err());

    let err_msg = result.unwrap_err().message();
    assert!(err_msg.contains("Lua execution failed"));
}

#[test]
fn test_lua_wrong_return_type() {
    let executor = LuaExecutor::new(&linux()).unwrap();

    let result = executor.execute(r#"return "string value""#);
    assert!(result.is_err());

    let err_msg = result.unwrap_err().message();
    assert!(err_msg.contains("must return a boolean"));
}

//! The interpreter, and the few things that are done to it.
//!
//! Everything here is a call into the `mlua` crate. What a script answers
//! depends on the machine it runs on, so nothing is promised of what the
//! interpreter returns.

use vstd::prelude::*;
use crate::error::Error;
use crate::lua_executor::{
    load_required_text, resolve_required_text, text_predicate_text, Scope, ScriptValue,
    TextPredicate,
};
use crate::primitives::{combinator, Combinator, Platform};

verus! {

/// A Lua interpreter of the `mlua` crate.
#[verifier::external_type_specification]
#[verifier::external_body]
pub struct ExLua(mlua::Lua);

/// `mlua::Lua::new` makes an interpreter with the safe standard libraries
/// loaded.
#[verifier::external_body]
pub(crate) fn new_interpreter() -> mlua::Lua {
    mlua::Lua::new()
}

/// Sets the global `name` of the interpreter to nil with `Table::set` on
/// `Lua::globals`, so that scripts no longer find what stood there.
#[verifier::external_body]
pub(crate) fn clear_global(lua: &mlua::Lua, name: &str) -> Result<(), String> {
    lua.globals().set(name, mlua::Value::Nil).map_err(|e| e.to_string())
}

/// Sets the field `key` of the global table `table` to the text `value`,
/// with `Table::get` and `Table::set`.
#[verifier::external_body]
pub(crate) fn set_table_text(lua: &mlua::Lua, table: &str, key: &str, value: &str) -> Result<
    (),
    String,
> {
    let fields = lua.globals().get::<_, mlua::Table>(table).map_err(|e| e.to_string())?;
    fields.set(key, value).map_err(|e| e.to_string())
}

/// Keeps `failure` with the interpreter, in place of what was kept there,
/// with `Lua::try_set_app_data`. Where what is kept is borrowed, that call
/// keeps nothing; nothing here ever borrows it.
#[verifier::external_body]
pub(crate) fn note_failure(lua: &mlua::Lua, failure: Error) {
    let _ = lua.try_set_app_data(Some(failure));
}

/// Takes out what `note_failure` has kept with the interpreter, if it has
/// kept something since the last time: `Lua::try_set_app_data` puts nothing
/// in its place and hands out what was there.
#[verifier::external_body]
pub(crate) fn take_failure(lua: &mlua::Lua) -> Option<Error> {
    lua.try_set_app_data::<Option<Error>>(None).ok().flatten().flatten()
}

/// Makes the global function `name` with `Lua::create_function`: called
/// with one text, it answers what `text_predicate_text` answers for `which`,
/// and raises the failure of that as a Lua error.
#[verifier::external_body]
pub(crate) fn register_text_predicate(
    lua: &mlua::Lua,
    name: &str,
    which: TextPredicate,
    platform: &Platform,
) -> Result<(), String> {
    let platform = platform.clone();
    let function = lua.create_function(move |lua, argument: String| {
        text_predicate_text(lua, which, &platform, &argument).map_err(mlua::Error::RuntimeError)
    });
    function.and_then(|f| lua.globals().set(name, f)).map_err(|e| e.to_string())
}

/// Makes the global function `name` with `Lua::create_function`: called
/// with a list of booleans, it answers what `combinator` makes of them.
#[verifier::external_body]
pub(crate) fn register_combinator(lua: &mlua::Lua, name: &str, which: Combinator) -> Result<
    (),
    String,
> {
    let function = lua.create_function(move |_, checks: Vec<bool>| Ok(combinator(which, &checks)));
    function.and_then(|f| lua.globals().set(name, f)).map_err(|e| e.to_string())
}

/// Makes the global function `name` with `Lua::create_function`: called
/// with a boolean, it answers that boolean.
#[verifier::external_body]
pub(crate) fn register_identity(lua: &mlua::Lua, name: &str) -> Result<(), String> {
    let function = lua.create_function(|_, value: bool| Ok(value));
    function.and_then(|f| lua.globals().set(name, f)).map_err(|e| e.to_string())
}

/// Puts a searcher first among `package.searchers`, with
/// `Lua::create_function` and `Table::raw_insert`. Asked for a module, the
/// searcher answers with a loader for what `resolve_required_text` makes of
/// the module's name; the loader answers what `load_required_text` gives.
/// A failure of either is raised as a Lua error.
#[verifier::external_body]
pub(crate) fn install_searcher(lua: &mlua::Lua, scope: &Scope) -> Result<(), String>
    requires
        scope.wf(),
{
    let outer = scope.clone();
    let searcher = lua.create_function(move |lua, module: String| {
        let found = resolve_required_text(lua, &outer, &module);
        let (name, inner) = (found.map_err(mlua::Error::RuntimeError)?, outer.clone());
        lua.create_function(move |lua, _: ()| {
            load_required_text(lua, &inner, &name).map_err(mlua::Error::RuntimeError)
        })
    });
    let package = lua.globals().get::<_, mlua::Table>("package");
    let searchers = package.and_then(|p| p.get::<_, mlua::Table>("searchers"));
    searchers.and_then(|s| s.raw_insert(1, searcher?)).map_err(|e| e.to_string())
}

/// Runs `script` with `Lua::load` and `Chunk::eval` and hands out what it
/// returned: a boolean as it is; of a table, the field `value_key` where it
/// is a boolean, and the field `ttl_key` where `mlua` reads it as a `u64`;
/// of anything else, how the interpreter shows it. A script that cannot be
/// read or that raises an error gives the interpreter's message.
#[verifier::external_body]
pub(crate) fn run_chunk(
    lua: &mlua::Lua,
    script: &str,
    value_key: &str,
    ttl_key: &str,
) -> ScriptValue {
    match lua.load(script).eval::<mlua::Value>() {
        Err(e) => ScriptValue::Failed(e.to_string()),
        Ok(mlua::Value::Boolean(b)) => ScriptValue::Boolean(b),
        Ok(mlua::Value::Table(t)) => ScriptValue::Record {
            value: t.get::<_, mlua::Value>(value_key).ok().and_then(|v| v.as_boolean()),
            ttl: t.get::<_, Option<u64>>(ttl_key).ok().flatten(),
        },
        Ok(other) => ScriptValue::Other(format!("{:?}", other)),
    }
}

} // verus!

//! Running one gatekeeper script and reading its result.
//!
//! A script is run in an interpreter that offers it the conditions of
//! `primitives`, the three combinators, and `require` for the other
//! gatekeepers, whose scripts the caller has read beforehand. What a script
//! hands back is read once, here, into a value and a time to live.

use std::rc::Rc;
use vstd::prelude::*;
use vstd::string::*;
use crate::context::EvaluationContext;
use crate::error::{Error, ErrorView};
use crate::names::NameMap;
use crate::error::message_text;
use crate::primitives::{
    file_exists, hostname_matches, hostname_outcome, os_equals, os_outcome, Combinator, Platform,
};
use crate::resolver::{candidate_names, candidates, module_to_name, slashed};
use crate::text::{
    chars_of, contains_text, ends_with, has_suffix, name_list, occurs_in, string_of,
};

pub mod annotation;
pub mod offer;
pub mod sandbox;

pub use annotation::{format_script, parse_ttl_comment};
pub use offer::{HostFunction, Offered};

verus! {

/// What one evaluation of a gatekeeper gives: its boolean, and for how many
/// seconds that boolean may be cached (`None`: without limit).
#[derive(Debug, Clone, Copy, PartialEq, Eq, Structural)]
pub struct LuaGatekeeperResult {
    pub value: bool,
    pub ttl: Option<u64>,
}

/// What a script handed back, as the interpreter gave it.
#[derive(Debug, Clone)]
pub enum ScriptValue {
    /// A plain boolean.
    Boolean(bool),
    /// A table: its field `value` where that is a boolean, and its field
    /// `ttl` where that is a number of seconds.
    Record { value: Option<bool>, ttl: Option<u64> },
    /// Something else, as the interpreter shows it.
    Other(String),
    /// Nothing: the script could not be read, or raised this error.
    Failed(String),
}

/// What a script is run in: the platform, the scripts of the gatekeepers
/// that it may require, the names that are being evaluated, and the
/// directory of which the script is the entrypoint, if it is one.
#[derive(Clone)]
pub struct Scope {
    pub platform: Platform,
    pub scripts: Rc<NameMap<String>>,
    pub context: EvaluationContext,
    pub directory: Option<String>,
}

impl Scope {
    /// No name is on the path twice, and every name on the path is the name
    /// of a script.
    pub open spec fn wf(&self) -> bool {
        &&& self.scripts.wf()
        &&& self.context.wf()
        &&& forall|i: int|
            0 <= i < self.context@.len() ==> self.scripts@.contains_key(#[trigger] self.context@[i])
    }

    /// Requirements are never nested deeper than there are scripts.
    pub proof fn lemma_nesting_is_bounded(&self)
        requires
            self.wf(),
        ensures
            self.context@.len() <= self.scripts@.dom().len(),
    {
        self.scripts.lemma_keys_are_domain();
        crate::context::lemma_path_is_bounded(self.context@, self.scripts@.dom());
    }

    pub open spec fn directory_view(&self) -> Option<Seq<char>> {
        match self.directory {
            Some(d) => Some(d@),
            None => None,
        }
    }
}

/// The conditions that take one text.
#[derive(Debug, Clone, Copy, PartialEq, Eq, Structural)]
pub enum TextPredicate {
    FileExists,
    HostnameEquals,
    OsEquals,
}

/// The result of running a script, as a mathematical value.
pub open spec fn evaluation_view(r: Result<LuaGatekeeperResult, Error>) -> Result<
    LuaGatekeeperResult,
    ErrorView,
> {
    match r {
        Ok(v) => Ok(v),
        Err(e) => Err(e@),
    }
}

/// The failure that a script died of, where it died with `reason`, and
/// `noted` is the failure that one of its conditions or requirements raised
/// last: that failure, if the script's own error carries its text; else the
/// script's error.
pub open spec fn cause(reason: Seq<char>, noted: Option<ErrorView>, script: Seq<char>) -> ErrorView {
    match noted {
        Some(e) if occurs_in(message_text(e), reason) => e,
        _ => ErrorView::ParseError {
            message: "Lua execution failed:\n"@ + annotation::formatted(script) + "\nError: "@
                + reason,
        },
    }
}

/// What is made of the value that a script handed back. A boolean is the
/// result, with the time to live of the script's comment. A table must hold
/// a boolean `value`; its `ttl` goes before that of the comment. Anything
/// else is a malformed script. A script that died fails with its `cause`.
pub open spec fn interpreted(
    outcome: ScriptValue,
    noted: Option<ErrorView>,
    comment_ttl: Option<u64>,
    script: Seq<char>,
) -> Result<LuaGatekeeperResult, ErrorView> {
    match outcome {
        ScriptValue::Boolean(value) => Ok(LuaGatekeeperResult { value, ttl: comment_ttl }),
        ScriptValue::Record { value: Some(value), ttl } => Ok(
            LuaGatekeeperResult {
                value,
                ttl: match ttl {
                    Some(t) => Some(t),
                    None => comment_ttl,
                },
            },
        ),
        ScriptValue::Record { value: None, ttl } => Err(
            ErrorView::ParseError {
                message: "Table must contain a 'value' field of type boolean"@,
            },
        ),
        ScriptValue::Other(shown) => Err(
            ErrorView::ParseError {
                message: "Lua script must return a boolean or table with 'value' field.\nGot: "@
                    + shown@,
            },
        ),
        ScriptValue::Failed(reason) => Err(cause(reason@, noted, script)),
    }
}

/// A failure that may have been noted, as a mathematical value.
pub open spec fn noted_view(noted: Option<Error>) -> Option<ErrorView> {
    match noted {
        Some(e) => Some(e@),
        None => None,
    }
}

pub fn interpret(
    outcome: ScriptValue,
    noted: Option<Error>,
    comment_ttl: Option<u64>,
    script: &str,
) -> (r: Result<LuaGatekeeperResult, Error>)
    ensures
        evaluation_view(r) == interpreted(outcome, noted_view(noted), comment_ttl, script@),
{
    match outcome {
        ScriptValue::Boolean(value) => Ok(LuaGatekeeperResult { value, ttl: comment_ttl }),
        ScriptValue::Record { value: Some(value), ttl } => {
            let ttl = match ttl {
                Some(t) => Some(t),
                None => comment_ttl,
            };
            Ok(LuaGatekeeperResult { value, ttl })
        },
        ScriptValue::Record { value: None, ttl } => Err(
            Error::ParseError {
                message: String::from_str("Table must contain a 'value' field of type boolean"),
            },
        ),
        ScriptValue::Other(shown) => {
            let mut message = String::from_str(
                "Lua script must return a boolean or table with 'value' field.\nGot: ",
            );
            message.append(shown.as_str());
            Err(Error::ParseError { message })
        },
        ScriptValue::Failed(reason) => {
            match noted {
                Some(e) => {
                    if contains_text(reason.as_str(), e.message().as_str()) {
                        return Err(e);
                    }
                },
                None => {},
            }
            let mut message = String::from_str("Lua execution failed:\n");
            let shown = format_script(script);
            message.append(shown.as_str());
            message.append("\nError: ");
            message.append(reason.as_str());
            Err(Error::ParseError { message })
        },
    }
}

/// An answer, or the text that describes the failure.
pub open spec fn answer_text(r: Result<bool, ErrorView>) -> Result<bool, Seq<char>> {
    match r {
        Ok(b) => Ok(b),
        Err(e) => Err(message_text(e)),
    }
}

pub open spec fn text_result_view(r: Result<bool, String>) -> Result<bool, Seq<char>> {
    match r {
        Ok(b) => Ok(b),
        Err(text) => Err(text@),
    }
}

/// Notes `failure` with the interpreter and gives the text that describes
/// it.
fn raise(lua: &mlua::Lua, failure: Error) -> (text: String)
    ensures
        text@ == message_text(failure@),
{
    let text = failure.message();
    sandbox::note_failure(lua, failure);
    text
}

/// What the condition `which` gives for `argument`, with a failure as the
/// text that describes it. Whether a file exists is asked of the disk and
/// never fails; the operating system and the machine's name are those of
/// `platform`. A failure is noted with the interpreter.
pub(crate) fn text_predicate_text(
    lua: &mlua::Lua,
    which: TextPredicate,
    platform: &Platform,
    argument: &str,
) -> (r: Result<bool, String>)
    ensures
        which == TextPredicate::FileExists ==> r is Ok,
        which == TextPredicate::OsEquals ==> text_result_view(r) == answer_text(
            os_outcome(argument@, *platform),
        ),
        which == TextPredicate::HostnameEquals ==> text_result_view(r) == answer_text(
            hostname_outcome(platform.hostname, argument@),
        ),
{
    let answer = match which {
        TextPredicate::FileExists => Ok(file_exists(argument)),
        TextPredicate::HostnameEquals => hostname_matches(&platform.hostname, argument),
        TextPredicate::OsEquals => os_equals(argument, platform),
    };
    match answer {
        Ok(b) => Ok(b),
        Err(e) => Err(raise(lua, e)),
    }
}

/// The directory of which `name` is the entrypoint, if it is one.
pub open spec fn entrypoint_directory(name: Seq<char>) -> Option<Seq<char>> {
    if ends_with(name, "/init"@) && name.len() > "/init"@.len() {
        Some(name.take(name.len() - "/init"@.len()))
    } else {
        None
    }
}

pub fn directory_of(name: &str) -> (directory: Option<String>)
    ensures
        match directory {
            Some(d) => entrypoint_directory(name@) == Some(d@),
            None => entrypoint_directory(name@) is None,
        },
{
    let chars = chars_of(name);
    let entry = chars_of("/init");
    if has_suffix(&chars, &entry) && chars.len() > entry.len() {
        let cut = chars.len() - entry.len();
        let directory = string_of(&chars, 0, cut);
        assert(chars@.subrange(0, cut as int) =~= name@.take(name@.len() - "/init"@.len()));
        Some(directory)
    } else {
        None
    }
}

/// The gatekeepers that a script in `directory` may mean by `name`, in the
/// order in which they are tried: first what the name means by itself, then
/// the name taken as lying in the script's own directory.
pub open spec fn candidates_in(directory: Option<Seq<char>>, name: Seq<char>) -> Seq<Seq<char>> {
    match directory {
        Some(d) => candidates(name) + candidates(d + seq!['/'] + name),
        None => candidates(name),
    }
}

pub fn candidate_names_in(directory: &Option<String>, name: &str) -> (tries: Vec<String>)
    ensures
        name_list(tries@) == candidates_in(
            match directory {
                Some(d) => Some(d@),
                None => None,
            },
            name@,
        ),
{
    let mut tries = candidate_names(name);
    match directory {
        Some(d) => {
            let mut inner = d.clone();
            proof {
                reveal_strlit("/");
                assert("/"@ =~= seq!['/']);
            }
            inner.append("/");
            inner.append(name);
            let mut more = candidate_names(inner.as_str());
            let ghost first = name_list(tries@);
            let ghost second = name_list(more@);
            tries.append(&mut more);
            assert(name_list(tries@) =~= first + second);
        },
        None => {},
    }
    tries
}

/// The first of `tries` that is the name of one of `known`.
pub open spec fn found_among(known: Map<Seq<char>, String>, tries: Seq<Seq<char>>) -> Option<
    Seq<char>,
>
    decreases tries.len(),
{
    if tries.len() == 0 {
        None
    } else if known.contains_key(tries.first()) {
        Some(tries.first())
    } else {
        found_among(known, tries.drop_first())
    }
}

/// The first of `tries` that is one of `known`: that name, or a circle
/// where it is on `path`. Where none is known, the module is not found,
/// and the failure says what was tried.
pub open spec fn first_known(
    known: Map<Seq<char>, String>,
    path: Seq<Seq<char>>,
    tries: Seq<Seq<char>>,
    module: Seq<char>,
) -> Result<Seq<char>, ErrorView> {
    match found_among(known, tries) {
        None => Err(ErrorView::NotFound { name: module, tried: tries }),
        Some(name) => if path.contains(name) {
            Err(ErrorView::CircularDependency { name, chain: path })
        } else {
            Ok(name)
        },
    }
}

/// The first of `tries` that has a script.
pub fn find_script(scripts: &NameMap<String>, tries: &Vec<String>) -> (found: Option<String>)
    requires
        scripts.wf(),
    ensures
        match found {
            Some(name) => found_among(scripts@, name_list(tries@)) == Some(name@)
                && scripts@.contains_key(name@),
            None => found_among(scripts@, name_list(tries@)) is None,
        },
{
    let ghost all = name_list(tries@);
    let mut i: usize = 0;
    assert(all.skip(0) =~= all);
    while i < tries.len()
        invariant
            scripts.wf(),
            i <= tries@.len(),
            all == name_list(tries@),
            found_among(scripts@, all.skip(i as int)) == found_among(scripts@, all),
        decreases tries@.len() - i,
    {
        proof {
            assert(all.skip(i as int).first() == tries@[i as int]@);
            assert(all.skip(i as int).drop_first() =~= all.skip(i as int + 1));
        }
        if scripts.contains_key(tries[i].as_str()) {
            return Some(tries[i].clone());
        }
        i += 1;
    }
    assert(all.skip(tries@.len() as int) =~= Seq::<Seq<char>>::empty());
    None
}

/// The gatekeeper that `require(module)` means in a script of `directory`
/// while the names of `path` are being evaluated.
pub open spec fn required_name(
    known: Map<Seq<char>, String>,
    path: Seq<Seq<char>>,
    directory: Option<Seq<char>>,
    module: Seq<char>,
) -> Result<Seq<char>, ErrorView> {
    first_known(known, path, candidates_in(directory, slashed(module)), module)
}

pub fn resolve_required(
    scripts: &NameMap<String>,
    context: &EvaluationContext,
    directory: &Option<String>,
    module: &str,
) -> (r: Result<String, Error>)
    requires
        scripts.wf(),
    ensures
        match r {
            Ok(name) => required_name(
                scripts@,
                context@,
                match directory {
                    Some(d) => Some(d@),
                    None => None,
                },
                module@,
            ) == Ok::<Seq<char>, ErrorView>(name@),
            Err(e) => required_name(
                scripts@,
                context@,
                match directory {
                    Some(d) => Some(d@),
                    None => None,
                },
                module@,
            ) == Err::<Seq<char>, ErrorView>(e@),
        },
{
    let name = module_to_name(module);
    let tries = candidate_names_in(directory, name.as_str());
    match find_script(scripts, &tries) {
        Some(found) => {
            if context.contains(found.as_str()) {
                Err(Error::CircularDependency { name: found, chain: context.chain() })
            } else {
                Ok(found)
            }
        },
        None => Err(Error::NotFound { name: module.to_string(), tried: tries }),
    }
}

/// What `require(module)` means in `scope`, with a failure as the text that
/// describes it. A failure is noted with the interpreter.
pub(crate) fn resolve_required_text(lua: &mlua::Lua, scope: &Scope, module: &str) -> (r: Result<
    String,
    String,
>)
    requires
        scope.wf(),
    ensures
        match r {
            Ok(name) => required_name(
                scope.scripts@,
                scope.context@,
                scope.directory_view(),
                module@,
            ) == Ok::<Seq<char>, ErrorView>(name@),
            Err(text) => required_name(
                scope.scripts@,
                scope.context@,
                scope.directory_view(),
                module@,
            ) matches Err(e) && text@ == crate::error::message_text(e),
        },
{
    match resolve_required(&scope.scripts, &scope.context, &scope.directory, module) {
        Ok(name) => Ok(name),
        Err(e) => Err(raise(lua, e)),
    }
}

/// Whether `r` can be what running `script` gives: what `interpreted`
/// makes of some value handed back and of some failure noted or none.
pub open spec fn runs(script: Seq<char>, r: Result<LuaGatekeeperResult, ErrorView>) -> bool {
    exists|outcome: ScriptValue, noted: Option<ErrorView>|
        r == #[trigger] interpreted(outcome, noted, annotation::comment_ttl(script), script)
}

pub struct LuaExecutor {
    lua: mlua::Lua,
}

/// Wraps the message of a step that failed while the interpreter was set up.
fn setup(step: Result<(), String>) -> (r: Result<(), Error>)
    ensures
        match step {
            Ok(_) => r is Ok,
            Err(message) => r matches Err(e) && e@ == (ErrorView::IoError { message: message@ }),
        },
{
    match step {
        Ok(_) => Ok(()),
        Err(message) => Err(Error::IoError { message }),
    }
}

/// Gives the interpreter the function `one` under its name.
fn offer_one(lua: &mlua::Lua, one: &Offered, platform: &Platform) -> Result<(), String> {
    match one.function {
        HostFunction::Condition(which) => sandbox::register_text_predicate(
            lua,
            one.name.as_str(),
            which,
            platform,
        ),
        HostFunction::Combination(which) => sandbox::register_combinator(
            lua,
            one.name.as_str(),
            which,
        ),
        HostFunction::Identity => sandbox::register_identity(lua, one.name.as_str()),
    }
}

impl LuaExecutor {
    /// An interpreter for scripts that require no other gatekeeper. It
    /// fails only where the interpreter cannot be set up.
    pub fn new(platform: &Platform) -> (executor: Result<LuaExecutor, Error>)
        ensures
            executor matches Err(e) ==> e@ is IoError,
    {
        let scope = Scope {
            platform: platform.clone(),
            scripts: Rc::new(NameMap::new()),
            context: EvaluationContext::new(),
            directory: None,
        };
        LuaExecutor::with_scripts(&scope)
    }

    /// An interpreter for a script that is run in `scope`.
    ///
    /// What the interpreter would offer of the machine is taken away first:
    /// the globals of `offer::withheld` and the search paths of
    /// `offer::emptied`. Then scripts are given the functions of
    /// `offer::offered`, each under its name, and `require`.
    pub fn with_scripts(scope: &Scope) -> (executor: Result<LuaExecutor, Error>)
        requires
            scope.wf(),
        ensures
            executor matches Err(e) ==> e@ is IoError,
    {
        let lua = sandbox::new_interpreter();
        let gone = offer::withheld_globals();
        let mut i: usize = 0;
        while i < gone.len()
            invariant
                i <= gone@.len(),
            decreases gone@.len() - i,
        {
            setup(sandbox::clear_global(&lua, gone[i].as_str()))?;
            i += 1;
        }
        let fields = offer::emptied_fields();
        let mut j: usize = 0;
        while j < fields.len()
            invariant
                j <= fields@.len(),
            decreases fields@.len() - j,
        {
            setup(sandbox::set_table_text(&lua, "package", fields[j].as_str(), ""))?;
            j += 1;
        }
        let table = offer::offered_functions();
        let mut k: usize = 0;
        while k < table.len()
            invariant
                k <= table@.len(),
            decreases table@.len() - k,
        {
            setup(offer_one(&lua, &table[k], &scope.platform))?;
            k += 1;
        }
        setup(sandbox::install_searcher(&lua, scope))?;
        Ok(LuaExecutor { lua })
    }

    /// Runs `script` and reads what it hands back: whatever that is, the
    /// result is what `interpreted` makes of it, of the failure that was
    /// noted while it ran, and of the time to live that the script declares
    /// in a comment.
    pub fn execute(&self, script: &str) -> (r: Result<LuaGatekeeperResult, Error>)
        ensures
            runs(script@, evaluation_view(r)),
    {
        let ttl = parse_ttl_comment(script);
        let _ = sandbox::take_failure(&self.lua);
        let outcome = sandbox::run_chunk(&self.lua, script, offer::value_key(), offer::ttl_key());
        let noted = sandbox::take_failure(&self.lua);
        let r = interpret(outcome, noted, ttl, script);
        assert(evaluation_view(r) == interpreted(
            outcome,
            noted_view(noted),
            annotation::comment_ttl(script@),
            script@,
        ));
        r
    }
}

/// The boolean of a result.
pub open spec fn value_of(r: Result<LuaGatekeeperResult, ErrorView>) -> Result<bool, ErrorView> {
    match r {
        Ok(v) => Ok(v.value),
        Err(e) => Err(e),
    }
}

/// Whether `r` can be what requiring `name` from a script of `scope` gives.
///
/// A name on the path is refused as a circle, and a name without a script
/// is not found; neither runs anything. Else the script of that name is
/// run, and `r` is the boolean of what it gives, or its failure, or says
/// that no interpreter could be had.
pub open spec fn loads(scope: &Scope, name: Seq<char>, r: Result<bool, ErrorView>) -> bool {
    if scope.context@.contains(name) {
        r == Err::<bool, ErrorView>(
            ErrorView::CircularDependency { name, chain: scope.context@ },
        )
    } else if !scope.scripts@.contains_key(name) {
        r == Err::<bool, ErrorView>(ErrorView::NotFound { name, tried: Seq::empty() })
    } else {
        (r matches Err(e) && e is IoError) || exists|ran: Result<LuaGatekeeperResult, ErrorView>|
            #[trigger] runs(scope.scripts@[name]@, ran) && r == value_of(ran)
    }
}

/// Evaluates the gatekeeper `name`, which a script of `scope` has required,
/// and gives its boolean. Its time to live is its own affair and is
/// dropped.
///
/// The script runs with `name` on the path, in an interpreter of its own;
/// the caller's path is not touched, so that the name is off it again when
/// this returns, however it returns.
pub fn load_required(scope: &Scope, name: &str) -> (r: Result<bool, Error>)
    requires
        scope.wf(),
    ensures
        loads(scope, name@, crate::evaluators::result_view(r)),
{
    let mut path = scope.context.extended();
    match path.visit(name) {
        Err(e) => {
            return Err(e);
        },
        Ok(_) => {},
    }
    let script = match scope.scripts.get(name) {
        Some(script) => script,
        None => {
            return Err(Error::not_found(name));
        },
    };
    let inner = Scope {
        platform: scope.platform.clone(),
        scripts: scope.scripts.clone(),
        context: path,
        directory: directory_of(name),
    };
    let executor = LuaExecutor::with_scripts(&inner)?;
    let result = executor.execute(script.as_str());
    let r = match result {
        Ok(result) => Ok(result.value),
        Err(e) => Err(e),
    };
    assert(runs(script@, evaluation_view(result)) && crate::evaluators::result_view(r) == value_of(
        evaluation_view(result),
    ));
    r
}

/// What a script is told when the gatekeeper `name` that it required has
/// failed.
pub open spec fn load_failure_text(name: Seq<char>, e: ErrorView) -> Seq<char> {
    "Failed to load gatekeeper '"@ + name + "': "@ + message_text(e)
}

/// `load_required`, with a failure as the text that the script is told. A
/// failure is noted with the interpreter.
pub(crate) fn load_required_text(lua: &mlua::Lua, scope: &Scope, name: &str) -> (r: Result<bool, String>)
    requires
        scope.wf(),
    ensures
        exists|loaded: Result<bool, ErrorView>| #[trigger]
            loads(scope, name@, loaded) && text_result_view(r) == (match loaded {
                Ok(b) => Ok::<bool, Seq<char>>(b),
                Err(e) => Err(load_failure_text(name@, e)),
            }),
{
    let loaded = load_required(scope, name);
    let r = match loaded {
        Ok(value) => Ok(value),
        Err(e) => {
            let mut text = String::from_str("Failed to load gatekeeper '");
            text.append(name);
            text.append("': ");
            text.append(raise(lua, e).as_str());
            Err(text)
        },
    };
    assert(loads(scope, name@, crate::evaluators::result_view(loaded)));
    r
}

/// Whether `name` means a script: its own, or the entrypoint of the
/// directory of that name.
pub fn has_script(scripts: &NameMap<String>, name: &str) -> (found: bool)
    requires
        scripts.wf(),
    ensures
        found == (first_known(scripts@, Seq::empty(), candidates(name@), name@) is Ok),
{
    find_script(scripts, &candidate_names(name)).is_some()
}

/// Evaluates the gatekeeper `name` from its script: the script of that
/// name or, for a name without a separator, else the entrypoint of the
/// directory of that name. Without either the gatekeeper is not found.
/// What the script gives is read as `interpreted` says.
pub fn evaluate(platform: &Platform, scripts: &Rc<NameMap<String>>, name: &str) -> (r: Result<
    LuaGatekeeperResult,
    Error,
>)
    requires
        scripts.wf(),
    ensures
        match first_known(scripts@, Seq::empty(), candidates(name@), name@) {
            Err(missing) => r matches Err(e) && e@ == missing,
            Ok(found) => (r matches Err(e) && e@ is IoError) || runs(
                scripts@[found]@,
                evaluation_view(r),
            ),
        },
{
    let tries = candidate_names(name);
    let found = match find_script(scripts, &tries) {
        Some(found) => found,
        None => {
            return Err(Error::NotFound { name: name.to_string(), tried: tries });
        },
    };
    let script = match scripts.get(found.as_str()) {
        Some(script) => script,
        None => {
            return Err(Error::NotFound { name: name.to_string(), tried: tries });
        },
    };
    let mut path = EvaluationContext::new();
    match path.visit(found.as_str()) {
        Err(e) => {
            return Err(e);
        },
        Ok(_) => {},
    }
    assert(path@[0] == found@);
    let scope = Scope {
        platform: platform.clone(),
        scripts: scripts.clone(),
        context: path,
        directory: directory_of(found.as_str()),
    };
    let executor = LuaExecutor::with_scripts(&scope)?;
    executor.execute(script.as_str())
}

/// Requiring a script that is being evaluated fails as a circle, with the
/// path that led there: where the name that a `require` means by itself is
/// the name of a script and is on the path, no script is run.
pub proof fn lemma_requiring_script_in_progress_fails(
    known: Map<Seq<char>, String>,
    path: Seq<Seq<char>>,
    directory: Option<Seq<char>>,
    module: Seq<char>,
)
    requires
        known.contains_key(slashed(module)),
        path.contains(slashed(module)),
    ensures
        required_name(known, path, directory, module) == Err::<Seq<char>, ErrorView>(
            ErrorView::CircularDependency { name: slashed(module), chain: path },
        ),
{
    let tries = candidates_in(directory, slashed(module));
    assert(candidates(slashed(module))[0] == slashed(module));
    assert(tries[0] == slashed(module));
    assert(tries.first() == slashed(module));
}

} // verus!

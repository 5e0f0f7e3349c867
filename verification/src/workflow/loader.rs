//! Reading workflows from their definitions.
//!
//! A definition is a document with the operation's name as `operation`, the
//! states as `states`, and, if wanted, what holds where a state says nothing
//! of it: `timeout_sec`, `on_timeout` and `on_error`. Each state is an object
//! that names what is done in it:
//!
//! - `script`: a command line that is run and awaited, with `on_success`,
//!   `on_error`, `on_kill`, `timeout_sec`, a table `on_exit` from exit codes
//!   to states, and `output`, the names of the fields of the script's output
//!   that go into the payload;
//! - `background_script`: a command line that is started, with `on_exec`;
//! - `operation`: an operation that is triggered, with `input_script`,
//!   `input` and `on_exec`;
//! - `action`: one of `proceed`, `builtin`, `await-agent-restart`,
//!   `await-operation-completion` and `cleanup`.

use crate::json::{field_views, get_field, item_views, Json, JsonView};
use crate::mqtt_topics::OperationType;
use crate::smartrest::operations::{is_operation_name, is_valid_operation_name};
use crate::string_map::StringMap;
use crate::text::{chars_of, owned, same_text, split, split_text, texts};
use crate::workflow::definition::{
    action_views, completed_keys, completed_states, definition_fault, is_well_defined, ActionView,
    AwaitHandlersView, DefinitionFault, OperationAction, OperationWorkflow, WorkflowDefinitionError,
};
use crate::workflow::script::{
    exit_views, AwaitHandlers, BgExitHandlers, DefaultHandlers, DefaultHandlersView, ExcerptView,
    ExitHandlers, ExitHandlersView, ShellScript, ShellScriptView, StateExcerpt,
};
use vstd::prelude::*;

verus! {

/// The digit that a character stands for.
pub open spec fn digit_of(c: char) -> Option<nat> {
    if '0' <= c <= '9' {
        Some((c as u32 - '0' as u32) as nat)
    } else {
        None
    }
}

/// The number that a text of digits stands for; none for the empty text and
/// for a text that holds anything but digits.
pub open spec fn digits_value(text: Seq<char>) -> Option<nat>
    decreases text.len(),
{
    if text.len() == 0 {
        None
    } else {
        match digit_of(text.last()) {
            None => None,
            Some(d) => if text.len() == 1 {
                Some(d)
            } else {
                match digits_value(text.drop_last()) {
                    Some(v) => Some(v * 10 + d),
                    None => None,
                }
            },
        }
    }
}

/// Reads a number that is written with digits and is not over `limit`.
pub fn parse_number(text: &str, limit: u64) -> (r: Option<u64>)
    ensures
        match digits_value(text@) {
            Some(v) if v <= limit => r == Some(v as u64),
            _ => r is None,
        },
{
    let chars = chars_of(text);
    if chars.len() == 0 {
        return None;
    }
    let mut value: u64 = 0;
    let mut i: usize = 0;
    while i < chars.len()
        invariant
            i <= chars.len(),
            chars@ == text@,
            value <= limit,
            i > 0 ==> digits_value(chars@.take(i as int)) == Some(value as nat),
            i == 0 ==> value == 0,
        decreases chars.len() - i,
    {
        let c = chars[i];
        proof {
            assert(chars@.take(i + 1).drop_last() =~= chars@.take(i as int));
            assert(chars@.take(i + 1).last() == c);
        }
        if !('0' <= c && c <= '9') {
            proof {
                lemma_digits_prefix(chars@, i + 1);
            }
            return None;
        }
        let d: u64 = (c as u32 - '0' as u32) as u64;
        if d > limit || value > (limit - d) / 10 {
            proof {
                let here: nat = if i == 0 {
                    d as nat
                } else {
                    (value * 10 + d) as nat
                };
                assert(digits_value(chars@.take(i + 1)) == Some(here));
                assert(here > limit);
                lemma_digits_grow(chars@, i + 1);
            }
            return None;
        }
        value = value * 10 + d;
        i += 1;
    }
    assert(chars@.take(chars.len() as int) =~= chars@);
    Some(value)
}

proof fn lemma_digits_prefix(text: Seq<char>, n: int)
    requires
        0 < n <= text.len(),
        digits_value(text.take(n)) is None,
    ensures
        digits_value(text) is None,
    decreases text.len() - n,
{
    if n < text.len() {
        assert(text.take(n + 1).drop_last() =~= text.take(n));
        lemma_digits_prefix(text, n + 1);
    } else {
        assert(text.take(n) =~= text);
    }
}

proof fn lemma_digits_grow(text: Seq<char>, n: int)
    requires
        0 < n <= text.len(),
        digits_value(text.take(n)) is Some,
    ensures
        digits_value(text) matches Some(v) ==> v >= digits_value(text.take(n)).unwrap(),
    decreases text.len() - n,
{
    if n < text.len() {
        assert(text.take(n + 1).drop_last() =~= text.take(n));
        if digits_value(text.take(n + 1)) is Some {
            lemma_digits_grow(text, n + 1);
        } else {
            lemma_digits_prefix(text, n + 1);
        }
    } else {
        assert(text.take(n) =~= text);
    }
}

/// The words of a command line: what stands between its spaces.
pub open spec fn words_of(line: Seq<char>) -> Seq<Seq<char>> {
    split_text(line, ' ').filter(|word: Seq<char>| word.len() > 0)
}

fn words(line: &str) -> (r: Vec<String>)
    ensures
        texts(r@) == words_of(line@),
{
    let pieces = split(line, ' ');
    let ghost all = texts(pieces@);
    let ghost keep = |word: Seq<char>| word.len() > 0;
    let mut found: Vec<String> = Vec::new();
    let mut i: usize = 0;
    proof {
        reveal(Seq::filter);
        assert(all.take(0) =~= Seq::<Seq<char>>::empty());
        assert(texts(found@) =~= all.take(0).filter(keep));
    }
    while i < pieces.len()
        invariant
            i <= pieces.len(),
            all == texts(pieces@),
            keep == |word: Seq<char>| word.len() > 0,
            texts(found@) == all.take(i as int).filter(keep),
        decreases pieces.len() - i,
    {
        proof {
            reveal(Seq::filter);
            assert(all.take(i + 1).drop_last() =~= all.take(i as int));
            assert(all.take(i + 1).last() == pieces@[i as int]@);
        }
        if !pieces[i].as_str().is_empty() {
            let ghost before = found@;
            let word = pieces[i].clone();
            found.push(word);
            assert(texts(found@) =~= texts(before).push(word@));
        }
        i += 1;
    }
    assert(all.take(pieces.len() as int) =~= all);
    found
}

/// The text of a field that must be there; the field's name is the fault.
pub open spec fn required_text(fields: Seq<(Seq<char>, JsonView)>, key: Seq<char>) -> Result<
    Seq<char>,
    Seq<char>,
> {
    match JsonView::Object(fields).field(key) {
        Some(JsonView::Text(text)) => Ok(text),
        _ => Err(key),
    }
}

/// The text of a field that may be missing; the field's name is the fault.
pub open spec fn optional_text(fields: Seq<(Seq<char>, JsonView)>, key: Seq<char>) -> Result<
    Option<Seq<char>>,
    Seq<char>,
> {
    match JsonView::Object(fields).field(key) {
        None => Ok(None),
        Some(JsonView::Text(text)) => Ok(Some(text)),
        Some(_) => Err(key),
    }
}

/// The number of seconds of a field that may be missing.
pub open spec fn optional_seconds(fields: Seq<(Seq<char>, JsonView)>, key: Seq<char>) -> Result<
    Option<u64>,
    Seq<char>,
> {
    match JsonView::Object(fields).field(key) {
        None => Ok(None),
        Some(JsonView::Number(text)) => match digits_value(text) {
            Some(v) if v <= u64::MAX => Ok(Some(v as u64)),
            _ => Err(key),
        },
        Some(_) => Err(key),
    }
}

/// The texts of a list; none where an item is no text.
pub open spec fn names_of(items: Seq<JsonView>) -> Option<Seq<Seq<char>>>
    decreases items.len(),
{
    if items.len() == 0 {
        Some(Seq::empty())
    } else {
        match (names_of(items.drop_last()), items.last()) {
            (Some(names), JsonView::Text(name)) => Some(names.push(name)),
            _ => None,
        }
    }
}

/// The excerpt of a field that may be missing: the whole where it is
/// missing, and else the fields of the names that it lists.
pub open spec fn optional_excerpt(fields: Seq<(Seq<char>, JsonView)>, key: Seq<char>) -> Result<
    ExcerptView,
    Seq<char>,
> {
    match JsonView::Object(fields).field(key) {
        None => Ok(ExcerptView::Whole),
        Some(JsonView::Array(items)) => match names_of(items) {
            Some(names) => Ok(ExcerptView::Fields(names)),
            None => Err(key),
        },
        Some(_) => Err(key),
    }
}

/// The table of exit codes that the fields of an object stand for: each
/// name is a code, and each value the state that follows it.
pub open spec fn exit_table_of(entries: Seq<(Seq<char>, JsonView)>) -> Option<
    Seq<(i32, Seq<char>)>,
>
    decreases entries.len(),
{
    if entries.len() == 0 {
        Some(Seq::empty())
    } else {
        match (exit_table_of(entries.drop_last()), digits_value(entries.last().0), entries.last().1) {
            (Some(table), Some(code), JsonView::Text(state)) if code <= i32::MAX => Some(
                table.push((code as i32, state)),
            ),
            _ => None,
        }
    }
}

/// The table of exit codes of a state; empty where the state has none.
pub open spec fn optional_exit_table(fields: Seq<(Seq<char>, JsonView)>) -> Result<
    Seq<(i32, Seq<char>)>,
    Seq<char>,
> {
    match JsonView::Object(fields).field("on_exit"@) {
        None => Ok(Seq::empty()),
        Some(JsonView::Object(entries)) => match exit_table_of(entries) {
            Some(table) => Ok(table),
            None => Err("on_exit"@),
        },
        Some(_) => Err("on_exit"@),
    }
}

/// The command line of a field; a fault where it has no word.
pub open spec fn script_of(line: Seq<char>, key: Seq<char>) -> Result<ShellScriptView, Seq<char>> {
    let words = words_of(line);
    if words.len() == 0 {
        Err(key)
    } else {
        Ok(ShellScriptView { command: words[0], args: words.skip(1) })
    }
}

/// The handlers of a wait.
pub open spec fn await_handlers_of(fields: Seq<(Seq<char>, JsonView)>) -> Result<
    AwaitHandlersView,
    Seq<char>,
> {
    match (
        required_text(fields, "on_success"@),
        optional_text(fields, "on_error"@),
        optional_text(fields, "on_timeout"@),
        optional_seconds(fields, "timeout_sec"@),
    ) {
        (Ok(on_success), Ok(on_error), Ok(on_timeout), Ok(timeout_sec)) => Ok(
            AwaitHandlersView { timeout_sec, on_success, on_error, on_timeout },
        ),
        (Err(key), _, _, _) => Err(key),
        (_, Err(key), _, _) => Err(key),
        (_, _, Err(key), _) => Err(key),
        (_, _, _, Err(key)) => Err(key),
    }
}

/// The handlers of a script.
pub open spec fn exit_handlers_of(fields: Seq<(Seq<char>, JsonView)>) -> Result<
    ExitHandlersView,
    Seq<char>,
> {
    match (
        optional_text(fields, "on_success"@),
        optional_text(fields, "on_error"@),
        optional_text(fields, "on_kill"@),
        optional_seconds(fields, "timeout_sec"@),
        optional_exit_table(fields),
        optional_excerpt(fields, "output"@),
    ) {
        (Ok(on_success), Ok(on_error), Ok(on_kill), Ok(timeout_sec), Ok(on_exit), Ok(excerpt)) => {
            Ok(ExitHandlersView { on_success, on_error, on_kill, on_exit, timeout_sec, excerpt })
        },
        (Err(key), _, _, _, _, _) => Err(key),
        (_, Err(key), _, _, _, _) => Err(key),
        (_, _, Err(key), _, _, _) => Err(key),
        (_, _, _, Err(key), _, _) => Err(key),
        (_, _, _, _, Err(key), _) => Err(key),
        (_, _, _, _, _, Err(key)) => Err(key),
    }
}

/// The action of a state whose `action` is the given one.
pub open spec fn named_action_of(fields: Seq<(Seq<char>, JsonView)>, name: Seq<char>) -> Result<
    ActionView,
    Seq<char>,
> {
    if name == "proceed"@ {
        match required_text(fields, "on_success"@) {
            Ok(next) => Ok(ActionView::MoveTo(next)),
            Err(key) => Err(key),
        }
    } else if name == "builtin"@ {
        Ok(ActionView::BuiltIn)
    } else if name == "await-agent-restart"@ {
        match await_handlers_of(fields) {
            Ok(handlers) => Ok(ActionView::AwaitingAgentRestart(handlers)),
            Err(key) => Err(key),
        }
    } else if name == "await-operation-completion"@ {
        match (await_handlers_of(fields), optional_excerpt(fields, "output"@)) {
            (Ok(handlers), Ok(excerpt)) => Ok(
                ActionView::AwaitOperationCompletion(handlers, excerpt),
            ),
            (Err(key), _) => Err(key),
            (_, Err(key)) => Err(key),
        }
    } else if name == "cleanup"@ {
        Ok(ActionView::Clear)
    } else {
        Err("action"@)
    }
}

/// The action of a state, or the name of the field that is at fault.
pub open spec fn action_of(fields: Seq<(Seq<char>, JsonView)>) -> Result<ActionView, Seq<char>> {
    let object = JsonView::Object(fields);
    if object.field("script"@) is Some {
        match required_text(fields, "script"@) {
            Err(key) => Err(key),
            Ok(line) => match (script_of(line, "script"@), exit_handlers_of(fields)) {
                (Ok(script), Ok(handlers)) => Ok(ActionView::Script(script, handlers)),
                (Err(key), _) => Err(key),
                (_, Err(key)) => Err(key),
            },
        }
    } else if object.field("background_script"@) is Some {
        match required_text(fields, "background_script"@) {
            Err(key) => Err(key),
            Ok(line) => match (
                script_of(line, "background_script"@),
                required_text(fields, "on_exec"@),
            ) {
                (Ok(script), Ok(on_exec)) => Ok(ActionView::BgScript(script, on_exec)),
                (Err(key), _) => Err(key),
                (_, Err(key)) => Err(key),
            },
        }
    } else if object.field("operation"@) is Some {
        match (
            required_text(fields, "operation"@),
            optional_text(fields, "input_script"@),
            optional_excerpt(fields, "input"@),
            required_text(fields, "on_exec"@),
        ) {
            (Ok(operation), Ok(input_script), Ok(input), Ok(on_exec)) => match input_script {
                None => Ok(ActionView::Operation(operation, None, input, on_exec)),
                Some(line) => match script_of(line, "input_script"@) {
                    Ok(script) => Ok(ActionView::Operation(operation, Some(script), input, on_exec)),
                    Err(key) => Err(key),
                },
            },
            (Err(key), _, _, _) => Err(key),
            (_, Err(key), _, _) => Err(key),
            (_, _, Err(key), _) => Err(key),
            (_, _, _, Err(key)) => Err(key),
        }
    } else {
        match required_text(fields, "action"@) {
            Ok(name) => named_action_of(fields, name),
            Err(key) => Err(key),
        }
    }
}

fn get_required_text(fields: &Vec<(String, Json)>, key: &str) -> (r: Result<String, String>)
    ensures
        match required_text(field_views(fields@), key@) {
            Ok(text) => r matches Ok(found) && found@ == text,
            Err(k) => r matches Err(found) && found@ == k,
        },
{
    match get_field(fields, key) {
        Some(Json::Text(text)) => Ok(text.clone()),
        _ => Err(owned(key)),
    }
}

fn get_optional_text(fields: &Vec<(String, Json)>, key: &str) -> (r: Result<Option<String>, String>)
    ensures
        match optional_text(field_views(fields@), key@) {
            Ok(Some(text)) => r matches Ok(Some(found)) && found@ == text,
            Ok(None) => r matches Ok(None),
            Err(k) => r matches Err(found) && found@ == k,
        },
{
    match get_field(fields, key) {
        None => Ok(None),
        Some(Json::Text(text)) => Ok(Some(text.clone())),
        Some(_) => Err(owned(key)),
    }
}

fn get_optional_seconds(fields: &Vec<(String, Json)>, key: &str) -> (r: Result<Option<u64>, String>)
    ensures
        match optional_seconds(field_views(fields@), key@) {
            Ok(seconds) => r == Ok::<Option<u64>, String>(seconds),
            Err(k) => r matches Err(found) && found@ == k,
        },
{
    match get_field(fields, key) {
        None => Ok(None),
        Some(Json::Number(text)) => match parse_number(text.as_str(), u64::MAX) {
            Some(v) => Ok(Some(v)),
            None => Err(owned(key)),
        },
        Some(_) => Err(owned(key)),
    }
}

fn get_names(items: &Vec<Json>) -> (r: Option<Vec<String>>)
    ensures
        match names_of(item_views(items@)) {
            Some(names) => r matches Some(found) && texts(found@) == names,
            None => r is None,
        },
{
    let ghost all = item_views(items@);
    let mut names: Vec<String> = Vec::new();
    let mut i: usize = 0;
    assert(all.take(0) =~= Seq::<JsonView>::empty());
    assert(texts(names@) =~= Seq::<Seq<char>>::empty());
    while i < items.len()
        invariant
            i <= items.len(),
            all == item_views(items@),
            names_of(all.take(i as int)) == Some(texts(names@)),
        decreases items.len() - i,
    {
        proof {
            assert(all.take(i + 1).drop_last() =~= all.take(i as int));
            assert(all.take(i + 1).last() == items@[i as int]@);
        }
        match &items[i] {
            Json::Text(name) => {
                let ghost before = names@;
                names.push(name.clone());
                assert(texts(names@) =~= texts(before).push(name@));
            },
            _ => {
                proof {
                    lemma_names_prefix(all, i + 1);
                }
                return None;
            },
        }
        i += 1;
    }
    assert(all.take(items.len() as int) =~= all);
    Some(names)
}

proof fn lemma_names_prefix(items: Seq<JsonView>, n: int)
    requires
        0 <= n <= items.len(),
        names_of(items.take(n)) is None,
    ensures
        names_of(items) is None,
    decreases items.len() - n,
{
    if n < items.len() {
        assert(items.take(n + 1).drop_last() =~= items.take(n));
        lemma_names_prefix(items, n + 1);
    } else {
        assert(items.take(n) =~= items);
    }
}

fn get_optional_excerpt(fields: &Vec<(String, Json)>, key: &str) -> (r: Result<
    StateExcerpt,
    String,
>)
    ensures
        match optional_excerpt(field_views(fields@), key@) {
            Ok(excerpt) => r matches Ok(found) && found@ == excerpt,
            Err(k) => r matches Err(found) && found@ == k,
        },
{
    match get_field(fields, key) {
        None => Ok(StateExcerpt::Whole),
        Some(Json::Array(items)) => {
            proof {
                Json::Array(*items).lemma_view();
            }
            match get_names(items) {
                Some(names) => Ok(StateExcerpt::Fields(names)),
                None => Err(owned(key)),
            }
        },
        Some(_) => Err(owned(key)),
    }
}

fn get_exit_table(entries: &Vec<(String, Json)>) -> (r: Option<Vec<(i32, String)>>)
    ensures
        match exit_table_of(field_views(entries@)) {
            Some(table) => r matches Some(found) && exit_views(found@) == table,
            None => r is None,
        },
{
    let ghost all = field_views(entries@);
    let mut table: Vec<(i32, String)> = Vec::new();
    let mut i: usize = 0;
    assert(all.take(0) =~= Seq::<(Seq<char>, JsonView)>::empty());
    assert(exit_views(table@) =~= Seq::<(i32, Seq<char>)>::empty());
    while i < entries.len()
        invariant
            i <= entries.len(),
            all == field_views(entries@),
            exit_table_of(all.take(i as int)) == Some(exit_views(table@)),
        decreases entries.len() - i,
    {
        proof {
            assert(all.take(i + 1).drop_last() =~= all.take(i as int));
            assert(all.take(i + 1).last() == all[i as int]);
        }
        let code = parse_number(entries[i].0.as_str(), 2147483647);
        let state = match &entries[i].1 {
            Json::Text(state) => Some(state.clone()),
            _ => None,
        };
        match (code, state) {
            (Some(code), Some(state)) => {
                let ghost before = table@;
                let code: i32 = code as i32;
                table.push((code, state));
                assert(exit_views(table@) =~= exit_views(before).push((code, state@)));
            },
            _ => {
                proof {
                    lemma_exit_table_prefix(all, i + 1);
                }
                return None;
            },
        }
        i += 1;
    }
    assert(all.take(entries.len() as int) =~= all);
    Some(table)
}

proof fn lemma_exit_table_prefix(entries: Seq<(Seq<char>, JsonView)>, n: int)
    requires
        0 <= n <= entries.len(),
        exit_table_of(entries.take(n)) is None,
    ensures
        exit_table_of(entries) is None,
    decreases entries.len() - n,
{
    if n < entries.len() {
        assert(entries.take(n + 1).drop_last() =~= entries.take(n));
        lemma_exit_table_prefix(entries, n + 1);
    } else {
        assert(entries.take(n) =~= entries);
    }
}

fn get_optional_exit_table(fields: &Vec<(String, Json)>) -> (r: Result<Vec<(i32, String)>, String>)
    ensures
        match optional_exit_table(field_views(fields@)) {
            Ok(table) => r matches Ok(found) && exit_views(found@) == table,
            Err(k) => r matches Err(found) && found@ == k,
        },
{
    match get_field(fields, "on_exit") {
        None => {
            let empty: Vec<(i32, String)> = Vec::new();
            assert(exit_views(empty@) =~= Seq::<(i32, Seq<char>)>::empty());
            Ok(empty)
        },
        Some(Json::Object(entries)) => {
            proof {
                Json::Object(*entries).lemma_view();
            }
            match get_exit_table(entries) {
                Some(table) => Ok(table),
                None => Err(owned("on_exit")),
            }
        },
        Some(_) => Err(owned("on_exit")),
    }
}

fn get_script(line: &str, key: &str) -> (r: Result<ShellScript, String>)
    ensures
        match script_of(line@, key@) {
            Ok(script) => r matches Ok(found) && found@ == script,
            Err(k) => r matches Err(found) && found@ == k,
        },
{
    let mut all = words(line);
    if all.len() == 0 {
        return Err(owned(key));
    }
    let ghost before = texts(all@);
    let command = all.remove(0);
    assert(texts(all@) =~= before.skip(1));
    Ok(ShellScript { command, args: all })
}

fn get_await_handlers(fields: &Vec<(String, Json)>) -> (r: Result<AwaitHandlers, String>)
    ensures
        match await_handlers_of(field_views(fields@)) {
            Ok(handlers) => r matches Ok(found) && AwaitHandlersView::of(found) == handlers,
            Err(k) => r matches Err(found) && found@ == k,
        },
{
    let on_success = match get_required_text(fields, "on_success") {
        Ok(v) => v,
        Err(key) => {
            return Err(key);
        },
    };
    let on_error = match get_optional_text(fields, "on_error") {
        Ok(v) => v,
        Err(key) => {
            return Err(key);
        },
    };
    let on_timeout = match get_optional_text(fields, "on_timeout") {
        Ok(v) => v,
        Err(key) => {
            return Err(key);
        },
    };
    let timeout_sec = match get_optional_seconds(fields, "timeout_sec") {
        Ok(v) => v,
        Err(key) => {
            return Err(key);
        },
    };
    Ok(AwaitHandlers { timeout_sec, on_success, on_error, on_timeout })
}

fn get_exit_handlers(fields: &Vec<(String, Json)>) -> (r: Result<ExitHandlers, String>)
    ensures
        match exit_handlers_of(field_views(fields@)) {
            Ok(handlers) => r matches Ok(found) && found@ == handlers,
            Err(k) => r matches Err(found) && found@ == k,
        },
{
    let on_success = match get_optional_text(fields, "on_success") {
        Ok(v) => v,
        Err(key) => {
            return Err(key);
        },
    };
    let on_error = match get_optional_text(fields, "on_error") {
        Ok(v) => v,
        Err(key) => {
            return Err(key);
        },
    };
    let on_kill = match get_optional_text(fields, "on_kill") {
        Ok(v) => v,
        Err(key) => {
            return Err(key);
        },
    };
    let timeout_sec = match get_optional_seconds(fields, "timeout_sec") {
        Ok(v) => v,
        Err(key) => {
            return Err(key);
        },
    };
    let on_exit = match get_optional_exit_table(fields) {
        Ok(v) => v,
        Err(key) => {
            return Err(key);
        },
    };
    let excerpt = match get_optional_excerpt(fields, "output") {
        Ok(v) => v,
        Err(key) => {
            return Err(key);
        },
    };
    Ok(ExitHandlers { on_success, on_error, on_kill, on_exit, timeout_sec, excerpt })
}

/// Reads the action of a state from the state's fields. The fault is the
/// name of the field that is missing or malformed.
pub fn read_action(fields: &Vec<(String, Json)>) -> (r: Result<OperationAction, String>)
    ensures
        match action_of(field_views(fields@)) {
            Ok(action) => r matches Ok(found) && found@ == action,
            Err(k) => r matches Err(found) && found@ == k,
        },
{
    if get_field(fields, "script").is_some() {
        let line = match get_required_text(fields, "script") {
            Ok(line) => line,
            Err(key) => {
                return Err(key);
            },
        };
        let script = match get_script(line.as_str(), "script") {
            Ok(script) => script,
            Err(key) => {
                return Err(key);
            },
        };
        match get_exit_handlers(fields) {
            Ok(handlers) => Ok(OperationAction::Script(script, handlers)),
            Err(key) => Err(key),
        }
    } else if get_field(fields, "background_script").is_some() {
        let line = match get_required_text(fields, "background_script") {
            Ok(line) => line,
            Err(key) => {
                return Err(key);
            },
        };
        let script = match get_script(line.as_str(), "background_script") {
            Ok(script) => script,
            Err(key) => {
                return Err(key);
            },
        };
        match get_required_text(fields, "on_exec") {
            Ok(on_exec) => Ok(OperationAction::BgScript(script, BgExitHandlers { on_exec })),
            Err(key) => Err(key),
        }
    } else if get_field(fields, "operation").is_some() {
        let operation = match get_required_text(fields, "operation") {
            Ok(v) => v,
            Err(key) => {
                return Err(key);
            },
        };
        let input_script = match get_optional_text(fields, "input_script") {
            Ok(v) => v,
            Err(key) => {
                return Err(key);
            },
        };
        let input = match get_optional_excerpt(fields, "input") {
            Ok(v) => v,
            Err(key) => {
                return Err(key);
            },
        };
        let on_exec = match get_required_text(fields, "on_exec") {
            Ok(v) => v,
            Err(key) => {
                return Err(key);
            },
        };
        let script = match input_script {
            None => None,
            Some(line) => match get_script(line.as_str(), "input_script") {
                Ok(script) => Some(script),
                Err(key) => {
                    return Err(key);
                },
            },
        };
        Ok(OperationAction::Operation(operation, script, input, BgExitHandlers { on_exec }))
    } else {
        let name = match get_required_text(fields, "action") {
            Ok(v) => v,
            Err(key) => {
                return Err(key);
            },
        };
        if same_text(name.as_str(), "proceed") {
            match get_required_text(fields, "on_success") {
                Ok(next) => Ok(OperationAction::MoveTo(next)),
                Err(key) => Err(key),
            }
        } else if same_text(name.as_str(), "builtin") {
            Ok(OperationAction::BuiltIn)
        } else if same_text(name.as_str(), "await-agent-restart") {
            match get_await_handlers(fields) {
                Ok(handlers) => Ok(OperationAction::AwaitingAgentRestart(handlers)),
                Err(key) => Err(key),
            }
        } else if same_text(name.as_str(), "await-operation-completion") {
            let handlers = match get_await_handlers(fields) {
                Ok(v) => v,
                Err(key) => {
                    return Err(key);
                },
            };
            match get_optional_excerpt(fields, "output") {
                Ok(excerpt) => Ok(OperationAction::AwaitOperationCompletion(handlers, excerpt)),
                Err(key) => Err(key),
            }
        } else if same_text(name.as_str(), "cleanup") {
            Ok(OperationAction::Clear)
        } else {
            Err(owned("action"))
        }
    }
}

/// What a definition says, before it is held against the rules of
/// workflows.
pub struct ParsedWorkflow {
    pub operation: Seq<char>,
    pub handlers: DefaultHandlersView,
    /// The names of the states, in the order of the definition.
    pub keys: Seq<Seq<char>>,
    pub states: Map<Seq<char>, ActionView>,
}

/// The first `n` states of a definition, each with the defaults taken where
/// it says nothing; or the first state that is malformed.
pub open spec fn states_of(
    entries: Seq<(Seq<char>, JsonView)>,
    defaults: DefaultHandlersView,
    n: nat,
) -> Result<(Seq<Seq<char>>, Map<Seq<char>, ActionView>), DefinitionFault>
    decreases n,
{
    if n == 0 {
        Ok((Seq::empty(), Map::empty()))
    } else {
        match states_of(entries, defaults, (n - 1) as nat) {
            Err(fault) => Err(fault),
            Ok((keys, states)) => {
                let name = entries[n - 1].0;
                match entries[n - 1].1 {
                    JsonView::Object(fields) => match action_of(fields) {
                        Ok(action) => Ok(
                            (
                                if states.contains_key(name) {
                                    keys
                                } else {
                                    keys.push(name)
                                },
                                states.insert(name, action.with_default(defaults)),
                            ),
                        ),
                        Err(field) => Err(DefinitionFault::MalformedState { state: name, field }),
                    },
                    _ => Err(DefinitionFault::MalformedState { state: name, field: Seq::empty() }),
                }
            },
        }
    }
}

/// What a definition says; or what is malformed in it.
pub open spec fn workflow_parsed(definition: JsonView) -> Result<ParsedWorkflow, DefinitionFault> {
    match definition {
        JsonView::Object(fields) => match (
            required_text(fields, "operation"@),
            optional_seconds(fields, "timeout_sec"@),
            optional_text(fields, "on_timeout"@),
            optional_text(fields, "on_error"@),
        ) {
            (Ok(operation), Ok(timeout_sec), Ok(on_timeout), Ok(on_error)) => {
                let handlers = DefaultHandlersView { timeout_sec, on_timeout, on_error };
                match JsonView::Object(fields).field("states"@) {
                    Some(JsonView::Object(entries)) => match states_of(
                        entries,
                        handlers,
                        entries.len(),
                    ) {
                        Ok((keys, states)) => Ok(
                            ParsedWorkflow { operation, handlers, keys, states },
                        ),
                        Err(fault) => Err(fault),
                    },
                    _ => Err(DefinitionFault::MalformedDefinition { field: "states"@ }),
                }
            },
            (Err(field), _, _, _) => Err(DefinitionFault::MalformedDefinition { field }),
            (_, Err(field), _, _) => Err(DefinitionFault::MalformedDefinition { field }),
            (_, _, Err(field), _) => Err(DefinitionFault::MalformedDefinition { field }),
            (_, _, _, Err(field)) => Err(DefinitionFault::MalformedDefinition { field }),
        },
        _ => Err(DefinitionFault::MalformedDefinition { field: Seq::empty() }),
    }
}

/// Tells whether a result is the workflow that a definition stands for, or
/// the fault of the definition: what is malformed in it, or the rule of
/// workflows that it breaks.
pub open spec fn is_workflow_of(
    r: Result<OperationWorkflow, WorkflowDefinitionError>,
    definition: JsonView,
) -> bool {
    match workflow_parsed(definition) {
        Err(fault) => r matches Err(e) && e@ == fault,
        Ok(parsed) => match definition_fault(parsed.handlers, parsed.keys, parsed.states) {
            Some(fault) => r matches Err(e) && e@ == fault,
            None => {
                &&& r matches Ok(workflow)
                &&& workflow.operation.name_text() == parsed.operation
                &&& !workflow.built_in
                &&& workflow.handlers@ == parsed.handlers
                &&& workflow.actions() == completed_states(parsed.states)
                &&& workflow.states.keys() == completed_keys(parsed.keys, parsed.states)
                &&& is_well_defined(workflow.actions())
            },
        },
    }
}

proof fn lemma_states_fault_stays(
    entries: Seq<(Seq<char>, JsonView)>,
    defaults: DefaultHandlersView,
    n: nat,
    m: nat,
)
    requires
        n <= m,
        states_of(entries, defaults, n) is Err,
    ensures
        states_of(entries, defaults, m) == states_of(entries, defaults, n),
    decreases m,
{
    if n < m {
        lemma_states_fault_stays(entries, defaults, n, (m - 1) as nat);
    }
}

/// Reads a workflow from its definition.
#[verifier::loop_isolation(false)]
pub fn read_workflow(definition: &Json) -> (r: Result<OperationWorkflow, WorkflowDefinitionError>)
    ensures
        is_workflow_of(r, definition@),
{
    let fields = match definition {
        Json::Object(fields) => {
            proof {
                definition.lemma_view();
            }
            fields
        },
        _ => {
            return Err(WorkflowDefinitionError::MalformedDefinition { field: String::new() });
        },
    };
    let operation = match get_required_text(fields, "operation") {
        Ok(v) => v,
        Err(field) => {
            return Err(WorkflowDefinitionError::MalformedDefinition { field });
        },
    };
    let timeout_sec = match get_optional_seconds(fields, "timeout_sec") {
        Ok(v) => v,
        Err(field) => {
            return Err(WorkflowDefinitionError::MalformedDefinition { field });
        },
    };
    let on_timeout = match get_optional_text(fields, "on_timeout") {
        Ok(v) => v,
        Err(field) => {
            return Err(WorkflowDefinitionError::MalformedDefinition { field });
        },
    };
    let on_error = match get_optional_text(fields, "on_error") {
        Ok(v) => v,
        Err(field) => {
            return Err(WorkflowDefinitionError::MalformedDefinition { field });
        },
    };
    let handlers = DefaultHandlers { timeout_sec, on_timeout, on_error };
    let entries = match get_field(fields, "states") {
        Some(Json::Object(entries)) => {
            proof {
                Json::Object(*entries).lemma_view();
            }
            entries
        },
        _ => {
            return Err(WorkflowDefinitionError::MalformedDefinition { field: owned("states") });
        },
    };
    let ghost all = field_views(entries@);
    let mut states: StringMap<OperationAction> = StringMap::new();
    let mut i: usize = 0;
    assert(action_views(states@) =~= Map::<Seq<char>, ActionView>::empty());
    assert(states.keys() =~= Seq::<Seq<char>>::empty());
    while i < entries.len()
        invariant
            i <= entries.len(),
            all == field_views(entries@),
            states_of(all, handlers@, i as nat) == Ok::<
                (Seq<Seq<char>>, Map<Seq<char>, ActionView>),
                DefinitionFault,
            >((states.keys(), action_views(states@))),
        decreases entries.len() - i,
    {
        let ghost before = action_views(states@);
        let name = entries[i].0.clone();
        assert(all[i as int] == (entries@[i as int].0@, entries@[i as int].1@));
        let action = match &entries[i].1 {
            Json::Object(state) => {
                proof {
                    Json::Object(*state).lemma_view();
                }
                match read_action(state) {
                    Ok(action) => action.with_default(&handlers),
                    Err(field) => {
                        proof {
                            assert(states_of(all, handlers@, i as nat + 1) == Err::<
                                (Seq<Seq<char>>, Map<Seq<char>, ActionView>),
                                DefinitionFault,
                            >(DefinitionFault::MalformedState { state: name@, field: field@ }));
                            lemma_states_fault_stays(
                                all,
                                handlers@,
                                i as nat + 1,
                                entries@.len() as nat,
                            );
                        }
                        return Err(WorkflowDefinitionError::MalformedState { state: name, field });
                    },
                }
            },
            _ => {
                proof {
                    assert(states_of(all, handlers@, i as nat + 1) == Err::<
                        (Seq<Seq<char>>, Map<Seq<char>, ActionView>),
                        DefinitionFault,
                    >(DefinitionFault::MalformedState { state: name@, field: Seq::empty() }));
                    lemma_states_fault_stays(all, handlers@, i as nat + 1, entries@.len() as nat);
                }
                return Err(
                    WorkflowDefinitionError::MalformedState { state: name, field: String::new() },
                );
            },
        };
        states.insert(name, action);
        assert(action_views(states@) =~= before.insert(name@, action@));
        i += 1;
    }
    OperationWorkflow::try_new(OperationType::from_name(operation.as_str()), handlers, states)
}

/// A file that may define a workflow: its name without extension, and its
/// content where it could be read as a document.
#[derive(Debug)]
pub struct WorkflowFile {
    pub name: String,
    pub definition: Option<Json>,
}

/// What came of a file.
#[derive(Debug)]
pub enum Loaded {
    /// The file's name holds other characters than letters, numbers and
    /// underscores: the file is not looked at.
    Ignored,
    /// The file could not be read as a document.
    Unreadable,
    /// The file does not define a workflow.
    Rejected(WorkflowDefinitionError),
    /// The file defines this workflow.
    Accepted(OperationWorkflow),
}

/// Tells whether an outcome is what comes of a file.
pub open spec fn is_loaded_from(outcome: Loaded, file: WorkflowFile) -> bool {
    if !is_operation_name(file.name@) {
        outcome is Ignored
    } else {
        match file.definition {
            None => outcome is Unreadable,
            Some(definition) => match outcome {
                Loaded::Accepted(workflow) => is_workflow_of(Ok(workflow), definition@),
                Loaded::Rejected(e) => is_workflow_of(Err(e), definition@),
                _ => false,
            },
        }
    }
}

/// Reads the workflows that the files of a directory define. What comes of
/// each file is told for that file: a file that defines no workflow does not
/// keep the others from being read.
pub fn load_workflows(files: &Vec<WorkflowFile>) -> (outcomes: Vec<Loaded>)
    ensures
        outcomes@.len() == files@.len(),
        forall|i: int|
            0 <= i < files@.len() ==> is_loaded_from(#[trigger] outcomes@[i], files@[i]),
{
    let mut outcomes: Vec<Loaded> = Vec::new();
    let mut i: usize = 0;
    while i < files.len()
        invariant
            i <= files.len(),
            outcomes@.len() == i,
            forall|k: int| 0 <= k < i ==> is_loaded_from(#[trigger] outcomes@[k], files@[k]),
        decreases files.len() - i,
    {
        let outcome = if !is_valid_operation_name(files[i].name.as_str()) {
            Loaded::Ignored
        } else {
            match &files[i].definition {
                None => Loaded::Unreadable,
                Some(definition) => match read_workflow(definition) {
                    Ok(workflow) => Loaded::Accepted(workflow),
                    Err(e) => Loaded::Rejected(e),
                },
            }
        };
        outcomes.push(outcome);
        i += 1;
    }
    outcomes
}

} // verus!

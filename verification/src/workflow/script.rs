//! Scripts and what follows from how they end.

use crate::json::{clone_json, field_views, remove_field, without_field, Json, JsonView};
use crate::json_codec::json_parsed;
use crate::text::{
    clone_option, clone_strings, decimal, join, joined_text, option_view, owned, texts,
};
use crate::workflow::state::{
    failed_status, payload_fields, successful_status, CommandStateView, GenericCommandState,
};
use crate::workflow::template::{
    missing_in_all, missing_references, push_missing_references, rendered,
};
use vstd::prelude::*;

verus! {

/// A command line: a program and its arguments.
#[derive(Debug)]
pub struct ShellScript {
    pub command: String,
    pub args: Vec<String>,
}

/// A command line as contracts speak of it.
pub struct ShellScriptView {
    pub command: Seq<char>,
    pub args: Seq<Seq<char>>,
}

impl ShellScriptView {
    /// The command line with the values of a command's state put in.
    pub open spec fn injected(self, topic: Seq<char>, payload: JsonView) -> ShellScriptView {
        ShellScriptView {
            command: rendered(topic, payload, self.command),
            args: self.args.map_values(|arg: Seq<char>| rendered(topic, payload, arg)),
        }
    }

    /// The references of the command line that are missing: those of the
    /// command, and then those of each argument.
    pub open spec fn missing_references(self, topic: Seq<char>, payload: JsonView) -> Seq<
        Seq<char>,
    > {
        missing_references(topic, payload, self.command) + missing_in_all(
            topic,
            payload,
            self.args,
        )
    }

    /// The command line as one text, with spaces between its words.
    pub open spec fn text(self) -> Seq<char> {
        joined_text(seq![self.command] + self.args, " "@)
    }
}

impl ShellScript {
    pub open spec fn view(&self) -> ShellScriptView {
        ShellScriptView { command: self.command@, args: texts(self.args@) }
    }

    /// Adds to a list the references of the command line that are missing.
    pub fn push_missing_references(&self, out: &mut Vec<String>, topic: &str, payload: &Json)
        ensures
            texts(final(out)@) == texts(old(out)@) + self@.missing_references(topic@, payload@),
    {
        let ghost before = texts(out@);
        push_missing_references(out, topic, payload, self.command.as_str());
        let ghost first = missing_references(topic@, payload@, self.command@);
        let ghost args = texts(self.args@);
        let mut i: usize = 0;
        assert(args.take(0) =~= Seq::<Seq<char>>::empty());
        assert(texts(out@) =~= before + (first + Seq::<Seq<char>>::empty()));
        while i < self.args.len()
            invariant
                i <= self.args.len(),
                args == texts(self.args@),
                texts(out@) == before + (first + missing_in_all(
                    topic@,
                    payload@,
                    args.take(i as int),
                )),
            decreases self.args.len() - i,
        {
            let ghost so_far = missing_in_all(topic@, payload@, args.take(i as int));
            proof {
                assert(args.take(i + 1).drop_last() =~= args.take(i as int));
                assert(args.take(i + 1).last() == self.args@[i as int]@);
            }
            push_missing_references(out, topic, payload, self.args[i].as_str());
            assert(texts(out@) =~= before + (first + (so_far + missing_references(
                topic@,
                payload@,
                self.args@[i as int]@,
            ))));
            i += 1;
        }
        assert(args.take(self.args.len() as int) =~= args);
    }

    /// The command line as one text.
    pub fn to_string(&self) -> (text: String)
        ensures
            text@ == self@.text(),
    {
        let mut words: Vec<String> = Vec::new();
        words.push(self.command.clone());
        let mut i: usize = 0;
        assert(texts(words@) =~= seq![self.command@] + texts(self.args@).take(0));
        while i < self.args.len()
            invariant
                i <= self.args.len(),
                texts(words@) == seq![self.command@] + texts(self.args@).take(i as int),
            decreases self.args.len() - i,
        {
            let ghost before = words@;
            let word = self.args[i].clone();
            words.push(word);
            i += 1;
            assert(texts(words@) =~= texts(before).push(word@));
            assert(texts(self.args@).take(i as int) =~= texts(self.args@).take(i - 1).push(word@));
            assert(texts(words@) =~= seq![self.command@] + texts(self.args@).take(i as int));
        }
        assert(texts(self.args@).take(self.args.len() as int) =~= texts(self.args@));
        join(&words, " ")
    }
}

impl Clone for ShellScript {
    fn clone(&self) -> (copy: ShellScript)
        ensures
            copy@ == self@,
    {
        ShellScript { command: self.command.clone(), args: clone_strings(&self.args) }
    }
}

/// What is done where an action says nothing of it.
#[derive(Debug)]
pub struct DefaultHandlers {
    pub timeout_sec: Option<u64>,
    pub on_timeout: Option<String>,
    pub on_error: Option<String>,
}

/// The defaults as contracts speak of them.
pub struct DefaultHandlersView {
    pub timeout_sec: Option<u64>,
    pub on_timeout: Option<Seq<char>>,
    pub on_error: Option<Seq<char>>,
}

impl DefaultHandlers {
    pub open spec fn view(&self) -> DefaultHandlersView {
        DefaultHandlersView {
            timeout_sec: self.timeout_sec,
            on_timeout: option_view(self.on_timeout),
            on_error: option_view(self.on_error),
        }
    }

    /// No timeout and no targets.
    pub fn new() -> (handlers: DefaultHandlers)
        ensures
            handlers.timeout_sec is None,
            handlers.on_timeout is None,
            handlers.on_error is None,
    {
        DefaultHandlers { timeout_sec: None, on_timeout: None, on_error: None }
    }
}

impl Clone for DefaultHandlers {
    fn clone(&self) -> (copy: DefaultHandlers)
        ensures
            copy == *self,
    {
        DefaultHandlers {
            timeout_sec: self.timeout_sec,
            on_timeout: clone_option(&self.on_timeout),
            on_error: clone_option(&self.on_error),
        }
    }
}

/// Which fields of an output go into a command's payload.
#[derive(Debug)]
pub enum StateExcerpt {
    /// All of them.
    Whole,
    /// Those of the given names.
    Fields(Vec<String>),
}

/// An excerpt as contracts speak of it.
pub enum ExcerptView {
    Whole,
    Fields(Seq<Seq<char>>),
}

/// The fields of the given names, in the order of the names; a name without
/// field is passed over.
pub open spec fn named_fields(output: JsonView, names: Seq<Seq<char>>) -> Seq<
    (Seq<char>, JsonView),
>
    decreases names.len(),
{
    if names.len() == 0 {
        Seq::empty()
    } else {
        let head = named_fields(output, names.drop_last());
        match output.field(names.last()) {
            Some(value) => head.push((names.last(), value)),
            None => head,
        }
    }
}

impl ExcerptView {
    /// The fields that the excerpt takes of an output. The status is never
    /// taken: it is the workflow that sets it.
    pub open spec fn of(self, output: JsonView) -> Seq<(Seq<char>, JsonView)> {
        match self {
            ExcerptView::Whole => without_field(payload_fields(output), "status"@),
            ExcerptView::Fields(names) => without_field(named_fields(output, names), "status"@),
        }
    }
}

impl StateExcerpt {
    pub open spec fn view(&self) -> ExcerptView {
        match self {
            StateExcerpt::Whole => ExcerptView::Whole,
            StateExcerpt::Fields(names) => ExcerptView::Fields(texts(names@)),
        }
    }

    /// The fields that the excerpt takes of an output.
    pub fn extract_from(&self, output: &Json) -> (fields: Vec<(String, Json)>)
        ensures
            field_views(fields@) == self@.of(output@),
    {
        let mut taken: Vec<(String, Json)> = Vec::new();
        match self {
            StateExcerpt::Whole => {
                proof {
                    output.lemma_view();
                }
                match clone_json(output) {
                    Json::Object(fields) => {
                        proof {
                            Json::Object(fields).lemma_view();
                        }
                        taken = fields;
                    },
                    _ => {
                        assert(field_views(taken@) =~= payload_fields(output@));
                    },
                }
            },
            StateExcerpt::Fields(names) => {
                let ghost all = texts(names@);
                let mut i: usize = 0;
                assert(all.take(0) =~= Seq::<Seq<char>>::empty());
                assert(field_views(taken@) =~= named_fields(output@, all.take(0)));
                while i < names.len()
                    invariant
                        i <= names.len(),
                        all == texts(names@),
                        field_views(taken@) == named_fields(output@, all.take(i as int)),
                    decreases names.len() - i,
                {
                    proof {
                        assert(all.take(i + 1).drop_last() =~= all.take(i as int));
                        assert(all.take(i + 1).last() == names@[i as int]@);
                    }
                    let ghost before = field_views(taken@);
                    if let Some(value) = output.get(names[i].as_str()) {
                        let copy = clone_json(value);
                        taken.push((names[i].clone(), copy));
                        assert(field_views(taken@) =~= before.push((names@[i as int]@, copy@)));
                    }
                    i += 1;
                }
                assert(all.take(names.len() as int) =~= all);
            },
        }
        remove_field(taken, "status")
    }
}

impl Clone for StateExcerpt {
    fn clone(&self) -> (copy: StateExcerpt)
        ensures
            copy@ == self@,
    {
        match self {
            StateExcerpt::Whole => StateExcerpt::Whole,
            StateExcerpt::Fields(names) => StateExcerpt::Fields(clone_strings(names)),
        }
    }
}

/// What follows from how a script ends.
#[derive(Debug)]
pub struct ExitHandlers {
    /// The status after the script ended with code 0; `successful` if none.
    pub on_success: Option<String>,
    /// The status after the script ended with another code; `failed` if none.
    pub on_error: Option<String>,
    /// The status after the script was killed, as it is when it runs out of
    /// time; `failed` if none.
    pub on_kill: Option<String>,
    /// The status after the script ended with one of these codes.
    pub on_exit: Vec<(i32, String)>,
    /// The time that the script is given, in seconds.
    pub timeout_sec: Option<u64>,
    /// The fields of the script's output that go into the payload.
    pub excerpt: StateExcerpt,
}

/// The handlers of a script as contracts speak of them.
pub struct ExitHandlersView {
    pub on_success: Option<Seq<char>>,
    pub on_error: Option<Seq<char>>,
    pub on_kill: Option<Seq<char>>,
    pub on_exit: Seq<(i32, Seq<char>)>,
    pub timeout_sec: Option<u64>,
    pub excerpt: ExcerptView,
}

/// The views of the entries of a table of exit codes.
pub open spec fn exit_views(table: Seq<(i32, String)>) -> Seq<(i32, Seq<char>)> {
    table.map_values(|entry: (i32, String)| (entry.0, entry.1@))
}

/// The status that a table of exit codes gives for a code: that of the first
/// entry with the code.
pub open spec fn exit_target(table: Seq<(i32, Seq<char>)>, code: i32) -> Option<Seq<char>>
    decreases table.len(),
{
    if table.len() == 0 {
        None
    } else if table[0].0 == code {
        Some(table[0].1)
    } else {
        exit_target(table.drop_first(), code)
    }
}

/// How a script ended.
#[derive(Debug)]
pub enum ScriptExit {
    /// The script ran to its end, with this code and this output.
    Exited { code: i32, stdout: Vec<u8> },
    /// The script was killed: by a signal, or because it ran out of time.
    Killed,
}

/// Whether a warning is due for the output of a script: the script ended
/// with the code 0, and what it wrote is no JSON text. The command goes on as
/// after any script that ended well, with its payload as it was.
pub open spec fn is_unreadable_output(code: Option<i32>, stdout: Seq<u8>) -> bool {
    code == Some(0i32) && json_parsed(stdout) is None
}

impl ScriptExit {
    /// Tells whether a warning is due for the output of the script.
    pub fn has_unreadable_output(&self) -> (r: bool)
        ensures
            r == match self {
                ScriptExit::Exited { code, stdout } => is_unreadable_output(Some(*code), stdout@),
                ScriptExit::Killed => false,
            },
    {
        match self {
            ScriptExit::Exited { code, stdout } => *code == 0 && Json::parse(
                stdout.as_slice(),
            ).is_none(),
            ScriptExit::Killed => false,
        }
    }
}

/// The given status, or the default where none is given.
pub open spec fn target_or(target: Option<Seq<char>>, default: Seq<char>) -> Seq<char> {
    match target {
        Some(status) => status,
        None => default,
    }
}

/// A signed number written in base ten.
pub open spec fn signed_decimal(n: int) -> Seq<char> {
    if n < 0 {
        seq!['-'] + decimal((-n) as nat)
    } else {
        decimal(n as nat)
    }
}

impl ExitHandlersView {
    /// The handlers with the defaults taken where the handlers say nothing.
    pub open spec fn with_default(self, default: DefaultHandlersView) -> ExitHandlersView {
        ExitHandlersView {
            on_success: self.on_success,
            on_error: if self.on_error is None {
                default.on_error
            } else {
                self.on_error
            },
            on_kill: if self.on_kill is None {
                default.on_timeout
            } else {
                self.on_kill
            },
            on_exit: self.on_exit,
            timeout_sec: if self.timeout_sec is None {
                default.timeout_sec
            } else {
                self.timeout_sec
            },
            excerpt: self.excerpt,
        }
    }

    /// The status that follows an exit: for the code zero the success target;
    /// for another code the target that the table gives for that very
    /// code, else the error target; for a killed script the kill target.
    pub open spec fn next_status(self, code: Option<i32>) -> Seq<char> {
        match code {
            Some(c) => if c == 0 {
                target_or(self.on_success, successful_status())
            } else {
                match exit_target(self.on_exit, c) {
                    Some(status) => status,
                    None => target_or(self.on_error, failed_status()),
                }
            },
            None => target_or(self.on_kill, failed_status()),
        }
    }

    /// The state of a command after its script ended. After code 0, the
    /// fields that the excerpt takes of the output go into the payload,
    /// where the output is a JSON text; where it is not, the payload is left
    /// as it is. After any other code, the code goes into the payload as
    /// `exit_code`.
    pub open spec fn state_after(
        self,
        state: CommandStateView,
        code: Option<i32>,
        stdout: Seq<u8>,
    ) -> CommandStateView {
        let moved = state.moved_to(self.next_status(code));
        match code {
            Some(c) => if c == 0 {
                match json_parsed(stdout) {
                    Some(output) => moved.with_values(self.excerpt.of(output)),
                    None => moved,
                }
            } else {
                moved.with_value("exit_code"@, JsonView::Number(signed_decimal(c as int)))
            },
            None => moved,
        }
    }
}

fn signed_decimal_text(n: i32) -> (text: String)
    ensures
        text@ == signed_decimal(n as int),
{
    if n < 0 {
        let mut text = owned("-");
        proof {
            reveal_strlit("-");
        }
        let magnitude: u64 = (-(n as i64)) as u64;
        text.append(crate::text::decimal_text(magnitude).as_str());
        assert(text@ =~= seq!['-'] + decimal((-n) as nat));
        text
    } else {
        crate::text::decimal_text(n as u64)
    }
}

impl ExitHandlers {
    pub open spec fn view(&self) -> ExitHandlersView {
        ExitHandlersView {
            on_success: option_view(self.on_success),
            on_error: option_view(self.on_error),
            on_kill: option_view(self.on_kill),
            on_exit: exit_views(self.on_exit@),
            timeout_sec: self.timeout_sec,
            excerpt: self.excerpt@,
        }
    }

    /// Takes the defaults where the handlers say nothing.
    pub fn with_default(self, default: &DefaultHandlers) -> (handlers: ExitHandlers)
        ensures
            handlers@ == self@.with_default(default@),
    {
        let mut handlers = self;
        if handlers.timeout_sec.is_none() {
            handlers.timeout_sec = default.timeout_sec;
        }
        if handlers.on_kill.is_none() {
            handlers.on_kill = clone_option(&default.on_timeout);
        }
        if handlers.on_error.is_none() {
            handlers.on_error = clone_option(&default.on_error);
        }
        handlers
    }

    fn exit_target(&self, code: i32) -> (r: Option<&str>)
        ensures
            match exit_target(self@.on_exit, code) {
                Some(status) => r matches Some(text) && text@ == status,
                None => r is None,
            },
    {
        let ghost table = exit_views(self.on_exit@);
        let mut i: usize = 0;
        assert(table.skip(0) =~= table);
        while i < self.on_exit.len()
            invariant
                i <= self.on_exit.len(),
                table == exit_views(self.on_exit@),
                exit_target(table, code) == exit_target(table.skip(i as int), code),
            decreases self.on_exit.len() - i,
        {
            proof {
                assert(table.skip(i as int)[0] == table[i as int]);
                assert(table.skip(i as int).drop_first() =~= table.skip(i + 1));
            }
            if self.on_exit[i].0 == code {
                return Some(self.on_exit[i].1.as_str());
            }
            i += 1;
        }
        assert(table.skip(i as int).len() == 0);
        None
    }

    /// The status that follows a script's end.
    pub fn next_status(&self, exit: &ScriptExit) -> (status: String)
        ensures
            status@ == self@.next_status(
                match exit {
                    ScriptExit::Exited { code, .. } => Some(*code),
                    ScriptExit::Killed => None,
                },
            ),
    {
        match exit {
            ScriptExit::Exited { code, .. } => {
                if *code == 0 {
                    match &self.on_success {
                        Some(status) => status.clone(),
                        None => owned("successful"),
                    }
                } else {
                    match self.exit_target(*code) {
                        Some(status) => owned(status),
                        None => match &self.on_error {
                            Some(status) => status.clone(),
                            None => owned("failed"),
                        },
                    }
                }
            },
            ScriptExit::Killed => match &self.on_kill {
                Some(status) => status.clone(),
                None => owned("failed"),
            },
        }
    }

    /// The state of a command after its script ended. Output that is no
    /// JSON text leaves the payload as it is; `has_unreadable_output` tells
    /// that a warning is due for it.
    pub fn state_update(&self, state: GenericCommandState, exit: &ScriptExit) -> (next:
        GenericCommandState)
        ensures
            next@ == self@.state_after(
                state@,
                match exit {
                    ScriptExit::Exited { code, .. } => Some(*code),
                    ScriptExit::Killed => None,
                },
                match exit {
                    ScriptExit::Exited { stdout, .. } => stdout@,
                    ScriptExit::Killed => Seq::empty(),
                },
            ),
    {
        let status = self.next_status(exit);
        let moved = state.move_to(status.as_str());
        match exit {
            ScriptExit::Exited { code, stdout } => {
                if *code == 0 {
                    match Json::parse(stdout.as_slice()) {
                        Some(output) => moved.update_with_values(self.excerpt.extract_from(&output)),
                        None => moved,
                    }
                } else {
                    moved.update_with_key_value(
                        "exit_code",
                        Json::Number(signed_decimal_text(*code)),
                    )
                }
            },
            ScriptExit::Killed => moved,
        }
    }
}

impl Clone for ExitHandlers {
    fn clone(&self) -> (copy: ExitHandlers)
        ensures
            copy@ == self@,
    {
        let mut on_exit: Vec<(i32, String)> = Vec::new();
        let mut i: usize = 0;
        assert(exit_views(on_exit@) =~= exit_views(self.on_exit@).take(0));
        while i < self.on_exit.len()
            invariant
                i <= self.on_exit.len(),
                exit_views(on_exit@) == exit_views(self.on_exit@).take(i as int),
            decreases self.on_exit.len() - i,
        {
            let ghost before = on_exit@;
            let status = self.on_exit[i].1.clone();
            let code = self.on_exit[i].0;
            on_exit.push((code, status));
            i += 1;
            assert(exit_views(on_exit@) =~= exit_views(before).push((code, status@)));
            assert(exit_views(self.on_exit@).take(i as int) =~= exit_views(self.on_exit@).take(
                i - 1,
            ).push((code, status@)));
        }
        assert(exit_views(self.on_exit@).take(self.on_exit.len() as int) =~= exit_views(
            self.on_exit@,
        ));
        ExitHandlers {
            on_success: clone_option(&self.on_success),
            on_error: clone_option(&self.on_error),
            on_kill: clone_option(&self.on_kill),
            on_exit,
            timeout_sec: self.timeout_sec,
            excerpt: self.excerpt.clone(),
        }
    }
}

/// What follows from the end of something that is waited for.
#[derive(Debug)]
pub struct AwaitHandlers {
    /// The time that is waited, in seconds.
    pub timeout_sec: Option<u64>,
    /// The status after what was awaited came.
    pub on_success: String,
    /// The status after it failed; `failed` if none.
    pub on_error: Option<String>,
    /// The status after the time ran out; `failed` if none.
    pub on_timeout: Option<String>,
}

impl AwaitHandlers {
    /// The handlers with the defaults taken where the handlers say nothing.
    pub open spec fn with_default_spec(self, default: DefaultHandlers) -> AwaitHandlers {
        AwaitHandlers {
            timeout_sec: if self.timeout_sec is None {
                default.timeout_sec
            } else {
                self.timeout_sec
            },
            on_success: self.on_success,
            on_error: if self.on_error is None {
                default.on_error
            } else {
                self.on_error
            },
            on_timeout: if self.on_timeout is None {
                default.on_timeout
            } else {
                self.on_timeout
            },
        }
    }

    /// Takes the defaults where the handlers say nothing.
    pub fn with_default(self, default: &DefaultHandlers) -> (handlers: AwaitHandlers)
        ensures
            handlers == self.with_default_spec(*default),
    {
        let mut handlers = self;
        if handlers.timeout_sec.is_none() {
            handlers.timeout_sec = default.timeout_sec;
        }
        if handlers.on_timeout.is_none() {
            handlers.on_timeout = clone_option(&default.on_timeout);
        }
        if handlers.on_error.is_none() {
            handlers.on_error = clone_option(&default.on_error);
        }
        handlers
    }
}

impl Clone for AwaitHandlers {
    fn clone(&self) -> (copy: AwaitHandlers)
        ensures
            copy == *self,
    {
        AwaitHandlers {
            timeout_sec: self.timeout_sec,
            on_success: self.on_success.clone(),
            on_error: clone_option(&self.on_error),
            on_timeout: clone_option(&self.on_timeout),
        }
    }
}

/// What follows once something was started that is not waited for.
#[derive(Debug)]
pub struct BgExitHandlers {
    /// The status once it was started.
    pub on_exec: String,
}

impl Clone for BgExitHandlers {
    fn clone(&self) -> (copy: BgExitHandlers)
        ensures
            copy == *self,
    {
        BgExitHandlers { on_exec: self.on_exec.clone() }
    }
}

} // verus!

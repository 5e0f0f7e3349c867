//! The operations that a device supports. Each operation is described by a
//! file whose name is the operation's name.

use crate::order::{is_sorted, sorted};
use crate::smartrest::csv::encoded_line;
use crate::smartrest::error::SmartRestSerializerError;
use crate::smartrest::message_ids::SET_SUPPORTED_OPERATIONS;
use crate::smartrest::payload::{payload_fault, SmartrestPayload};
use crate::string_map::StringMap;
use crate::text::{chars_of, clone_option, decimal, decimal_text, same_text, texts};
use vstd::prelude::*;

verus! {

/// Whether Unicode counts a character as numeric: what `char::is_numeric`
/// answers.
pub uninterp spec fn is_numeric_char(c: char) -> bool;

/// `char::is_numeric` tells whether a character has one of Unicode's numeric
/// general categories.
pub assume_specification[ char::is_numeric ](c: char) -> (r: bool)
    ensures
        r == is_numeric_char(c),
;

/// What an operation runs, and on which message.
#[derive(Debug)]
pub struct OnMessageExec {
    pub command: Option<String>,
    pub on_message: Option<String>,
    pub topic: Option<String>,
    pub user: Option<String>,
}

impl OnMessageExec {
    pub fn new(
        command: Option<String>,
        on_message: Option<String>,
        topic: Option<String>,
        user: Option<String>,
    ) -> (detail: Self)
        ensures
            detail.command_spec() == command,
            detail.on_message_spec() == on_message,
            detail.topic_spec() == topic,
            detail.user_spec() == user,
    {
        OnMessageExec { command, on_message, topic, user }
    }

    pub open spec fn command_spec(&self) -> Option<String> {
        self.command
    }

    pub open spec fn on_message_spec(&self) -> Option<String> {
        self.on_message
    }

    pub open spec fn topic_spec(&self) -> Option<String> {
        self.topic
    }

    pub open spec fn user_spec(&self) -> Option<String> {
        self.user
    }

    /// The SmartREST template that triggers the operation.
    pub fn on_message(&self) -> (r: Option<&String>)
        ensures
            r matches Some(t) ==> self.on_message_spec() == Some(*t),
            r is None ==> self.on_message_spec() is None,
    {
        self.on_message.as_ref()
    }

    /// The user under which the command runs.
    pub fn user(&self) -> (r: Option<&String>)
        ensures
            r matches Some(t) ==> self.user_spec() == Some(*t),
            r is None ==> self.user_spec() is None,
    {
        self.user.as_ref()
    }
}

impl Clone for OnMessageExec {
    fn clone(&self) -> (copy: Self)
        ensures
            copy == *self,
    {
        OnMessageExec {
            command: clone_option(&self.command),
            on_message: clone_option(&self.on_message),
            topic: clone_option(&self.topic),
            user: clone_option(&self.user),
        }
    }
}

/// An operation that a device supports.
#[derive(Debug)]
pub struct Operation {
    pub name: String,
    pub detail: Option<OnMessageExec>,
}

impl Operation {
    pub fn new(name: String, detail: Option<OnMessageExec>) -> (operation: Self)
        ensures
            operation.name == name,
            operation.exec_spec() == detail,
    {
        Operation { name, detail }
    }

    pub open spec fn exec_spec(&self) -> Option<OnMessageExec> {
        self.detail
    }

    /// The template that triggers the operation, if it has one.
    pub open spec fn trigger(&self) -> Option<Seq<char>> {
        match self.exec_spec() {
            Some(detail) => match detail.on_message_spec() {
                Some(t) => Some(t@),
                None => None,
            },
            None => None,
        }
    }

    /// The topic on which the operation listens, if it has one.
    pub open spec fn topic_text(&self) -> Option<Seq<char>> {
        match self.exec_spec() {
            Some(detail) => match detail.topic_spec() {
                Some(t) => Some(t@),
                None => None,
            },
            None => None,
        }
    }

    /// What the operation runs.
    pub fn exec_detail(&self) -> (r: Option<&OnMessageExec>)
        ensures
            r matches Some(e) ==> self.exec_spec() == Some(*e),
            r is None ==> self.exec_spec() is None,
    {
        self.detail.as_ref()
    }

    /// The command that the operation runs.
    pub fn command(&self) -> (r: Option<String>)
        ensures
            r == match self.exec_spec() {
                Some(detail) => detail.command_spec(),
                None => None,
            },
    {
        match &self.detail {
            Some(detail) => match &detail.command {
                Some(command) => Some(command.clone()),
                None => None,
            },
            None => None,
        }
    }

    /// The topic on which the operation listens.
    pub fn topic(&self) -> (r: Option<String>)
        ensures
            r == match self.exec_spec() {
                Some(detail) => detail.topic_spec(),
                None => None,
            },
            option_string_text(r) == self.topic_text(),
    {
        match &self.detail {
            Some(detail) => match &detail.topic {
                Some(topic) => Some(topic.clone()),
                None => None,
            },
            None => None,
        }
    }

    /// The same operation under another name.
    pub fn renamed(self, name: String) -> (operation: Self)
        ensures
            operation.name == name,
            operation.exec_spec() == self.exec_spec(),
    {
        Operation { name, detail: self.detail }
    }
}

impl Clone for Operation {
    fn clone(&self) -> (copy: Self)
        ensures
            copy == *self,
    {
        Operation {
            name: self.name.clone(),
            detail: match &self.detail {
                Some(detail) => Some(detail.clone()),
                None => None,
            },
        }
    }
}

pub open spec fn option_string_text(s: Option<String>) -> Option<Seq<char>> {
    match s {
        Some(t) => Some(t@),
        None => None,
    }
}

/// The letters of ASCII.
pub open spec fn is_ascii_letter(c: char) -> bool {
    ('a' <= c <= 'z') || ('A' <= c <= 'Z')
}

/// An operation's name is made of ASCII letters, numeric characters and
/// underscores: the files that editors leave beside the real ones have other
/// characters in their names.
pub open spec fn is_operation_name(name: Seq<char>) -> bool {
    forall|i: int|
        0 <= i < name.len() ==> {
            let c = #[trigger] name[i];
            is_ascii_letter(c) || is_numeric_char(c) || c == '_'
        }
}

/// Tells whether a file's name can be the name of an operation.
pub fn is_valid_operation_name(operation: &str) -> (r: bool)
    ensures
        r == is_operation_name(operation@),
{
    let chars = chars_of(operation);
    let mut i: usize = 0;
    while i < chars.len()
        invariant
            i <= chars.len(),
            chars@ == operation@,
            forall|j: int|
                0 <= j < i ==> {
                    let c = #[trigger] operation@[j];
                    is_ascii_letter(c) || is_numeric_char(c) || c == '_'
                },
        decreases chars.len() - i,
    {
        let c = chars[i];
        let letter = ('a' <= c && c <= 'z') || ('A' <= c && c <= 'Z');
        if !(letter || c.is_numeric() || c == '_') {
            assert(!{
                let c = operation@[i as int];
                is_ascii_letter(c) || is_numeric_char(c) || c == '_'
            });
            return false;
        }
        i += 1;
    }
    true
}

/// What is known of a file in the directory of operations.
#[derive(Debug)]
pub enum FileContent {
    /// The file was read and describes this operation.
    Parsed(Operation),
    /// The file was read and does not describe an operation; the text says why.
    Malformed(String),
    /// The file could not be read; the text says why.
    Unreadable(String),
}

/// A file in the directory of operations.
#[derive(Debug)]
pub struct OperationFile {
    pub file_name: String,
    pub content: FileContent,
}

/// Why the operations could not be loaded.
#[derive(Debug)]
pub enum OperationsError {
    /// A file could not be read.
    FromIo { file_name: String, reason: String },
    /// A file does not describe an operation.
    TomlError { file_name: String, reason: String },
}

/// The operations that a device supports, in the order in which they were
/// added, and for each template the place of the operation that it triggers.
#[derive(Debug)]
pub struct Operations {
    operations: Vec<Operation>,
    operations_by_trigger: StringMap<usize>,
}

/// The operations of a device, as contracts speak of them.
pub struct OperationsView {
    pub list: Seq<Operation>,
    pub by_trigger: Map<Seq<char>, usize>,
}

impl OperationsView {
    pub open spec fn empty() -> Self {
        OperationsView { list: Seq::empty(), by_trigger: Map::empty() }
    }

    /// Tells whether an operation of that name is there.
    pub open spec fn has_name(self, name: Seq<char>) -> bool {
        exists|i: int| 0 <= i < self.list.len() && (#[trigger] self.list[i]).name@ == name
    }

    /// The names, in order.
    pub open spec fn names(self) -> Seq<Seq<char>> {
        self.list.map_values(|o: Operation| o.name@)
    }

    /// The operations after one more was added: unchanged where the name is
    /// taken; else the operation goes behind the others, and its template, if
    /// it has one, now leads to it.
    pub open spec fn added(self, operation: Operation) -> Self {
        if self.has_name(operation.name@) {
            self
        } else {
            OperationsView {
                list: self.list.push(operation),
                by_trigger: match operation.trigger() {
                    Some(t) => self.by_trigger.insert(t, self.list.len() as usize),
                    None => self.by_trigger,
                },
            }
        }
    }

    /// The operations after those of the given name were taken out. The
    /// places recorded for the templates stay as they were.
    pub open spec fn removed(self, name: Seq<char>) -> Self {
        OperationsView {
            list: self.list.filter(|o: Operation| o.name@ != name),
            by_trigger: self.by_trigger,
        }
    }

    /// The operation that a template triggers: the one at the place recorded
    /// for the template, if there is one at that place.
    pub open spec fn triggered_by(self, template: Seq<char>) -> Option<Operation> {
        if self.by_trigger.contains_key(template) && self.by_trigger[template] < self.list.len() {
            Some(self.list[self.by_trigger[template] as int])
        } else {
            None
        }
    }

    /// Tells whether one of the first `n` operations listens on the topic.
    pub open spec fn has_topic_before(self, topic: Seq<char>, n: int) -> bool {
        exists|i: int| 0 <= i < n && (#[trigger] self.list[i]).topic_text() == Some(topic)
    }

    /// Tells whether one of the operations listens on the topic.
    pub open spec fn has_topic(self, topic: Seq<char>) -> bool {
        self.has_topic_before(topic, self.list.len() as int)
    }
}

/// What loading the first `n` files gives: the operations described by the
/// files whose names can be names of operations, each under its file's name;
/// or the first of those files that could not be read or does not describe
/// an operation.
pub open spec fn loaded(files: Seq<OperationFile>, n: nat) -> Result<OperationsView, int>
    decreases n,
{
    if n == 0 {
        Ok(OperationsView::empty())
    } else {
        let file = files[n - 1];
        match loaded(files, (n - 1) as nat) {
            Err(i) => Err(i),
            Ok(view) => if !is_operation_name(file.file_name@) {
                Ok(view)
            } else {
                match file.content {
                    FileContent::Parsed(operation) => Ok(
                        view.added(
                            Operation { name: file.file_name, detail: operation.exec_spec() },
                        ),
                    ),
                    _ => Err(n - 1),
                }
            },
        }
    }
}

impl Operations {
    /// The operations, as contracts speak of them.
    pub closed spec fn view(&self) -> OperationsView {
        OperationsView { list: self.operations@, by_trigger: self.operations_by_trigger@ }
    }

    /// No operations.
    pub fn new() -> (operations: Self)
        ensures
            operations@ == OperationsView::empty(),
    {
        Operations { operations: Vec::new(), operations_by_trigger: StringMap::new() }
    }

    fn has_name(&self, name: &str) -> (r: bool)
        ensures
            r == self@.has_name(name@),
    {
        let mut i: usize = 0;
        while i < self.operations.len()
            invariant
                i <= self.operations.len(),
                forall|j: int| 0 <= j < i ==> (#[trigger] self.operations@[j]).name@ != name@,
            decreases self.operations.len() - i,
        {
            if same_text(self.operations[i].name.as_str(), name) {
                return true;
            }
            i += 1;
        }
        false
    }

    /// Adds an operation, unless one of its name is there already.
    pub fn add_operation(&mut self, operation: Operation)
        ensures
            final(self)@ == old(self)@.added(operation),
    {
        if self.has_name(operation.name.as_str()) {
        } else {
            if let Some(detail) = operation.exec_detail() {
                if let Some(on_message) = detail.on_message() {
                    let place = self.operations.len();
                    self.operations_by_trigger.insert(on_message.clone(), place);
                }
            }
            self.operations.push(operation);
        }
    }

    /// Takes out the operations of the given name.
    pub fn remove_operation(&mut self, op_name: &str)
        ensures
            final(self)@ == old(self)@.removed(op_name@),
    {
        let ghost list = self.operations@;
        let ghost keep = |o: Operation| o.name@ != op_name@;
        let mut kept: Vec<Operation> = Vec::new();
        let mut i: usize = 0;
        assert(list.take(0) =~= Seq::<Operation>::empty());
        while i < self.operations.len()
            invariant
                i <= list.len(),
                self.operations@ == list,
                self.operations_by_trigger == old(self).operations_by_trigger,
                kept@ == list.take(i as int).filter(keep),
                keep == |o: Operation| o.name@ != op_name@,
            decreases list.len() - i,
        {
            proof {
                assert(list.take(i + 1).drop_last() =~= list.take(i as int));
                assert(list.take(i + 1).last() == list[i as int]);
                reveal(Seq::filter);
            }
            if !same_text(self.operations[i].name.as_str(), op_name) {
                kept.push(self.operations[i].clone());
            }
            i += 1;
        }
        assert(list.take(list.len() as int) =~= list);
        self.operations = kept;
    }

    /// Loads the operations that a directory's files describe. Files whose
    /// names cannot be names of operations are passed over. The first of the
    /// others that could not be read, or that does not describe an operation,
    /// is an error.
    pub fn try_new(files: &Vec<OperationFile>) -> (r: Result<Self, OperationsError>)
        ensures
            match loaded(files@, files@.len()) {
                Ok(view) => r matches Ok(operations) && operations@ == view,
                Err(i) => {
                    &&& 0 <= i < files@.len()
                    &&& r matches Err(e)
                    &&& match files@[i].content {
                        FileContent::Malformed(reason) => e == (OperationsError::TomlError {
                            file_name: files@[i].file_name,
                            reason,
                        }),
                        FileContent::Unreadable(reason) => e == (OperationsError::FromIo {
                            file_name: files@[i].file_name,
                            reason,
                        }),
                        FileContent::Parsed(_) => false,
                    }
                },
            },
    {
        let mut operations = Operations::new();
        let mut done: usize = 0;
        while done < files.len()
            invariant
                done <= files@.len(),
                loaded(files@, done as nat) == Ok::<OperationsView, int>(operations@),
            decreases files@.len() - done,
        {
            let file = &files[done];
            if is_valid_operation_name(file.file_name.as_str()) {
                match &file.content {
                    FileContent::Parsed(operation) => {
                        operations.add_operation(
                            operation.clone().renamed(file.file_name.clone()),
                        );
                    },
                    FileContent::Malformed(reason) => {
                        proof {
                            lemma_loaded_error_stays(files@, done as nat + 1, files@.len());
                        }
                        return Err(
                            OperationsError::TomlError {
                                file_name: file.file_name.clone(),
                                reason: reason.clone(),
                            },
                        );
                    },
                    FileContent::Unreadable(reason) => {
                        proof {
                            lemma_loaded_error_stays(files@, done as nat + 1, files@.len());
                        }
                        return Err(
                            OperationsError::FromIo {
                                file_name: file.file_name.clone(),
                                reason: reason.clone(),
                            },
                        );
                    },
                }
            }
            done += 1;
        }
        Ok(operations)
    }

    /// The names of the operations, in the order in which they were added.
    pub fn get_operations_list(&self) -> (names: Vec<String>)
        ensures
            texts(names@) == self@.names(),
    {
        let mut names: Vec<String> = Vec::new();
        let mut i: usize = 0;
        assert(texts(names@) =~= self@.names().take(0));
        while i < self.operations.len()
            invariant
                i <= self.operations.len(),
                texts(names@) == self@.names().take(i as int),
            decreases self.operations.len() - i,
        {
            let ghost before = names@;
            let name = self.operations[i].name.clone();
            names.push(name);
            assert(texts(names@) =~= texts(before).push(name@));
            assert(self@.names().take(i + 1) =~= self@.names().take(i as int).push(name@));
            i += 1;
        }
        assert(self@.names().take(self.operations.len() as int) =~= self@.names());
        names
    }

    /// The operation that a SmartREST template triggers.
    pub fn matching_smartrest_template(&self, operation_template: &str) -> (r: Option<&Operation>)
        ensures
            match self@.triggered_by(operation_template@) {
                Some(operation) => r matches Some(found) && *found == operation,
                None => r is None,
            },
    {
        match self.operations_by_trigger.get(operation_template) {
            Some(index) => {
                if *index < self.operations.len() {
                    Some(&self.operations[*index])
                } else {
                    None
                }
            },
            None => None,
        }
    }

    /// The topics on which the operations listen, each once.
    pub fn topics_for_operations(&self) -> (topics: Vec<String>)
        ensures
            texts(topics@).no_duplicates(),
            forall|topic: Seq<char>|
                texts(topics@).contains(topic) <==> #[trigger] self@.has_topic(topic),
    {
        let mut topics: Vec<String> = Vec::new();
        let mut i: usize = 0;
        assert(texts(topics@) =~= Seq::<Seq<char>>::empty());
        while i < self.operations.len()
            invariant
                i <= self.operations.len(),
                texts(topics@).no_duplicates(),
                forall|topic: Seq<char>|
                    texts(topics@).contains(topic) <==> #[trigger] self@.has_topic_before(
                        topic,
                        i as int,
                    ),
            decreases self.operations.len() - i,
        {
            let ghost before = texts(topics@);
            let ghost here = self.operations@[i as int].topic_text();
            if let Some(topic) = self.operations[i].topic() {
                let mut known = false;
                let mut k: usize = 0;
                while k < topics.len()
                    invariant
                        k <= topics.len(),
                        !known ==> forall|j: int| 0 <= j < k ==> texts(topics@)[j] != topic@,
                        known ==> texts(topics@).contains(topic@),
                    decreases topics.len() - k,
                {
                    if same_text(topics[k].as_str(), topic.as_str()) {
                        assert(texts(topics@)[k as int] == topic@);
                        known = true;
                    }
                    k += 1;
                }
                if !known {
                    topics.push(topic);
                    assert(texts(topics@) =~= before.push(topic@));
                    assert(texts(topics@)[before.len() as int] == topic@);
                }
            }
            proof {
                let after = texts(topics@);
                assert forall|t: Seq<char>| after.contains(t) <==> (before.contains(t) || here
                    == Some(t)) by {
                    if before.contains(t) {
                        let j = choose|j: int| 0 <= j < before.len() && before[j] == t;
                        assert(after[j] == t);
                    }
                    if after.contains(t) && here != Some(t) {
                        let j = choose|j: int| 0 <= j < after.len() && after[j] == t;
                        assert(before[j] == t);
                    }
                }
                assert forall|t: Seq<char>| after.contains(t) <==> #[trigger] self@.has_topic_before(
                    t,
                    i + 1,
                ) by {
                    if self@.has_topic_before(t, i + 1) {
                        let j = choose|j: int|
                            0 <= j < i + 1 && (#[trigger] self@.list[j]).topic_text() == Some(t);
                        if j < i {
                            assert(self@.has_topic_before(t, i as int));
                        }
                    }
                    if before.contains(t) {
                        assert(self@.has_topic_before(t, i as int));
                        let j = choose|j: int|
                            0 <= j < i && (#[trigger] self@.list[j]).topic_text() == Some(t);
                        assert(self@.list[j].topic_text() == Some(t));
                    }
                    if here == Some(t) {
                        assert(self@.list[i as int].topic_text() == Some(t));
                    }
                }
            }
            i += 1;
        }
        topics
    }

    /// The SmartREST message that tells the cloud which operations the device
    /// supports: the code, then the names in the order of the dictionary.
    pub fn create_smartrest_ops_message(&self) -> (r: Result<String, SmartRestSerializerError>)
        ensures
            exists|names: Seq<Seq<char>>|
                {
                    &&& is_sorted(names)
                    &&& names.to_multiset() == self@.names().to_multiset()
                    &&& match #[trigger] payload_fault(supported_operations_fields(names)) {
                        Some(fault) => r matches Err(e) && e@ == fault,
                        None => r matches Ok(line) && line@ == encoded_line(
                            supported_operations_fields(names),
                        ),
                    }
                },
    {
        let ops = sorted(self.get_operations_list());
        let mut fields: Vec<String> = Vec::new();
        fields.push(decimal_text(SET_SUPPORTED_OPERATIONS as u64));
        let mut i: usize = 0;
        assert(texts(fields@) =~= supported_operations_fields(texts(ops@).take(0)));
        while i < ops.len()
            invariant
                i <= ops.len(),
                texts(fields@) == supported_operations_fields(texts(ops@).take(i as int)),
            decreases ops.len() - i,
        {
            let ghost before = fields@;
            let name = ops[i].clone();
            fields.push(name);
            i += 1;
            assert(texts(fields@) =~= texts(before).push(name@));
            assert(texts(ops@).take(i as int) =~= texts(ops@).take(i - 1).push(name@));
            assert(texts(fields@) =~= supported_operations_fields(texts(ops@).take(i as int)));
        }
        assert(texts(ops@).take(ops.len() as int) =~= texts(ops@));
        let ghost names = texts(ops@);
        assert(payload_fault(supported_operations_fields(names)) == payload_fault(
            supported_operations_fields(names),
        ));
        match SmartrestPayload::serialize(&fields) {
            Ok(payload) => Ok(payload.into_inner()),
            Err(e) => Err(e),
        }
    }
}

/// The fields of the message that lists the supported operations.
pub open spec fn supported_operations_fields(names: Seq<Seq<char>>) -> Seq<Seq<char>> {
    seq![decimal(SET_SUPPORTED_OPERATIONS as nat)] + names
}

proof fn lemma_loaded_error_stays(files: Seq<OperationFile>, n: nat, m: nat)
    requires
        n <= m,
        loaded(files, n) is Err,
    ensures
        loaded(files, m) == loaded(files, n),
    decreases m,
{
    if n < m {
        lemma_loaded_error_stays(files, n, (m - 1) as nat);
    }
}

} // verus!

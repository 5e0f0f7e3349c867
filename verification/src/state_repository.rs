//! What the agent writes down of the operation that it is carrying out, so
//! that it knows of it when it starts again.

use crate::mqtt_topics::EntityTopicId;
use crate::text::{clone_option, owned, same_text};
use vstd::prelude::*;

verus! {

/// The software operations.
#[derive(Clone, Copy, PartialEq, Eq, Structural, Debug)]
pub enum SoftwareOperationVariants {
    List,
    Update,
}

/// How far a restart has come.
#[derive(Clone, Copy, PartialEq, Eq, Structural, Debug)]
pub enum RestartOperationStatus {
    /// The restart was asked for.
    Pending,
    /// The device was told to restart.
    Restarting,
}

/// The operation that is under way.
#[derive(Clone, Copy, PartialEq, Eq, Structural, Debug)]
pub enum StateStatus {
    Software(SoftwareOperationVariants),
    Restart(RestartOperationStatus),
    UnknownOperation,
}

impl StateStatus {
    /// The name under which the operation is written down.
    pub open spec fn name_text(self) -> Option<Seq<char>> {
        match self {
            StateStatus::Software(SoftwareOperationVariants::List) => Some("list"@),
            StateStatus::Software(SoftwareOperationVariants::Update) => Some("update"@),
            StateStatus::Restart(RestartOperationStatus::Pending) => Some("Pending"@),
            StateStatus::Restart(RestartOperationStatus::Restarting) => Some("Restarting"@),
            StateStatus::UnknownOperation => None,
        }
    }

    /// The name under which the operation is written down; none for an
    /// operation that is not known.
    pub fn name(&self) -> (r: Option<&'static str>)
        ensures
            match self.name_text() {
                Some(text) => r matches Some(name) && name@ == text,
                None => r is None,
            },
    {
        match self {
            StateStatus::Software(SoftwareOperationVariants::List) => Some("list"),
            StateStatus::Software(SoftwareOperationVariants::Update) => Some("update"),
            StateStatus::Restart(RestartOperationStatus::Pending) => Some("Pending"),
            StateStatus::Restart(RestartOperationStatus::Restarting) => Some("Restarting"),
            StateStatus::UnknownOperation => None,
        }
    }

    /// The operation written down under a name.
    pub fn from_name(name: &str) -> (status: StateStatus)
        ensures
            status == status_of_name(name@),
    {
        if same_text(name, "list") {
            StateStatus::Software(SoftwareOperationVariants::List)
        } else if same_text(name, "update") {
            StateStatus::Software(SoftwareOperationVariants::Update)
        } else if same_text(name, "Pending") {
            StateStatus::Restart(RestartOperationStatus::Pending)
        } else if same_text(name, "Restarting") {
            StateStatus::Restart(RestartOperationStatus::Restarting)
        } else {
            StateStatus::UnknownOperation
        }
    }
}

/// The operation written down under a name.
pub open spec fn status_of_name(name: Seq<char>) -> StateStatus {
    if name == "list"@ {
        StateStatus::Software(SoftwareOperationVariants::List)
    } else if name == "update"@ {
        StateStatus::Software(SoftwareOperationVariants::Update)
    } else if name == "Pending"@ {
        StateStatus::Restart(RestartOperationStatus::Pending)
    } else if name == "Restarting"@ {
        StateStatus::Restart(RestartOperationStatus::Restarting)
    } else {
        StateStatus::UnknownOperation
    }
}

/// What is written down: the id of the command, and the operation.
#[derive(Debug)]
pub struct State {
    pub operation_id: Option<String>,
    pub operation: Option<StateStatus>,
}

impl State {
    /// What is written down when no operation is under way.
    pub fn cleared() -> (state: State)
        ensures
            state.operation_id is None,
            state.operation is None,
    {
        State { operation_id: None, operation: None }
    }
}

impl Clone for State {
    fn clone(&self) -> (copy: State)
        ensures
            copy == *self,
    {
        State { operation_id: clone_option(&self.operation_id), operation: self.operation }
    }
}

/// The name of the file in which the state of an operation is written down.
pub open spec fn state_file_name(operation: Seq<char>) -> Seq<char> {
    operation + "-current-operation"@
}

/// The name of the file in which the state of an operation is written down:
/// the operation's name and `-current-operation`.
pub fn make_state_file_name(operation: &str) -> (name: String)
    ensures
        name@ == state_file_name(operation@),
{
    let mut name = owned(operation);
    name.append("-current-operation");
    name
}

/// The state of a command.
#[derive(Debug)]
pub enum CommandStatus {
    Init,
    Scheduled,
    Executing,
    Successful,
    Failed { reason: String },
    Unknown,
}

/// A restart command.
#[derive(Debug)]
pub struct RestartCommand {
    pub target: EntityTopicId,
    pub cmd_id: String,
    pub status: CommandStatus,
}

/// Why a restart that was under way when the agent stopped has failed.
pub open spec fn not_restarted_reason() -> Seq<char> {
    "The agent has been restarted but not the device"@
}

/// What is to be said, when the agent starts, of a restart that was under
/// way when it stopped: it was successful where the device was told to
/// restart and has restarted, and it has failed otherwise. Nothing is said
/// where no restart was under way.
pub fn pending_restart_outcome(state: &State, device_restarted: bool, target: &EntityTopicId) -> (r:
    Option<RestartCommand>)
    ensures
        match (state.operation_id, state.operation) {
            (Some(id), Some(StateStatus::Restart(progress))) => {
                &&& r matches Some(command)
                &&& command.target@ == target@
                &&& command.cmd_id@ == id@
                &&& if progress == RestartOperationStatus::Restarting && device_restarted {
                    command.status is Successful
                } else {
                    command.status matches CommandStatus::Failed { reason } && reason@
                        == not_restarted_reason()
                }
            },
            _ => r is None,
        },
{
    match (&state.operation_id, &state.operation) {
        (Some(id), Some(StateStatus::Restart(progress))) => {
            let restarted = match progress {
                RestartOperationStatus::Restarting => device_restarted,
                RestartOperationStatus::Pending => false,
            };
            let status = if restarted {
                CommandStatus::Successful
            } else {
                CommandStatus::Failed {
                    reason: owned("The agent has been restarted but not the device"),
                }
            };
            Some(RestartCommand { target: target.clone(), cmd_id: id.clone(), status })
        },
        _ => None,
    }
}

/// What follows a request to restart: for a new command, that the restart
/// is asked for is written down, and the command is said to be executing;
/// nothing follows a command in any other state.
pub fn new_restart_operation(request: &RestartCommand) -> (r: Option<(State, RestartCommand)>)
    ensures
        match request.status {
            CommandStatus::Init => {
                &&& r matches Some((state, executing))
                &&& state.operation_id matches Some(id)
                &&& id@ == request.cmd_id@
                &&& state.operation == Some(StateStatus::Restart(RestartOperationStatus::Pending))
                &&& executing.target@ == request.target@
                &&& executing.cmd_id@ == request.cmd_id@
                &&& executing.status is Executing
            },
            _ => r is None,
        },
{
    match request.status {
        CommandStatus::Init => Some(
            (
                State {
                    operation_id: Some(request.cmd_id.clone()),
                    operation: Some(StateStatus::Restart(RestartOperationStatus::Pending)),
                },
                RestartCommand {
                    target: request.target.clone(),
                    cmd_id: request.cmd_id.clone(),
                    status: CommandStatus::Executing,
                },
            ),
        ),
        _ => None,
    }
}

} // verus!

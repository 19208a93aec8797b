//! The command-line surface as plain data: the subcommand trees for saved
//! commands and variables, and the errors the command-line layer reports.
//! The surrounding application parses arguments into these values and
//! dispatches on them.

use vstd::prelude::*;
use vstd::string::*;

verus! {

/// Subcommands for managing saved commands.
pub enum Commands {
    Run { name: String, save_var: Option<String>, json_path: Option<String> },
    Save { name: String, cmd: String },
    Ls { remote: bool, global: bool },
    Show { name: String },
    Rm { name: String },
    Edit { name: String },
    Push { name: String },
    Pull { name: String },
}

/// Subcommands for managing variables.
pub enum Vars {
    Ls,
    Assign { key: String, value: String },
    Rm { key: String },
}

/// Errors of the saved-command command line.
#[derive(Debug)]
pub enum CliCommandError {
    CommandNotFound,
    EmptyCommand(String),
    CommandExecutionFailed,
    CommandExitedWithError(String),
}

/// Errors of the project command line.
#[derive(Debug)]
pub enum CliProjectError {
    NotFound,
    CreateFailed,
    DeleteFailed,
}

/// Errors of the task command line.
#[derive(Debug)]
pub enum CliTaskError {
    NotFound,
    CreateFailed,
    DeleteFailed,
}

/// Errors of the variable command line.
#[derive(Debug)]
pub enum CliVariableError {
    VariableNotFound,
    CreateFailed,
}

impl CliCommandError {
    /// A short human-readable description.
    pub fn message(&self) -> (r: String)
        ensures
            *self is CommandNotFound ==> r@ == "Command not found."@,
            self matches CliCommandError::EmptyCommand(alias) ==> r@ == "No command found for alias `"@
                + alias@ + "`."@,
            *self is CommandExecutionFailed ==> r@ == "Command execution failed."@,
            self matches CliCommandError::CommandExitedWithError(code) ==> r@
                == "Command exited with error: "@ + code@,
    {
        match self {
            CliCommandError::CommandNotFound => String::from_str("Command not found."),
            CliCommandError::EmptyCommand(alias) => {
                let mut out = String::from_str("No command found for alias `");
                out.append(alias.as_str());
                out.append("`.");
                out
            },
            CliCommandError::CommandExecutionFailed => String::from_str(
                "Command execution failed.",
            ),
            CliCommandError::CommandExitedWithError(code) => {
                let mut out = String::from_str("Command exited with error: ");
                out.append(code.as_str());
                out
            },
        }
    }
}

impl CliProjectError {
    /// A short human-readable description.
    pub fn message(&self) -> (r: String)
        ensures
            *self is NotFound ==> r@ == "Project not found."@,
            *self is CreateFailed ==> r@ == "Failed to create project."@,
            *self is DeleteFailed ==> r@ == "Failed to delete project."@,
    {
        match self {
            CliProjectError::NotFound => String::from_str("Project not found."),
            CliProjectError::CreateFailed => String::from_str("Failed to create project."),
            CliProjectError::DeleteFailed => String::from_str("Failed to delete project."),
        }
    }
}

impl CliTaskError {
    /// A short human-readable description.
    pub fn message(&self) -> (r: String)
        ensures
            *self is NotFound ==> r@ == "Task not found."@,
            *self is CreateFailed ==> r@ == "Failed to create task."@,
            *self is DeleteFailed ==> r@ == "Failed to delete task."@,
    {
        match self {
            CliTaskError::NotFound => String::from_str("Task not found."),
            CliTaskError::CreateFailed => String::from_str("Failed to create task."),
            CliTaskError::DeleteFailed => String::from_str("Failed to delete task."),
        }
    }
}

impl CliVariableError {
    /// A short human-readable description.
    pub fn message(&self) -> (r: String)
        ensures
            *self is VariableNotFound ==> r@ == "Variable not found."@,
            *self is CreateFailed ==> r@ == "Variable creation failed."@,
    {
        match self {
            CliVariableError::VariableNotFound => String::from_str("Variable not found."),
            CliVariableError::CreateFailed => String::from_str("Variable creation failed."),
        }
    }
}

} // verus!

//! Notices for the CI system that runs the tools, as workflow command lines.
use vstd::prelude::*;
use vstd::string::StringExecFns;

verus! {

/// A leveled notice.
pub enum ActionCommand {
    Debug(String),
    Notice(String),
    Warning(String),
    Error(String),
}

impl ActionCommand {
    /// The name of the workflow command for the level.
    pub open spec fn level(&self) -> Seq<char> {
        match self {
            ActionCommand::Debug(_) => "debug"@,
            ActionCommand::Notice(_) => "notice"@,
            ActionCommand::Warning(_) => "warning"@,
            ActionCommand::Error(_) => "error"@,
        }
    }

    pub open spec fn message(&self) -> Seq<char> {
        match self {
            ActionCommand::Debug(m) => m@,
            ActionCommand::Notice(m) => m@,
            ActionCommand::Warning(m) => m@,
            ActionCommand::Error(m) => m@,
        }
    }

    /// The line that carries the notice: `::<level>::<message>`.
    pub fn command_line(&self) -> (r: String)
        ensures
            r@ == "::"@ + self.level() + "::"@ + self.message(),
    {
        let (level, message) = match self {
            ActionCommand::Debug(m) => ("debug", m),
            ActionCommand::Notice(m) => ("notice", m),
            ActionCommand::Warning(m) => ("warning", m),
            ActionCommand::Error(m) => ("error", m),
        };
        let mut line = String::new();
        line.append("::");
        line.append(level);
        line.append("::");
        line.append(message.as_str());
        line
    }
}

} // verus!

//! A session: the roster and the commands that work on it.
//!
//! A session starts running, with an empty roster. Each command is answered
//! with a reply; `Quit` ends the session, and every other command leaves it
//! running. Reading the lines and showing the replies is the caller's part.
use crate::command::{parse_line, parse_words, split_words, Command, CommandModel};
use crate::roster::{is_listing, roster_add, RosterError, RosterStore};
use crate::sorting::sorted;
use vstd::prelude::*;

verus! {

/// Whether a session still takes commands.
#[derive(Debug, Clone, Copy, PartialEq, Eq)]
pub enum SessionState {
    /// Commands are accepted.
    Running,
    /// `Quit` was given; nothing more is accepted.
    Terminated,
}

/// The answer to a command.
#[derive(Debug, Clone, PartialEq, Eq)]
pub enum Reply {
    /// The employee was added to the department.
    Added { employee: String, department: String },
    /// The employees of the department, sorted.
    Listed { department: String, employees: Vec<String> },
    /// Every department with its employees, both sorted.
    ListedAll { departments: Vec<(String, Vec<String>)> },
    /// There is no department of that name.
    DepartmentNotFound { department: String },
    /// The session has ended.
    Farewell,
    /// The words were not understood.
    UnknownCommand { raw_tokens: Vec<String> },
}

/// A reply, with its texts as sequences of characters.
pub ghost enum ReplyModel {
    Added { employee: Seq<char>, department: Seq<char> },
    Listed { department: Seq<char>, employees: Seq<Seq<char>> },
    ListedAll { departments: Seq<(Seq<char>, Seq<Seq<char>>)> },
    DepartmentNotFound { department: Seq<char> },
    Farewell,
    UnknownCommand { raw_tokens: Seq<Seq<char>> },
}

impl View for Reply {
    type V = ReplyModel;

    open spec fn view(&self) -> ReplyModel {
        match self {
            Reply::Added { employee, department } => ReplyModel::Added {
                employee: employee@,
                department: department@,
            },
            Reply::Listed { department, employees } => ReplyModel::Listed {
                department: department@,
                employees: employees.deep_view(),
            },
            Reply::ListedAll { departments } => ReplyModel::ListedAll {
                departments: departments.deep_view(),
            },
            Reply::DepartmentNotFound { department } => ReplyModel::DepartmentNotFound {
                department: department@,
            },
            Reply::Farewell => ReplyModel::Farewell,
            Reply::UnknownCommand { raw_tokens } => ReplyModel::UnknownCommand {
                raw_tokens: raw_tokens.deep_view(),
            },
        }
    }
}

/// What can go wrong in a session.
#[derive(Debug, Clone, Copy, PartialEq, Eq)]
pub enum ErrorKind {
    /// A line of input could not be read. Nothing can be done about it: the
    /// session cannot go on.
    InputReadFailure,
    /// The words of a line spell no command. The user is told, and the session goes on.
    UnknownCommand,
    /// A query names a department that the roster does not have. The user is
    /// told, and the session goes on.
    DepartmentNotFound,
}

/// Whether a session is over once an error of this kind has occurred.
pub open spec fn fatal(kind: ErrorKind) -> bool {
    kind == ErrorKind::InputReadFailure
}

/// The error that a reply reports, if it reports one.
pub open spec fn reported(reply: ReplyModel) -> Option<ErrorKind> {
    match reply {
        ReplyModel::UnknownCommand { .. } => Some(ErrorKind::UnknownCommand),
        ReplyModel::DepartmentNotFound { .. } => Some(ErrorKind::DepartmentNotFound),
        _ => None,
    }
}

impl ErrorKind {
    /// Whether the session is over once this error has occurred.
    pub fn is_fatal(&self) -> (is_fatal: bool)
        ensures
            is_fatal == fatal(*self),
    {
        match self {
            ErrorKind::InputReadFailure => true,
            _ => false,
        }
    }
}

impl Reply {
    /// The error that this reply reports, if it reports one. No reply
    /// reports a fatal error: a reply is always followed by the next command.
    pub fn error(&self) -> (kind: Option<ErrorKind>)
        ensures
            kind == reported(self@),
            kind matches Some(error) ==> !fatal(error),
    {
        match self {
            Reply::UnknownCommand { .. } => Some(ErrorKind::UnknownCommand),
            Reply::DepartmentNotFound { .. } => Some(ErrorKind::DepartmentNotFound),
            _ => None,
        }
    }
}

/// The roster after `command`: only `Add` changes it.
pub open spec fn roster_after(
    roster: Map<Seq<char>, Seq<Seq<char>>>,
    command: CommandModel,
) -> Map<Seq<char>, Seq<Seq<char>>> {
    match command {
        CommandModel::Add { employee, department } => roster_add(roster, employee, department),
        _ => roster,
    }
}

/// The state of a running session after `command`: only `Quit` ends it.
pub open spec fn state_after(command: CommandModel) -> SessionState {
    match command {
        CommandModel::Quit => SessionState::Terminated,
        _ => SessionState::Running,
    }
}

/// `reply` is the answer that `command` gets from a session that holds `roster`.
pub open spec fn answers(
    reply: ReplyModel,
    roster: Map<Seq<char>, Seq<Seq<char>>>,
    command: CommandModel,
) -> bool {
    match command {
        CommandModel::Add { employee, department } => reply == (ReplyModel::Added {
            employee,
            department,
        }),
        CommandModel::ListOne { department } => if roster.contains_key(department) {
            reply == (ReplyModel::Listed { department, employees: sorted(roster[department]) })
        } else {
            reply == (ReplyModel::DepartmentNotFound { department })
        },
        CommandModel::ListAll => {
            &&& reply matches ReplyModel::ListedAll { departments }
            &&& is_listing(departments, roster)
        },
        CommandModel::Quit => reply == ReplyModel::Farewell,
        CommandModel::Invalid { raw_tokens } => reply == (ReplyModel::UnknownCommand {
            raw_tokens,
        }),
    }
}

/// A roster together with the state of the conversation about it.
pub struct Session {
    store: RosterStore,
    state: SessionState,
}

impl Session {
    /// What the roster holds.
    pub closed spec fn roster(&self) -> Map<Seq<char>, Seq<Seq<char>>> {
        self.store@
    }

    /// Whether the session is running or has ended.
    pub closed spec fn state(&self) -> SessionState {
        self.state
    }

    /// A running session with an empty roster.
    pub fn new() -> (session: Session)
        ensures
            session.roster() == Map::<Seq<char>, Seq<Seq<char>>>::empty(),
            session.state() == SessionState::Running,
    {
        Session { store: RosterStore::new(), state: SessionState::Running }
    }

    /// Whether the session still takes commands.
    pub fn is_running(&self) -> (running: bool)
        ensures
            running == (self.state() == SessionState::Running),
    {
        match self.state {
            SessionState::Running => true,
            SessionState::Terminated => false,
        }
    }

    /// The roster, for queries.
    pub fn store(&self) -> (store: &RosterStore)
        ensures
            store@ == self.roster(),
    {
        &self.store
    }

    /// Carries out `command` and says what came of it.
    pub fn execute(&mut self, command: Command) -> (reply: Reply)
        requires
            old(self).state() == SessionState::Running,
        ensures
            final(self).roster() == roster_after(old(self).roster(), command@),
            final(self).state() == state_after(command@),
            answers(reply@, old(self).roster(), command@),
    {
        match command {
            Command::Add { employee, department } => {
                self.store.add(employee.clone(), department.clone());
                Reply::Added { employee, department }
            },
            Command::ListOne { department } => {
                match self.store.list(department.as_str()) {
                    Ok(employees) => Reply::Listed { department, employees },
                    Err(RosterError::DepartmentNotFound) => Reply::DepartmentNotFound {
                        department,
                    },
                }
            },
            Command::ListAll => Reply::ListedAll { departments: self.store.list_all() },
            Command::Quit => {
                self.state = SessionState::Terminated;
                Reply::Farewell
            },
            Command::Invalid { raw_tokens } => Reply::UnknownCommand { raw_tokens },
        }
    }

    /// Reads the command that `line` spells, carries it out and says what came of it.
    pub fn submit(&mut self, line: &str) -> (reply: Reply)
        requires
            old(self).state() == SessionState::Running,
        ensures
            final(self).roster() == roster_after(
                old(self).roster(),
                parse_words(split_words(line@)),
            ),
            final(self).state() == state_after(parse_words(split_words(line@))),
            answers(reply@, old(self).roster(), parse_words(split_words(line@))),
    {
        self.execute(parse_line(line))
    }
}

} // verus!

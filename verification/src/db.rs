//! The container runtime and the database clients, as command lines to run
//! and as output to read.
//!
//! Nothing here runs a command. Each operation comes in two parts: a function
//! that checks the identifiers and gives the command line to run, and a
//! function that reads how the command ended and what it wrote.

pub mod defaults;
pub mod listing;
pub mod session;

pub use listing::{DetectedContainer, DetectedView};

use vstd::prelude::*;

verus! {

/// A command line for the container runtime.
#[derive(Debug)]
pub struct Invocation {
    /// The program to run.
    pub program: String,
    /// Its arguments, in order.
    pub args: Vec<String>,
    /// Whether the child takes over the terminal of the caller. Where it does
    /// not, what it writes is captured.
    pub interactive: bool,
}

/// The mathematical value of an [`Invocation`].
pub ghost struct InvocationView {
    pub program: Seq<char>,
    pub args: Seq<Seq<char>>,
    pub interactive: bool,
}

impl View for Invocation {
    type V = InvocationView;

    open spec fn view(&self) -> InvocationView {
        InvocationView {
            program: self.program@,
            args: self.args.deep_view(),
            interactive: self.interactive,
        }
    }
}

/// How a command for the container runtime ended.
#[derive(Debug)]
pub enum CommandOutcome {
    /// The command could not be started; the text says why.
    NotStarted(String),
    /// The command ran to its end.
    Finished {
        /// Whether it reported success.
        success: bool,
        /// Its exit status, in words.
        status: String,
        /// What it wrote, where that was captured.
        stdout: String,
    },
}

/// The mathematical value of a [`CommandOutcome`].
pub ghost enum OutcomeView {
    NotStarted(Seq<char>),
    Finished { success: bool, status: Seq<char>, stdout: Seq<char> },
}

impl View for CommandOutcome {
    type V = OutcomeView;

    open spec fn view(&self) -> OutcomeView {
        match self {
            CommandOutcome::NotStarted(reason) => OutcomeView::NotStarted(reason@),
            CommandOutcome::Finished { success, status, stdout } => OutcomeView::Finished {
                success: *success,
                status: status@,
                stdout: stdout@,
            },
        }
    }
}

/// The point of contact with the container runtime.
#[derive(Debug)]
pub struct DatabaseConnector;

/// The program that stands for the container runtime.
pub open spec fn runtime_program() -> Seq<char> {
    "docker"@
}

/// A command of the runtime whose output is captured.
pub open spec fn query(args: Seq<Seq<char>>) -> InvocationView {
    InvocationView { program: runtime_program(), args, interactive: false }
}

/// Appends one argument.
pub(crate) fn push_arg(args: &mut Vec<String>, arg: String)
    ensures
        final(args).deep_view() == old(args).deep_view() + seq![arg@],
{
    args.push(arg);
    assert(args.deep_view() =~= old(args).deep_view() + seq![arg@]);
}

/// No arguments yet.
pub(crate) fn no_args() -> (args: Vec<String>)
    ensures
        args.deep_view() == Seq::<Seq<char>>::empty(),
{
    let args: Vec<String> = Vec::new();
    assert(args.deep_view() =~= Seq::<Seq<char>>::empty());
    args
}

/// A command of the runtime whose output is captured.
pub(crate) fn query_of(args: Vec<String>) -> (invocation: Invocation)
    ensures
        invocation@ == query(args.deep_view()),
{
    Invocation { program: String::from_str("docker"), args, interactive: false }
}

} // verus!

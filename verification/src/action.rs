//! What passes between an orchestrator and its caller: the orchestrator names
//! the next action, the caller performs it and reports the event that ended it.

use vstd::prelude::*;
use vstd::string::StringExecFns;
use crate::descriptor::DescriptorError;

verus! {

/// Why an operation was given up.
#[derive(Clone, Debug, PartialEq, Eq)]
pub enum Failure {
    /// The descriptor could not be fetched.
    Fetch { cause: String },
    /// The descriptor could not be read from disk.
    Read { cause: String },
    /// The descriptor lacks a required field.
    Descriptor { error: DescriptorError },
    /// A command could not be started.
    Command { cause: String },
    /// The manifest could not be written.
    ManifestWrite { cause: String },
    /// The event reported does not answer the action that was asked for.
    Unexpected,
}

/// A failure, as plain texts.
pub ghost enum FailureText {
    Fetch { cause: Seq<char> },
    Read { cause: Seq<char> },
    Descriptor { error: DescriptorError },
    Command { cause: Seq<char> },
    ManifestWrite { cause: Seq<char> },
    Unexpected,
}

impl View for Failure {
    type V = FailureText;

    open spec fn view(&self) -> FailureText {
        match *self {
            Failure::Fetch { cause } => FailureText::Fetch { cause: cause@ },
            Failure::Read { cause } => FailureText::Read { cause: cause@ },
            Failure::Descriptor { error } => FailureText::Descriptor { error },
            Failure::Command { cause } => FailureText::Command { cause: cause@ },
            Failure::ManifestWrite { cause } => FailureText::ManifestWrite { cause: cause@ },
            Failure::Unexpected => FailureText::Unexpected,
        }
    }
}

impl FailureText {
    /// The wording of the failure: what went wrong, then the cause that the
    /// caller reported.
    pub open spec fn wording(self) -> Seq<char> {
        match self {
            FailureText::Fetch { cause } => cause,
            FailureText::Read { cause } => "Error reading file!: "@ + cause,
            FailureText::Descriptor { error } => error.wording(),
            FailureText::Command { cause } => "Failed to execute command: "@ + cause,
            FailureText::ManifestWrite { cause } => "Failed to update package list!: "@ + cause,
            FailureText::Unexpected => "Unexpected event"@,
        }
    }
}

impl Failure {
    /// The failure in words.
    pub fn message(&self) -> (text: String)
        ensures
            text@ == self@.wording(),
    {
        match self {
            Failure::Fetch { cause } => cause.clone(),
            Failure::Read { cause } => String::from_str("Error reading file!: ").concat(
                cause.as_str(),
            ),
            Failure::Descriptor { error } => error.message(),
            Failure::Command { cause } => String::from_str("Failed to execute command: ").concat(
                cause.as_str(),
            ),
            Failure::ManifestWrite { cause } => String::from_str(
                "Failed to update package list!: ",
            ).concat(cause.as_str()),
            Failure::Unexpected => String::from_str("Unexpected event"),
        }
    }
}

/// What the caller is asked to do next. The last three end the operation.
#[derive(Clone, Debug, PartialEq, Eq)]
pub enum Action {
    /// Get the text at `url` over the network, asking for `accept`.
    Fetch { url: String, accept: String },
    /// Read the text of the file at `path`.
    ReadDescriptor { path: String },
    /// Run the commands of the list, as the command runner does.
    Run { list: String },
    /// Read the whole manifest at `path`.
    ReadManifest { path: String },
    /// Replace the manifest at `path` by `contents`, making the directory it
    /// lies in first where that is not there.
    WriteManifest { path: String, contents: String },
    /// Report that the operation succeeded.
    Succeed,
    /// Report the failure and end with a nonzero status.
    Fail { failure: Failure },
    /// The package does not exist: say so and end at once with a nonzero
    /// status.
    GiveUp,
}

/// An action, as plain texts.
pub ghost enum ActionView {
    Fetch { url: Seq<char>, accept: Seq<char> },
    ReadDescriptor { path: Seq<char> },
    Run { list: Seq<char> },
    ReadManifest { path: Seq<char> },
    WriteManifest { path: Seq<char>, contents: Seq<char> },
    Succeed,
    Fail { failure: FailureText },
    GiveUp,
}

impl View for Action {
    type V = ActionView;

    open spec fn view(&self) -> ActionView {
        match *self {
            Action::Fetch { url, accept } => ActionView::Fetch { url: url@, accept: accept@ },
            Action::ReadDescriptor { path } => ActionView::ReadDescriptor { path: path@ },
            Action::Run { list } => ActionView::Run { list: list@ },
            Action::ReadManifest { path } => ActionView::ReadManifest { path: path@ },
            Action::WriteManifest { path, contents } => ActionView::WriteManifest {
                path: path@,
                contents: contents@,
            },
            Action::Succeed => ActionView::Succeed,
            Action::Fail { failure } => ActionView::Fail { failure: failure@ },
            Action::GiveUp => ActionView::GiveUp,
        }
    }
}

impl ActionView {
    /// Whether the action ends the operation.
    pub open spec fn is_final(self) -> bool {
        self is Succeed || self is Fail || self is GiveUp
    }
}

impl Action {
    /// Whether the action ends the operation.
    pub fn is_final(&self) -> (last: bool)
        ensures
            last == self@.is_final(),
    {
        match self {
            Action::Succeed => true,
            Action::Fail { .. } => true,
            Action::GiveUp => true,
            _ => false,
        }
    }
}

/// How the action that was asked for ended.
#[derive(Clone, Debug, PartialEq, Eq)]
pub enum Event {
    /// Nothing has been asked for yet.
    Begin,
    /// The text that was read or fetched.
    Text { text: String },
    /// The commands were run, or the file was written.
    Done,
    /// The action could not be performed.
    Failed { cause: String },
}

/// An event, as plain texts.
pub ghost enum EventView {
    Begin,
    Text { text: Seq<char> },
    Done,
    Failed { cause: Seq<char> },
}

impl View for Event {
    type V = EventView;

    open spec fn view(&self) -> EventView {
        match *self {
            Event::Begin => EventView::Begin,
            Event::Text { text } => EventView::Text { text: text@ },
            Event::Done => EventView::Done,
            Event::Failed { cause } => EventView::Failed { cause: cause@ },
        }
    }
}

/// How far an operation has come: what the last action asked for was.
#[derive(Clone, Copy, Debug, PartialEq, Eq, Structural)]
pub enum Stage {
    /// Nothing has been asked for yet.
    Start,
    /// The descriptor text.
    Descriptor,
    /// The run of the commands that install the dependencies.
    Dependencies,
    /// The run of the package's own commands.
    Commands,
    /// The content of the manifest.
    ManifestRead,
    /// The rewriting of the manifest.
    ManifestWrite,
    /// A final action was given; nothing more is asked for.
    Finished,
}

} // verus!

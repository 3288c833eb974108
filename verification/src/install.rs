//! The install orchestrator: descriptor, dependencies, the package's own
//! commands, then the manifest, in that order and never back.

use vstd::prelude::*;
use vstd::string::StringExecFns;
use crate::action::{Action, ActionView, Event, EventView, Failure, FailureText, Stage};
use crate::descriptor::{DescriptorFields, PackageDescriptor};
use crate::manifest::{get_package_list, package_list_path, record, recorded};
use crate::obtain::{accept_descriptor, descriptor_read, request_descriptor, request_for};
use crate::platform::Platform;
use crate::resolver::{source_of, PackageSource};

verus! {

/// An installation under way.
#[derive(Debug)]
pub struct Install {
    /// The identifier of the package being installed.
    pub package: String,
    /// The platform it is installed on.
    pub platform: Platform,
    /// What the last action asked for.
    pub stage: Stage,
    /// The descriptor, once it has been read.
    pub descriptor: Option<PackageDescriptor>,
}

/// An installation under way, as plain texts.
pub ghost struct InstallState {
    pub package: Seq<char>,
    pub platform: Platform,
    pub stage: Stage,
    pub descriptor: Option<DescriptorFields>,
}

impl View for Install {
    type V = InstallState;

    open spec fn view(&self) -> InstallState {
        InstallState {
            package: self.package@,
            platform: self.platform,
            stage: self.stage,
            descriptor: match self.descriptor {
                Some(descriptor) => Some(descriptor@),
                None => None,
            },
        }
    }
}

impl InstallState {
    /// The installation of `package` before anything has been asked for.
    pub open spec fn start(package: Seq<char>, platform: Platform) -> InstallState {
        InstallState { package, platform, stage: Stage::Start, descriptor: None }
    }

    /// The same installation at another stage.
    pub open spec fn at(self, stage: Stage) -> InstallState {
        InstallState { stage, ..self }
    }

    /// The installation ended by `action`.
    pub open spec fn end(self, action: ActionView) -> (InstallState, ActionView) {
        (self.at(Stage::Finished), action)
    }

    /// What recording the package leads to once the manifest has been read:
    /// the manifest is rewritten where the package has to be added to it, and
    /// the installation has succeeded where it has not.
    pub open spec fn note(self, content: Seq<char>) -> (InstallState, ActionView) {
        match recorded(content, self.package) {
            Some(written) => (
                self.at(Stage::ManifestWrite),
                ActionView::WriteManifest {
                    path: package_list_path(self.platform),
                    contents: written,
                },
            ),
            None => self.end(ActionView::Succeed),
        }
    }

    /// One step of the installation: the state after `event`, and the action
    /// that is asked for next.
    pub open spec fn step(self, event: EventView) -> (InstallState, ActionView) {
        match self.stage {
            Stage::Start => match event {
                EventView::Begin => (self.at(Stage::Descriptor), request_for(self.package)),
                _ => self.end(ActionView::Fail { failure: FailureText::Unexpected }),
            },
            Stage::Descriptor => match descriptor_read(self.package, event) {
                Ok(descriptor) => (
                    InstallState {
                        stage: Stage::Dependencies,
                        descriptor: Some(descriptor),
                        ..self
                    },
                    ActionView::Run { list: descriptor.dependencies(self.platform) },
                ),
                Err(action) => self.end(action),
            },
            Stage::Dependencies => match (event, self.descriptor) {
                (EventView::Done, Some(descriptor)) => (
                    self.at(Stage::Commands),
                    ActionView::Run { list: descriptor.commands },
                ),
                (EventView::Failed { cause }, _) => self.end(
                    ActionView::Fail { failure: FailureText::Command { cause } },
                ),
                _ => self.end(ActionView::Fail { failure: FailureText::Unexpected }),
            },
            Stage::Commands => match event {
                EventView::Done => (
                    self.at(Stage::ManifestRead),
                    ActionView::ReadManifest { path: package_list_path(self.platform) },
                ),
                EventView::Failed { cause } => self.end(
                    ActionView::Fail { failure: FailureText::Command { cause } },
                ),
                _ => self.end(ActionView::Fail { failure: FailureText::Unexpected }),
            },
            Stage::ManifestRead => match event {
                EventView::Text { text } => self.note(text),
                EventView::Failed { cause } => self.note(Seq::empty()),
                _ => self.end(ActionView::Fail { failure: FailureText::Unexpected }),
            },
            Stage::ManifestWrite => match event {
                EventView::Done => self.end(ActionView::Succeed),
                EventView::Failed { cause } => self.end(
                    ActionView::Fail { failure: FailureText::ManifestWrite { cause } },
                ),
                _ => self.end(ActionView::Fail { failure: FailureText::Unexpected }),
            },
            Stage::Finished => self.end(ActionView::Fail { failure: FailureText::Unexpected }),
        }
    }
}

impl InstallState {
    /// The actions that the given events draw from the installation, one for
    /// each event.
    pub open spec fn run(self, events: Seq<EventView>) -> Seq<ActionView>
        decreases events.len(),
    {
        if events.len() == 0 {
            Seq::empty()
        } else {
            let stepped = self.step(events.first());
            seq![stepped.1] + stepped.0.run(events.drop_first())
        }
    }
}

/// The place of a stage in the course of an installation.
pub open spec fn place(stage: Stage) -> int {
    match stage {
        Stage::Start => 0,
        Stage::Descriptor => 1,
        Stage::Dependencies => 2,
        Stage::Commands => 3,
        Stage::ManifestRead => 4,
        Stage::ManifestWrite => 5,
        Stage::Finished => 6,
    }
}

/// The kind of action that an installation asks for in each place: first the
/// descriptor, then two runs of commands, then the manifest, which is read and
/// after that written.
pub open spec fn in_place(place: int, action: ActionView) -> bool {
    if place == 0 {
        action is Fetch || action is ReadDescriptor
    } else if place == 1 || place == 2 {
        action is Run
    } else if place == 3 {
        action is ReadManifest
    } else {
        place == 4 && action is WriteManifest
    }
}

/// One step keeps the package, and either ends the installation or asks for
/// the action of the present place and moves to the next.
pub proof fn lemma_install_step(state: InstallState, event: EventView)
    ensures
        state.step(event).0.package == state.package,
        state.step(event).0.platform == state.platform,
        state.step(event).1.is_final() ==> state.step(event).0.stage == Stage::Finished,
        !state.step(event).1.is_final() ==> {
            &&& in_place(place(state.stage), state.step(event).1)
            &&& place(state.step(event).0.stage) == place(state.stage) + 1
        },
        state.stage == Stage::Finished ==> state.step(event).1 is Fail,
        state.step(event).1 is Fetch ==> source_of(state.package) != PackageSource::LocalPath,
        !state.step(event).1.is_final() && place(state.stage) >= 2 ==> (event is Done || place(
            state.stage,
        ) == 4),
        state.step(event).1 is Succeed ==> place(state.stage) == 4 || place(state.stage) == 5,
{
}

/// The descriptor of a package on the local disk is never fetched: whatever
/// the events, no action of its installation is a fetch.
pub proof fn lemma_local_package_never_fetched(state: InstallState, events: Seq<EventView>)
    requires
        source_of(state.package) == PackageSource::LocalPath,
    ensures
        state.run(events).len() == events.len(),
        forall|i: int| 0 <= i < events.len() ==> !(#[trigger] state.run(events)[i] is Fetch),
    decreases events.len(),
{
    if events.len() > 0 {
        let stepped = state.step(events.first());
        lemma_install_step(state, events.first());
        lemma_local_package_never_fetched(stepped.0, events.drop_first());
        assert forall|i: int| 0 <= i < events.len() implies !(#[trigger] state.run(events)[i]
            is Fetch) by {
            if i > 0 {
                assert(state.run(events)[i] == stepped.0.run(events.drop_first())[i - 1]);
            }
        }
    }
}

/// The course of an installation. Whatever the events, as long as the
/// installation has not ended it asks for the action of each place in turn,
/// and after the descriptor it goes on only when the action before was
/// carried out; it succeeds only when it has come to the manifest, and once
/// it has ended it asks for nothing more. So the commands of the package run
/// only after those of its dependencies have run, and the manifest is written
/// only after both.
pub proof fn lemma_install_course(state: InstallState, events: Seq<EventView>)
    ensures
        state.run(events).len() == events.len(),
        forall|i: int|
            0 <= i < events.len() && (#[trigger] state.run(events)[i]) is Succeed ==> place(
                state.stage,
            ) + i == 4 || place(state.stage) + i == 5,
        forall|i: int|
            0 <= i < events.len() && !(#[trigger] state.run(events)[i]).is_final() ==> {
                &&& in_place(place(state.stage) + i, state.run(events)[i])
                &&& (place(state.stage) + i == 2 || place(state.stage) + i == 3
                    ==> events[i] is Done)
            },
        forall|i: int, j: int|
            0 <= i < j < events.len() && (#[trigger] state.run(events)[i]).is_final() ==> (
            #[trigger] state.run(events)[j]) is Fail,
        state.stage == Stage::Finished ==> forall|i: int|
            0 <= i < events.len() ==> (#[trigger] state.run(events)[i]) is Fail,
    decreases events.len(),
{
    if events.len() > 0 {
        let stepped = state.step(events.first());
        let rest = events.drop_first();
        lemma_install_step(state, events.first());
        lemma_install_course(stepped.0, rest);
        assert forall|i: int| 0 < i < events.len() implies #[trigger] state.run(events)[i]
            == stepped.0.run(rest)[i - 1] && events[i] == rest[i - 1] by {}
        assert forall|i: int, j: int|
            0 <= i < j < events.len() && (#[trigger] state.run(events)[i]).is_final() implies (
            #[trigger] state.run(events)[j]) is Fail by {
            assert(state.run(events)[j] == stepped.0.run(rest)[j - 1]);
            if i > 0 {
                assert(state.run(events)[i] == stepped.0.run(rest)[i - 1]);
            }
        }
    }
}

/// Begins the installation of `package` on `platform`. Nothing has been done
/// yet: the first action is had by reporting `Event::Begin`.
pub fn install_package(package: &str, platform: Platform) -> (install: Install)
    ensures
        install@ == InstallState::start(package@, platform),
{
    Install { package: String::from_str(package), platform, stage: Stage::Start, descriptor: None }
}

impl Install {
    /// Ends the installation with `action`.
    fn end(&mut self, action: Action) -> (same: Action)
        ensures
            (final(self)@, same@) == old(self)@.end(action@),
            same == action,
    {
        self.stage = Stage::Finished;
        action
    }

    /// Decides, with the content of the manifest at hand, whether it has to be
    /// rewritten.
    fn note(&mut self, content: &str) -> (action: Action)
        ensures
            (final(self)@, action@) == old(self)@.note(content@),
    {
        match record(content, self.package.as_str()) {
            Some(contents) => {
                self.stage = Stage::ManifestWrite;
                Action::WriteManifest { path: get_package_list(self.platform), contents }
            },
            None => self.end(Action::Succeed),
        }
    }

    /// Takes the event that ended the last action and returns the next one.
    /// The first event is `Event::Begin`. An event that does not answer the
    /// last action ends the installation with `Failure::Unexpected`, and so
    /// does any event after a final action.
    ///
    /// The descriptor of a package on the local disk is never fetched.
    pub fn advance(&mut self, event: Event) -> (action: Action)
        ensures
            (final(self)@, action@) == old(self)@.step(event@),
            action@ is Fetch ==> source_of(old(self).package@) != PackageSource::LocalPath,
            final(self).package@ == old(self).package@,
    {
        match self.stage {
            Stage::Start => match event {
                Event::Begin => {
                    self.stage = Stage::Descriptor;
                    request_descriptor(self.package.as_str())
                },
                _ => self.end(Action::Fail { failure: Failure::Unexpected }),
            },
            Stage::Descriptor => match accept_descriptor(self.package.as_str(), event) {
                Ok(descriptor) => {
                    let list = String::from_str(descriptor.dependencies(self.platform));
                    self.stage = Stage::Dependencies;
                    self.descriptor = Some(descriptor);
                    Action::Run { list }
                },
                Err(action) => self.end(action),
            },
            Stage::Dependencies => match event {
                Event::Done => {
                    let commands = match &self.descriptor {
                        Some(descriptor) => Some(descriptor.commands.clone()),
                        None => None,
                    };
                    match commands {
                        Some(list) => {
                            self.stage = Stage::Commands;
                            Action::Run { list }
                        },
                        None => self.end(Action::Fail { failure: Failure::Unexpected }),
                    }
                },
                Event::Failed { cause } => self.end(
                    Action::Fail { failure: Failure::Command { cause } },
                ),
                _ => self.end(Action::Fail { failure: Failure::Unexpected }),
            },
            Stage::Commands => match event {
                Event::Done => {
                    self.stage = Stage::ManifestRead;
                    Action::ReadManifest { path: get_package_list(self.platform) }
                },
                Event::Failed { cause } => self.end(
                    Action::Fail { failure: Failure::Command { cause } },
                ),
                _ => self.end(Action::Fail { failure: Failure::Unexpected }),
            },
            Stage::ManifestRead => match event {
                Event::Text { text } => self.note(text.as_str()),
                Event::Failed { cause } => self.note(String::new().as_str()),
                _ => self.end(Action::Fail { failure: Failure::Unexpected }),
            },
            Stage::ManifestWrite => match event {
                Event::Done => self.end(Action::Succeed),
                Event::Failed { cause } => self.end(
                    Action::Fail { failure: Failure::ManifestWrite { cause } },
                ),
                _ => self.end(Action::Fail { failure: Failure::Unexpected }),
            },
            Stage::Finished => self.end(Action::Fail { failure: Failure::Unexpected }),
        }
    }
}

} // verus!

//! The uninstall orchestrator: the manifest first, then the descriptor and its
//! uninstall commands.

use vstd::prelude::*;
use vstd::string::StringExecFns;
use crate::action::{Action, ActionView, Event, EventView, Failure, FailureText, Stage};
use crate::descriptor::{
    is_descriptor_reference, names_descriptor_file, DescriptorFields, PackageDescriptor,
};
use crate::manifest::{get_package_list, package_list_path, remove, removed};
use crate::obtain::{accept_descriptor, descriptor_read, request_descriptor, request_for};
use crate::platform::Platform;
use crate::resolver::{source_of, PackageSource};

verus! {

/// An uninstallation under way.
#[derive(Debug)]
pub struct Uninstall {
    /// The identifier of the package being uninstalled.
    pub package: String,
    /// The platform it is uninstalled from.
    pub platform: Platform,
    /// What the last action asked for.
    pub stage: Stage,
    /// The descriptor, once it has been read.
    pub descriptor: Option<PackageDescriptor>,
}

/// An uninstallation under way, as plain texts.
pub ghost struct UninstallState {
    pub package: Seq<char>,
    pub platform: Platform,
    pub stage: Stage,
    pub descriptor: Option<DescriptorFields>,
}

impl View for Uninstall {
    type V = UninstallState;

    open spec fn view(&self) -> UninstallState {
        UninstallState {
            package: self.package@,
            platform: self.platform,
            stage: self.stage,
            descriptor: match self.descriptor {
                Some(descriptor) => Some(descriptor@),
                None => None,
            },
        }
    }
}

impl UninstallState {
    /// The uninstallation of `package` before anything has been asked for.
    pub open spec fn start(package: Seq<char>, platform: Platform) -> UninstallState {
        UninstallState { package, platform, stage: Stage::Start, descriptor: None }
    }

    /// The same uninstallation at another stage.
    pub open spec fn at(self, stage: Stage) -> UninstallState {
        UninstallState { stage, ..self }
    }

    /// The uninstallation ended by `action`.
    pub open spec fn end(self, action: ActionView) -> (UninstallState, ActionView) {
        (self.at(Stage::Finished), action)
    }

    /// The manifest is rewritten without the package, whatever it held.
    pub open spec fn strike(self, content: Seq<char>) -> (UninstallState, ActionView) {
        (
            self.at(Stage::ManifestWrite),
            ActionView::WriteManifest {
                path: package_list_path(self.platform),
                contents: removed(content, self.package),
            },
        )
    }

    /// One step of the uninstallation: the state after `event`, and the action
    /// that is asked for next. The manifest comes first, unless the identifier
    /// is itself a reference to a descriptor file; the uninstall commands run
    /// only once the manifest has been rewritten.
    pub open spec fn step(self, event: EventView) -> (UninstallState, ActionView) {
        match self.stage {
            Stage::Start => match event {
                EventView::Begin => {
                    if names_descriptor_file(self.package) {
                        (self.at(Stage::Descriptor), request_for(self.package))
                    } else {
                        (
                            self.at(Stage::ManifestRead),
                            ActionView::ReadManifest { path: package_list_path(self.platform) },
                        )
                    }
                },
                _ => self.end(ActionView::Fail { failure: FailureText::Unexpected }),
            },
            Stage::ManifestRead => match event {
                EventView::Text { text } => self.strike(text),
                EventView::Failed { cause } => self.strike(Seq::empty()),
                _ => self.end(ActionView::Fail { failure: FailureText::Unexpected }),
            },
            Stage::ManifestWrite => match event {
                EventView::Done => (self.at(Stage::Descriptor), request_for(self.package)),
                EventView::Failed { cause } => self.end(
                    ActionView::Fail { failure: FailureText::ManifestWrite { cause } },
                ),
                _ => self.end(ActionView::Fail { failure: FailureText::Unexpected }),
            },
            Stage::Descriptor => match descriptor_read(self.package, event) {
                Ok(descriptor) => (
                    UninstallState { stage: Stage::Commands, descriptor: Some(descriptor), ..self },
                    ActionView::Run { list: descriptor.uninstall },
                ),
                Err(action) => self.end(action),
            },
            Stage::Commands => match event {
                EventView::Done => self.end(ActionView::Succeed),
                EventView::Failed { cause } => self.end(
                    ActionView::Fail { failure: FailureText::Command { cause } },
                ),
                _ => self.end(ActionView::Fail { failure: FailureText::Unexpected }),
            },
            _ => self.end(ActionView::Fail { failure: FailureText::Unexpected }),
        }
    }
}

impl UninstallState {
    /// The actions that the given events draw from the uninstallation, one for
    /// each event.
    pub open spec fn run(self, events: Seq<EventView>) -> Seq<ActionView>
        decreases events.len(),
    {
        if events.len() == 0 {
            Seq::empty()
        } else {
            let stepped = self.step(events.first());
            seq![stepped.1] + stepped.0.run(events.drop_first())
        }
    }
}

/// The place of a stage in the course of an uninstallation that begins with
/// the manifest.
pub open spec fn place(stage: Stage) -> int {
    match stage {
        Stage::Start => 0,
        Stage::ManifestRead => 1,
        Stage::ManifestWrite => 2,
        Stage::Descriptor => 3,
        Stage::Commands => 4,
        _ => 5,
    }
}

/// The kind of action that such an uninstallation asks for in each place: the
/// manifest is read and written, then comes the descriptor, then the run of
/// its uninstall commands.
pub open spec fn in_place(place: int, action: ActionView) -> bool {
    if place == 0 {
        action is ReadManifest
    } else if place == 1 {
        action is WriteManifest
    } else if place == 2 {
        action is Fetch || action is ReadDescriptor
    } else {
        place == 3 && action is Run
    }
}

/// One step keeps the package, and either ends the uninstallation or asks for
/// the action of the present place and moves to the next.
pub proof fn lemma_uninstall_step(state: UninstallState, event: EventView)
    ensures
        state.step(event).0.package == state.package,
        state.step(event).0.platform == state.platform,
        state.step(event).0.stage != Stage::Start,
        state.step(event).1.is_final() ==> state.step(event).0.stage == Stage::Finished,
        !state.step(event).1.is_final() && !(state.stage == Stage::Start && names_descriptor_file(
            state.package,
        )) ==> {
            &&& in_place(place(state.stage), state.step(event).1)
            &&& place(state.step(event).0.stage) == place(state.stage) + 1
        },
        !state.step(event).1.is_final() && place(state.stage) == 2 ==> event is Done,
        state.stage == Stage::Finished ==> state.step(event).1 is Fail,
        state.step(event).1 is Fetch ==> source_of(state.package) != PackageSource::LocalPath,
        state.step(event).1 is Succeed ==> state.stage == Stage::Commands,
{
}

/// The descriptor of a package on the local disk is never fetched: whatever
/// the events, no action of its uninstallation is a fetch.
pub proof fn lemma_local_package_never_fetched(state: UninstallState, events: Seq<EventView>)
    requires
        source_of(state.package) == PackageSource::LocalPath,
    ensures
        state.run(events).len() == events.len(),
        forall|i: int| 0 <= i < events.len() ==> !(#[trigger] state.run(events)[i] is Fetch),
    decreases events.len(),
{
    if events.len() > 0 {
        let stepped = state.step(events.first());
        lemma_uninstall_step(state, events.first());
        lemma_local_package_never_fetched(stepped.0, events.drop_first());
        assert forall|i: int| 0 <= i < events.len() implies !(#[trigger] state.run(events)[i]
            is Fetch) by {
            if i > 0 {
                assert(state.run(events)[i] == stepped.0.run(events.drop_first())[i - 1]);
            }
        }
    }
}

/// The course of an uninstallation that begins with the manifest, as all do
/// whose identifier is no reference to a descriptor file. Whatever the events,
/// as long as the uninstallation has not ended it asks for the action of each
/// place in turn, and it asks for the descriptor only when the manifest has
/// been written; it succeeds only when the uninstall commands have run, and
/// once it has ended it asks for nothing more. So the manifest is rewritten
/// before any uninstall command runs, and stays rewritten whatever becomes of
/// the commands.
pub proof fn lemma_uninstall_course(state: UninstallState, events: Seq<EventView>)
    requires
        state.stage == Stage::Start ==> !names_descriptor_file(state.package),
    ensures
        state.run(events).len() == events.len(),
        forall|i: int|
            0 <= i < events.len() && (#[trigger] state.run(events)[i]) is Succeed ==> place(
                state.stage,
            ) + i == 4,
        forall|i: int|
            0 <= i < events.len() && !(#[trigger] state.run(events)[i]).is_final() ==> {
                &&& in_place(place(state.stage) + i, state.run(events)[i])
                &&& (place(state.stage) + i == 2 ==> events[i] is Done)
            },
        forall|i: int, j: int|
            0 <= i < j < events.len() && (#[trigger] state.run(events)[i]).is_final() ==> (
            #[trigger] state.run(events)[j]) is Fail,
        state.stage == Stage::Finished ==> forall|i: int|
            0 <= i < events.len() ==> (#[trigger] state.run(events)[i]) is Fail,
    decreases events.len(),
{
    if events.len() > 0 {
        let stepped = state.step(events.first());
        let rest = events.drop_first();
        lemma_uninstall_step(state, events.first());
        lemma_uninstall_course(stepped.0, rest);
        assert forall|i: int| 0 < i < events.len() implies #[trigger] state.run(events)[i]
            == stepped.0.run(rest)[i - 1] && events[i] == rest[i - 1] by {}
        assert forall|i: int, j: int|
            0 <= i < j < events.len() && (#[trigger] state.run(events)[i]).is_final() implies (
            #[trigger] state.run(events)[j]) is Fail by {
            assert(state.run(events)[j] == stepped.0.run(rest)[j - 1]);
            if i > 0 {
                assert(state.run(events)[i] == stepped.0.run(rest)[i - 1]);
            }
        }
    }
}

/// Begins the uninstallation of `package` on `platform`. Nothing has been done
/// yet: the first action is had by reporting `Event::Begin`.
pub fn uninstall_package(package: &str, platform: Platform) -> (uninstall: Uninstall)
    ensures
        uninstall@ == UninstallState::start(package@, platform),
{
    Uninstall {
        package: String::from_str(package),
        platform,
        stage: Stage::Start,
        descriptor: None,
    }
}

impl Uninstall {
    /// Ends the uninstallation with `action`.
    fn end(&mut self, action: Action) -> (same: Action)
        ensures
            (final(self)@, same@) == old(self)@.end(action@),
            same == action,
    {
        self.stage = Stage::Finished;
        action
    }

    /// Asks for the manifest to be rewritten without the package.
    fn strike(&mut self, content: &str) -> (action: Action)
        ensures
            (final(self)@, action@) == old(self)@.strike(content@),
    {
        let contents = remove(content, self.package.as_str());
        self.stage = Stage::ManifestWrite;
        Action::WriteManifest { path: get_package_list(self.platform), contents }
    }

    /// Takes the event that ended the last action and returns the next one.
    /// The first event is `Event::Begin`. An event that does not answer the
    /// last action ends the uninstallation with `Failure::Unexpected`, and so
    /// does any event after a final action.
    ///
    /// The descriptor of a package on the local disk is never fetched.
    pub fn advance(&mut self, event: Event) -> (action: Action)
        ensures
            (final(self)@, action@) == old(self)@.step(event@),
            action@ is Fetch ==> source_of(old(self).package@) != PackageSource::LocalPath,
            final(self).package@ == old(self).package@,
    {
        match self.stage {
            Stage::Start => match event {
                Event::Begin => {
                    if is_descriptor_reference(self.package.as_str()) {
                        self.stage = Stage::Descriptor;
                        request_descriptor(self.package.as_str())
                    } else {
                        self.stage = Stage::ManifestRead;
                        Action::ReadManifest { path: get_package_list(self.platform) }
                    }
                },
                _ => self.end(Action::Fail { failure: Failure::Unexpected }),
            },
            Stage::ManifestRead => match event {
                Event::Text { text } => self.strike(text.as_str()),
                Event::Failed { cause } => self.strike(String::new().as_str()),
                _ => self.end(Action::Fail { failure: Failure::Unexpected }),
            },
            Stage::ManifestWrite => match event {
                Event::Done => {
                    self.stage = Stage::Descriptor;
                    request_descriptor(self.package.as_str())
                },
                Event::Failed { cause } => self.end(
                    Action::Fail { failure: Failure::ManifestWrite { cause } },
                ),
                _ => self.end(Action::Fail { failure: Failure::Unexpected }),
            },
            Stage::Descriptor => match accept_descriptor(self.package.as_str(), event) {
                Ok(descriptor) => {
                    let list = descriptor.uninstall.clone();
                    self.stage = Stage::Commands;
                    self.descriptor = Some(descriptor);
                    Action::Run { list }
                },
                Err(action) => self.end(action),
            },
            Stage::Commands => match event {
                Event::Done => self.end(Action::Succeed),
                Event::Failed { cause } => self.end(
                    Action::Fail { failure: Failure::Command { cause } },
                ),
                _ => self.end(Action::Fail { failure: Failure::Unexpected }),
            },
            _ => self.end(Action::Fail { failure: Failure::Unexpected }),
        }
    }
}

} // verus!

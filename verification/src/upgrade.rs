//! The upgrade orchestrator: every package that the manifest records is
//! installed again, one after the other, until one of them fails.

use vstd::prelude::*;
use crate::action::{Action, ActionView, Event, EventView, Failure, FailureText};
use crate::install::{install_package, lemma_install_step, Install, InstallState};
use crate::manifest::{entries, get_package_list, installed, package_list_path};
use crate::platform::Platform;
use crate::resolver::{source_of, PackageSource};
use crate::text::views;

verus! {

/// How far an upgrade has come.
#[derive(Clone, Copy, Debug, PartialEq, Eq, Structural)]
pub enum Progress {
    /// Nothing has been asked for yet.
    Start,
    /// The content of the manifest has been asked for.
    Manifest,
    /// A package is being installed.
    Installing,
    /// A final action was given; nothing more is asked for.
    Finished,
}

/// An upgrade under way.
#[derive(Debug)]
pub struct Upgrade {
    /// The platform the packages are installed on.
    pub platform: Platform,
    /// How far the upgrade has come.
    pub progress: Progress,
    /// The installation under way, while there is one.
    pub current: Option<Install>,
    /// The identifiers of the packages that come after it.
    pub pending: Vec<String>,
    /// The identifiers of the packages that have been installed again.
    pub upgraded: Vec<String>,
}

/// An upgrade under way, as plain texts.
pub ghost struct UpgradeState {
    pub platform: Platform,
    pub progress: Progress,
    pub current: Option<InstallState>,
    pub pending: Seq<Seq<char>>,
    pub upgraded: Seq<Seq<char>>,
}

impl View for Upgrade {
    type V = UpgradeState;

    open spec fn view(&self) -> UpgradeState {
        UpgradeState {
            platform: self.platform,
            progress: self.progress,
            current: match self.current {
                Some(install) => Some(install@),
                None => None,
            },
            pending: views(self.pending@),
            upgraded: views(self.upgraded@),
        }
    }
}

impl UpgradeState {
    /// The upgrade before anything has been asked for.
    pub open spec fn start(platform: Platform) -> UpgradeState {
        UpgradeState {
            platform,
            progress: Progress::Start,
            current: None,
            pending: Seq::empty(),
            upgraded: Seq::empty(),
        }
    }

    /// A package is being installed whose descriptor is not on the local disk.
    pub open spec fn fetches(self) -> bool {
        &&& self.current is Some
        &&& source_of(self.current->0.package) != PackageSource::LocalPath
    }

    /// The upgrade ended by `action`.
    pub open spec fn end(self, action: ActionView) -> (UpgradeState, ActionView) {
        (UpgradeState { progress: Progress::Finished, current: None, ..self }, action)
    }

    /// Goes on to the first of the packages in `queue`, and ends the upgrade
    /// with success where there is none left.
    pub open spec fn proceed(self, queue: Seq<Seq<char>>) -> (UpgradeState, ActionView) {
        if queue.len() == 0 {
            UpgradeState { pending: queue, ..self }.end(ActionView::Succeed)
        } else {
            let begun = InstallState::start(queue.first(), self.platform).step(EventView::Begin);
            (
                UpgradeState {
                    progress: Progress::Installing,
                    current: Some(begun.0),
                    pending: queue.drop_first(),
                    ..self
                },
                begun.1,
            )
        }
    }

    /// One step of the upgrade: the state after `event`, and the action that is
    /// asked for next. A manifest that cannot be read counts as empty. Each
    /// installation runs as it would on its own; when it succeeds the next one
    /// begins, and when it ends in any other way so does the upgrade.
    pub open spec fn step(self, event: EventView) -> (UpgradeState, ActionView) {
        match self.progress {
            Progress::Start => match event {
                EventView::Begin => (
                    UpgradeState { progress: Progress::Manifest, ..self },
                    ActionView::ReadManifest { path: package_list_path(self.platform) },
                ),
                _ => self.end(ActionView::Fail { failure: FailureText::Unexpected }),
            },
            Progress::Manifest => match event {
                EventView::Text { text } => self.proceed(entries(text)),
                EventView::Failed { cause } => self.proceed(Seq::empty()),
                _ => self.end(ActionView::Fail { failure: FailureText::Unexpected }),
            },
            Progress::Installing => match self.current {
                Some(install) => {
                    let stepped = install.step(event);
                    if stepped.1 is Succeed {
                        UpgradeState {
                            upgraded: self.upgraded.push(install.package),
                            ..self
                        }.proceed(self.pending)
                    } else if stepped.1.is_final() {
                        self.end(stepped.1)
                    } else {
                        (UpgradeState { current: Some(stepped.0), ..self }, stepped.1)
                    }
                },
                None => self.end(ActionView::Fail { failure: FailureText::Unexpected }),
            },
            Progress::Finished => self.end(ActionView::Fail { failure: FailureText::Unexpected }),
        }
    }
}

impl UpgradeState {
    /// The actions that the given events draw from the upgrade, one for each
    /// event.
    pub open spec fn run(self, events: Seq<EventView>) -> Seq<ActionView>
        decreases events.len(),
    {
        if events.len() == 0 {
            Seq::empty()
        } else {
            let stepped = self.step(events.first());
            seq![stepped.1] + stepped.0.run(events.drop_first())
        }
    }
}

/// An upgrade ends with the first installation that does not succeed: the
/// action that ends the installation ends the upgrade, and none of the
/// packages that were still pending is begun.
pub proof fn lemma_upgrade_stops_at_failure(state: UpgradeState, event: EventView)
    requires
        state.progress == Progress::Installing,
        state.current is Some,
        state.current->0.step(event).1.is_final(),
        !(state.current->0.step(event).1 is Succeed),
    ensures
        state.step(event).1 == state.current->0.step(event).1,
        state.step(event).0.progress == Progress::Finished,
        state.step(event).0.pending == state.pending,
{
}

/// Once an upgrade has ended it asks for nothing more: whatever the events,
/// every action after a final one is a failure.
pub proof fn lemma_upgrade_ends(state: UpgradeState, events: Seq<EventView>)
    ensures
        state.run(events).len() == events.len(),
        forall|i: int, j: int|
            0 <= i < j < events.len() && (#[trigger] state.run(events)[i]).is_final() ==> (
            #[trigger] state.run(events)[j]) is Fail,
        state.progress == Progress::Finished ==> forall|i: int|
            0 <= i < events.len() ==> (#[trigger] state.run(events)[i]) is Fail,
    decreases events.len(),
{
    if events.len() > 0 {
        let stepped = state.step(events.first());
        let rest = events.drop_first();
        lemma_upgrade_ends(stepped.0, rest);
        assert(stepped.1.is_final() ==> stepped.0.progress == Progress::Finished) by {
            if state.progress == Progress::Manifest || (state.progress == Progress::Installing
                && state.current is Some) {
                lemma_install_begins(state.platform);
            }
        }
        assert forall|i: int, j: int|
            0 <= i < j < events.len() && (#[trigger] state.run(events)[i]).is_final() implies (
            #[trigger] state.run(events)[j]) is Fail by {
            assert(state.run(events)[j] == stepped.0.run(rest)[j - 1]);
            if i > 0 {
                assert(state.run(events)[i] == stepped.0.run(rest)[i - 1]);
            }
        }
    }
}

/// The first action of an installation asks for its descriptor, so it is
/// never a final one.
pub proof fn lemma_install_begins(platform: Platform)
    ensures
        forall|package: Seq<char>|
            !(#[trigger] InstallState::start(package, platform).step(EventView::Begin)).1.is_final(),
{
}

/// What an upgrade has to cover: while a package is being installed, the
/// packages that have been installed again, that package and those that are
/// still pending are the packages of `all`, in their order; and once the
/// upgrade has ended, those that have been installed again are the first ones
/// of `all`.
pub open spec fn covers(state: UpgradeState, all: Seq<Seq<char>>) -> bool {
    match state.progress {
        Progress::Installing => state.current is Some && state.upgraded + seq![
            state.current->0.package,
        ] + state.pending == all,
        Progress::Finished => state.upgraded.is_prefix_of(all),
        _ => false,
    }
}

/// The packages that an upgrade finds in the answer to its request for the
/// manifest: the entries of the manifest, and none where it could not be read.
pub open spec fn recorded_in(event: EventView) -> Seq<Seq<char>> {
    match event {
        EventView::Text { text } => entries(text),
        _ => Seq::empty(),
    }
}

/// As soon as the manifest has been read, the upgrade covers the packages it
/// records: the first of them is being installed and the others are pending,
/// or there is none and the upgrade has succeeded.
pub proof fn lemma_upgrade_begins(state: UpgradeState, event: EventView)
    requires
        state.progress == Progress::Manifest,
        state.upgraded.len() == 0,
    ensures
        covers(state.step(event).0, recorded_in(event)),
        state.step(event).1 is Succeed ==> state.step(event).0.upgraded == recorded_in(event),
{
    let all = recorded_in(event);
    let after = state.step(event).0;
    lemma_install_begins(state.platform);
    assert(state.upgraded =~= Seq::empty());
    if all.len() > 0 {
        lemma_install_step(InstallState::start(all.first(), state.platform), EventView::Begin);
        assert(after.upgraded + seq![all.first()] + all.drop_first() =~= all);
    } else {
        assert(after.upgraded =~= all);
    }
}

/// An upgrade installs the packages that the manifest records, each one once
/// and in the order of the manifest: an upgrade that covers them still does
/// so after any event, and when it ends in success every one of them has
/// been installed again.
pub proof fn lemma_upgrade_covers(state: UpgradeState, event: EventView, all: Seq<Seq<char>>)
    requires
        covers(state, all),
    ensures
        covers(state.step(event).0, all),
        state.step(event).1 is Succeed ==> state.step(event).0.upgraded == all,
{
    lemma_install_begins(state.platform);
    if state.progress == Progress::Installing {
        let install = state.current->0;
        let stepped = install.step(event);
        lemma_install_step(install, event);
        if stepped.1 is Succeed {
            let done = state.upgraded.push(install.package);
            assert(done + state.pending =~= all);
            if state.pending.len() > 0 {
                lemma_install_step(
                    InstallState::start(state.pending.first(), state.platform),
                    EventView::Begin,
                );
                assert(done + seq![state.pending.first()] + state.pending.drop_first() =~= all);
            } else {
                assert(done =~= all);
            }
        } else if stepped.1.is_final() {
            assert(state.upgraded =~= all.subrange(0, state.upgraded.len() as int));
        }
    }
}

/// Begins an upgrade on `platform`. Nothing has been done yet: the first
/// action is had by reporting `Event::Begin`.
pub fn upgrade(platform: Platform) -> (upgrade: Upgrade)
    ensures
        upgrade@ == UpgradeState::start(platform),
{
    let upgrade = Upgrade {
        platform,
        progress: Progress::Start,
        current: None,
        pending: Vec::new(),
        upgraded: Vec::new(),
    };
    assert(views(upgrade.pending@) =~= Seq::<Seq<char>>::empty());
    assert(views(upgrade.upgraded@) =~= Seq::<Seq<char>>::empty());
    upgrade
}

impl Upgrade {
    /// Ends the upgrade with `action`.
    fn end(&mut self, action: Action) -> (same: Action)
        ensures
            (final(self)@, same@) == old(self)@.end(action@),
            same == action,
    {
        self.progress = Progress::Finished;
        self.current = None;
        action
    }

    /// Goes on to the next pending package, if there is one.
    fn proceed(&mut self) -> (action: Action)
        ensures
            (final(self)@, action@) == old(self)@.proceed(old(self)@.pending),
            action@ is Fetch ==> final(self)@.fetches(),
    {
        if self.pending.len() == 0 {
            self.end(Action::Succeed)
        } else {
            let ghost queue = views(self.pending@);
            let package = self.pending.remove(0);
            assert(views(self.pending@) =~= queue.drop_first());
            let mut install = install_package(package.as_str(), self.platform);
            let action = install.advance(Event::Begin);
            self.progress = Progress::Installing;
            self.current = Some(install);
            action
        }
    }

    /// Takes the event that ended the last action and returns the next one.
    /// The first event is `Event::Begin`. An event that does not answer the
    /// last action ends the upgrade with `Failure::Unexpected`, and so does any
    /// event after a final action.
    ///
    /// What is fetched is the descriptor of the package being installed, and
    /// that package is not one on the local disk.
    pub fn advance(&mut self, event: Event) -> (action: Action)
        ensures
            (final(self)@, action@) == old(self)@.step(event@),
            action@ is Fetch ==> final(self)@.fetches(),
    {
        match self.progress {
            Progress::Start => match event {
                Event::Begin => {
                    self.progress = Progress::Manifest;
                    Action::ReadManifest { path: get_package_list(self.platform) }
                },
                _ => self.end(Action::Fail { failure: Failure::Unexpected }),
            },
            Progress::Manifest => match event {
                Event::Text { text } => {
                    self.pending = installed(text.as_str());
                    self.proceed()
                },
                Event::Failed { cause } => {
                    self.pending = Vec::new();
                    assert(views(self.pending@) =~= Seq::<Seq<char>>::empty());
                    self.proceed()
                },
                _ => self.end(Action::Fail { failure: Failure::Unexpected }),
            },
            Progress::Installing => match self.current.take() {
                Some(mut install) => {
                    let action = install.advance(event);
                    match action {
                        Action::Succeed => {
                            let ghost before = views(self.upgraded@);
                            self.upgraded.push(install.package);
                            assert(views(self.upgraded@) =~= before.push(install.package@));
                            self.proceed()
                        },
                        _ => {
                            if action.is_final() {
                                self.end(action)
                            } else {
                                self.current = Some(install);
                                action
                            }
                        },
                    }
                },
                None => self.end(Action::Fail { failure: Failure::Unexpected }),
            },
            Progress::Finished => self.end(Action::Fail { failure: Failure::Unexpected }),
        }
    }
}

} // verus!

//! Obtaining a descriptor: which action brings its text, and what the text or
//! the failure to get it leads to. Installing and uninstalling share this part.

use vstd::prelude::*;
use vstd::string::StringExecFns;
use crate::action::{Action, ActionView, Event, EventView, Failure, FailureText};
use crate::descriptor::{
    descriptor_of, parse_package, sorbet_fields, DescriptorFields, PackageDescriptor,
};
use crate::fetcher::{accepted_media_type, is_not_found, media_type, says_not_found};
use crate::resolver::{classify, locate, location_of, source_of, PackageSource};

verus! {

/// The action that brings the descriptor of `package`: a file on disk is read,
/// anything else is fetched.
pub open spec fn request_for(package: Seq<char>) -> ActionView {
    if source_of(package) == PackageSource::LocalPath {
        ActionView::ReadDescriptor { path: package }
    } else {
        ActionView::Fetch { url: location_of(package), accept: media_type() }
    }
}

/// What the answer to `request_for(package)` leads to: the descriptor, or the
/// action that ends the operation. A fetched text that says the package was
/// not found ends it at once; so does a text that lacks a required field, and
/// a text that could not be had.
pub open spec fn descriptor_read(package: Seq<char>, event: EventView) -> Result<
    DescriptorFields,
    ActionView,
> {
    match event {
        EventView::Text { text } => {
            if source_of(package) != PackageSource::LocalPath && says_not_found(text) {
                Err(ActionView::GiveUp)
            } else {
                match descriptor_of(sorbet_fields(text)) {
                    Ok(descriptor) => Ok(descriptor),
                    Err(error) => Err(
                        ActionView::Fail { failure: FailureText::Descriptor { error } },
                    ),
                }
            }
        },
        EventView::Failed { cause } => {
            if source_of(package) == PackageSource::LocalPath {
                Err(ActionView::Fail { failure: FailureText::Read { cause } })
            } else {
                Err(ActionView::Fail { failure: FailureText::Fetch { cause } })
            }
        },
        _ => Err(ActionView::Fail { failure: FailureText::Unexpected }),
    }
}

/// The views of what `accept_descriptor` returns.
pub open spec fn read_view(outcome: Result<PackageDescriptor, Action>) -> Result<
    DescriptorFields,
    ActionView,
> {
    match outcome {
        Ok(descriptor) => Ok(descriptor@),
        Err(action) => Err(action@),
    }
}

/// The action that brings the descriptor of `package`. A package on the local
/// disk is never fetched.
pub fn request_descriptor(package: &str) -> (action: Action)
    ensures
        action@ == request_for(package@),
        action@ is Fetch <==> source_of(package@) != PackageSource::LocalPath,
{
    match classify(package) {
        PackageSource::LocalPath => Action::ReadDescriptor { path: String::from_str(package) },
        _ => Action::Fetch { url: locate(package), accept: accepted_media_type() },
    }
}

/// Takes the answer to the request for the descriptor of `package`, and
/// returns the descriptor or the action that ends the operation.
pub fn accept_descriptor(package: &str, event: Event) -> (outcome: Result<
    PackageDescriptor,
    Action,
>)
    ensures
        read_view(outcome) == descriptor_read(package@, event@),
{
    let source = classify(package);
    match event {
        Event::Text { text } => {
            let local = match source {
                PackageSource::LocalPath => true,
                _ => false,
            };
            if !local && is_not_found(text.as_str()) {
                Err(Action::GiveUp)
            } else {
                let parsed = parse_package(text.as_str());
                match parsed {
                    Ok(descriptor) => Ok(descriptor),
                    Err(error) => Err(Action::Fail { failure: Failure::Descriptor { error } }),
                }
            }
        },
        Event::Failed { cause } => {
            match source {
                PackageSource::LocalPath => Err(Action::Fail { failure: Failure::Read { cause } }),
                _ => Err(Action::Fail { failure: Failure::Fetch { cause } }),
            }
        },
        _ => Err(Action::Fail { failure: Failure::Unexpected }),
    }
}

} // verus!

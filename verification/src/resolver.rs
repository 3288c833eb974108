//! The package resolver: from an identifier to the place its descriptor is
//! found.

use vstd::prelude::*;
use vstd::string::StringExecFns;
use crate::text::{starts_with, to_chars};

verus! {

/// Where a package identifier points.
#[derive(Clone, Copy, Debug, PartialEq, Eq, Structural)]
pub enum PackageSource {
    /// A bare name, looked up in the registry.
    Registry,
    /// The address of a descriptor on the network.
    RemoteUrl,
    /// The path of a descriptor on the local disk.
    LocalPath,
}

/// The source of `identifier`: one that begins with `http` is an address,
/// whatever follows; one that begins with `./`, `.\` or `/` is a path; any
/// other is a registry name.
pub open spec fn source_of(identifier: Seq<char>) -> PackageSource {
    if "http"@.is_prefix_of(identifier) {
        PackageSource::RemoteUrl
    } else if "./"@.is_prefix_of(identifier) || ".\\"@.is_prefix_of(identifier) || "/"@.is_prefix_of(
        identifier,
    ) {
        PackageSource::LocalPath
    } else {
        PackageSource::Registry
    }
}

/// The address under which the registry serves the descriptor of `name`.
pub open spec fn registry_url_of(name: Seq<char>) -> Seq<char> {
    "https://gleepkg.deno.dev/"@ + name + ".srb"@
}

/// What has to be read to get the descriptor of `identifier`: the identifier
/// itself unless it is a registry name, which stands for its registry address.
pub open spec fn location_of(identifier: Seq<char>) -> Seq<char> {
    if source_of(identifier) == PackageSource::Registry {
        registry_url_of(identifier)
    } else {
        identifier
    }
}

/// Classifies a package identifier.
pub fn classify(package: &str) -> (source: PackageSource)
    ensures
        source == source_of(package@),
        "http"@.is_prefix_of(package@) ==> source == PackageSource::RemoteUrl,
{
    let chars = to_chars(package);
    if starts_with(chars.as_slice(), to_chars("http").as_slice()) {
        PackageSource::RemoteUrl
    } else if starts_with(chars.as_slice(), to_chars("./").as_slice()) || starts_with(
        chars.as_slice(),
        to_chars(".\\").as_slice(),
    ) || starts_with(chars.as_slice(), to_chars("/").as_slice()) {
        PackageSource::LocalPath
    } else {
        PackageSource::Registry
    }
}

/// The registry address of the package called `name`.
pub fn registry_url(name: &str) -> (url: String)
    ensures
        url@ == registry_url_of(name@),
{
    let mut url = String::from_str("https://gleepkg.deno.dev/");
    url.append(name);
    url.append(".srb");
    url
}

/// The address or path from which the descriptor of `package` is read.
pub fn locate(package: &str) -> (location: String)
    ensures
        location@ == location_of(package@),
{
    match classify(package) {
        PackageSource::Registry => registry_url(package),
        _ => String::from_str(package),
    }
}

} // verus!

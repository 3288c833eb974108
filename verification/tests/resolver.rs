use tpi::fetcher::{accepted_media_type, is_not_found};
use tpi::resolver::{classify, locate, registry_url, PackageSource};

#[test]
fn http_prefix_is_a_remote_url() {
    assert_eq!(classify("http://example.com/pkg.srb"), PackageSource::RemoteUrl);
    assert_eq!(classify("https://example.com/pkg.srb"), PackageSource::RemoteUrl);
    assert_eq!(classify("http"), PackageSource::RemoteUrl);
    assert_eq!(classify("httpfoo"), PackageSource::RemoteUrl);
    assert_eq!(classify("http/./x"), PackageSource::RemoteUrl);
}

#[test]
fn path_prefixes_are_local() {
    assert_eq!(classify("./pkg.srb"), PackageSource::LocalPath);
    assert_eq!(classify(".\\pkg.srb"), PackageSource::LocalPath);
    assert_eq!(classify("/opt/pkg.srb"), PackageSource::LocalPath);
    assert_eq!(classify("/"), PackageSource::LocalPath);
}

#[test]
fn anything_else_is_a_registry_name() {
    assert_eq!(classify("foo"), PackageSource::Registry);
    assert_eq!(classify(""), PackageSource::Registry);
    assert_eq!(classify("."), PackageSource::Registry);
    assert_eq!(classify("htt"), PackageSource::Registry);
    assert_eq!(classify("../pkg.srb"), PackageSource::Registry);
    assert_eq!(classify("Http://x"), PackageSource::Registry);
}

#[test]
fn registry_url_of_foo() {
    assert_eq!(registry_url("foo"), "https://gleepkg.deno.dev/foo.srb");
}

#[test]
fn locate_resolves_registry_names_only() {
    assert_eq!(locate("foo"), "https://gleepkg.deno.dev/foo.srb");
    assert_eq!(locate("http://example.com/a.srb"), "http://example.com/a.srb");
    assert_eq!(locate("./a.srb"), "./a.srb");
}

#[test]
fn media_type_is_sorbet() {
    assert_eq!(accepted_media_type(), "application/sorbet");
}

#[test]
fn not_found_is_matched_without_regard_to_case() {
    assert!(is_not_found("404: Not Found"));
    assert!(is_not_found("NOT FOUND"));
    assert!(is_not_found("not found"));
    assert!(is_not_found("<h1>Package nOt FoUnD</h1>"));
}

#[test]
fn other_bodies_are_descriptors() {
    assert!(!is_not_found("name => hello"));
    assert!(!is_not_found("notfound"));
    assert!(!is_not_found("not  found"));
    assert!(!is_not_found(""));
}

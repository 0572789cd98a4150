use typst_stdio_worker::packages::{
    default_cache_dir, download_url, first_present_root, install_outcome, package_lookup,
    path_starts_with, staging_dir_name, version_string, InstallOutcome, PackageLookup,
    PackageRoot, PathPart,
};

fn components(parts: &[&str]) -> Vec<Vec<u8>> {
    parts.iter().map(|p| p.as_bytes().to_vec()).collect()
}

#[test]
fn package_version_directory_name() {
    assert_eq!(version_string(0, 1, 0), "0.1.0");
    assert_eq!(version_string(12, 0, 305), "12.0.305");
}

#[test]
fn package_download_url() {
    assert_eq!(
        download_url("preview", "cetz", 0, 3, 4),
        "https://packages.typst.org/preview/cetz-0.3.4.tar.gz"
    );
}

#[test]
fn package_staging_directory_is_per_process() {
    assert_eq!(staging_dir_name(0, 3, 4, 4242), ".0.3.4.download.4242");
    assert_ne!(staging_dir_name(0, 3, 4, 1), staging_dir_name(0, 3, 4, 2));
}

#[test]
fn package_install_outcomes() {
    assert_eq!(install_outcome(true, true), InstallOutcome::Installed);
    assert_eq!(install_outcome(true, false), InstallOutcome::Installed);
    assert_eq!(install_outcome(false, true), InstallOutcome::AlreadyPresent);
    assert_eq!(install_outcome(false, false), InstallOutcome::Failed);
}

#[test]
fn package_roots_local_before_cache() {
    assert_eq!(first_present_root(Some(true), Some(true)), Some(PackageRoot::Local));
    assert_eq!(first_present_root(Some(false), Some(true)), Some(PackageRoot::Cache));
    assert_eq!(first_present_root(None, Some(true)), Some(PackageRoot::Cache));
    assert_eq!(first_present_root(Some(false), Some(false)), None);
    assert_eq!(first_present_root(None, None), None);
}

#[test]
fn package_file_containment() {
    let base = components(&["/", "cache", "preview", "cetz", "0.3.4"]);
    let inside = components(&["/", "cache", "preview", "cetz", "0.3.4", "src", "lib.typ"]);
    let sibling = components(&["/", "cache", "preview", "cetz", "0.3.40", "lib.typ"]);
    let outside = components(&["/", "etc", "passwd"]);
    assert!(path_starts_with(&inside, &base));
    assert!(path_starts_with(&base, &base));
    assert!(!path_starts_with(&sibling, &base));
    assert!(!path_starts_with(&outside, &base));
    assert!(!path_starts_with(&components(&["/", "cache"]), &base));
}

#[test]
fn package_default_cache_dir() {
    assert_eq!(
        default_cache_dir(Some("/xdg"), Some("/home/u")),
        Some("/xdg/typst/packages".to_string())
    );
    assert_eq!(
        default_cache_dir(Some("/xdg/"), None),
        Some("/xdg/typst/packages".to_string())
    );
    assert_eq!(
        default_cache_dir(None, Some("/home/u")),
        Some("/home/u/.cache/typst/packages".to_string())
    );
    assert_eq!(default_cache_dir(None, None), None);
}

#[test]
fn package_lookup_order_of_checks() {
    let inside = vec![PathPart::Normal, PathPart::Normal];
    let escape = vec![PathPart::ParentDir, PathPart::Normal];
    assert_eq!(package_lookup(None, None, &escape, "preview", true), PackageLookup::NotConfigured);
    assert_eq!(
        package_lookup(Some(true), None, &escape, "preview", true),
        PackageLookup::AccessDenied
    );
    assert_eq!(
        package_lookup(Some(true), Some(true), &inside, "preview", true),
        PackageLookup::Found(PackageRoot::Local)
    );
    assert_eq!(
        package_lookup(Some(false), Some(true), &inside, "local", false),
        PackageLookup::Found(PackageRoot::Cache)
    );
    assert_eq!(
        package_lookup(Some(false), Some(false), &inside, "preview", true),
        PackageLookup::Download
    );
    assert_eq!(
        package_lookup(Some(false), Some(false), &inside, "preview", false),
        PackageLookup::NotFound
    );
    assert_eq!(
        package_lookup(Some(false), None, &inside, "preview", true),
        PackageLookup::NotFound
    );
    assert_eq!(
        package_lookup(None, Some(false), &inside, "local", true),
        PackageLookup::NotFound
    );
}

//! Rules for locating typst packages on disk: which relative paths a package
//! file may have, in which order the package roots are searched, when a
//! missing package may be downloaded, where it is fetched from and unpacked,
//! and that a resolved file stays inside its package.
use vstd::prelude::*;
use crate::text::{chars_of, decimal, opt_chars, push_decimal, push_str, str_equal};

verus! {

/// One component of a relative path, as `std::path::Path::components`
/// classifies it.
#[derive(Debug, Clone, Copy, PartialEq, Eq, Structural)]
pub enum PathPart {
    Prefix,
    RootDir,
    CurDir,
    ParentDir,
    Normal,
}

/// A package file path may only name entries below the package directory:
/// every component is a plain name or `.`.
pub open spec fn path_stays_inside(parts: Seq<PathPart>) -> bool {
    forall|i: int|
        0 <= i < parts.len() ==> (#[trigger] parts[i] == PathPart::Normal || parts[i]
            == PathPart::CurDir)
}

/// A path that climbs out (`..`), starts at the root or carries a prefix
/// never stays inside the package; a path of plain names and `.` always does,
/// and so does every part of one that does.
pub proof fn law_path_stays_inside(parts: Seq<PathPart>, i: int)
    ensures
        0 <= i < parts.len() && (parts[i] == PathPart::ParentDir || parts[i] == PathPart::RootDir
            || parts[i] == PathPart::Prefix) ==> !path_stays_inside(parts),
        (forall|j: int|
            0 <= j < parts.len() ==> #[trigger] parts[j] == PathPart::Normal || parts[j]
                == PathPart::CurDir) ==> path_stays_inside(parts),
        path_stays_inside(parts) && 0 <= i <= parts.len() ==> path_stays_inside(parts.take(i))
            && path_stays_inside(parts.skip(i)),
{
    if path_stays_inside(parts) && 0 <= i <= parts.len() {
        assert forall|j: int| 0 <= j < parts.take(i).len() implies (#[trigger] parts.take(i)[j]
            == PathPart::Normal || parts.take(i)[j] == PathPart::CurDir) by {
            assert(parts.take(i)[j] == parts[j]);
        }
        assert forall|j: int| 0 <= j < parts.skip(i).len() implies (#[trigger] parts.skip(i)[j]
            == PathPart::Normal || parts.skip(i)[j] == PathPart::CurDir) by {
            assert(parts.skip(i)[j] == parts[j + i]);
        }
    }
}

/// Directory-traversal check on the components of a package file path.
pub fn relative_path_allowed(parts: &Vec<PathPart>) -> (r: bool)
    ensures
        r == path_stays_inside(parts@),
{
    let mut i: usize = 0;
    while i < parts.len()
        invariant
            i <= parts.len(),
            path_stays_inside(parts@.take(i as int)),
        decreases parts.len() - i,
    {
        match parts[i] {
            PathPart::Normal | PathPart::CurDir => {},
            _ => {
                assert(!path_stays_inside(parts@)) by {
                    assert(parts@[i as int] != PathPart::Normal && parts@[i as int] != PathPart::CurDir);
                }
                return false;
            },
        }
        assert(parts@.take(i + 1)[i as int] == parts@[i as int]);
        assert forall|j: int| 0 <= j < i + 1 implies (#[trigger] parts@.take(i + 1)[j]
            == PathPart::Normal || parts@.take(i + 1)[j] == PathPart::CurDir) by {
            if j < i {
                assert(parts@.take(i + 1)[j] == parts@.take(i as int)[j]);
            }
        }
        i = i + 1;
    }
    assert(parts@.take(parts.len() as int) == parts@);
    true
}

/// Whether a package missing from every root may be fetched from the
/// registry: only `@preview` packages, only with a cache directory to put
/// them in, and only when downloads are allowed.
pub fn may_download(has_cache_dir: bool, namespace: &str, allow_download: bool) -> (r: bool)
    ensures
        r == (has_cache_dir && namespace@ == "preview"@ && allow_download),
{
    if !has_cache_dir {
        return false;
    }
    str_equal(namespace, "preview") && allow_download
}

/// A package version as typst prints it: `major.minor.patch`.
pub open spec fn version_text(major: u32, minor: u32, patch: u32) -> Seq<char> {
    decimal(major as nat) + "."@ + decimal(minor as nat) + "."@ + decimal(patch as nat)
}

/// Appends `major.minor.patch` to `s`.
fn push_version(s: &mut String, major: u32, minor: u32, patch: u32)
    ensures
        final(s)@ == old(s)@ + version_text(major, minor, patch),
{
    push_decimal(s, major as u64);
    push_str(s, ".");
    push_decimal(s, minor as u64);
    push_str(s, ".");
    push_decimal(s, patch as u64);
}

/// The version directory name of a package, `major.minor.patch`.
pub fn version_string(major: u32, minor: u32, patch: u32) -> (r: String)
    ensures
        r@ == version_text(major, minor, patch),
{
    let mut r = String::new();
    push_version(&mut r, major, minor, patch);
    r
}

/// Registry address of a package tarball.
pub open spec fn download_url_text(namespace: Seq<char>, name: Seq<char>, version: Seq<char>) -> Seq<
    char,
> {
    "https://packages.typst.org/"@ + namespace + "/"@ + name + "-"@ + version + ".tar.gz"@
}

/// The registry URL of `@namespace/name:major.minor.patch`.
pub fn download_url(namespace: &str, name: &str, major: u32, minor: u32, patch: u32) -> (r: String)
    ensures
        r@ == download_url_text(namespace@, name@, version_text(major, minor, patch)),
{
    let mut r = String::new();
    push_str(&mut r, "https://packages.typst.org/");
    push_str(&mut r, namespace);
    push_str(&mut r, "/");
    push_str(&mut r, name);
    push_str(&mut r, "-");
    push_version(&mut r, major, minor, patch);
    push_str(&mut r, ".tar.gz");
    r
}

/// Name of the per-process directory a download is unpacked into before it
/// is renamed into place, so that concurrent workers never share one.
pub open spec fn staging_dir_text(version: Seq<char>, pid: nat) -> Seq<char> {
    "."@ + version + ".download."@ + decimal(pid)
}

/// The staging directory name for a download of version
/// `major.minor.patch` by process `pid`.
pub fn staging_dir_name(major: u32, minor: u32, patch: u32, pid: u32) -> (r: String)
    ensures
        r@ == staging_dir_text(version_text(major, minor, patch), pid as nat),
{
    let mut r = String::new();
    push_str(&mut r, ".");
    push_version(&mut r, major, minor, patch);
    push_str(&mut r, ".download.");
    push_decimal(&mut r, pid as u64);
    r
}

/// What a finished download amounts to once the staging directory has been
/// renamed into place, or the rename has failed.
#[derive(Debug, Clone, Copy, PartialEq, Eq, Structural)]
pub enum InstallOutcome {
    /// This process placed the package.
    Installed,
    /// Another process placed it first; the copy here is discarded.
    AlreadyPresent,
    /// The package could not be placed.
    Failed,
}

/// Classifies the rename of the staging directory: a failed rename is still
/// a success when the target directory exists by then.
pub fn install_outcome(rename_ok: bool, target_exists: bool) -> (r: InstallOutcome)
    ensures
        rename_ok ==> r == InstallOutcome::Installed,
        !rename_ok && target_exists ==> r == InstallOutcome::AlreadyPresent,
        !rename_ok && !target_exists ==> r == InstallOutcome::Failed,
{
    if rename_ok {
        InstallOutcome::Installed
    } else if target_exists {
        InstallOutcome::AlreadyPresent
    } else {
        InstallOutcome::Failed
    }
}

/// A directory that packages are looked up under.
#[derive(Debug, Clone, Copy, PartialEq, Eq, Structural)]
pub enum PackageRoot {
    /// The local package path (`--package-path`).
    Local,
    /// The package cache, where downloads go.
    Cache,
}

/// The root a package version is taken from: the local package path first,
/// then the cache. For each root, `None` means it is not configured and
/// `Some(b)` whether the package's version directory exists under it.
pub open spec fn first_root(local: Option<bool>, cache: Option<bool>) -> Option<PackageRoot> {
    if local == Some(true) {
        Some(PackageRoot::Local)
    } else if cache == Some(true) {
        Some(PackageRoot::Cache)
    } else {
        None
    }
}

/// The first root, in search order, that holds the package's version directory.
pub fn first_present_root(local: Option<bool>, cache: Option<bool>) -> (r: Option<PackageRoot>)
    ensures
        r == first_root(local, cache),
{
    match (local, cache) {
        (Some(true), _) => Some(PackageRoot::Local),
        (_, Some(true)) => Some(PackageRoot::Cache),
        _ => None,
    }
}

/// The local package path is searched first: whenever it holds the
/// package's version directory it is the root used, whatever the cache holds.
/// The cache is used only when the local path does not hold it and the cache
/// does; a root that does not hold it (or is not configured) is never used.
/// A package that one root holds is always found.
pub proof fn law_local_root_first(local: Option<bool>, cache: Option<bool>)
    ensures
        local == Some(true) ==> first_root(local, cache) == Some(PackageRoot::Local),
        first_root(local, cache) == Some(PackageRoot::Cache) <==> (local != Some(true) && cache
            == Some(true)),
        first_root(local, cache) == Some(PackageRoot::Local) ==> local == Some(true),
        first_root(local, cache) is None <==> (local != Some(true) && cache != Some(true)),
{
}

/// Where looking up a package's version directory leads.
#[derive(Debug, Clone, Copy, PartialEq, Eq, Structural)]
pub enum PackageLookup {
    /// Neither a package path nor a package cache is configured.
    NotConfigured,
    /// The file's path leaves the package directory.
    AccessDenied,
    /// The version directory is under this root.
    Found(PackageRoot),
    /// It is on no root: fetch it into the cache, then look there again.
    Download,
    /// It is on no root and may not be fetched.
    NotFound,
}

/// Where a package file lookup leads, checks taken in order: some root must
/// be configured, the file's path must stay inside the package, the first
/// root that holds the package is used, and a package on neither root is
/// fetched only as `may_download` allows.
pub open spec fn lookup_outcome(
    local: Option<bool>,
    cache: Option<bool>,
    parts: Seq<PathPart>,
    namespace: Seq<char>,
    allow_download: bool,
) -> PackageLookup {
    if local is None && cache is None {
        PackageLookup::NotConfigured
    } else if !path_stays_inside(parts) {
        PackageLookup::AccessDenied
    } else {
        match first_root(local, cache) {
            Some(root) => PackageLookup::Found(root),
            None => if cache is Some && namespace == "preview"@ && allow_download {
                PackageLookup::Download
            } else {
                PackageLookup::NotFound
            },
        }
    }
}

/// A package lookup uses the roots in order: when the file's path stays
/// inside the package, a local path that holds it is used whatever the cache
/// holds, the cache is used when only it holds it, and no download is
/// attempted for a package that some root holds. A lookup is refused only
/// for a world with no root or a path that leaves the package.
pub proof fn law_package_lookup_uses_held_root(
    local: Option<bool>,
    cache: Option<bool>,
    parts: Seq<PathPart>,
    namespace: Seq<char>,
    allow_download: bool,
)
    ensures
        ({
            let r = lookup_outcome(local, cache, parts, namespace, allow_download);
            &&& path_stays_inside(parts) && local == Some(true) ==> r == PackageLookup::Found(
                PackageRoot::Local,
            )
            &&& path_stays_inside(parts) && local != Some(true) && cache == Some(true) ==> r
                == PackageLookup::Found(PackageRoot::Cache)
            &&& (local == Some(true) || cache == Some(true)) ==> r != PackageLookup::Download
            &&& r == PackageLookup::Download ==> cache is Some && allow_download
            &&& r == PackageLookup::AccessDenied <==> (!(local is None && cache is None)
                && !path_stays_inside(parts))
            &&& r == PackageLookup::NotConfigured <==> (local is None && cache is None)
        }),
{
}

/// The decision of a package file lookup, in the order the checks are made:
/// some root must be configured, the file's path must stay inside the
/// package, the local path is searched before the cache, and a package on
/// neither is fetched only where `may_download` allows it.
///
/// For each root, `None` means it is not configured and `Some(b)` whether
/// the package's version directory exists under it; `parts` are the
/// components of the file's path within the package.
pub fn package_lookup(
    local: Option<bool>,
    cache: Option<bool>,
    parts: &Vec<PathPart>,
    namespace: &str,
    allow_download: bool,
) -> (r: PackageLookup)
    ensures
        r == lookup_outcome(local, cache, parts@, namespace@, allow_download),
        local is None && cache is None ==> r == PackageLookup::NotConfigured,
        !(local is None && cache is None) && !path_stays_inside(parts@) ==> r
            == PackageLookup::AccessDenied,
        !(local is None && cache is None) && path_stays_inside(parts@) ==> r == match first_root(
            local,
            cache,
        ) {
            Some(root) => PackageLookup::Found(root),
            None => if cache is Some && namespace@ == "preview"@ && allow_download {
                PackageLookup::Download
            } else {
                PackageLookup::NotFound
            },
        },
{
    if local.is_none() && cache.is_none() {
        return PackageLookup::NotConfigured;
    }
    if !relative_path_allowed(parts) {
        return PackageLookup::AccessDenied;
    }
    match first_present_root(local, cache) {
        Some(root) => PackageLookup::Found(root),
        None => if may_download(cache.is_some(), namespace, allow_download) {
            PackageLookup::Download
        } else {
            PackageLookup::NotFound
        },
    }
}

/// The byte strings of a path's components.
pub open spec fn component_views(parts: Seq<Vec<u8>>) -> Seq<Seq<u8>> {
    parts.map_values(|c: Vec<u8>| c@)
}

/// Component-wise prefix, as `Path::starts_with` compares paths.
pub open spec fn starts_with_components(path: Seq<Seq<u8>>, base: Seq<Seq<u8>>) -> bool {
    base.len() <= path.len() && forall|i: int| 0 <= i < base.len() ==> #[trigger] path[i] == base[i]
}

/// Containment compares whole components: a path lies under itself and under
/// each of its leading runs of components, a path that extends the base by
/// further components lies under it, a shorter path never does, and a path
/// that differs from the base in some component the base has does not.
pub proof fn law_starts_with_components(path: Seq<Seq<u8>>, base: Seq<Seq<u8>>, more: Seq<Seq<u8>>, k: int)
    ensures
        starts_with_components(path, path),
        0 <= k <= path.len() ==> starts_with_components(path, path.take(k)),
        starts_with_components(base + more, base),
        path.len() < base.len() ==> !starts_with_components(path, base),
        0 <= k < base.len() && k < path.len() && path[k] != base[k] ==> !starts_with_components(
            path,
            base,
        ),
{
    assert forall|i: int| 0 <= i < base.len() implies #[trigger] (base + more)[i] == base[i] by {}
}

fn bytes_equal(a: &Vec<u8>, b: &Vec<u8>) -> (r: bool)
    ensures
        r == (a@ == b@),
{
    if a.len() != b.len() {
        return false;
    }
    let mut i: usize = 0;
    while i < a.len()
        invariant
            i <= a.len() == b.len(),
            forall|j: int| 0 <= j < i ==> a@[j] == b@[j],
        decreases a.len() - i,
    {
        if a[i] != b[i] {
            assert(a@[i as int] != b@[i as int]);
            return false;
        }
        i = i + 1;
    }
    assert(a@ =~= b@);
    true
}

/// Containment check on canonical paths, given as the bytes of their
/// components: a resolved package file is served only when its path lies
/// under the package's directory.
pub fn path_starts_with(path: &Vec<Vec<u8>>, base: &Vec<Vec<u8>>) -> (r: bool)
    ensures
        r == starts_with_components(component_views(path@), component_views(base@)),
{
    if base.len() > path.len() {
        return false;
    }
    let mut i: usize = 0;
    while i < base.len()
        invariant
            i <= base.len() <= path.len(),
            forall|j: int| 0 <= j < i ==> path@[j]@ == base@[j]@,
        decreases base.len() - i,
    {
        if !bytes_equal(&path[i], &base[i]) {
            assert(component_views(path@)[i as int] != component_views(base@)[i as int]);
            return false;
        }
        i = i + 1;
    }
    assert forall|j: int| 0 <= j < base.len() implies #[trigger] component_views(path@)[j]
        == component_views(base@)[j] by {
        assert(path@[j]@ == base@[j]@);
    }
    true
}

/// The default package cache: `$XDG_CACHE_HOME/typst/packages`, else
/// `$HOME/.cache/typst/packages`, else none.
pub open spec fn default_cache_dir_text(xdg: Option<Seq<char>>, home: Option<Seq<char>>) -> Option<
    Seq<char>,
> {
    match (xdg, home) {
        (Some(x), _) => Some(path_join_text(x, "typst/packages"@)),
        (None, Some(h)) => Some(path_join_text(h, ".cache/typst/packages"@)),
        (None, None) => None,
    }
}

/// Appending a relative path to a base as `PathBuf::join` does on Unix: a
/// separator goes between them unless the base is empty or already ends in one.
pub open spec fn path_join_text(base: Seq<char>, rel: Seq<char>) -> Seq<char> {
    if base.len() == 0 || base.last() == '/' {
        base + rel
    } else {
        base + "/"@ + rel
    }
}

fn path_join(base: &str, rel: &str) -> (r: String)
    ensures
        r@ == path_join_text(base@, rel@),
{
    let b = chars_of(base);
    let mut r = String::new();
    push_str(&mut r, base);
    if b.len() > 0 && b[b.len() - 1] != '/' {
        push_str(&mut r, "/");
    }
    push_str(&mut r, rel);
    proof {
        reveal_strlit("/");
    }
    r
}

/// The default cache is found from `XDG_CACHE_HOME` when it is set, whatever
/// `HOME` holds, and from `HOME` otherwise; with neither there is none. It
/// always ends in `typst/packages`, and starts with the directory it is
/// found from.
pub proof fn law_default_cache_dir(xdg: Option<Seq<char>>, home: Option<Seq<char>>)
    ensures
        default_cache_dir_text(xdg, home) is Some <==> (xdg is Some || home is Some),
        xdg is Some ==> default_cache_dir_text(xdg, home) == default_cache_dir_text(xdg, None),
        default_cache_dir_text(xdg, home) matches Some(d) ==> "typst/packages"@.is_suffix_of(d),
        xdg matches Some(x) ==> x.is_prefix_of(default_cache_dir_text(xdg, home)->0),
        xdg is None && home is Some ==> (home->0).is_prefix_of(default_cache_dir_text(xdg, home)->0),
{
    reveal_strlit("typst/packages");
    reveal_strlit(".cache/typst/packages");
    reveal_strlit("/");
    let t = "typst/packages"@;
    let c = ".cache/typst/packages"@;
    assert forall|b: Seq<char>, r: Seq<char>| #![trigger path_join_text(b, r)]
        b.is_prefix_of(path_join_text(b, r)) && r.is_suffix_of(path_join_text(b, r)) by {
        let j = path_join_text(b, r);
        assert(j.take(b.len() as int) =~= b);
        assert(j.skip(j.len() - r.len()) =~= r);
    }
    assert(c.skip(7) =~= t);
    if xdg is None && home is Some {
        let d = path_join_text(home->0, c);
        assert(d.skip(d.len() - c.len()) =~= c);
        assert(d.skip(d.len() - t.len()) =~= t);
    }
}

/// The package cache used when none is given, from the values of
/// `XDG_CACHE_HOME` and `HOME`.
pub fn default_cache_dir(xdg: Option<&str>, home: Option<&str>) -> (r: Option<String>)
    ensures
        default_cache_dir_text(opt_chars(xdg), opt_chars(home)) == match r {
            Some(dir) => Some(dir@),
            None => None,
        },
{
    match xdg {
        Some(x) => Some(path_join(x, "typst/packages")),
        None => match home {
            Some(h) => Some(path_join(h, ".cache/typst/packages")),
            None => None,
        },
    }
}

} // verus!

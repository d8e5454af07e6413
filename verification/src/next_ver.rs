//! The next versions of packages.

use crate::copied_directory::{copied_directories_are_there, copy_dir, is_directory_at};
use crate::copy_dir::{entry_destination, is_called_like, is_moved, Walk};
use crate::file_system::{FileSystem, Sides};
use crate::path::{
    are_plain, is_plain, join, joined_path, last_component, parent, parent_path, path_below, path_components,
    same_path, strip_prefix, takes_names,
};
use crate::semver_check::SemverCheck;
use crate::text::{copy_optional, optional_text, texts};
use crate::update_request::UpdateRequest;
use vstd::prelude::*;

verus! {

/// `cargo_metadata::semver::Version`.
#[verifier::external_type_specification]
#[verifier::external_body]
pub struct ExVersion(cargo_metadata::semver::Version);

/// Stands for a commit that has no id. It is long enough for the tools that shorten ids.
pub const NO_COMMIT_ID: &'static str = "0000000";

/// How a release is called.
#[derive(Debug, Clone)]
pub struct ReleaseMetadata {
    /// Template for the Git tag of the release.
    pub tag_name_template: Option<String>,
    /// Template for the name of the release.
    pub release_name_template: Option<String>,
}

/// What knows how releases are called.
pub trait ReleaseMetadataBuilder {
    /// The package is released.
    spec fn releases(&self, package_name: Seq<char>) -> bool;

    /// The template for the tags of a package that is released.
    spec fn tag_template(&self, package_name: Seq<char>) -> Option<Seq<char>>;

    /// The template for the names of the releases of a package.
    spec fn name_template(&self, package_name: Seq<char>) -> Option<Seq<char>>;

    /// How the releases of a package are called; `None` where it is not released.
    fn get_release_metadata(&self, package_name: &str) -> (r: Option<ReleaseMetadata>)
        ensures
            r is Some <==> self.releases(package_name@),
            r matches Some(metadata) ==> optional_text(metadata.tag_name_template)
                == self.tag_template(package_name@) && optional_text(metadata.release_name_template)
                == self.name_template(package_name@),
    ;
}

impl ReleaseMetadataBuilder for UpdateRequest {
    open spec fn releases(&self, package_name: Seq<char>) -> bool {
        self.config_of(package_name).release
    }

    open spec fn tag_template(&self, package_name: Seq<char>) -> Option<Seq<char>> {
        self.config_of(package_name).tag_name_template
    }

    /// An update knows of no names.
    open spec fn name_template(&self, package_name: Seq<char>) -> Option<Seq<char>> {
        None
    }

    fn get_release_metadata(&self, package_name: &str) -> (r: Option<ReleaseMetadata>) {
        let config = self.get_package_config(package_name);
        if config.release {
            Some(
                ReleaseMetadata {
                    tag_name_template: copy_optional(&config.tag_name_template),
                    release_name_template: None,
                },
            )
        } else {
            None
        }
    }
}

/// The result of an update of a package.
#[derive(Debug)]
pub struct UpdateResult {
    /// Next version of the package.
    pub version: cargo_metadata::semver::Version,
    /// New changelog.
    pub changelog: Option<String>,
    pub semver_check: SemverCheck,
    pub new_changelog_entry: Option<String>,
    /// The last released version, where the local version is higher already. It serves to
    /// name the versions that the update leads from and to.
    pub registry_version: Option<cargo_metadata::semver::Version>,
}

/// `Clone` of `cargo_metadata::semver::Version`: the same version.
#[verifier::external_body]
pub(crate) fn copy_version(version: &cargo_metadata::semver::Version) -> (r:
    cargo_metadata::semver::Version)
    ensures
        r == *version,
{
    version.clone()
}

impl Clone for UpdateResult {
    fn clone(&self) -> (r: Self)
        ensures
            r.version == self.version,
            optional_text(r.changelog) == optional_text(self.changelog),
            r.semver_check@ == self.semver_check@,
            optional_text(r.new_changelog_entry) == optional_text(self.new_changelog_entry),
            r.registry_version == self.registry_version,
    {
        UpdateResult {
            version: copy_version(&self.version),
            changelog: copy_optional(&self.changelog),
            semver_check: self.semver_check.copy(),
            new_changelog_entry: copy_optional(&self.new_changelog_entry),
            registry_version: match &self.registry_version {
                Some(version) => Some(copy_version(version)),
                None => None,
            },
        }
    }
}

impl UpdateResult {
    /// The last release in the changelog, as `parse` reads it; none without a changelog.
    pub fn last_changes<T, E, F: Fn(&str) -> Result<Option<T>, E>>(&self, parse: F) -> (r: Result<
        Option<T>,
        E,
    >)
        requires
            forall|text: &str| call_requires(parse, (text,)),
        ensures
            self.changelog is None ==> r == Ok::<Option<T>, E>(None),
            self.changelog matches Some(changelog) ==> exists|text: &str|
                text@ == changelog@ && #[trigger] call_ensures(parse, (text,), r),
    {
        match &self.changelog {
            Some(changelog) => {
                let text = changelog.as_str();
                let r = parse(text);
                assert(text@ == changelog@ && call_ensures(parse, (text,), r));
                r
            },
            None => Ok(None),
        }
    }
}

/// Where the manifest directory of a project is in a copy of the project. The copy is called
/// like the project, so the part of the path from the name of the project on is kept.
pub open spec fn relocated_dir(
    old_project_root: Seq<char>,
    old_manifest_dir: Seq<char>,
    new_project_root: Seq<char>,
) -> Option<Seq<char>> {
    let parent_root = match parent_path(old_project_root) {
        Some(parent) => parent,
        None => old_project_root,
    };
    match path_below(old_manifest_dir, parent_root) {
        Some(rest) => Some(joined_path(new_project_root, rest)),
        None => None,
    }
}

/// `path` is `old_manifest_dir` with the name of the project in `new_project_root` in place of
/// `old_project_root`, where it is the project or a directory of it.
pub open spec fn is_relocated(
    old_project_root: Seq<char>,
    old_manifest_dir: Seq<char>,
    new_project_root: Seq<char>,
    path: Option<Seq<char>>,
) -> bool {
    let root = path_components(old_project_root);
    let dir = path_components(old_manifest_dir);
    root.len() > 0 && root.is_prefix_of(dir) && are_plain(dir.skip(root.len() - 1)) && takes_names(
        new_project_root,
    ) ==> (path matches Some(path) && path_components(path) == path_components(
        new_project_root,
    ).push(root.last()) + dir.skip(root.len() as int))
}

/// Where the directory `old_manifest_dir` of the project at `old_project_root` is in the copy
/// of the project in `new_project_root`; nothing where it is not a directory of the project.
pub fn new_manifest_dir_path(
    old_project_root: &str,
    old_manifest_dir: &str,
    new_project_root: &str,
) -> (r: Option<String>)
    ensures
        optional_text(r) == relocated_dir(old_project_root@, old_manifest_dir@, new_project_root@),
        r matches Some(path) ==> exists|rest: Seq<char>|
            path@ == #[trigger] joined_path(new_project_root@, rest) && same_path(
                joined_path(
                    match parent_path(old_project_root@) {
                        Some(parent) => parent,
                        None => old_project_root@,
                    },
                    rest,
                ),
                old_manifest_dir@,
            ),
        is_relocated(old_project_root@, old_manifest_dir@, new_project_root@, optional_text(r)),
{
    let ghost root = path_components(old_project_root@);
    let ghost dir = path_components(old_manifest_dir@);
    proof {
        if root.len() > 0 && root.is_prefix_of(dir) {
            let names = dir.skip(root.len() - 1);
            assert(names[0] == root.last());
            assert(root.drop_last().is_prefix_of(dir));
            assert(path_components(new_project_root@) + names =~= path_components(
                new_project_root@,
            ).push(root.last()) + dir.skip(root.len() as int));
        }
    }
    let parent_root = match parent(old_project_root) {
        Some(parent) => parent,
        None => old_project_root.to_owned(),
    };
    match strip_prefix(old_manifest_dir, parent_root.as_str()) {
        Some(rest) => {
            let path = join(new_project_root, rest.as_str());
            assert(path@ == joined_path(new_project_root@, rest@));
            Some(path)
        },
        None => None,
    }
}

/// The manifest directory is found in the copy of the project: where the project is copied into
/// `new_project_root`, as `target`, `new_dir` is the directory of `target` that
/// `old_manifest_dir` is of `old_project_root`, and it is `copied`, where that directory is copied
/// to.
pub proof fn manifest_dir_is_in_the_copy(
    old_project_root: Seq<char>,
    old_manifest_dir: Seq<char>,
    new_project_root: Seq<char>,
    target: Seq<char>,
    copied: Seq<char>,
    new_dir: Option<Seq<char>>,
)
    requires
        last_component(old_project_root) is Some,
        path_components(old_project_root).is_prefix_of(path_components(old_manifest_dir)),
        are_plain(
            path_components(old_manifest_dir).skip(path_components(old_project_root).len() - 1),
        ),
        takes_names(new_project_root),
        is_called_like(old_project_root, new_project_root, target),
        takes_names(target) ==> is_moved(old_project_root, target, old_manifest_dir, Some(copied)),
        is_relocated(old_project_root, old_manifest_dir, new_project_root, new_dir),
    ensures
        new_dir is Some,
        path_components(new_dir->0) == path_components(copied),
        path_components(new_dir->0) == path_components(target) + path_components(
            old_manifest_dir,
        ).skip(path_components(old_project_root).len() as int),
{
    let root = path_components(old_project_root);
    let names = path_components(old_manifest_dir).skip(root.len() - 1);
    let below = path_components(old_manifest_dir).skip(root.len() as int);
    assert(names[0] == root.last());
    assert forall|i: int| 0 <= i < below.len() implies is_plain(#[trigger] below[i]) by {
        assert(below[i] == names[i + 1]);
    }
}

/// After the project was copied into `new_project_root`, `new_dir` is a directory: the copy of
/// `old_manifest_dir`, which the walk through the project came to at `walked_dir`.
pub proof fn new_manifest_dir_is_there<D>(
    fs: FileSystem<D>,
    sides: Sides,
    depth: nat,
    disk: D,
    old_project_root: Seq<char>,
    old_manifest_dir: Seq<char>,
    new_project_root: Seq<char>,
    walked_dir: Seq<char>,
    new_dir: Option<Seq<char>>,
)
    requires
        last_component(old_project_root) is Some,
        path_components(old_project_root).is_prefix_of(path_components(old_manifest_dir)),
        are_plain(
            path_components(old_manifest_dir).skip(path_components(old_project_root).len() - 1),
        ),
        takes_names(new_project_root),
        sides.are_closed(fs),
        fs.is_faithful(sides),
        fs.reads_components(),
        sides.is_source(old_project_root),
        path_components(walked_dir) == path_components(old_manifest_dir),
        exists|i: int|
            0 <= i < (fs.walked)(disk, Walk::Files, old_project_root).len() && is_directory_at(
                #[trigger] (fs.walked)(disk, Walk::Files, old_project_root)[i],
                walked_dir,
            ),
        copy_dir(fs, depth, disk, old_project_root, new_project_root).1 is Ok,
        ({
            let target = joined_path(new_project_root, last_component(old_project_root)->0);
            &&& sides.is_target(target)
            &&& (fs.exists)(disk, target) == Some(true) ==> (fs.is_dir)(disk, target)
            &&& is_called_like(old_project_root, new_project_root, target)
            &&& takes_names(target) ==> is_moved(
                old_project_root,
                target,
                walked_dir,
                entry_destination(target, walked_dir, old_project_root),
            )
        }),
        is_relocated(old_project_root, old_manifest_dir, new_project_root, new_dir),
    ensures
        new_dir is Some,
        (fs.is_dir)(
            copy_dir(fs, depth, disk, old_project_root, new_project_root).0,
            new_dir->0,
        ),
{
    let target = joined_path(new_project_root, last_component(old_project_root)->0);
    let copied = entry_destination(target, walked_dir, old_project_root);
    let root = path_components(old_project_root);
    let names = path_components(old_manifest_dir).skip(root.len() - 1);
    let below = path_components(old_manifest_dir).skip(root.len() as int);
    assert(names[0] == root.last());
    assert forall|i: int| 0 <= i < below.len() implies is_plain(#[trigger] below[i]) by {
        assert(below[i] == names[i + 1]);
    }
    assert(copied is Some);
    manifest_dir_is_in_the_copy(
        old_project_root,
        old_manifest_dir,
        new_project_root,
        target,
        copied->0,
        new_dir,
    );
    copied_directories_are_there(
        fs,
        sides,
        depth,
        disk,
        old_project_root,
        new_project_root,
        walked_dir,
    );
    let last = copy_dir(fs, depth, disk, old_project_root, new_project_root).0;
    assert((fs.is_dir)(last, copied->0) == (fs.is_dir)(last, new_dir->0));
}

/// The directory of a manifest.
pub fn manifest_dir(manifest: &str) -> (r: Option<String>)
    ensures
        optional_text(r) == parent_path(manifest@),
{
    parent(manifest)
}

/// The arguments of `git` that print the root of the repository it is run in.
pub fn root_arguments() -> (r: Vec<String>)
    ensures
        texts(r@) == seq!["rev-parse"@, "--show-toplevel"@],
{
    let mut r: Vec<String> = Vec::new();
    r.push("rev-parse".to_owned());
    r.push("--show-toplevel".to_owned());
    assert(texts(r@) =~= seq!["rev-parse"@, "--show-toplevel"@]);
    r
}

/// The releases of a package are called by the tag template of its configuration, or of the
/// default one where it has none of its own; a package that is not released has none.
pub proof fn releases_are_called_as_configured(
    request: &UpdateRequest,
    name: &str,
    r: Option<ReleaseMetadata>,
)
    requires
        call_ensures(
            <UpdateRequest as ReleaseMetadataBuilder>::get_release_metadata,
            (request, name),
            r,
        ),
    ensures
        ({
            let config = if request.overrides@.contains_key(name@) {
                request.overrides@[name@]
            } else {
                request.default_config
            };
            &&& r is Some <==> config.release
            &&& r matches Some(metadata) ==> {
                &&& metadata.release_name_template is None
                &&& metadata.tag_name_template is Some <==> config.tag_name_template is Some
                &&& config.tag_name_template matches Some(template)
                    ==> metadata.tag_name_template->0@ == template@
            }
        }),
{
}

/// A copy of an update has the same versions, changelogs and outcome.
pub proof fn updates_are_copied(update: &UpdateResult, r: UpdateResult)
    requires
        call_ensures(<UpdateResult as Clone>::clone, (update,), r),
    ensures
        r.version == update.version,
        r.registry_version == update.registry_version,
        r.semver_check@ == update.semver_check@,
        r.changelog is Some <==> update.changelog is Some,
        update.changelog matches Some(changelog) ==> r.changelog->0@ == changelog@,
        r.new_changelog_entry is Some <==> update.new_changelog_entry is Some,
        update.new_changelog_entry matches Some(entry) ==> r.new_changelog_entry->0@ == entry@,
{
    if let Some(changelog) = update.changelog {
        assert(optional_text(update.changelog) == Some(changelog@));
    }
    if let Some(entry) = update.new_changelog_entry {
        assert(optional_text(update.new_changelog_entry) == Some(entry@));
    }
}

/// The last changes are those that the parser finds in the changelog, all of which it is given;
/// without a changelog there are none.
pub proof fn last_changes_are_those_of_the_changelog<
    T,
    E,
    F: Fn(&str) -> Result<Option<T>, E>,
>(update: &UpdateResult, parse: F, r: Result<Option<T>, E>)
    requires
        call_ensures(UpdateResult::last_changes::<T, E, F>, (update, parse), r),
    ensures
        update.changelog is None ==> r == Ok::<Option<T>, E>(None),
        update.changelog matches Some(changelog) ==> exists|text: &str|
            text@ == changelog@ && #[trigger] call_ensures(parse, (text,), r),
{
}

/// The path of a manifest directory from the parent of its project on is put behind the new root;
/// a project without a parent is such a parent itself. What is not below it has no place there.
pub proof fn manifest_directory_is_put_behind_the_new_root(
    old_project_root: &str,
    old_manifest_dir: &str,
    new_project_root: &str,
    r: Option<String>,
)
    requires
        call_ensures(
            new_manifest_dir_path,
            (old_project_root, old_manifest_dir, new_project_root),
            r,
        ),
    ensures
        parent_path(old_project_root@) matches Some(parent) ==> {
            &&& r is Some <==> path_below(old_manifest_dir@, parent) is Some
            &&& path_below(old_manifest_dir@, parent) matches Some(rest) ==> r->0@ == joined_path(
                new_project_root@,
                rest,
            )
        },
        parent_path(old_project_root@) is None ==> {
            &&& r is Some <==> path_below(old_manifest_dir@, old_project_root@) is Some
            &&& path_below(old_manifest_dir@, old_project_root@) matches Some(rest) ==> r->0@
                == joined_path(new_project_root@, rest)
        },
{
}

/// The name of the project, and what follows it in the path of a manifest directory, are kept
/// behind the new root.
pub proof fn name_of_the_project_is_kept(
    old_project_root: &str,
    old_manifest_dir: &str,
    new_project_root: &str,
    r: Option<String>,
)
    requires
        call_ensures(
            new_manifest_dir_path,
            (old_project_root, old_manifest_dir, new_project_root),
            r,
        ),
        path_components(old_project_root@).len() > 0,
        path_components(old_project_root@).is_prefix_of(path_components(old_manifest_dir@)),
        are_plain(
            path_components(old_manifest_dir@).skip(path_components(old_project_root@).len() - 1),
        ),
        takes_names(new_project_root@),
    ensures
        r matches Some(path) && path_components(path@) == path_components(new_project_root@).push(
            path_components(old_project_root@).last(),
        ) + path_components(old_manifest_dir@).skip(
            path_components(old_project_root@).len() as int,
        ),
{
}

/// A manifest is in the directory that its path names, and the root of a repository is asked for
/// with `rev-parse`.
pub proof fn manifest_and_repository_are_located(
    manifest: &str,
    directory: Option<String>,
    arguments: Vec<String>,
)
    requires
        call_ensures(manifest_dir, (manifest,), directory),
        call_ensures(root_arguments, (), arguments),
    ensures
        directory is Some <==> parent_path(manifest@) is Some,
        directory matches Some(directory) ==> parent_path(manifest@) == Some(directory@),
        texts(arguments@) == seq!["rev-parse"@, "--show-toplevel"@],
{
}

/// A commit without an id is a row of zeros, as long as a short id.
pub proof fn missing_commits_are_zeros()
    ensures
        NO_COMMIT_ID@.len() == 7,
        forall|i: int| 0 <= i < 7 ==> #[trigger] NO_COMMIT_ID@[i] == '0',
{
    reveal_strlit("0000000");
    assert forall|i: int| 0 <= i < 7 implies #[trigger] NO_COMMIT_ID@[i] == '0' by {
        assert("0000000"@[0] == '0' && "0000000"@[1] == '0' && "0000000"@[2] == '0'
            && "0000000"@[3] == '0' && "0000000"@[4] == '0' && "0000000"@[5] == '0'
            && "0000000"@[6] == '0');
    }
}

}

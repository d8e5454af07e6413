//! What is asked of an update.

use crate::cargo::CARGO_TOML;
use crate::name_map::NameMap;
use crate::path::{join, joined_path, parent, parent_path};
use crate::text::{copy_optional, optional_text};
use crate::workspace::Metadata;
use vstd::prelude::*;

verus! {

/// How a package is released.
#[derive(Debug)]
pub struct PackageConfig {
    /// Whether it is released at all.
    pub release: bool,
    /// Whether its version is determined by Git tags, not by a registry.
    pub git_only: bool,
    /// The template of its tags; `None` stands for the default.
    pub tag_name_template: Option<String>,
}

/// The model of a [`PackageConfig`].
pub struct PackageConfigView {
    pub release: bool,
    pub git_only: bool,
    pub tag_name_template: Option<Seq<char>>,
}

impl View for PackageConfig {
    type V = PackageConfigView;

    open spec fn view(&self) -> PackageConfigView {
        PackageConfigView {
            release: self.release,
            git_only: self.git_only,
            tag_name_template: optional_text(self.tag_name_template),
        }
    }
}

impl Default for PackageConfig {
    /// A package that is released through a registry, with the default tags.
    fn default() -> (r: Self)
        ensures
            r@ == (PackageConfigView { release: true, git_only: false, tag_name_template: None }),
    {
        PackageConfig { release: true, git_only: false, tag_name_template: None }
    }
}

/// What is asked of an update.
#[derive(Debug)]
pub struct UpdateRequest {
    pub metadata: Metadata,
    pub local_manifest: String,
    /// Where the published packages are read from; `None` stands for downloading them.
    pub registry_manifest: Option<String>,
    /// The registry that packages are downloaded from.
    pub registry: Option<String>,
    /// Whether uncommitted changes are no reason to refuse the update.
    pub allow_dirty: bool,
    /// How packages are released that have no configuration of their own.
    pub default_config: PackageConfig,
    /// The configuration of single packages.
    pub overrides: NameMap<PackageConfig>,
}

impl UpdateRequest {
    /// How the package of this name is released.
    pub open spec fn config_of(self, package_name: Seq<char>) -> PackageConfigView {
        if self.overrides@.contains_key(package_name) {
            self.overrides@[package_name]@
        } else {
            self.default_config@
        }
    }

    /// An update of the workspace that `metadata` describes, with the defaults.
    pub fn new(metadata: Metadata) -> (r: Self)
        ensures
            r.metadata == metadata,
            r.local_manifest@ == joined_path(metadata.workspace_root@, "Cargo.toml"@),
            r.registry_manifest is None,
            r.registry is None,
            !r.allow_dirty,
            r.overrides@ == Map::<Seq<char>, PackageConfig>::empty(),
            forall|name: Seq<char>|
                #[trigger] r.config_of(name) == (PackageConfigView {
                    release: true,
                    git_only: false,
                    tag_name_template: None,
                }),
    {
        let local_manifest = join(metadata.workspace_root.as_str(), CARGO_TOML);
        UpdateRequest {
            metadata,
            local_manifest,
            registry_manifest: None,
            registry: None,
            allow_dirty: false,
            default_config: PackageConfig::default(),
            overrides: NameMap::new(),
        }
    }

    /// The request with this configuration for the packages that have none of their own.
    pub fn with_default_package_config(self, config: PackageConfig) -> (r: Self)
        ensures
            r == (UpdateRequest { default_config: config, ..self }),
    {
        UpdateRequest { default_config: config, ..self }
    }

    /// The request with this configuration for the package of this name.
    pub fn with_package_config(self, package_name: String, config: PackageConfig) -> (r: Self)
        ensures
            r.overrides@ == self.overrides@.insert(package_name@, config),
            r == (UpdateRequest { overrides: r.overrides, ..self }),
    {
        let UpdateRequest {
            metadata,
            local_manifest,
            registry_manifest,
            registry,
            allow_dirty,
            default_config,
            overrides,
        } = self;
        UpdateRequest {
            metadata,
            local_manifest,
            registry_manifest,
            registry,
            allow_dirty,
            default_config,
            overrides: overrides.insert(package_name, config),
        }
    }

    /// The request, with uncommitted changes allowed or not.
    pub fn with_allow_dirty(self, allow_dirty: bool) -> (r: Self)
        ensures
            r == (UpdateRequest { allow_dirty, ..self }),
    {
        UpdateRequest { allow_dirty, ..self }
    }

    /// How the package of this name is released.
    pub fn get_package_config(&self, package_name: &str) -> (r: &PackageConfig)
        ensures
            r@ == self.config_of(package_name@),
    {
        match self.overrides.get(package_name) {
            Some(config) => config,
            None => &self.default_config,
        }
    }

    /// Whether the version of the package is determined by Git tags.
    pub fn should_use_git_only(&self, package_name: &str) -> (r: bool)
        ensures
            r == self.config_of(package_name@).git_only,
    {
        self.get_package_config(package_name).git_only
    }

    /// The template of the tags of the package, where it has one.
    pub fn get_package_tag_name(&self, package_name: &str) -> (r: Option<String>)
        ensures
            optional_text(r) == self.config_of(package_name@).tag_name_template,
    {
        copy_optional(&self.get_package_config(package_name).tag_name_template)
    }

    /// The directory of the local manifest.
    pub fn local_manifest_dir(&self) -> (r: Option<String>)
        ensures
            optional_text(r) == parent_path(self.local_manifest@),
    {
        parent(self.local_manifest.as_str())
    }
}

/// The template of the tags of a package that has none of its own. It names the package where
/// the project releases more than one.
pub open spec fn default_template(is_multi_package: bool) -> Seq<char> {
    if is_multi_package {
        "{{ package }}-v{{ version }}"@
    } else {
        "v{{ version }}"@
    }
}

/// The template of the tags of a package that has none of its own.
pub fn default_tag_name_template(is_multi_package: bool) -> (r: String)
    ensures
        r@ == default_template(is_multi_package),
{
    if is_multi_package {
        "{{ package }}-v{{ version }}".to_owned()
    } else {
        "v{{ version }}".to_owned()
    }
}

impl UpdateRequest {
    /// The template of the tags of a package.
    pub open spec fn template_of(self, package_name: Seq<char>, is_multi_package: bool) -> Seq<
        char,
    > {
        match self.config_of(package_name).tag_name_template {
            Some(template) => template,
            None => default_template(is_multi_package),
        }
    }

    /// The template of the tags of a package: its own, or the default.
    pub fn tag_name_template(&self, package_name: &str, is_multi_package: bool) -> (r: String)
        ensures
            r@ == self.template_of(package_name@, is_multi_package),
    {
        match self.get_package_tag_name(package_name) {
            Some(template) => template,
            None => default_tag_name_template(is_multi_package),
        }
    }
}

/// A package is released as its own configuration says; one without, as the default says.
pub proof fn own_configuration_goes_first(
    request: &UpdateRequest,
    name: &str,
    config: &PackageConfig,
    git_only: bool,
    tag_name: Option<String>,
)
    requires
        call_ensures(UpdateRequest::get_package_config, (request, name), config),
        call_ensures(UpdateRequest::should_use_git_only, (request, name), git_only),
        call_ensures(UpdateRequest::get_package_tag_name, (request, name), tag_name),
    ensures
        ({
            let own = if request.overrides@.contains_key(name@) {
                request.overrides@[name@]
            } else {
                request.default_config
            };
            &&& config.release == own.release
            &&& config.git_only == own.git_only
            &&& config.tag_name_template is Some <==> own.tag_name_template is Some
            &&& own.tag_name_template is Some ==> config.tag_name_template->0@
                == own.tag_name_template->0@
            &&& git_only == own.git_only
            &&& tag_name is Some <==> own.tag_name_template is Some
            &&& own.tag_name_template is Some ==> tag_name->0@ == own.tag_name_template->0@
        }),
{
}

/// A package that has a tag template of its own, or by the default configuration, is looked for
/// by exactly that template, however many packages the project releases. Only one without is
/// looked for by the template that names the package where there are more than one.
pub proof fn configured_templates_are_used(
    request: &UpdateRequest,
    name: &str,
    is_multi_package: bool,
    r: String,
)
    requires
        call_ensures(UpdateRequest::tag_name_template, (request, name, is_multi_package), r),
    ensures
        ({
            let template = if request.overrides@.contains_key(name@) {
                request.overrides@[name@].tag_name_template
            } else {
                request.default_config.tag_name_template
            };
            &&& template matches Some(template) ==> r@ == template@
            &&& template is None ==> r@ == if is_multi_package {
                "{{ package }}-v{{ version }}"@
            } else {
                "v{{ version }}"@
            }
        }),
{
}

/// The default template names the package where the project releases more than one.
pub proof fn default_template_names_one_of_many(is_multi_package: bool, r: String)
    requires
        call_ensures(default_tag_name_template, (is_multi_package,), r),
    ensures
        is_multi_package ==> r@ == "{{ package }}-v{{ version }}"@,
        !is_multi_package ==> r@ == "v{{ version }}"@,
{
}

/// A configuration is found for the package that it was given for, and changes nothing for the
/// others.
pub proof fn configuration_is_found_again(
    request: UpdateRequest,
    name: String,
    config: PackageConfig,
    changed: UpdateRequest,
    other: &str,
    found: &PackageConfig,
    found_before: &PackageConfig,
)
    requires
        call_ensures(UpdateRequest::with_package_config, (request, name, config), changed),
        call_ensures(UpdateRequest::get_package_config, (&changed, other), found),
        call_ensures(UpdateRequest::get_package_config, (&request, other), found_before),
    ensures
        other@ == name@ ==> found@ == config@,
        other@ != name@ ==> found@ == found_before@,
        changed.metadata == request.metadata,
        changed.local_manifest == request.local_manifest,
        changed.registry_manifest == request.registry_manifest,
        changed.registry == request.registry,
        changed.allow_dirty == request.allow_dirty,
        changed.default_config == request.default_config,
{
}

/// The default configuration is for the packages that have none of their own.
pub proof fn default_configuration_is_for_the_others(
    request: UpdateRequest,
    config: PackageConfig,
    changed: UpdateRequest,
    name: &str,
    found: &PackageConfig,
    found_before: &PackageConfig,
)
    requires
        call_ensures(UpdateRequest::with_default_package_config, (request, config), changed),
        call_ensures(UpdateRequest::get_package_config, (&changed, name), found),
        call_ensures(UpdateRequest::get_package_config, (&request, name), found_before),
    ensures
        !request.overrides@.contains_key(name@) ==> found@ == config@,
        request.overrides@.contains_key(name@) ==> found@ == found_before@,
        changed.metadata == request.metadata,
        changed.local_manifest == request.local_manifest,
        changed.registry_manifest == request.registry_manifest,
        changed.registry == request.registry,
        changed.allow_dirty == request.allow_dirty,
        changed.overrides == request.overrides,
{
}

/// Uncommitted changes are allowed as the request says, and nothing else changes.
pub proof fn dirty_is_allowed_on_request(
    request: UpdateRequest,
    allow_dirty: bool,
    changed: UpdateRequest,
)
    requires
        call_ensures(UpdateRequest::with_allow_dirty, (request, allow_dirty), changed),
    ensures
        changed.allow_dirty == allow_dirty,
        changed.metadata == request.metadata,
        changed.local_manifest == request.local_manifest,
        changed.registry_manifest == request.registry_manifest,
        changed.registry == request.registry,
        changed.default_config == request.default_config,
        changed.overrides == request.overrides,
{
}

/// A new request is about the manifest in the root of the workspace. It downloads the packages,
/// releases each through a registry and does not allow uncommitted changes.
pub proof fn new_request_has_the_defaults(
    metadata: Metadata,
    request: UpdateRequest,
    name: &str,
    config: &PackageConfig,
)
    requires
        call_ensures(UpdateRequest::new, (metadata,), request),
        call_ensures(UpdateRequest::get_package_config, (&request, name), config),
    ensures
        request.metadata == metadata,
        request.local_manifest@ == joined_path(metadata.workspace_root@, "Cargo.toml"@),
        request.registry_manifest is None,
        request.registry is None,
        !request.allow_dirty,
        config.release,
        !config.git_only,
        config.tag_name_template is None,
{
    assert(request.config_of(name@) == (PackageConfigView {
        release: true,
        git_only: false,
        tag_name_template: None,
    }));
}

/// The local manifest is in the directory that its path names.
pub proof fn manifest_is_in_its_directory(request: &UpdateRequest, r: Option<String>)
    requires
        call_ensures(UpdateRequest::local_manifest_dir, (request,), r),
    ensures
        r is Some <==> parent_path(request.local_manifest@) is Some,
        r matches Some(directory) ==> parent_path(request.local_manifest@) == Some(directory@),
{
}

/// A configuration that says nothing releases a package through a registry, with the usual tags.
pub proof fn default_configuration_releases_through_a_registry(r: PackageConfig)
    requires
        call_ensures(<PackageConfig as Default>::default, (), r),
    ensures
        r.release,
        !r.git_only,
        r.tag_name_template is None,
{
    assert(r@.release && !r@.git_only && r@.tag_name_template is None);
}

}

//! The application configuration: the vault's paths and the settings of the note
//! sources, and the `key = value` properties that set them.
//!
//! Paths are held as text; the configuration file is read and written outside
//! the library.
use core::marker::PhantomData;
use vstd::prelude::*;
use vstd::string::StringExecFns;

use crate::error::Error;
use crate::text::same_text;

verus! {

/// The version of the picture-of-the-day service.
#[derive(Debug, Clone, Copy, PartialEq, Eq, Structural)]
pub enum Version {
    /// The first version.
    V1_0,
}

impl Version {
    /// The version that a value names, given in lower case: `v1` names the first.
    pub fn from_lowered(lowered: &str) -> (r: Option<Version>)
        ensures
            lowered@ == "v1"@ ==> r == Some(Version::V1_0),
            lowered@ != "v1"@ ==> r is None,
    {
        if same_text(lowered, "v1") {
            Some(Version::V1_0)
        } else {
            None
        }
    }
}

impl Default for Version {
    /// The first version.
    fn default() -> (r: Version)
        ensures
            r == Version::V1_0,
    {
        Version::V1_0
    }
}

/// The text of an optional string.
pub open spec fn opt(o: Option<String>) -> Option<Seq<char>> {
    match o {
        Some(s) => Some(s@),
        None => None,
    }
}

/// `s` as an owned string.
fn owned(s: &str) -> (r: String)
    ensures
        r@ == s@,
{
    String::from_str(s)
}

/// The text of `o`, or the error that the property `name` has no value.
fn present<'a>(o: &'a Option<String>, name: &'static str) -> (r: Result<&'a str, Error>)
    ensures
        match o {
            Some(s) => r is Ok && r->Ok_0@ == s@,
            None => r is Err && r->Err_0 is ConfigPropertyIsAbsent
                && r->Err_0->ConfigPropertyIsAbsent_0@ == name@,
        },
{
    match o {
        Some(s) => Ok(s.as_str()),
        None => Err(Error::ConfigPropertyIsAbsent(name)),
    }
}

/// The text of `o`, where there is one.
fn optional<'a>(o: &'a Option<String>) -> (r: Option<&'a str>)
    ensures
        match o {
            Some(s) => r is Some && r->Some_0@ == s@,
            None => r is None,
        },
{
    match o {
        Some(s) => Some(s.as_str()),
        None => None,
    }
}

/// The paths of the vault.
#[derive(Debug)]
pub struct VaultConfig {
    /// The root directory of the notes.
    pub root: Option<String>,
    /// The directory of the attached files.
    pub files_path: Option<String>,
    /// The directory of the daily notes.
    pub daily_path: Option<String>,
    /// The base directory.
    pub base_path: Option<String>,
    /// The templates directory.
    pub templates_path: Option<String>,
}

/// The vault paths, as text.
pub struct VaultView {
    pub root: Option<Seq<char>>,
    pub files_path: Option<Seq<char>>,
    pub daily_path: Option<Seq<char>>,
    pub base_path: Option<Seq<char>>,
    pub templates_path: Option<Seq<char>>,
}

impl View for VaultConfig {
    type V = VaultView;

    open spec fn view(&self) -> VaultView {
        VaultView {
            root: opt(self.root),
            files_path: opt(self.files_path),
            daily_path: opt(self.daily_path),
            base_path: opt(self.base_path),
            templates_path: opt(self.templates_path),
        }
    }
}

impl VaultConfig {
    /// No path set.
    pub fn new() -> (r: VaultConfig)
        ensures
            r.root is None && r.files_path is None && r.daily_path is None && r.base_path is None
                && r.templates_path is None,
    {
        VaultConfig {
            root: None,
            files_path: None,
            daily_path: None,
            base_path: None,
            templates_path: None,
        }
    }

    /// The root path of the notes.
    pub fn root_path(&self) -> (r: Result<&str, Error>)
        ensures
            match self.root {
                Some(s) => r is Ok && r->Ok_0@ == s@,
                None => r is Err && r->Err_0 is ConfigPropertyIsAbsent
                    && r->Err_0->ConfigPropertyIsAbsent_0@ == "vault.root"@,
            },
    {
        present(&self.root, "vault.root")
    }

    /// The path of the attached files.
    pub fn files_path(&self) -> (r: Result<&str, Error>)
        ensures
            match self.files_path {
                Some(s) => r is Ok && r->Ok_0@ == s@,
                None => r is Err && r->Err_0 is ConfigPropertyIsAbsent
                    && r->Err_0->ConfigPropertyIsAbsent_0@ == "vault.files"@,
            },
    {
        present(&self.files_path, "vault.files")
    }

    /// The path of the daily notes.
    pub fn daily_path(&self) -> (r: Result<&str, Error>)
        ensures
            match self.daily_path {
                Some(s) => r is Ok && r->Ok_0@ == s@,
                None => r is Err && r->Err_0 is ConfigPropertyIsAbsent
                    && r->Err_0->ConfigPropertyIsAbsent_0@ == "vault.daily"@,
            },
    {
        present(&self.daily_path, "vault.daily")
    }

    /// The base path.
    pub fn base_path(&self) -> (r: Result<&str, Error>)
        ensures
            match self.base_path {
                Some(s) => r is Ok && r->Ok_0@ == s@,
                None => r is Err && r->Err_0 is ConfigPropertyIsAbsent
                    && r->Err_0->ConfigPropertyIsAbsent_0@ == "vault.base"@,
            },
    {
        present(&self.base_path, "vault.base")
    }

    /// The templates path.
    pub fn templates_path(&self) -> (r: Result<&str, Error>)
        ensures
            match self.templates_path {
                Some(s) => r is Ok && r->Ok_0@ == s@,
                None => r is Err && r->Err_0 is ConfigPropertyIsAbsent
                    && r->Err_0->ConfigPropertyIsAbsent_0@ == "vault.templates"@,
            },
    {
        present(&self.templates_path, "vault.templates")
    }
}

/// The property names of a note source's templates.
pub trait TemplatesDescriptor {
    /// The name of the property of the note file name template.
    spec fn filename_property() -> Seq<char>;

    /// The name of the property of the note content template.
    spec fn content_property() -> Seq<char>;

    /// The name of the property of the daily link template.
    spec fn dailyref_property() -> Seq<char>;

    /// The property of the note file name template.
    fn templates_filename_property() -> (r: &'static str)
        ensures
            r@ == Self::filename_property(),
    ;

    /// The property of the note content template.
    fn templates_content_property() -> (r: &'static str)
        ensures
            r@ == Self::content_property(),
    ;

    /// The property of the daily link template.
    fn templates_dailyref_property() -> (r: &'static str)
        ensures
            r@ == Self::dailyref_property(),
    ;
}

/// The templates of a note source.
#[derive(Debug)]
pub struct TemplatesConfig<T: TemplatesDescriptor> {
    /// The note file name template.
    pub filename: String,
    /// The note content template name.
    pub content: Option<String>,
    /// The daily link template name.
    pub dailyref: Option<String>,
    /// The source the templates belong to.
    pub descriptor: PhantomData<T>,
}

/// The templates, as text.
pub struct TemplatesView {
    pub filename: Seq<char>,
    pub content: Option<Seq<char>>,
    pub dailyref: Option<Seq<char>>,
}

impl<T: TemplatesDescriptor> View for TemplatesConfig<T> {
    type V = TemplatesView;

    open spec fn view(&self) -> TemplatesView {
        TemplatesView {
            filename: self.filename@,
            content: opt(self.content),
            dailyref: opt(self.dailyref),
        }
    }
}

impl<T: TemplatesDescriptor> TemplatesConfig<T> {
    /// An empty file name template and no other template.
    pub fn new() -> (r: TemplatesConfig<T>)
        ensures
            r.filename@.len() == 0 && r.content is None && r.dailyref is None,
    {
        TemplatesConfig {
            filename: String::new(),
            content: None,
            dailyref: None,
            descriptor: PhantomData,
        }
    }

    /// The note file name template.
    pub fn filename(&self) -> (r: &str)
        ensures
            r@ == self.filename@,
    {
        self.filename.as_str()
    }

    /// The note content template name.
    pub fn content(&self) -> (r: Result<&str, Error>)
        ensures
            match self.content {
                Some(s) => r is Ok && r->Ok_0@ == s@,
                None => r is Err && r->Err_0 is ConfigPropertyIsAbsent
                    && r->Err_0->ConfigPropertyIsAbsent_0@ == T::content_property(),
            },
    {
        present(&self.content, T::templates_content_property())
    }

    /// The daily link template name.
    pub fn dailyref(&self) -> (r: Result<&str, Error>)
        ensures
            match self.dailyref {
                Some(s) => r is Ok && r->Ok_0@ == s@,
                None => r is Err && r->Err_0 is ConfigPropertyIsAbsent
                    && r->Err_0->ConfigPropertyIsAbsent_0@ == T::dailyref_property(),
            },
    {
        present(&self.dailyref, T::templates_dailyref_property())
    }
}


/// The picture-of-the-day notes.
#[derive(Debug)]
pub struct APoDConfig {
    /// Where the notes are written.
    pub path: Option<String>,
    /// The key of the service.
    pub key: Option<String>,
    /// The version of the service.
    pub version: Version,
    /// The note banner.
    pub banner: Option<String>,
    /// The daily link prefix.
    pub prefix: Option<String>,
    /// The daily link goes after this text.
    pub marker: Option<String>,
    /// The icon.
    pub icon: Option<String>,
    /// The templates.
    pub templates: TemplatesConfig<APoDTemplates>,
}

/// The template properties of the picture-of-the-day notes.
#[derive(Debug, Clone, Copy)]
pub struct APoDTemplates;

impl TemplatesDescriptor for APoDTemplates {
    open spec fn filename_property() -> Seq<char> {
        "apod.templates.filename"@
    }

    open spec fn content_property() -> Seq<char> {
        "apod.templates.content"@
    }

    open spec fn dailyref_property() -> Seq<char> {
        "apod.templates.dailyref"@
    }

    fn templates_filename_property() -> &'static str {
        "apod.templates.filename"
    }

    fn templates_content_property() -> &'static str {
        "apod.templates.content"
    }

    fn templates_dailyref_property() -> &'static str {
        "apod.templates.dailyref"
    }
}

/// The picture-of-the-day settings, as text.
pub struct APoDView {
    pub path: Option<Seq<char>>,
    pub key: Option<Seq<char>>,
    pub version: Version,
    pub banner: Option<Seq<char>>,
    pub prefix: Option<Seq<char>>,
    pub marker: Option<Seq<char>>,
    pub icon: Option<Seq<char>>,
    pub templates: TemplatesView,
}

impl View for APoDConfig {
    type V = APoDView;

    open spec fn view(&self) -> APoDView {
        APoDView {
            path: opt(self.path),
            key: opt(self.key),
            version: self.version,
            banner: opt(self.banner),
            prefix: opt(self.prefix),
            marker: opt(self.marker),
            icon: opt(self.icon),
            templates: self.templates@,
        }
    }
}

impl APoDConfig {
    /// Nothing set, the first service version.
    pub fn new() -> (r: APoDConfig)
        ensures
            r.path is None && r.key is None && r.version == Version::V1_0 && r.banner is None
                && r.prefix is None && r.marker is None && r.icon is None,
    {
        APoDConfig {
            path: None,
            key: None,
            version: Version::V1_0,
            banner: None,
            prefix: None,
            marker: None,
            icon: None,
            templates: TemplatesConfig::new(),
        }
    }

    /// Where the notes are written.
    pub fn path(&self) -> (r: Result<&str, Error>)
        ensures
            match self.path {
                Some(s) => r is Ok && r->Ok_0@ == s@,
                None => r is Err && r->Err_0 is ConfigPropertyIsAbsent
                    && r->Err_0->ConfigPropertyIsAbsent_0@ == "apod.path"@,
            },
    {
        present(&self.path, "apod.path")
    }

    /// The key of the service.
    pub fn api_key(&self) -> (r: Result<&str, Error>)
        ensures
            match self.key {
                Some(s) => r is Ok && r->Ok_0@ == s@,
                None => r is Err && r->Err_0 is ConfigPropertyIsAbsent
                    && r->Err_0->ConfigPropertyIsAbsent_0@ == "apod.key"@,
            },
    {
        present(&self.key, "apod.key")
    }

    /// The version of the service.
    pub fn api_version(&self) -> (r: Version)
        ensures
            r == self.version,
    {
        self.version
    }

    /// The note banner.
    pub fn banner(&self) -> (r: Option<&str>)
        ensures
            match self.banner {
                Some(s) => r is Some && r->Some_0@ == s@,
                None => r is None,
            },
    {
        optional(&self.banner)
    }

    /// The daily link prefix.
    pub fn prefix(&self) -> (r: Option<&str>)
        ensures
            match self.prefix {
                Some(s) => r is Some && r->Some_0@ == s@,
                None => r is None,
            },
    {
        optional(&self.prefix)
    }

    /// The daily link marker.
    pub fn marker(&self) -> (r: Option<&str>)
        ensures
            match self.marker {
                Some(s) => r is Some && r->Some_0@ == s@,
                None => r is None,
            },
    {
        optional(&self.marker)
    }

    /// The icon.
    pub fn icon(&self) -> (r: Option<&str>)
        ensures
            match self.icon {
                Some(s) => r is Some && r->Some_0@ == s@,
                None => r is None,
            },
    {
        optional(&self.icon)
    }

    /// The templates.
    pub fn templates(&self) -> (r: &TemplatesConfig<APoDTemplates>)
        ensures
            r@ == self.templates@,
    {
        &self.templates
    }
}

/// The weekly-newsletter notes.
#[derive(Debug)]
pub struct TWiRConfig {
    /// Where the notes are written.
    pub path: Option<String>,
    /// The note banner.
    pub banner: Option<String>,
    /// The daily link prefix.
    pub prefix: Option<String>,
    /// The daily link goes after this text.
    pub marker: Option<String>,
    /// The icon.
    pub icon: Option<String>,
}

/// The weekly-newsletter settings, as text.
pub struct TWiRView {
    pub path: Option<Seq<char>>,
    pub banner: Option<Seq<char>>,
    pub prefix: Option<Seq<char>>,
    pub marker: Option<Seq<char>>,
    pub icon: Option<Seq<char>>,
}

impl View for TWiRConfig {
    type V = TWiRView;

    open spec fn view(&self) -> TWiRView {
        TWiRView {
            path: opt(self.path),
            banner: opt(self.banner),
            prefix: opt(self.prefix),
            marker: opt(self.marker),
            icon: opt(self.icon),
        }
    }
}

impl TWiRConfig {
    /// Nothing set.
    pub fn new() -> (r: TWiRConfig)
        ensures
            r.path is None && r.banner is None && r.prefix is None && r.marker is None
                && r.icon is None,
    {
        TWiRConfig { path: None, banner: None, prefix: None, marker: None, icon: None }
    }

    /// Where the notes are written.
    pub fn path(&self) -> (r: Result<&str, Error>)
        ensures
            match self.path {
                Some(s) => r is Ok && r->Ok_0@ == s@,
                None => r is Err && r->Err_0 is ConfigPropertyIsAbsent
                    && r->Err_0->ConfigPropertyIsAbsent_0@ == "twir.path"@,
            },
    {
        present(&self.path, "twir.path")
    }

    /// The note banner.
    pub fn banner(&self) -> (r: Option<&str>)
        ensures
            match self.banner {
                Some(s) => r is Some && r->Some_0@ == s@,
                None => r is None,
            },
    {
        optional(&self.banner)
    }

    /// The daily link prefix.
    pub fn prefix(&self) -> (r: Option<&str>)
        ensures
            match self.prefix {
                Some(s) => r is Some && r->Some_0@ == s@,
                None => r is None,
            },
    {
        optional(&self.prefix)
    }

    /// The daily link marker.
    pub fn marker(&self) -> (r: Option<&str>)
        ensures
            match self.marker {
                Some(s) => r is Some && r->Some_0@ == s@,
                None => r is None,
            },
    {
        optional(&self.marker)
    }

    /// The icon.
    pub fn icon(&self) -> (r: Option<&str>)
        ensures
            match self.icon {
                Some(s) => r is Some && r->Some_0@ == s@,
                None => r is None,
            },
    {
        optional(&self.icon)
    }
}

/// A path and a file name prefix, as text.
pub struct SourceView {
    pub path: Option<Seq<char>>,
    pub prefix: Option<Seq<char>>,
}

/// The bookmark-service notes.
#[derive(Debug)]
pub struct RaindropConfig {
    /// Where the notes are written.
    pub path: Option<String>,
    /// The file name prefix.
    pub prefix: Option<String>,
}

impl View for RaindropConfig {
    type V = SourceView;

    open spec fn view(&self) -> SourceView {
        SourceView { path: opt(self.path), prefix: opt(self.prefix) }
    }
}

impl RaindropConfig {
    /// Nothing set.
    pub fn new() -> (r: RaindropConfig)
        ensures
            r.path is None && r.prefix is None,
    {
        RaindropConfig { path: None, prefix: None }
    }

    /// Where the notes are written.
    pub fn path(&self) -> (r: Result<&str, Error>)
        ensures
            match self.path {
                Some(s) => r is Ok && r->Ok_0@ == s@,
                None => r is Err && r->Err_0 is ConfigPropertyIsAbsent
                    && r->Err_0->ConfigPropertyIsAbsent_0@ == "raindrop.path"@,
            },
    {
        present(&self.path, "raindrop.path")
    }

    /// The file name prefix.
    pub fn prefix(&self) -> (r: Result<&str, Error>)
        ensures
            match self.prefix {
                Some(s) => r is Ok && r->Ok_0@ == s@,
                None => r is Err && r->Err_0 is ConfigPropertyIsAbsent
                    && r->Err_0->ConfigPropertyIsAbsent_0@ == "raindrop.prefix"@,
            },
    {
        present(&self.prefix, "raindrop.prefix")
    }
}

/// The read-later-service notes.
#[derive(Debug)]
pub struct OmnivoreConfig {
    /// Where the notes are written.
    pub path: Option<String>,
    /// The file name prefix.
    pub prefix: Option<String>,
}

impl View for OmnivoreConfig {
    type V = SourceView;

    open spec fn view(&self) -> SourceView {
        SourceView { path: opt(self.path), prefix: opt(self.prefix) }
    }
}

impl OmnivoreConfig {
    /// Nothing set.
    pub fn new() -> (r: OmnivoreConfig)
        ensures
            r.path is None && r.prefix is None,
    {
        OmnivoreConfig { path: None, prefix: None }
    }

    /// Where the notes are written.
    pub fn path(&self) -> (r: Result<&str, Error>)
        ensures
            match self.path {
                Some(s) => r is Ok && r->Ok_0@ == s@,
                None => r is Err && r->Err_0 is ConfigPropertyIsAbsent
                    && r->Err_0->ConfigPropertyIsAbsent_0@ == "omnivore.path"@,
            },
    {
        present(&self.path, "omnivore.path")
    }

    /// The file name prefix.
    pub fn prefix(&self) -> (r: Result<&str, Error>)
        ensures
            match self.prefix {
                Some(s) => r is Ok && r->Ok_0@ == s@,
                None => r is Err && r->Err_0 is ConfigPropertyIsAbsent
                    && r->Err_0->ConfigPropertyIsAbsent_0@ == "omnivore.prefix"@,
            },
    {
        present(&self.prefix, "omnivore.prefix")
    }
}


/// The lower-case form of a text.
pub uninterp spec fn lower_of(s: Seq<char>) -> Seq<char>;

/// Relies on `str::to_lowercase`: the result depends on the characters alone.
#[verifier::external_body]
fn lowercase(s: &str) -> (r: String)
    ensures
        r@ == lower_of(s@),
{
    s.to_lowercase()
}

/// The application configuration.
#[derive(Debug)]
pub struct Config {
    /// The configuration file.
    pub config_file: String,
    /// The log file.
    pub log_file: String,
    /// The vault paths.
    pub vault_config: VaultConfig,
    /// The picture-of-the-day notes.
    pub apod_config: APoDConfig,
    /// The weekly-newsletter notes.
    pub twir_config: TWiRConfig,
    /// The bookmark-service notes.
    pub raindrop_config: RaindropConfig,
    /// The read-later-service notes.
    pub omnivore_config: OmnivoreConfig,
}

/// The configuration, as text.
pub struct ConfigView {
    pub config_file: Seq<char>,
    pub log_file: Seq<char>,
    pub vault: VaultView,
    pub apod: APoDView,
    pub twir: TWiRView,
    pub raindrop: SourceView,
    pub omnivore: SourceView,
}

impl View for Config {
    type V = ConfigView;

    open spec fn view(&self) -> ConfigView {
        ConfigView {
            config_file: self.config_file@,
            log_file: self.log_file@,
            vault: self.vault_config@,
            apod: self.apod_config@,
            twir: self.twir_config@,
            raindrop: self.raindrop_config@,
            omnivore: self.omnivore_config@,
        }
    }
}

/// The configuration after the property `key` is set to `value`; `None` where the
/// key is not known, or the version property gets a value other than `v1` in any case.
pub open spec fn with_property(c: ConfigView, key: Seq<char>, value: Seq<char>) -> Option<
    ConfigView,
> {
    let v = Some(value);
    if key == "vault.root"@ {
        Some(ConfigView { vault: VaultView { root: v, ..c.vault }, ..c })
    } else if key == "vault.files"@ {
        Some(ConfigView { vault: VaultView { files_path: v, ..c.vault }, ..c })
    } else if key == "vault.daily"@ {
        Some(ConfigView { vault: VaultView { daily_path: v, ..c.vault }, ..c })
    } else if key == "vault.base"@ {
        Some(ConfigView { vault: VaultView { base_path: v, ..c.vault }, ..c })
    } else if key == "vault.templates"@ {
        Some(ConfigView { vault: VaultView { templates_path: v, ..c.vault }, ..c })
    } else if key == "apod.path"@ {
        Some(ConfigView { apod: APoDView { path: v, ..c.apod }, ..c })
    } else if key == "apod.key"@ {
        Some(ConfigView { apod: APoDView { key: v, ..c.apod }, ..c })
    } else if key == "apod.version"@ {
        if lower_of(value) == "v1"@ {
            Some(ConfigView { apod: APoDView { version: Version::V1_0, ..c.apod }, ..c })
        } else {
            None
        }
    } else if key == "apod.banner"@ {
        Some(ConfigView { apod: APoDView { banner: v, ..c.apod }, ..c })
    } else if key == "apod.prefix"@ {
        Some(ConfigView { apod: APoDView { prefix: v, ..c.apod }, ..c })
    } else if key == "apod.marker"@ {
        Some(ConfigView { apod: APoDView { marker: v, ..c.apod }, ..c })
    } else if key == "apod.icon"@ {
        Some(ConfigView { apod: APoDView { icon: v, ..c.apod }, ..c })
    } else if key == "apod.templates.filename"@ {
        Some(
            ConfigView {
                apod: APoDView {
                    templates: TemplatesView { filename: value, ..c.apod.templates },
                    ..c.apod
                },
                ..c
            },
        )
    } else if key == "apod.templates.content"@ {
        Some(
            ConfigView {
                apod: APoDView {
                    templates: TemplatesView { content: v, ..c.apod.templates },
                    ..c.apod
                },
                ..c
            },
        )
    } else if key == "apod.templates.dailyref"@ {
        Some(
            ConfigView {
                apod: APoDView {
                    templates: TemplatesView { dailyref: v, ..c.apod.templates },
                    ..c.apod
                },
                ..c
            },
        )
    } else if key == "twir.path"@ {
        Some(ConfigView { twir: TWiRView { path: v, ..c.twir }, ..c })
    } else if key == "twir.banner"@ {
        Some(ConfigView { twir: TWiRView { banner: v, ..c.twir }, ..c })
    } else if key == "twir.prefix"@ {
        Some(ConfigView { twir: TWiRView { prefix: v, ..c.twir }, ..c })
    } else if key == "twir.marker"@ {
        Some(ConfigView { twir: TWiRView { marker: v, ..c.twir }, ..c })
    } else if key == "twir.icon"@ {
        Some(ConfigView { twir: TWiRView { icon: v, ..c.twir }, ..c })
    } else if key == "raindrop.path"@ {
        Some(ConfigView { raindrop: SourceView { path: v, ..c.raindrop }, ..c })
    } else if key == "raindrop.prefix"@ {
        Some(ConfigView { raindrop: SourceView { prefix: v, ..c.raindrop }, ..c })
    } else if key == "omnivore.path"@ {
        Some(ConfigView { omnivore: SourceView { path: v, ..c.omnivore }, ..c })
    } else if key == "omnivore.prefix"@ {
        Some(ConfigView { omnivore: SourceView { prefix: v, ..c.omnivore }, ..c })
    } else {
        None
    }
}

/// The key is one of the configuration properties.
pub open spec fn is_property(key: Seq<char>) -> bool {
    with_property(
        ConfigView {
            config_file: Seq::empty(),
            log_file: Seq::empty(),
            vault: VaultView {
                root: None,
                files_path: None,
                daily_path: None,
                base_path: None,
                templates_path: None,
            },
            apod: APoDView {
                path: None,
                key: None,
                version: Version::V1_0,
                banner: None,
                prefix: None,
                marker: None,
                icon: None,
                templates: TemplatesView { filename: Seq::empty(), content: None, dailyref: None },
            },
            twir: TWiRView { path: None, banner: None, prefix: None, marker: None, icon: None },
            raindrop: SourceView { path: None, prefix: None },
            omnivore: SourceView { path: None, prefix: None },
        },
        key,
        "v1"@,
    ) is Some
}

/// `a` joined with the relative path `b`, with a `/` between them where `a` does not
/// end with one.
pub open spec fn join_path(a: Seq<char>, b: Seq<char>) -> Seq<char> {
    if a.len() == 0 || a.last() == '/' {
        a + b
    } else {
        a + seq!['/'] + b
    }
}

impl Config {
    /// The configuration kept in `config_file` and logging to `log_file`, with
    /// nothing else set.
    pub fn new(config_file: String, log_file: String) -> (r: Config)
        ensures
            r.config_file@ == config_file@,
            r.log_file@ == log_file@,
            r.vault_config.root is None,
            r.raindrop_config.path is None,
    {
        Config {
            config_file,
            log_file,
            vault_config: VaultConfig::new(),
            apod_config: APoDConfig::new(),
            twir_config: TWiRConfig::new(),
            raindrop_config: RaindropConfig::new(),
            omnivore_config: OmnivoreConfig::new(),
        }
    }

    /// The configuration read from the file, completed: it keeps the file names of
    /// `self`, and the bookmark notes go to `Base` under the vault root unless a path
    /// is set for them. Fails with `VaultRootIsAbsent` where no vault root is set.
    pub fn complete(self, read: Config) -> (r: Result<Config, Error>)
        ensures
            read.vault_config.root is None ==> r is Err && r->Err_0 is VaultRootIsAbsent,
            read.vault_config.root is Some ==> r is Ok && r->Ok_0@ == (ConfigView {
                config_file: self.config_file@,
                log_file: self.log_file@,
                raindrop: SourceView {
                    path: Some(
                        match read.raindrop_config.path {
                            Some(p) => p@,
                            None => join_path(read.vault_config.root->0@, "Base"@),
                        },
                    ),
                    ..read@.raindrop
                },
                ..read@
            }),
    {
        let mut config = read;
        config.config_file = self.config_file;
        config.log_file = self.log_file;
        let root = match &config.vault_config.root {
            Some(root) => crate::text::chars_of(root.as_str()),
            None => return Err(Error::VaultRootIsAbsent),
        };
        if config.raindrop_config.path.is_none() {
            let ghost r0 = root@;
            let mut p = root;
            if p.len() > 0 && p[p.len() - 1] != '/' {
                p.push('/');
            }
            crate::text::push_str(&mut p, "Base");
            assert(p@ == join_path(r0, "Base"@));
            config.raindrop_config.path = Some(crate::text::string_of(p.as_slice()));
        }
        Ok(config)
    }

    /// The configuration file.
    pub fn config_file(&self) -> (r: &str)
        ensures
            r@ == self.config_file@,
    {
        self.config_file.as_str()
    }

    /// The log file.
    pub fn log_file(&self) -> (r: &str)
        ensures
            r@ == self.log_file@,
    {
        self.log_file.as_str()
    }

    /// The vault paths.
    pub fn vault(&self) -> (r: &VaultConfig)
        ensures
            r@ == self.vault_config@,
    {
        &self.vault_config
    }

    /// The picture-of-the-day settings.
    pub fn apod(&self) -> (r: &APoDConfig)
        ensures
            r@ == self.apod_config@,
    {
        &self.apod_config
    }

    /// The weekly-newsletter settings.
    pub fn twir(&self) -> (r: &TWiRConfig)
        ensures
            r@ == self.twir_config@,
    {
        &self.twir_config
    }

    /// The bookmark-service settings.
    pub fn raindrop(&self) -> (r: &RaindropConfig)
        ensures
            r@ == self.raindrop_config@,
    {
        &self.raindrop_config
    }

    /// The read-later-service settings.
    pub fn omnivore(&self) -> (r: &OmnivoreConfig)
        ensures
            r@ == self.omnivore_config@,
    {
        &self.omnivore_config
    }

    /// Sets the property `key` to `value`, as [`with_property`] describes.
    ///
    /// Fails with `IllegalConfValue` where the version property gets a value other
    /// than `v1`, and with `IllegalConfKey` where the key is not known; then nothing
    /// changes.
    #[verifier::spinoff_prover]
    #[verifier::rlimit(40)]
    pub fn set(&mut self, key: &str, value: &str) -> (r: Result<(), Error>)
        ensures
            match with_property(old(self)@, key@, value@) {
                Some(c) => r is Ok && final(self)@ == c,
                None => r is Err && final(self)@ == old(self)@ && if key@ == "apod.version"@ {
                    r->Err_0 is IllegalConfValue && r->Err_0->IllegalConfValue_0@ == value@
                } else {
                    r->Err_0 is IllegalConfKey && r->Err_0->IllegalConfKey_0@ == key@
                },
            },
    {
        let v = Some(owned(value));
        if same_text(key, "vault.root") {
            self.vault_config.root = v;
        } else if same_text(key, "vault.files") {
            self.vault_config.files_path = v;
        } else if same_text(key, "vault.daily") {
            self.vault_config.daily_path = v;
        } else if same_text(key, "vault.base") {
            self.vault_config.base_path = v;
        } else if same_text(key, "vault.templates") {
            self.vault_config.templates_path = v;
        } else if same_text(key, "apod.path") {
            self.apod_config.path = v;
        } else if same_text(key, "apod.key") {
            self.apod_config.key = v;
        } else if same_text(key, "apod.version") {
            let lower = lowercase(value);
            match Version::from_lowered(lower.as_str()) {
                Some(version) => self.apod_config.version = version,
                None => return Err(Error::IllegalConfValue(owned(value))),
            }
        } else if same_text(key, "apod.banner") {
            self.apod_config.banner = v;
        } else if same_text(key, "apod.prefix") {
            self.apod_config.prefix = v;
        } else if same_text(key, "apod.marker") {
            self.apod_config.marker = v;
        } else if same_text(key, "apod.icon") {
            self.apod_config.icon = v;
        } else if same_text(key, "apod.templates.filename") {
            self.apod_config.templates.filename = owned(value);
        } else if same_text(key, "apod.templates.content") {
            self.apod_config.templates.content = v;
        } else if same_text(key, "apod.templates.dailyref") {
            self.apod_config.templates.dailyref = v;
        } else if same_text(key, "twir.path") {
            self.twir_config.path = v;
        } else if same_text(key, "twir.banner") {
            self.twir_config.banner = v;
        } else if same_text(key, "twir.prefix") {
            self.twir_config.prefix = v;
        } else if same_text(key, "twir.marker") {
            self.twir_config.marker = v;
        } else if same_text(key, "twir.icon") {
            self.twir_config.icon = v;
        } else if same_text(key, "raindrop.path") {
            self.raindrop_config.path = v;
        } else if same_text(key, "raindrop.prefix") {
            self.raindrop_config.prefix = v;
        } else if same_text(key, "omnivore.path") {
            self.omnivore_config.path = v;
        } else if same_text(key, "omnivore.prefix") {
            self.omnivore_config.prefix = v;
        } else {
            return Err(Error::IllegalConfKey(owned(key)));
        }
        Ok(())
    }
}

} // verus!

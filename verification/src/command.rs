//! Commands of the font manager and the validation of an install request.
//!
//! A raw request may name an aggregator font, a local archive and a remote
//! archive all at once. [`validate_source`] turns it into an
//! [`InstallSource`], which names exactly one of them, or refuses it.

use vstd::prelude::*;
use vstd::string::*;
use crate::errors::{FontError, FontErrorView};
use crate::files::ExtractOptions;
use crate::nerd::{contains, in_catalog};

verus! {

/// Refusal text: the request selects no source or more than one.
pub const ONE_SOURCE: &'static str = "exactly one source must be selected";

/// Refusal text: the aggregator is selected and no font is named.
pub const NAME_REQUIRED: &'static str = "aggregator name required";

/// Refusal text: a font is named and the aggregator is not selected.
pub const NAME_UNEXPECTED: &'static str = "aggregator name only valid with aggregator source";

/// Refusal text: the named font is not in the catalog.
pub const UNKNOWN_NAME: &'static str = "unknown aggregator font name";

/// What the font manager is asked to do.
#[derive(Debug)]
pub enum FontManager {
    /// Install the given font.
    Install(Install),
    /// Uninstall the given font name if it is installed.
    Uninstall(Uninstall),
}

/// A raw request to install a font, as the user wrote it.
#[derive(Debug)]
pub struct Install {
    /// Name of a font of the aggregator; excludes `path` and `url`.
    pub nerd: Option<String>,
    /// Location of a local archive; excludes `nerd` and `url`.
    pub path: Option<String>,
    /// Address of a remote archive; excludes `nerd` and `path`.
    pub url: Option<String>,
    /// Whether the archive is removed after the extraction.
    pub delete_zip: bool,
    /// Whether `.otf` files are installed in place of `.ttf` files.
    pub use_otf: bool,
    /// Whether the user is asked about each file.
    pub interactive: bool,
}

/// A request to remove an installed font.
#[derive(Debug)]
pub struct Uninstall {
    /// Catalog name of an aggregator font, or the name of a font directory.
    pub name: String,
}

/// The one source that a validated install request names.
#[derive(Debug, PartialEq, Eq)]
pub enum InstallSource {
    /// A font of the aggregator, by its catalog name.
    AggregatorName(String),
    /// An archive on the local file system.
    LocalPath(String),
    /// An archive to fetch from this address.
    RemoteUrl(String),
}

/// The mathematical value of an [`InstallSource`].
pub enum InstallSourceView {
    AggregatorName(Seq<char>),
    LocalPath(Seq<char>),
    RemoteUrl(Seq<char>),
}

impl View for InstallSource {
    type V = InstallSourceView;

    open spec fn view(&self) -> InstallSourceView {
        match self {
            InstallSource::AggregatorName(name) => InstallSourceView::AggregatorName(name@),
            InstallSource::LocalPath(path) => InstallSourceView::LocalPath(path@),
            InstallSource::RemoteUrl(url) => InstallSourceView::RemoteUrl(url@),
        }
    }
}

/// The characters of an optional string.
pub open spec fn text_of(s: Option<String>) -> Option<Seq<char>> {
    match s {
        Some(text) => Some(text@),
        None => None,
    }
}

/// How many of the three sources a request selects.
pub open spec fn selected_count(aggregator: bool, has_path: bool, has_url: bool) -> nat {
    (if aggregator { 1nat } else { 0nat })
        + (if has_path { 1nat } else { 0nat })
        + (if has_url { 1nat } else { 0nat })
}

/// The outcome of validating a raw request.
///
/// The rules apply in this order: exactly one source is selected; the
/// aggregator needs a name; a name needs the aggregator; the name is in the
/// catalog.
pub open spec fn source_of(
    aggregator: bool,
    name: Option<Seq<char>>,
    path: Option<Seq<char>>,
    url: Option<Seq<char>>,
) -> Result<InstallSourceView, FontErrorView> {
    if selected_count(aggregator, path is Some, url is Some) != 1 {
        Err(FontErrorView::CommandError(ONE_SOURCE@))
    } else if aggregator && name is None {
        Err(FontErrorView::CommandError(NAME_REQUIRED@))
    } else if !aggregator && name is Some {
        Err(FontErrorView::CommandError(NAME_UNEXPECTED@))
    } else if name is Some && !in_catalog(name->0) {
        Err(FontErrorView::CommandError(UNKNOWN_NAME@))
    } else if aggregator {
        Ok(InstallSourceView::AggregatorName(name->0))
    } else if path is Some {
        Ok(InstallSourceView::LocalPath(path->0))
    } else {
        Ok(InstallSourceView::RemoteUrl(url->0))
    }
}

/// The mathematical value of a validation result.
pub open spec fn outcome_view(r: Result<InstallSource, FontError>) -> Result<
    InstallSourceView,
    FontErrorView,
> {
    match r {
        Ok(source) => Ok(source@),
        Err(e) => Err(e@),
    }
}

/// Validates a raw install request: the aggregator flag and the three
/// optional fields. Reads nothing but its arguments.
pub fn validate_source(
    aggregator: bool,
    name: &Option<String>,
    path: &Option<String>,
    url: &Option<String>,
) -> (r: Result<InstallSource, FontError>)
    ensures
        outcome_view(r) == source_of(aggregator, text_of(*name), text_of(*path), text_of(*url)),
{
    let mut selected: u8 = 0;
    if aggregator {
        selected = selected + 1;
    }
    if path.is_some() {
        selected = selected + 1;
    }
    if url.is_some() {
        selected = selected + 1;
    }
    if selected != 1 {
        return Err(FontError::CommandError(String::from_str(ONE_SOURCE)));
    }
    match name {
        None => {
            if aggregator {
                return Err(FontError::CommandError(String::from_str(NAME_REQUIRED)));
            }
        },
        Some(font) => {
            if !aggregator {
                return Err(FontError::CommandError(String::from_str(NAME_UNEXPECTED)));
            }
            if !contains(font.as_str()) {
                return Err(FontError::CommandError(String::from_str(UNKNOWN_NAME)));
            }
            return Ok(InstallSource::AggregatorName(font.clone()));
        },
    }
    match path {
        Some(location) => Ok(InstallSource::LocalPath(location.clone())),
        None => match url {
            Some(address) => Ok(InstallSource::RemoteUrl(address.clone())),
            None => Err(FontError::CommandError(String::from_str(ONE_SOURCE))),
        },
    }
}

impl Install {
    /// A request that names no source, with the default options.
    pub fn new() -> (install: Install)
        ensures
            install.nerd is None,
            install.path is None,
            install.url is None,
            install.delete_zip,
            !install.use_otf,
            !install.interactive,
    {
        Install {
            nerd: None,
            path: None,
            url: None,
            delete_zip: true,
            use_otf: false,
            interactive: false,
        }
    }

    /// The extraction options that this request carries.
    pub open spec fn options(&self) -> ExtractOptions {
        ExtractOptions {
            delete_zip: self.delete_zip,
            use_otf: self.use_otf,
            interactive: self.interactive,
        }
    }

    /// The extraction options that this request carries.
    pub fn extract_options(&self) -> (opts: ExtractOptions)
        ensures
            opts == self.options(),
    {
        ExtractOptions {
            delete_zip: self.delete_zip,
            use_otf: self.use_otf,
            interactive: self.interactive,
        }
    }

    /// The validation outcome of this request. The aggregator counts as
    /// selected exactly when a font is named.
    pub open spec fn outcome(&self) -> Result<InstallSourceView, FontErrorView> {
        source_of(self.nerd is Some, text_of(self.nerd), text_of(self.path), text_of(self.url))
    }

    /// The source that this request names, if it names exactly one and that
    /// one is valid.
    pub fn source(&self) -> (r: Result<InstallSource, FontError>)
        ensures
            outcome_view(r) == self.outcome(),
    {
        validate_source(self.nerd.is_some(), &self.nerd, &self.path, &self.url)
    }

    /// Checks that this request names exactly one source and that a named
    /// aggregator font is in the catalog.
    pub fn valid_command(&self) -> (r: Result<(), FontError>)
        ensures
            r is Ok <==> self.outcome() is Ok,
            r matches Err(e) ==> self.outcome() == Err::<InstallSourceView, FontErrorView>(e@),
    {
        match self.source() {
            Ok(_) => Ok(()),
            Err(e) => Err(e),
        }
    }
}

/// A request that selects no source, two sources or all three is refused.
pub proof fn lemma_exactly_one_source(
    aggregator: bool,
    name: Option<Seq<char>>,
    path: Option<Seq<char>>,
    url: Option<Seq<char>>,
)
    ensures
        selected_count(aggregator, path is Some, url is Some) != 1 ==> source_of(
            aggregator,
            name,
            path,
            url,
        ) == Err::<InstallSourceView, FontErrorView>(FontErrorView::CommandError(ONE_SOURCE@)),
        source_of(aggregator, name, path, url) is Ok ==> selected_count(
            aggregator,
            path is Some,
            url is Some,
        ) == 1,
{
}

/// A name outside the catalog is refused whatever else the request holds,
/// and a request for the aggregator alone is accepted for every name of the
/// catalog.
pub proof fn lemma_catalog_decides(
    aggregator: bool,
    name: Seq<char>,
    path: Option<Seq<char>>,
    url: Option<Seq<char>>,
)
    ensures
        !in_catalog(name) ==> source_of(aggregator, Some(name), path, url) is Err,
        in_catalog(name) ==> source_of(true, Some(name), None, None) == Ok::<
            InstallSourceView,
            FontErrorView,
        >(InstallSourceView::AggregatorName(name)),
{
}

} // verus!

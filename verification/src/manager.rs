//! What an install or uninstall request asks for, step by step: where the
//! archive comes from, which font directory it concerns, and whether an
//! extraction counts as an installation.

use vstd::prelude::*;
use vstd::string::*;
use crate::command::{FontManager, InstallSource, InstallSourceView};
use crate::errors::{FontError, FontErrorView};
use crate::files::paths::{
    archive_font_name, download_path, download_path_of, font_name_of,
};
use crate::files::ExtractOptions;
use crate::nerd::{
    archive_url, archive_url_of, contains, font_dir_name, font_dir_name_of, in_catalog,
    NERD_ARCHIVE,
};

verus! {

/// How a validated install request is carried out.
#[derive(Debug)]
pub struct InstallPlan {
    /// The address that the archive is fetched from, unless it is local.
    pub download: Option<String>,
    /// The file that holds the archive, or will hold it once fetched.
    pub archive: String,
    /// The name of the font directory that the archive is extracted into.
    pub font_name: String,
    /// The options of the extraction.
    pub opts: ExtractOptions,
}

/// The mathematical value of an [`InstallPlan`].
pub struct InstallPlanView {
    pub download: Option<Seq<char>>,
    pub archive: Seq<char>,
    pub font_name: Seq<char>,
    pub opts: ExtractOptions,
}

impl View for InstallPlan {
    type V = InstallPlanView;

    open spec fn view(&self) -> InstallPlanView {
        InstallPlanView {
            download: match self.download {
                Some(url) => Some(url@),
                None => None,
            },
            archive: self.archive@,
            font_name: self.font_name@,
            opts: self.opts,
        }
    }
}

/// What the caller of [`manage_font`] has to carry out.
#[derive(Debug)]
pub enum Task {
    /// Fetch the archive if need be, extract it, and count what was
    /// installed.
    Install(InstallPlan),
    /// Remove the font directory `font_name`.
    Uninstall { font_name: String },
}

/// The mathematical value of a [`Task`].
pub enum TaskView {
    Install(InstallPlanView),
    Uninstall { font_name: Seq<char> },
}

impl View for Task {
    type V = TaskView;

    open spec fn view(&self) -> TaskView {
        match self {
            Task::Install(plan) => TaskView::Install(plan@),
            Task::Uninstall { font_name } => TaskView::Uninstall { font_name: font_name@ },
        }
    }
}

/// The plan for a font of the aggregator: its archive is fetched into a
/// file of a fixed name and always removed after the extraction, and its
/// directory is the catalog name with the suffix.
pub open spec fn nerd_plan_of(font: Seq<char>, opts: ExtractOptions) -> InstallPlanView {
    InstallPlanView {
        download: Some(archive_url_of(font)),
        archive: NERD_ARCHIVE@,
        font_name: font_dir_name_of(font),
        opts: ExtractOptions { delete_zip: true, ..opts },
    }
}

/// The plan for a remote archive: it is fetched into a file named after
/// the last segment of its address, and its directory is that file's base
/// name without the extension.
pub open spec fn url_plan_of(url: Seq<char>, opts: ExtractOptions) -> Option<InstallPlanView> {
    match font_name_of(download_path_of(url)) {
        Some(font_name) => Some(
            InstallPlanView {
                download: Some(url),
                archive: download_path_of(url),
                font_name,
                opts,
            },
        ),
        None => None,
    }
}

/// The plan for a local archive: its directory is the archive's base name
/// without the extension.
pub open spec fn file_plan_of(path: Seq<char>, opts: ExtractOptions) -> Option<InstallPlanView> {
    match font_name_of(path) {
        Some(font_name) => Some(
            InstallPlanView { download: None, archive: path, font_name, opts },
        ),
        None => None,
    }
}

/// The plan for a validated source.
pub open spec fn install_plan_of(source: InstallSourceView, opts: ExtractOptions) -> Option<
    InstallPlanView,
> {
    match source {
        InstallSourceView::AggregatorName(font) => Some(nerd_plan_of(font, opts)),
        InstallSourceView::LocalPath(path) => file_plan_of(path, opts),
        InstallSourceView::RemoteUrl(url) => url_plan_of(url, opts),
    }
}

/// The name of the directory that uninstalling `name` removes: for a name
/// of the catalog the directory of that aggregator font, for any other
/// name the directory of that name.
pub open spec fn uninstall_dir_of(name: Seq<char>) -> Seq<char> {
    if in_catalog(name) {
        font_dir_name_of(name)
    } else {
        name
    }
}

/// Plans the installation of the aggregator font `font`.
pub fn install_nerd(font: &str, opts: ExtractOptions) -> (plan: InstallPlan)
    ensures
        plan@ == nerd_plan_of(font@, opts),
{
    InstallPlan {
        download: Some(archive_url(font)),
        archive: String::from_str(NERD_ARCHIVE),
        font_name: font_dir_name(font),
        opts: ExtractOptions {
            delete_zip: true,
            use_otf: opts.use_otf,
            interactive: opts.interactive,
        },
    }
}

/// Plans the installation of the archive at the address `url`. Fails with
/// `InvalidPath` where the address ends in no usable file name.
pub fn install_from_url(url: &str, opts: ExtractOptions) -> (r: Result<InstallPlan, FontError>)
    ensures
        match url_plan_of(url@, opts) {
            Some(plan) => r matches Ok(p) && p@ == plan,
            None => r matches Err(e) && e@ == FontErrorView::InvalidPath,
        },
{
    let archive = download_path(url);
    match archive_font_name(archive.as_str()) {
        Ok(font_name) => Ok(
            InstallPlan { download: Some(String::from_str(url)), archive, font_name, opts },
        ),
        Err(e) => Err(e),
    }
}

/// Plans the installation of the local archive at `path`. Fails with
/// `InvalidPath` where the path ends in no usable file name.
pub fn install_from_file(path: &str, opts: ExtractOptions) -> (r: Result<InstallPlan, FontError>)
    ensures
        match file_plan_of(path@, opts) {
            Some(plan) => r matches Ok(p) && p@ == plan,
            None => r matches Err(e) && e@ == FontErrorView::InvalidPath,
        },
{
    match archive_font_name(path) {
        Ok(font_name) => Ok(
            InstallPlan { download: None, archive: String::from_str(path), font_name, opts },
        ),
        Err(e) => Err(e),
    }
}

/// Plans the installation from a validated source.
pub fn plan_install(source: &InstallSource, opts: ExtractOptions) -> (r: Result<
    InstallPlan,
    FontError,
>)
    ensures
        match install_plan_of(source@, opts) {
            Some(plan) => r matches Ok(p) && p@ == plan,
            None => r matches Err(e) && e@ == FontErrorView::InvalidPath,
        },
{
    match source {
        InstallSource::AggregatorName(font) => Ok(install_nerd(font.as_str(), opts)),
        InstallSource::LocalPath(path) => install_from_file(path.as_str(), opts),
        InstallSource::RemoteUrl(url) => install_from_url(url.as_str(), opts),
    }
}

/// The name of the directory that uninstalling `name` removes.
pub fn uninstall(name: &str) -> (dir: String)
    ensures
        dir@ == uninstall_dir_of(name@),
{
    if contains(name) {
        font_dir_name(name)
    } else {
        String::from_str(name)
    }
}

/// What a command asks for. An install request is validated first: one
/// that names no source, several sources or an unknown font is refused
/// with the validator's error, before anything is fetched or written.
pub fn manage_font(command: &FontManager) -> (r: Result<Task, FontError>)
    ensures
        match *command {
            FontManager::Install(install) => match install.outcome() {
                Err(e) => r matches Err(f) && f@ == e,
                Ok(source) => match install_plan_of(source, install.options()) {
                    Some(plan) => r matches Ok(task) && task@ == TaskView::Install(plan),
                    None => r matches Err(f) && f@ == FontErrorView::InvalidPath,
                },
            },
            FontManager::Uninstall(uninstall) => r matches Ok(task) && task@
                == (TaskView::Uninstall { font_name: uninstall_dir_of(uninstall.name@) }),
        },
{
    match command {
        FontManager::Install(install) => {
            let source = match install.source() {
                Ok(source) => source,
                Err(e) => {
                    return Err(e);
                },
            };
            match plan_install(&source, install.extract_options()) {
                Ok(plan) => Ok(Task::Install(plan)),
                Err(e) => Err(e),
            }
        },
        FontManager::Uninstall(request) => Ok(
            Task::Uninstall { font_name: uninstall(request.name.as_str()) },
        ),
    }
}

/// Interprets the number of entries that an extraction installed: none is
/// a failure, `FontsIgnored`; any other number is a success, after which
/// the font cache is to be refreshed.
pub fn manage_installed(installed: u32) -> (r: Result<(), FontError>)
    ensures
        installed == 0 <==> r is Err,
        r matches Err(e) ==> e@ == FontErrorView::FontsIgnored,
{
    match installed {
        0 => Err(FontError::FontsIgnored),
        _ => Ok(()),
    }
}

} // verus!

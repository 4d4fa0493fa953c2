//! The catalog of fonts that the aggregator offers, and how a catalog name
//! maps to a download address and to a font directory.

use vstd::prelude::*;
use vstd::string::*;
use crate::text::str_equal;

verus! {

/// Address under which the aggregator publishes one archive per font.
pub const NERD_URL: &'static str =
    "https://github.com/ryanoasis/nerd-fonts/releases/download/v3.2.1/";

/// Ending of the archive's name at the aggregator.
pub const NERD_EXTENSION: &'static str = ".zip";

/// Appended to a catalog name to form the name of the font's directory.
pub const NERD_SUFFIX: &'static str = "NerdFont";

/// Name of the file that a downloaded aggregator archive is kept in.
pub const NERD_ARCHIVE: &'static str = "font.zip";

/// The names under which the aggregator offers fonts.
pub const VALID_FONTS: [&'static str; 50] = [
    "3270",
    "Agave",
    "AnonymousPro",
    "Arimo",
    "AurulentSansMono",
    "BigBlueTerminal",
    "BitstreamVeraSansMono",
    "CascadiaCode",
    "CodeNewRoman",
    "Cousine",
    "DaddyTimeMono",
    "DejaVuSansMono",
    "DroidSansMono",
    "FantasqueSansMono",
    "FiraCode",
    "FiraMono",
    "Go-Mono",
    "Gohu",
    "Hack",
    "Hasklig",
    "HeavyData",
    "Hermit",
    "iA-Writer",
    "IBMPlexMono",
    "Inconsolata",
    "InconsolataGo",
    "InconsolataLGC",
    "Iosevka",
    "JetBrainsMono",
    "Lekton",
    "LiberationMono",
    "Meslo",
    "Monofur",
    "Monoid",
    "Mononoki",
    "MPlus",
    "Noto",
    "OpenDyslexic",
    "Overpass",
    "ProFont",
    "ProggyClean",
    "RobotoMono",
    "ShareTechMono",
    "SourceCodePro",
    "SpaceMono",
    "Terminus",
    "Tinos",
    "Ubuntu",
    "UbuntuMono",
    "VictorMono",
];

/// `name` is one of the catalog's names.
pub open spec fn in_catalog(name: Seq<char>) -> bool {
    exists|i: int| 0 <= i < VALID_FONTS@.len() && (#[trigger] VALID_FONTS@[i])@ == name
}

/// The address of the archive of the catalog font `name`.
pub open spec fn archive_url_of(name: Seq<char>) -> Seq<char> {
    NERD_URL@ + name + NERD_EXTENSION@
}

/// The name of the directory that the catalog font `name` is installed in.
pub open spec fn font_dir_name_of(name: Seq<char>) -> Seq<char> {
    name + NERD_SUFFIX@
}

/// Whether the catalog holds `name`.
pub fn contains(name: &str) -> (r: bool)
    ensures
        r == in_catalog(name@),
{
    let mut i: usize = 0;
    while i < VALID_FONTS.len()
        invariant
            i <= VALID_FONTS@.len(),
            forall|j: int| 0 <= j < i ==> (#[trigger] VALID_FONTS@[j])@ != name@,
        decreases VALID_FONTS@.len() - i,
    {
        if str_equal(VALID_FONTS[i], name) {
            return true;
        }
        i = i + 1;
    }
    false
}

/// The address from which the archive of the catalog font `name` is fetched.
pub fn archive_url(name: &str) -> (url: String)
    ensures
        url@ == archive_url_of(name@),
{
    let mut url = String::from_str(NERD_URL);
    url.append(name);
    url.append(NERD_EXTENSION);
    url
}

/// The name of the directory that the catalog font `name` is installed in.
pub fn font_dir_name(name: &str) -> (dir: String)
    ensures
        dir@ == font_dir_name_of(name@),
{
    let mut dir = String::from_str(name);
    dir.append(NERD_SUFFIX);
    dir
}

} // verus!

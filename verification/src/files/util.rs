//! The inclusion filter: which files of an archive are installed.

use vstd::prelude::*;
use vstd::string::*;
use super::ExtractOptions;
use super::paths::{in_ignored_subtree, is_in_ignored_subtree};
use crate::text::{chars_end_with, chars_of, ends_with, str_equal};

verus! {

/// Ending of the names of TrueType font files.
pub const TTF: &'static str = ".ttf";

/// Ending of the names of OpenType font files.
pub const OTF: &'static str = ".otf";

/// What the user answered when asked whether to install a file.
#[derive(Debug, Clone, Copy, PartialEq, Eq, Structural)]
pub enum Reply {
    /// One of `Y`, `y`, `Yes`, `yes`.
    Yes,
    /// One of `N`, `n`, `No`, `no`.
    No,
    /// Anything else: the question is asked again.
    Unrecognized,
}

/// `line` is an affirmative answer.
pub open spec fn affirmative(line: Seq<char>) -> bool {
    line == "Y"@ || line == "y"@ || line == "Yes"@ || line == "yes"@
}

/// `line` is a negative answer.
pub open spec fn negative(line: Seq<char>) -> bool {
    line == "N"@ || line == "n"@ || line == "No"@ || line == "no"@
}

/// The meaning of an answer.
pub open spec fn reply_of(line: Seq<char>) -> Reply {
    if affirmative(line) {
        Reply::Yes
    } else if negative(line) {
        Reply::No
    } else {
        Reply::Unrecognized
    }
}

/// The file type that the options exclude: `.ttf` where OpenType is
/// preferred, `.otf` otherwise.
pub open spec fn excluded_ending(opts: ExtractOptions) -> Seq<char> {
    if opts.use_otf {
        TTF@
    } else {
        OTF@
    }
}

/// Whether the file `file_name`, whose place inside the font directory is
/// `rel`, is left out. A file below the ignored top-level directory always
/// is. In interactive mode, a file is left out unless the answer was
/// affirmative. Otherwise only the excluded file type is left out.
pub open spec fn ignored(
    opts: ExtractOptions,
    file_name: Seq<char>,
    rel: Seq<char>,
    reply: Reply,
) -> bool {
    if in_ignored_subtree(rel) {
        true
    } else if opts.interactive {
        reply != Reply::Yes
    } else {
        ends_with(file_name, excluded_ending(opts))
    }
}

/// The meaning of the answer `line`.
pub fn classify_reply(line: &str) -> (reply: Reply)
    ensures
        reply == reply_of(line@),
{
    if str_equal(line, "Y") || str_equal(line, "y") || str_equal(line, "Yes") || str_equal(
        line,
        "yes",
    ) {
        Reply::Yes
    } else if str_equal(line, "N") || str_equal(line, "n") || str_equal(line, "No") || str_equal(
        line,
        "no",
    ) {
        Reply::No
    } else {
        Reply::Unrecognized
    }
}

/// Whether the file `file_name`, whose place inside the font directory is
/// `rel`, is left out. `reply` is the user's answer for this file; it is
/// read in interactive mode only.
pub fn should_ignore(opts: ExtractOptions, file_name: &str, rel: &str, reply: Reply) -> (r: bool)
    ensures
        r == ignored(opts, file_name@, rel@, reply),
{
    if is_in_ignored_subtree(rel) {
        return true;
    }
    if opts.interactive {
        return match reply {
            Reply::Yes => false,
            _ => true,
        };
    }
    let name = chars_of(file_name);
    let ending = if opts.use_otf {
        chars_of(TTF)
    } else {
        chars_of(OTF)
    };
    chars_end_with(&name, &ending)
}

} // verus!

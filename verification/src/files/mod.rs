//! Extraction of a font archive into the font directory.
//!
//! The library decides; its caller writes. [`plan_entry`] says what becomes
//! of one archive entry. [`Extraction`] walks an archive entry by entry and
//! hands out one [`Action`] at a time: a directory to create, a file to
//! write, a question to put to the user, or the end of the walk with the
//! number of entries installed.

pub mod archive;
pub mod paths;
pub mod util;

use std::io::Cursor;
use vstd::prelude::*;
use vstd::string::*;
use zip::ZipArchive;
use crate::errors::ExtractError;
use crate::text::{chars_of, ends_with};
use archive::{
    archive_data, archive_entries, archive_len, archive_opens, archive_reads, open_archive,
    parsed_listing, read_entry, read_entry_data, ArchiveEntry, EntryView,
};
use paths::{
    contained, entry_path, entry_path_of, in_ignored_subtree, is_contained,
    is_in_ignored_subtree, lemma_entry_path_within, parent, parent_of, within,
};
use util::{classify_reply, ignored, reply_of, should_ignore, Reply};

verus! {

/// How an archive is extracted.
#[derive(Debug, Clone, Copy, PartialEq, Eq, Structural)]
pub struct ExtractOptions {
    /// Whether the archive is removed after the extraction.
    pub delete_zip: bool,
    /// Whether `.otf` files are installed in place of `.ttf` files.
    pub use_otf: bool,
    /// Whether the user is asked about each file.
    pub interactive: bool,
}

/// Why an entry is not installed.
#[derive(Debug, Clone, Copy, PartialEq, Eq, Structural)]
pub enum SkipReason {
    /// Its name is no relative path that stays inside the font directory.
    UnsafePath,
    /// It lies below the ignored top-level directory.
    IgnoredSubtree,
    /// The inclusion filter leaves it out.
    Filtered,
}

/// What becomes of one archive entry.
#[derive(Debug)]
pub enum EntryPlan {
    /// Nothing is written for it.
    Skip(SkipReason),
    /// It marks a directory, which is created at `path`.
    CreateDir { path: String },
    /// It is a file, which is written to `path`.
    WriteFile { path: String },
    /// It is a file, which is written to `path` if the user agrees.
    Ask { path: String },
}

/// The mathematical value of an [`EntryPlan`].
pub enum PlanView {
    Skip(SkipReason),
    CreateDir { path: Seq<char> },
    WriteFile { path: Seq<char> },
    Ask { path: Seq<char> },
}

impl View for EntryPlan {
    type V = PlanView;

    open spec fn view(&self) -> PlanView {
        match self {
            EntryPlan::Skip(reason) => PlanView::Skip(*reason),
            EntryPlan::CreateDir { path } => PlanView::CreateDir { path: path@ },
            EntryPlan::WriteFile { path } => PlanView::WriteFile { path: path@ },
            EntryPlan::Ask { path } => PlanView::Ask { path: path@ },
        }
    }
}

/// An entry name that marks a directory: it ends with `/`.
pub open spec fn is_dir_name(name: Seq<char>) -> bool {
    name.len() > 0 && name.last() == '/'
}

/// What becomes of the entry `entry` when it is extracted into the font
/// directory `dir` under the options `opts`.
///
/// An entry without an accepted relative path, or whose path does not stay
/// inside the directory, is skipped. So is one below the ignored top-level
/// directory, whatever the options. A directory marker is created. A file
/// is asked about in interactive mode; otherwise it is written unless it is
/// of the excluded file type.
pub open spec fn plan_of(entry: EntryView, dir: Seq<char>, opts: ExtractOptions) -> PlanView {
    match entry.enclosed {
        None => PlanView::Skip(SkipReason::UnsafePath),
        Some(rel) => {
            if !contained(rel) {
                PlanView::Skip(SkipReason::UnsafePath)
            } else if in_ignored_subtree(rel) {
                PlanView::Skip(SkipReason::IgnoredSubtree)
            } else if is_dir_name(entry.name) {
                PlanView::CreateDir { path: entry_path_of(dir, rel) }
            } else if opts.interactive {
                PlanView::Ask { path: entry_path_of(dir, rel) }
            } else if ignored(opts, entry.name, rel, Reply::Unrecognized) {
                PlanView::Skip(SkipReason::Filtered)
            } else {
                PlanView::WriteFile { path: entry_path_of(dir, rel) }
            }
        },
    }
}

/// Whether the entry name marks a directory.
pub fn is_dir(name: &str) -> (r: bool)
    ensures
        r == is_dir_name(name@),
{
    let v = chars_of(name);
    v.len() > 0 && v[v.len() - 1] == '/'
}

/// Decides what becomes of one archive entry that is extracted into the
/// font directory `dir`.
pub fn plan_entry(entry: &ArchiveEntry, dir: &str, opts: ExtractOptions) -> (plan: EntryPlan)
    ensures
        plan@ == plan_of(entry@, dir@, opts),
{
    match &entry.enclosed {
        None => EntryPlan::Skip(SkipReason::UnsafePath),
        Some(rel) => {
            if !is_contained(rel.as_str()) {
                EntryPlan::Skip(SkipReason::UnsafePath)
            } else if is_in_ignored_subtree(rel.as_str()) {
                EntryPlan::Skip(SkipReason::IgnoredSubtree)
            } else if is_dir(entry.name.as_str()) {
                EntryPlan::CreateDir { path: entry_path(dir, rel.as_str()) }
            } else if opts.interactive {
                EntryPlan::Ask { path: entry_path(dir, rel.as_str()) }
            } else if should_ignore(opts, entry.name.as_str(), rel.as_str(), Reply::Unrecognized) {
                EntryPlan::Skip(SkipReason::Filtered)
            } else {
                EntryPlan::WriteFile { path: entry_path(dir, rel.as_str()) }
            }
        },
    }
}

/// What the caller of an extraction has to do next.
#[derive(Debug)]
pub enum Action {
    /// Create the directory `path` with all its missing ancestors, then
    /// give it the permission bits `mode` if there are any.
    CreateDir { path: String, mode: Option<u32> },
    /// Make sure that the directory `parent` exists, write `data` to the
    /// file `path`, then give it the permission bits `mode` if there are
    /// any.
    WriteFile { path: String, parent: String, data: Vec<u8>, mode: Option<u32> },
    /// Ask the user whether the file `file_name` is to be installed, and
    /// hand the answer to the next step. `again` says that the question
    /// was put before and got no answer that counts.
    Prompt { file_name: String, again: bool },
    /// The walk is over: `installed` entries were handed out for creation
    /// or writing. Remove the archive if `delete_archive` is set.
    Finish { installed: u32, delete_archive: bool },
}

/// The mathematical value of an [`Action`].
pub enum ActionView {
    CreateDir { path: Seq<char>, mode: Option<u32> },
    WriteFile { path: Seq<char>, parent: Seq<char>, data: Seq<u8>, mode: Option<u32> },
    Prompt { file_name: Seq<char>, again: bool },
    Finish { installed: nat, delete_archive: bool },
}

impl View for Action {
    type V = ActionView;

    open spec fn view(&self) -> ActionView {
        match self {
            Action::CreateDir { path, mode } => ActionView::CreateDir { path: path@, mode: *mode },
            Action::WriteFile { path, parent, data, mode } => ActionView::WriteFile {
                path: path@,
                parent: parent@,
                data: data@,
                mode: *mode,
            },
            Action::Prompt { file_name, again } => ActionView::Prompt {
                file_name: file_name@,
                again: *again,
            },
            Action::Finish { installed, delete_archive } => ActionView::Finish {
                installed: *installed as nat,
                delete_archive: *delete_archive,
            },
        }
    }
}

/// Whether a walk passes over `entry` without a stop. A walk into the font
/// directory `dir` passes over what the plan skips. A walk without a font
/// directory, the user's home directory being unknown, passes over an
/// entry without an accepted path and stops at the first that has one.
pub open spec fn passed_over(entry: EntryView, dir: Option<Seq<char>>, opts: ExtractOptions) -> bool {
    match dir {
        Some(d) => plan_of(entry, d, opts) is Skip,
        None => entry.enclosed is None,
    }
}

/// The first entry at or after `from` that the walk does not pass over, or
/// the number of entries where it passes over all that remain.
pub open spec fn next_stop(
    entries: Seq<EntryView>,
    dir: Option<Seq<char>>,
    opts: ExtractOptions,
    from: nat,
) -> nat
    decreases entries.len() - from,
{
    if from >= entries.len() {
        entries.len()
    } else if passed_over(entries[from as int], dir, opts) {
        next_stop(entries, dir, opts, from + 1)
    } else {
        from
    }
}

/// The mathematical value of an [`Extraction`]: the archive, where its
/// entries go, and how far the walk has come.
pub struct ExtractionState {
    /// The entries of the archive, in the order of its directory.
    pub entries: Seq<EntryView>,
    /// The data of each entry.
    pub data: Seq<Seq<u8>>,
    /// For each entry, whether the archive reader opens it.
    pub opens: Seq<bool>,
    /// For each entry, whether the archive reader reads its data to the
    /// end.
    pub reads: Seq<bool>,
    /// The font directory that the archive is extracted into, or nothing
    /// where the user's home directory is not known.
    pub font_dir: Option<Seq<char>>,
    /// The options of the extraction.
    pub opts: ExtractOptions,
    /// Index of the next entry to look at.
    pub next: nat,
    /// Number of entries handed out for creation or writing.
    pub installed: nat,
    /// Whether the entry at `next` is a file that awaits the user's answer.
    pub asking: bool,
}

impl ExtractionState {
    /// What holds of every state of a walk.
    pub open spec fn valid(self) -> bool {
        &&& self.entries.len() <= u32::MAX
        &&& self.next <= self.entries.len()
        &&& self.installed <= self.next
        &&& self.asking ==> self.font_dir is Some && self.next < self.entries.len() && plan_of(
            self.entries[self.next as int],
            self.font_dir->0,
            self.opts,
        ) is Ask
    }

    /// The state after the entry at `index` was handed out.
    pub open spec fn installed_at(self, index: nat) -> ExtractionState {
        ExtractionState { next: index + 1, installed: self.installed + 1, asking: false, ..self }
    }

    /// The state after the entry at `next` was refused by the user.
    pub open spec fn refused(self) -> ExtractionState {
        ExtractionState { next: self.next + 1, asking: false, ..self }
    }

    /// The action that writes the file entry at `index`.
    pub open spec fn write_action(self, index: nat) -> ActionView {
        let entry = self.entries[index as int];
        let path = entry_path_of(self.font_dir->0, entry.enclosed->0);
        ActionView::WriteFile {
            path,
            parent: parent_of(path),
            data: self.data[index as int],
            mode: entry.unix_mode,
        }
    }

    /// The action that asks about the file entry at `index`, for the first
    /// time or again.
    pub open spec fn prompt_action(self, index: nat, again: bool) -> ActionView {
        ActionView::Prompt { file_name: self.entries[index as int].name, again }
    }

    /// Goes on with the walk from `next`: passes over what is passed over,
    /// and stops at the first entry that asks for an action, or at the
    /// end. Without a font directory only the end can be reached.
    pub open spec fn resume(self) -> (ExtractionState, ActionView) {
        let stop = next_stop(self.entries, self.font_dir, self.opts, self.next);
        if stop >= self.entries.len() {
            (
                ExtractionState { next: self.entries.len(), asking: false, ..self },
                ActionView::Finish {
                    installed: self.installed,
                    delete_archive: self.opts.delete_zip,
                },
            )
        } else {
            let entry = self.entries[stop as int];
            match plan_of(entry, self.font_dir->0, self.opts) {
                PlanView::CreateDir { path } => (
                    self.installed_at(stop),
                    ActionView::CreateDir { path, mode: entry.unix_mode },
                ),
                PlanView::Ask { path } => (
                    ExtractionState { next: stop, asking: true, ..self },
                    self.prompt_action(stop, false),
                ),
                _ => (self.installed_at(stop), self.write_action(stop)),
            }
        }
    }

    /// Whether the archive reader opens every entry that the walk from
    /// `next` looks at: those from `next` up to the next stop.
    pub open spec fn resume_opens(self) -> bool {
        let stop = next_stop(self.entries, self.font_dir, self.opts, self.next);
        forall|k: int|
            self.next <= k <= stop && k < self.entries.len() ==> #[trigger] self.opens[k]
    }

    /// Whether the walk from `next` stops for want of a font directory: it
    /// has none, and comes to an entry that has a place in one.
    pub open spec fn resume_homeless(self) -> bool {
        let stop = next_stop(self.entries, self.font_dir, self.opts, self.next);
        self.font_dir is None && stop < self.entries.len() && self.resume_opens()
    }

    /// Whether the walk from `next` gets to its next stop: the archive
    /// reader opens every entry from `next` up to the stop and reads the
    /// data of a file that is written there, and a stop before the end has
    /// a font directory.
    pub open spec fn resume_ok(self) -> bool {
        let stop = next_stop(self.entries, self.font_dir, self.opts, self.next);
        &&& self.resume_opens()
        &&& stop < self.entries.len() ==> self.font_dir is Some
        &&& stop < self.entries.len() && plan_of(
            self.entries[stop as int],
            self.font_dir->0,
            self.opts,
        ) is WriteFile ==> self.reads[stop as int]
    }

    /// Whether a step stops for want of a font directory.
    pub open spec fn step_homeless(self, answer: Option<Seq<char>>) -> bool {
        !self.asking && self.resume_homeless()
    }

    /// Whether a step succeeds. Putting the pending question again always
    /// does. Writing the file that the user agreed to does where the
    /// archive reader opens the entry and reads its data. Going on with
    /// the walk does where the walk gets to its next stop.
    pub open spec fn step_ok(self, answer: Option<Seq<char>>) -> bool {
        if !self.asking {
            self.resume_ok()
        } else {
            let entry = self.entries[self.next as int];
            match answer {
                None => true,
                Some(line) => {
                    let reply = reply_of(line);
                    if reply == Reply::Unrecognized {
                        true
                    } else if ignored(self.opts, entry.name, entry.enclosed->0, reply) {
                        self.refused().resume_ok()
                    } else {
                        self.opens[self.next as int] && self.reads[self.next as int]
                    }
                },
            }
        }
    }

    /// One step of the walk. `answer` is what the user said to the last
    /// question, if anything.
    ///
    /// While a file awaits an answer, nothing else happens: without an
    /// answer, or with one outside the vocabulary, the question is put
    /// again; with an affirmative one the file is written; with a negative
    /// one the walk goes on behind it. Otherwise the walk goes on and the
    /// answer is not read.
    pub open spec fn step(self, answer: Option<Seq<char>>) -> (ExtractionState, ActionView) {
        if !self.asking {
            self.resume()
        } else {
            let entry = self.entries[self.next as int];
            match answer {
                None => (self, self.prompt_action(self.next, true)),
                Some(line) => {
                    let reply = reply_of(line);
                    if reply == Reply::Unrecognized {
                        (self, self.prompt_action(self.next, true))
                    } else if ignored(self.opts, entry.name, entry.enclosed->0, reply) {
                        self.refused().resume()
                    } else {
                        (self.installed_at(self.next), self.write_action(self.next))
                    }
                },
            }
        }
    }
}

/// An entry as a value, from the way the archive's directory lists it.
pub open spec fn entry_of(t: (Seq<char>, Option<Seq<char>>, u64, Option<u32>)) -> EntryView {
    EntryView { name: t.0, enclosed: t.1, size: t.2, unix_mode: t.3 }
}

/// The entries of an archive as values, from the way its directory lists
/// them.
pub open spec fn entries_of(
    listing: Seq<(Seq<char>, Option<Seq<char>>, u64, Option<u32>)>,
) -> Seq<EntryView> {
    listing.map_values(|t: (Seq<char>, Option<Seq<char>>, u64, Option<u32>)| entry_of(t))
}

/// The characters of an optional string slice.
pub open spec fn optional_text(answer: Option<&str>) -> Option<Seq<char>> {
    match answer {
        Some(line) => Some(line@),
        None => None,
    }
}

/// Where the walk passes over all entries from `from` up to `stop` and not
/// over the one at `stop`, if there is one, it stops at `stop`.
pub proof fn lemma_next_stop(
    entries: Seq<EntryView>,
    dir: Option<Seq<char>>,
    opts: ExtractOptions,
    from: nat,
    stop: nat,
)
    requires
        from <= stop <= entries.len(),
        forall|k: int| from <= k < stop ==> passed_over(#[trigger] entries[k], dir, opts),
        stop < entries.len() ==> !passed_over(entries[stop as int], dir, opts),
    ensures
        next_stop(entries, dir, opts, from) == stop,
    decreases stop - from,
{
    if from < stop {
        assert(passed_over(entries[from as int], dir, opts));
        lemma_next_stop(entries, dir, opts, from + 1, stop);
    }
}

/// A walk over the entries of an archive that is held in memory.
pub struct Extraction {
    archive: ZipArchive<Cursor<Vec<u8>>>,
    font_dir: Option<String>,
    opts: ExtractOptions,
    next: usize,
    installed: u32,
    pending: Option<ArchiveEntry>,
}

impl View for Extraction {
    type V = ExtractionState;

    closed spec fn view(&self) -> ExtractionState {
        ExtractionState {
            entries: entries_of(archive_entries(self.archive)),
            data: archive_data(self.archive),
            opens: archive_opens(self.archive),
            reads: archive_reads(self.archive),
            font_dir: match self.font_dir {
                Some(dir) => Some(dir@),
                None => None,
            },
            opts: self.opts,
            next: self.next as nat,
            installed: self.installed as nat,
            asking: self.pending is Some,
        }
    }
}

impl Extraction {
    /// The walk is in a valid state, and the entry it holds back for the
    /// user's answer is the one at `next`.
    pub closed spec fn wf(&self) -> bool {
        &&& self@.valid()
        &&& self.pending matches Some(entry) ==> self.next < self@.entries.len() && entry@
            == self@.entries[self.next as int]
    }

    /// A walk that is well formed is in a valid state.
    pub proof fn lemma_wf_valid(&self)
        requires
            self.wf(),
        ensures
            self@.valid(),
    {
    }

    /// Opens the archive `bytes` for extraction into the font directory
    /// `font_dir`; there is none where the user's home directory is not
    /// known. Fails where the archive reader takes the bytes for no
    /// archive, and where the archive lists more than `u32::MAX` entries.
    /// Otherwise the walk stands before the first entry.
    pub fn open(bytes: Vec<u8>, font_dir: Option<&str>, opts: ExtractOptions) -> (r: Result<
        Extraction,
        ExtractError,
    >)
        ensures
            match parsed_listing(bytes@) {
                None => r matches Err(ExtractError::Archive(_)),
                Some(listing) => if listing.len() > u32::MAX {
                    r matches Err(ExtractError::TooManyEntries)
                } else {
                    r matches Ok(walk) && walk.wf() && walk@.valid() && walk@ == (ExtractionState {
                        entries: entries_of(listing),
                        data: walk@.data,
                        opens: walk@.opens,
                        reads: walk@.reads,
                        font_dir: optional_text(font_dir),
                        opts,
                        next: 0,
                        installed: 0,
                        asking: false,
                    })
                },
            },
    {
        let archive = match open_archive(bytes) {
            Ok(archive) => archive,
            Err(e) => {
                return Err(ExtractError::Archive(e));
            },
        };
        if archive_len(&archive) > 0xffff_ffff {
            return Err(ExtractError::TooManyEntries);
        }
        Ok(
            Extraction {
                archive,
                font_dir: match font_dir {
                    Some(dir) => Some(String::from_str(dir)),
                    None => None,
                },
                opts,
                next: 0,
                installed: 0,
                pending: None,
            },
        )
    }

    /// Number of entries handed out for creation or writing so far.
    pub fn installed(&self) -> (n: u32)
        ensures
            n == self@.installed,
    {
        self.installed
    }

    /// Takes one step of the walk and says what the caller has to do next.
    /// `answer` is the user's answer to the last question, if one was put.
    ///
    /// The step fails with `Archive` exactly where the archive reader fails
    /// on an entry that the step needs: one that it looks at, or the data
    /// of the file that it hands out. It fails with `HomeNotFound` exactly
    /// where the walk has no font directory and comes to an entry that has
    /// a place in one. The count of installed entries is then as it was.
    pub fn advance(&mut self, answer: Option<&str>) -> (r: Result<Action, ExtractError>)
        requires
            old(self).wf(),
        ensures
            final(self).wf(),
            final(self)@.valid(),
            r is Ok <==> old(self)@.step_ok(optional_text(answer)),
            r matches Ok(action) ==> (final(self)@, action@) == old(self)@.step(optional_text(answer)),
            r matches Err(e) ==> {
                &&& e is HomeNotFound <==> old(self)@.step_homeless(optional_text(answer))
                &&& e is Archive <==> !old(self)@.step_homeless(optional_text(answer))
                &&& final(self)@.installed == old(self)@.installed
            },
    {
        let ghost before = self@;
        let pending = self.pending.take();
        match pending {
            Some(entry) => {
                let reply = match answer {
                    Some(line) => classify_reply(line),
                    None => Reply::Unrecognized,
                };
                let rel = match &entry.enclosed {
                    Some(rel) => rel.as_str(),
                    None => "",
                };
                if reply == Reply::Unrecognized {
                    let file_name = entry.name.clone();
                    self.pending = Some(entry);
                    assert(self@ == before);
                    return Ok(Action::Prompt { file_name, again: true });
                }
                if !should_ignore(self.opts, entry.name.as_str(), rel, reply) {
                    let data = match read_entry_data(&mut self.archive, self.next) {
                        Ok(data) => data,
                        Err(e) => {
                            self.pending = Some(entry);
                            return Err(ExtractError::Archive(e));
                        },
                    };
                    let dir = match &self.font_dir {
                        Some(dir) => dir.as_str(),
                        None => "",
                    };
                    let path = entry_path(dir, rel);
                    let parent = parent(path.as_str());
                    let mode = entry.unix_mode;
                    self.next = self.next + 1;
                    self.installed = self.installed + 1;
                    assert(self@ == before.installed_at(before.next));
                    return Ok(Action::WriteFile { path, parent, data, mode });
                }
                self.next = self.next + 1;
                assert(self@ == before.refused());
            },
            None => {},
        }
        let ghost start = self@;
        let count: usize = archive_len(&self.archive);
        let mut index: usize = self.next;
        while index < count
            invariant
                self@ == start,
                before == old(self)@,
                !before.asking ==> start == before,
                before.asking ==> start == before.refused(),
                before.asking ==> (answer matches Some(line) && reply_of(line@)
                    != Reply::Unrecognized && ignored(
                    before.opts,
                    before.entries[before.next as int].name,
                    before.entries[before.next as int].enclosed->0,
                    reply_of(line@),
                )),
                before.valid(),
                start.valid(),
                !start.asking,
                self.pending is None,
                count == start.entries.len(),
                start.next <= index <= count,
                forall|k: int| start.next <= k < index ==> #[trigger] start.opens[k],
                forall|k: int|
                    start.next <= k < index ==> passed_over(
                        #[trigger] start.entries[k],
                        start.font_dir,
                        start.opts,
                    ),
            decreases count - index,
        {
            proof {
                lemma_next_stop_is_first(start.entries, start.font_dir, start.opts, start.next);
                let stop = next_stop(start.entries, start.font_dir, start.opts, start.next);
                if stop < index {
                    assert(passed_over(start.entries[stop as int], start.font_dir, start.opts));
                }
            }
            let entry = match read_entry(&mut self.archive, index) {
                Ok(entry) => entry,
                Err(e) => {
                    assert(!start.opens[index as int]);
                    return Err(ExtractError::Archive(e));
                },
            };
            assert(entry@ == start.entries[index as int]);
            let plan = match &self.font_dir {
                Some(dir) => plan_entry(&entry, dir.as_str(), self.opts),
                None => {
                    if entry.enclosed.is_some() {
                        proof {
                            lemma_next_stop(
                                start.entries,
                                start.font_dir,
                                start.opts,
                                start.next,
                                index as nat,
                            );
                        }
                        return Err(ExtractError::HomeNotFound);
                    }
                    EntryPlan::Skip(SkipReason::UnsafePath)
                },
            };
            match plan {
                EntryPlan::Skip(_) => {
                    index = index + 1;
                },
                EntryPlan::CreateDir { path } => {
                    proof {
                        lemma_next_stop(
                            start.entries,
                            start.font_dir,
                            start.opts,
                            start.next,
                            index as nat,
                        );
                    }
                    self.next = index + 1;
                    self.installed = self.installed + 1;
                    return Ok(Action::CreateDir { path, mode: entry.unix_mode });
                },
                EntryPlan::WriteFile { path } => {
                    proof {
                        lemma_next_stop(
                            start.entries,
                            start.font_dir,
                            start.opts,
                            start.next,
                            index as nat,
                        );
                    }
                    let data = match read_entry_data(&mut self.archive, index) {
                        Ok(data) => data,
                        Err(e) => {
                            return Err(ExtractError::Archive(e));
                        },
                    };
                    let parent = parent(path.as_str());
                    self.next = index + 1;
                    self.installed = self.installed + 1;
                    return Ok(Action::WriteFile { path, parent, data, mode: entry.unix_mode });
                },
                EntryPlan::Ask { path } => {
                    proof {
                        lemma_next_stop(
                            start.entries,
                            start.font_dir,
                            start.opts,
                            start.next,
                            index as nat,
                        );
                    }
                    let file_name = entry.name.clone();
                    self.next = index;
                    self.pending = Some(entry);
                    return Ok(Action::Prompt { file_name, again: false });
                },
            }
        }
        proof {
            lemma_next_stop(start.entries, start.font_dir, start.opts, start.next, count as nat);
        }
        self.next = count;
        Ok(Action::Finish { installed: self.installed, delete_archive: self.opts.delete_zip })
    }
}

/// The walk stops at the first entry that it does not pass over: it
/// passes over every entry before the stop, and not over the one at the
/// stop, if there is one.
pub proof fn lemma_next_stop_is_first(
    entries: Seq<EntryView>,
    dir: Option<Seq<char>>,
    opts: ExtractOptions,
    from: nat,
)
    requires
        from <= entries.len(),
    ensures
        from <= next_stop(entries, dir, opts, from) <= entries.len(),
        forall|k: int|
            from <= k < next_stop(entries, dir, opts, from) ==> passed_over(
                #[trigger] entries[k],
                dir,
                opts,
            ),
        next_stop(entries, dir, opts, from) < entries.len() ==> !passed_over(
            entries[next_stop(entries, dir, opts, from) as int],
            dir,
            opts,
        ),
    decreases entries.len() - from,
{
    if from < entries.len() && passed_over(entries[from as int], dir, opts) {
        lemma_next_stop_is_first(entries, dir, opts, from + 1);
    }
}

/// Nothing is planned outside the font directory: whatever an entry is
/// planned to create, write or ask about lies inside it, and an entry
/// whose name is no relative path that stays inside it is skipped.
pub proof fn lemma_plan_inside(entry: EntryView, dir: Seq<char>, opts: ExtractOptions)
    ensures
        match plan_of(entry, dir, opts) {
            PlanView::Skip(_) => true,
            PlanView::CreateDir { path } => within(dir, path),
            PlanView::WriteFile { path } => within(dir, path),
            PlanView::Ask { path } => within(dir, path),
        },
        entry.enclosed is None || !contained(entry.enclosed->0) ==> plan_of(entry, dir, opts)
            == PlanView::Skip(SkipReason::UnsafePath),
{
    if entry.enclosed is Some && contained(entry.enclosed->0) {
        lemma_entry_path_within(dir, entry.enclosed->0);
    }
}

/// No step of a walk into a font directory hands out a path outside it.
pub proof fn lemma_step_inside(state: ExtractionState, answer: Option<Seq<char>>)
    requires
        state.valid(),
        state.font_dir is Some,
    ensures
        match state.step(answer).1 {
            ActionView::CreateDir { path, mode } => within(state.font_dir->0, path),
            ActionView::WriteFile { path, parent, data, mode } => within(
                state.font_dir->0,
                path,
            ),
            _ => true,
        },
{
    let from = if state.asking && answer is Some && reply_of(answer->0) != Reply::Unrecognized {
        state.next + 1
    } else {
        state.next
    };
    lemma_next_stop_is_first(state.entries, state.font_dir, state.opts, from as nat);
    let stop = next_stop(state.entries, state.font_dir, state.opts, from as nat);
    if stop < state.entries.len() {
        lemma_plan_inside(state.entries[stop as int], state.font_dir->0, state.opts);
    }
    if state.asking {
        lemma_plan_inside(state.entries[state.next as int], state.font_dir->0, state.opts);
    }
}

/// An entry below the ignored top-level directory is skipped, and a file
/// there is left out by the filter, under all options and whatever the
/// user answers.
pub proof fn lemma_ignored_subtree_skipped(
    entry: EntryView,
    dir: Seq<char>,
    opts: ExtractOptions,
    reply: Reply,
)
    requires
        entry.enclosed is Some,
        in_ignored_subtree(entry.enclosed->0),
    ensures
        plan_of(entry, dir, opts) is Skip,
        ignored(opts, entry.name, entry.enclosed->0, reply),
{
}

/// An entry that may be written at all: a file whose name is a relative
/// path that stays inside the font directory and does not lie below the
/// ignored top-level directory.
pub open spec fn eligible_file(entry: EntryView) -> bool {
    &&& entry.enclosed is Some
    &&& contained(entry.enclosed->0)
    &&& !in_ignored_subtree(entry.enclosed->0)
    &&& !is_dir_name(entry.name)
}

/// Without questions to the user, the file type decides. Where TrueType is
/// preferred, no eligible `.otf` file is written and every eligible `.ttf`
/// file is; where OpenType is preferred, the reverse. An eligible file of
/// neither type is always written.
pub proof fn lemma_extension_filter(entry: EntryView, dir: Seq<char>, opts: ExtractOptions)
    requires
        !opts.interactive,
        eligible_file(entry),
    ensures
        !opts.use_otf && ends_with(entry.name, util::OTF@) ==> plan_of(entry, dir, opts)
            == PlanView::Skip(SkipReason::Filtered),
        !opts.use_otf && ends_with(entry.name, util::TTF@) ==> plan_of(entry, dir, opts)
            is WriteFile,
        opts.use_otf && ends_with(entry.name, util::TTF@) ==> plan_of(entry, dir, opts)
            == PlanView::Skip(SkipReason::Filtered),
        opts.use_otf && ends_with(entry.name, util::OTF@) ==> plan_of(entry, dir, opts)
            is WriteFile,
        !ends_with(entry.name, util::TTF@) && !ends_with(entry.name, util::OTF@) ==> plan_of(
            entry,
            dir,
            opts,
        ) is WriteFile,
        plan_of(entry, dir, opts) matches PlanView::WriteFile { path } ==> path == entry_path_of(
            dir,
            entry.enclosed->0,
        ),
{
    reveal_strlit(".ttf");
    reveal_strlit(".otf");
    if ends_with(entry.name, util::TTF@) && ends_with(entry.name, util::OTF@) {
        assert(util::TTF@[1] == 't');
        assert(util::OTF@[1] == 'o');
    }
}

impl ExtractionState {
    /// Index of the first entry that a step looks at: the one behind the
    /// entry that awaits an answer, if one does, else the one at `next`.
    pub open spec fn resume_from(self) -> nat {
        if self.asking {
            self.next + 1
        } else {
            self.next
        }
    }

    /// Index of the entry that the action `action`, handed out on the way
    /// into the state `self`, is about; the number of entries for the end
    /// of the walk.
    pub open spec fn subject_of(self, action: ActionView) -> int {
        match action {
            ActionView::CreateDir { .. } => self.next - 1,
            ActionView::WriteFile { .. } => self.next - 1,
            ActionView::Prompt { .. } => self.next as int,
            ActionView::Finish { .. } => self.entries.len() as int,
        }
    }
}

/// A step that succeeds, and any step of a walk into a font directory,
/// leaves the archive, the font directory and the options as they are,
/// keeps a valid state valid, and never goes back. It raises the count
/// by one with each directory and each file that it hands out, and not
/// otherwise; the end of the walk reports the count as it stands.
pub proof fn lemma_step_counts(state: ExtractionState, answer: Option<Seq<char>>)
    requires
        state.valid(),
        state.font_dir is Some || state.step_ok(answer),
    ensures
        ({
            let (after, action) = state.step(answer);
            &&& after.valid()
            &&& after.entries == state.entries
            &&& after.data == state.data
            &&& after.opens == state.opens
            &&& after.reads == state.reads
            &&& after.font_dir == state.font_dir
            &&& after.opts == state.opts
            &&& after.next >= state.next
            &&& match action {
                ActionView::CreateDir { .. } => after.installed == state.installed + 1
                    && !after.asking,
                ActionView::WriteFile { .. } => after.installed == state.installed + 1
                    && !after.asking,
                ActionView::Prompt { .. } => after.installed == state.installed && after.asking,
                ActionView::Finish { installed, delete_archive } => {
                    &&& installed == state.installed
                    &&& after.installed == state.installed
                    &&& after.next == state.entries.len()
                    &&& delete_archive == state.opts.delete_zip
                    &&& !after.asking
                },
            }
        }),
{
    lemma_next_stop_is_first(state.entries, state.font_dir, state.opts, state.next);
    if state.asking {
        lemma_next_stop_is_first(state.entries, state.font_dir, state.opts, state.next + 1);
    }
}

/// Each action is what the plan of its entry asks for, and every entry
/// before it is one that the walk passes over. A directory is created
/// for an entry planned as one. A file is written, with the entry's data
/// and permission bits, for an entry planned as a file to write or asked
/// about. A question names an entry planned as a file to ask about. The
/// walk ends only where the walk passes over every remaining entry.
pub proof fn lemma_step_follows_plan(state: ExtractionState, answer: Option<Seq<char>>)
    requires
        state.valid(),
        state.font_dir is Some || state.step_ok(answer),
    ensures
        ({
            let (after, action) = state.step(answer);
            let subject = after.subject_of(action);
            let entry = state.entries[subject];
            let plan = plan_of(entry, state.font_dir->0, state.opts);
            &&& 0 <= subject <= state.entries.len()
            &&& forall|k: int|
                state.resume_from() <= k < subject ==> passed_over(
                    #[trigger] state.entries[k],
                    state.font_dir,
                    state.opts,
                )
            &&& match action {
                ActionView::CreateDir { path, mode } => {
                    &&& subject < state.entries.len()
                    &&& plan == PlanView::CreateDir { path }
                    &&& mode == entry.unix_mode
                },
                ActionView::WriteFile { path, parent, data, mode } => {
                    &&& subject < state.entries.len()
                    &&& (plan == PlanView::WriteFile { path } || plan == PlanView::Ask { path })
                    &&& parent == parent_of(path)
                    &&& data == state.data[subject]
                    &&& mode == entry.unix_mode
                },
                ActionView::Prompt { file_name, again } => {
                    &&& subject < state.entries.len()
                    &&& plan is Ask
                    &&& file_name == entry.name
                    &&& again == (state.asking && subject == state.next)
                },
                ActionView::Finish { .. } => true,
            }
        }),
{
    lemma_next_stop_is_first(state.entries, state.font_dir, state.opts, state.next);
    if state.asking {
        lemma_next_stop_is_first(state.entries, state.font_dir, state.opts, state.next + 1);
    }
}

/// Without questions to the user, no step writes a file of the excluded
/// type: where TrueType is preferred no `.otf` file, where OpenType is
/// preferred no `.ttf` file.
pub proof fn lemma_walk_respects_filter(state: ExtractionState, answer: Option<Seq<char>>)
    requires
        state.valid(),
        state.font_dir is Some || state.step_ok(answer),
        !state.opts.interactive,
    ensures
        ({
            let (after, action) = state.step(answer);
            action is WriteFile ==> !ends_with(
                state.entries[after.next - 1].name,
                util::excluded_ending(state.opts),
            )
        }),
{
    lemma_step_follows_plan(state, answer);
}

} // verus!

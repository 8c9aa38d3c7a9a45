//! What is done with one entry of the directory walk, step by step.
//!
//! `plan_entry` decides from the entry's path whether the file is passed
//! over, reported as incompatible, or tagged. For a file to tag, the caller
//! reads the file's tag and hands it to `tag_entry`, which writes the fields
//! into it and says whether the tag goes back to the file. After a write,
//! `conclude` gives the verdict. No entry's outcome depends on another's.

use vstd::prelude::*;
use vstd::string::StringExecFns;
use crate::fields::{ExtractedFields, FieldsView};
use crate::frames::Frame;
use crate::matcher::{ends_with_mp3, has_mp3_suffix, match_chars, match_of};
use crate::report::{failed_text, header, header_text, ok_text, verdict_failed, verdict_ok};
use crate::tag::{apply, load_or_create, tag_frames, tagged};
use crate::text::chars_of;

verus! {

/// How the program was called.
#[derive(Clone, Debug, PartialEq, Eq)]
pub struct Options {
    /// Whether tags are worked out and reported, but not written.
    pub dry_run: bool,
    /// The directory to scan.
    pub path: String,
}

impl Default for Options {
    /// Tags are written, and the current directory is scanned.
    fn default() -> (options: Options)
        ensures
            !options.dry_run,
            options.path@ == "."@,
    {
        Options { dry_run: false, path: String::from_str(".") }
    }
}

/// Whether the file name at the end of the canonical path `s` has the
/// extension `mp3`, in lower case: the path ends in `.mp3`, and the file
/// name holds a character before that.
pub open spec fn is_audio_path(s: Seq<char>) -> bool {
    &&& s.len() >= 5
    &&& ends_with_mp3(s)
    &&& s[s.len() - 5] != '/'
}

/// What is done with an entry.
#[derive(Clone, Debug, PartialEq, Eq)]
pub enum Plan {
    /// Nothing, and nothing is shown.
    Skip,
    /// The header and the verdict are shown; the file is left alone.
    Reject { header: String, verdict: String },
    /// The header is shown, and the fields are written into the file's tag.
    Tag { header: String, fields: ExtractedFields },
}

/// `Plan` as mathematical values.
pub enum PlanView {
    Skip,
    Reject { header: Seq<char>, verdict: Seq<char> },
    Tag { header: Seq<char>, fields: FieldsView },
}

impl View for Plan {
    type V = PlanView;

    open spec fn view(&self) -> PlanView {
        match self {
            Plan::Skip => PlanView::Skip,
            Plan::Reject { header, verdict } => PlanView::Reject {
                header: header@,
                verdict: verdict@,
            },
            Plan::Tag { header, fields } => PlanView::Tag { header: header@, fields: fields@ },
        }
    }
}

/// The plan for an entry with the canonical path `path`; `None` stands for
/// an entry that could not be read or whose path could not be resolved.
pub open spec fn plan_of(path: Option<Seq<char>>) -> PlanView {
    match path {
        None => PlanView::Skip,
        Some(p) => if !is_audio_path(p) {
            PlanView::Skip
        } else {
            match match_of(p) {
                Ok(fields) => PlanView::Tag { header: header_text(p), fields },
                Err(e) => PlanView::Reject {
                    header: header_text(p),
                    verdict: failed_text(e.message_text()),
                },
            }
        },
    }
}

/// What follows once the fields are written into a tag.
#[derive(Debug)]
pub enum Pending {
    /// The tag is to be written to the file.
    Write { tag: id3::Tag },
    /// Nothing more is done, and the verdict is shown.
    Done { verdict: String },
}

/// The frames of the tag that was read, none where no tag could be read.
pub open spec fn frames_read(read: Option<id3::Tag>) -> Seq<Frame> {
    match read {
        Some(tag) => tag_frames(tag),
        None => Seq::empty(),
    }
}

/// What is shown for one entry: nothing, or the header and the verdict in
/// one line. `written` is the outcome of writing the tag to the file, with
/// the reason where it failed; it counts only where a tag is written.
pub open spec fn report_of(
    path: Option<Seq<char>>,
    dry_run: bool,
    written: Result<(), Seq<char>>,
) -> Option<Seq<char>> {
    match plan_of(path) {
        PlanView::Skip => None,
        PlanView::Reject { header, verdict } => Some(header + verdict),
        PlanView::Tag { header, fields } => Some(
            header + if dry_run {
                ok_text()
            } else {
                verdict_of(written)
            },
        ),
    }
}

/// The verdict after a write.
pub open spec fn verdict_of(written: Result<(), Seq<char>>) -> Seq<char> {
    match written {
        Ok(_) => ok_text(),
        Err(reason) => failed_text(reason),
    }
}

/// A dry run shows for every entry what a run shows that writes with
/// success.
pub proof fn lemma_dry_run_reports_alike(path: Option<Seq<char>>, written: Result<(), Seq<char>>)
    ensures
        report_of(path, true, written) == report_of(path, false, Ok(())),
{
}

/// Nothing is shown for a file whose extension is not `mp3`, whether the
/// run is dry or not and whatever a write would give.
pub proof fn lemma_other_files_unreported(
    path: Seq<char>,
    dry_run: bool,
    written: Result<(), Seq<char>>,
)
    requires
        !is_audio_path(path),
    ensures
        report_of(Some(path), dry_run, written) is None,
{
}

/// Every file with the extension `mp3` is reported, in one line that begins
/// with its path.
pub proof fn lemma_audio_files_reported(
    path: Seq<char>,
    dry_run: bool,
    written: Result<(), Seq<char>>,
)
    requires
        is_audio_path(path),
    ensures
        report_of(Some(path), dry_run, written) matches Some(line) && header_text(
            path,
        ).is_prefix_of(line),
{
    match plan_of(Some(path)) {
        PlanView::Skip => {},
        PlanView::Reject { header, verdict } => {
            assert((header + verdict).subrange(0, header.len() as int) =~= header);
        },
        PlanView::Tag { header, fields } => {
            let line = report_of(Some(path), dry_run, written)->0;
            assert(line.subrange(0, header.len() as int) =~= header);
        },
    }
}

/// Tells whether the file name at the end of the canonical path has the
/// extension `mp3`, in lower case.
pub fn has_mp3_extension(path: &str) -> (r: bool)
    ensures
        r == is_audio_path(path@),
{
    let chars = chars_of(path);
    is_audio_chars(&chars)
}

fn is_audio_chars(chars: &Vec<char>) -> (r: bool)
    ensures
        r == is_audio_path(chars@),
{
    let n = chars.len();
    n >= 5 && has_mp3_suffix(chars) && chars[n - 5] != '/'
}

/// Decides what is done with an entry of the walk. `path` is the entry's
/// canonical path, or `None` where the entry could not be read or its path
/// could not be resolved.
pub fn plan_entry(path: Option<&str>) -> (plan: Plan)
    ensures
        plan@ == plan_of(
            match path {
                Some(p) => Some(p@),
                None => None,
            },
        ),
{
    match path {
        None => Plan::Skip,
        Some(p) => {
            let chars = chars_of(p);
            if !is_audio_chars(&chars) {
                Plan::Skip
            } else {
                match match_chars(p, &chars) {
                    Ok(fields) => Plan::Tag { header: header(p), fields },
                    Err(e) => Plan::Reject {
                        header: header(p),
                        verdict: verdict_failed(e.message()),
                    },
                }
            }
        },
    }
}

/// Writes `fields` into the tag that was read from the file, or into a new
/// one where none could be read. In a dry run the tag is dropped and the
/// verdict is `ok`; else the tag is handed out to be written to the file.
pub fn tag_entry(read: Option<id3::Tag>, fields: &ExtractedFields, options: &Options) -> (next:
    Pending)
    ensures
        match next {
            Pending::Write { tag } => !options.dry_run && tag_frames(tag) == tagged(
                frames_read(read),
                fields@,
            ),
            Pending::Done { verdict } => options.dry_run && verdict@ == ok_text(),
        },
{
    let mut tag = load_or_create(read);
    apply(&mut tag, fields);
    if options.dry_run {
        Pending::Done { verdict: verdict_ok() }
    } else {
        Pending::Write { tag }
    }
}

/// The verdict after the tag was written to the file: `ok`, or `failed` with
/// the reason that the write gave.
pub fn conclude(written: Result<(), String>) -> (verdict: String)
    ensures
        verdict@ == verdict_of(
            match written {
                Ok(_) => Ok(()),
                Err(reason) => Err(reason@),
            },
        ),
{
    match written {
        Ok(_) => verdict_ok(),
        Err(reason) => verdict_failed(reason.as_str()),
    }
}

} // verus!

//! The export of files from bundles: where a file is found, what is done
//! with it by its name, and the account that is kept of a run.

use crate::bundles::index::{BundleInfo, FileInfo, Index};
use crate::text::{decimal, decimal_text, ends_with, has_suffix};
use vstd::prelude::*;
use vstd::string::*;

verus! {

broadcast use vstd::std_specs::hash::group_hash_axioms;

/// What a run of exports reports while it goes on and when it ends.
#[derive(Debug, Clone, PartialEq, Eq)]
pub enum ExportStatus {
    /// File number `current` of `total` is done; `filename` names it or
    /// says what went wrong with it.
    Progress { current: usize, total: usize, filename: String },
    /// The run is over: `count` files were exported, `errors` were not.
    Complete { count: usize, errors: usize, message: String },
    Error(String),
}

/// `ExportStatus` as a mathematical value.
pub enum ExportStatusView {
    Progress { current: usize, total: usize, filename: Seq<char> },
    Complete { count: usize, errors: usize, message: Seq<char> },
    Error(Seq<char>),
}

impl View for ExportStatus {
    type V = ExportStatusView;

    open spec fn view(&self) -> ExportStatusView {
        match self {
            ExportStatus::Progress { current, total, filename } => ExportStatusView::Progress {
                current: *current,
                total: *total,
                filename: filename@,
            },
            ExportStatus::Complete { count, errors, message } => ExportStatusView::Complete {
                count: *count,
                errors: *errors,
                message: message@,
            },
            ExportStatus::Error(message) => ExportStatusView::Error(message@),
        }
    }
}

/// Why a file could not be taken out of its bundle.
#[derive(Debug, Clone, Copy, PartialEq, Eq, Structural)]
pub enum ExportError {
    /// The index has no file under the path hash.
    HashNotFound,
    /// The file names a bundle that the index does not have.
    BundleNotFound,
    /// The file is to lie from `start` up to `end`, but the bundle
    /// decompresses to `len` bytes only.
    OutOfBounds { start: u64, end: u64, len: usize },
}

/// What is done with a file, by the end of its path.
#[derive(Debug, Clone, Copy, PartialEq, Eq, Structural)]
pub enum FileKind {
    /// `.header`: skipped.
    Header,
    /// `.dds`: a texture.
    Texture,
    /// `.ogg`: a sound.
    Audio,
    /// `.dat`, `.datc64`, `.datl`, `.datl64`: a table.
    Table,
    /// `.psg`: a passive skill graph.
    Psg,
    /// Anything else: written as it is.
    Other,
}

/// The kind of the file with the path `path`.
pub open spec fn kind_of_path(path: Seq<char>) -> FileKind {
    if has_suffix(path, ".header"@) {
        FileKind::Header
    } else if has_suffix(path, ".dds"@) {
        FileKind::Texture
    } else if has_suffix(path, ".ogg"@) {
        FileKind::Audio
    } else if has_suffix(path, ".dat"@) || has_suffix(path, ".datc64"@) || has_suffix(
        path,
        ".datl"@,
    ) || has_suffix(path, ".datl64"@) {
        FileKind::Table
    } else if has_suffix(path, ".psg"@) {
        FileKind::Psg
    } else {
        FileKind::Other
    }
}

/// Tells what is done with the file at `path`.
pub fn file_kind(path: &str) -> (kind: FileKind)
    ensures
        kind == kind_of_path(path@),
{
    if ends_with(path, ".header") {
        FileKind::Header
    } else if ends_with(path, ".dds") {
        FileKind::Texture
    } else if ends_with(path, ".ogg") {
        FileKind::Audio
    } else if ends_with(path, ".dat") || ends_with(path, ".datc64") || ends_with(path, ".datl")
        || ends_with(path, ".datl64") {
        FileKind::Table
    } else if ends_with(path, ".psg") {
        FileKind::Psg
    } else {
        FileKind::Other
    }
}

/// The text of an export error.
pub open spec fn error_text(e: ExportError) -> Seq<char> {
    match e {
        ExportError::HashNotFound => "File hash not found in bundle index"@,
        ExportError::BundleNotFound => "Bundle info not found"@,
        ExportError::OutOfBounds { start, end, len } => "File range "@ + decimal_text(start as nat)
            + ".."@ + decimal_text(end as nat) + " out of bundle bounds "@ + decimal_text(
            len as nat,
        ),
    }
}

impl ExportError {
    /// The text of the error.
    pub fn message(&self) -> (text: String)
        ensures
            text@ == error_text(*self),
    {
        match self {
            ExportError::HashNotFound => String::from_str("File hash not found in bundle index"),
            ExportError::BundleNotFound => String::from_str("Bundle info not found"),
            ExportError::OutOfBounds { start, end, len } => {
                let first = decimal(*start);
                let second = decimal(*end);
                let third = decimal(*len as u64);
                String::from_str("File range ").concat(first.as_str()).concat("..").concat(
                    second.as_str(),
                ).concat(" out of bundle bounds ").concat(third.as_str())
            },
        }
    }
}

/// Finds the file under the path hash `hash` and the bundle that holds it.
pub fn locate<'a>(index: &'a Index, hash: u64) -> (r: Result<
    (&'a FileInfo, &'a BundleInfo),
    ExportError,
>)
    ensures
        match r {
            Ok((file, bundle)) => {
                &&& index.files@.contains_key(hash)
                &&& *file == index.files@[hash]
                &&& file.bundle_index < index.bundles@.len()
                &&& *bundle == index.bundles@[file.bundle_index as int]
            },
            Err(ExportError::HashNotFound) => !index.files@.contains_key(hash),
            Err(ExportError::BundleNotFound) => index.files@.contains_key(hash)
                && index.files@[hash].bundle_index >= index.bundles@.len(),
            Err(ExportError::OutOfBounds { .. }) => false,
        },
{
    match index.files.get(&hash) {
        None => Err(ExportError::HashNotFound),
        Some(file) => {
            let at = file.bundle_index as usize;
            if at < index.bundles.len() {
                Ok((file, &index.bundles[at]))
            } else {
                Err(ExportError::BundleNotFound)
            }
        },
    }
}

/// The bytes of `file` within the decompressed payload of its bundle.
pub fn file_bytes<'a>(file: &FileInfo, payload: &'a [u8]) -> (r: Result<&'a [u8], ExportError>)
    ensures
        match r {
            Ok(bytes) => file.file_offset + file.file_size <= payload@.len() && bytes@
                == payload@.subrange(file.file_offset as int, file.file_offset + file.file_size),
            Err(e) => file.file_offset + file.file_size > payload@.len() && e
                == (ExportError::OutOfBounds {
                start: file.file_offset as u64,
                end: (file.file_offset + file.file_size) as u64,
                len: payload.len(),
            }),
        },
{
    match file.data(payload) {
        Some(bytes) => Ok(bytes),
        None => Err(
            ExportError::OutOfBounds {
                start: file.file_offset as u64,
                end: file.file_offset as u64 + file.file_size as u64,
                len: payload.len(),
            },
        ),
    }
}

/// How the export of one file ended.
#[derive(Debug, Clone, PartialEq, Eq)]
pub enum ExportOutcome {
    /// The file was exported; the text names it.
    Exported(String),
    /// The export failed with this error.
    Failed(String),
    /// The export broke off, with this message if it left one.
    Panicked(Option<String>),
}

/// `ExportOutcome` as a mathematical value.
pub enum ExportOutcomeView {
    Exported(Seq<char>),
    Failed(Seq<char>),
    Panicked(Option<Seq<char>>),
}

impl View for ExportOutcome {
    type V = ExportOutcomeView;

    open spec fn view(&self) -> ExportOutcomeView {
        match self {
            ExportOutcome::Exported(name) => ExportOutcomeView::Exported(name@),
            ExportOutcome::Failed(error) => ExportOutcomeView::Failed(error@),
            ExportOutcome::Panicked(Some(message)) => ExportOutcomeView::Panicked(Some(message@)),
            ExportOutcome::Panicked(None) => ExportOutcomeView::Panicked(None),
        }
    }
}

impl ExportOutcomeView {
    /// The entry in the list of errors that the outcome leaves, if it is
    /// one.
    pub open spec fn error(self) -> Option<Seq<char>> {
        match self {
            ExportOutcomeView::Exported(_) => None,
            ExportOutcomeView::Failed(error) => Some("Export failed: "@ + error),
            ExportOutcomeView::Panicked(Some(message)) => Some("PANIC: "@ + message),
            ExportOutcomeView::Panicked(None) => Some("PANIC: Unknown error"@),
        }
    }

    /// What the progress report shows in the place of the file's name.
    pub open spec fn shown(self) -> Seq<char> {
        match self {
            ExportOutcomeView::Exported(name) => name,
            ExportOutcomeView::Failed(_) => "Error: "@ + self.error().unwrap(),
            ExportOutcomeView::Panicked(_) => self.error().unwrap(),
        }
    }
}

/// The account of a run of exports.
#[derive(Debug, Clone, PartialEq, Eq)]
pub struct ExportRun {
    /// Number of files to export.
    pub total: usize,
    /// Number of files that were exported.
    pub success_count: usize,
    /// Number of files that were not.
    pub error_count: usize,
    /// What went wrong, one entry for each file that was not exported.
    pub errors: Vec<String>,
}

/// `ExportRun` as a mathematical value.
pub struct ExportRunView {
    pub total: usize,
    pub success_count: usize,
    pub error_count: usize,
    pub errors: Seq<Seq<char>>,
}

impl View for ExportRun {
    type V = ExportRunView;

    open spec fn view(&self) -> ExportRunView {
        ExportRunView {
            total: self.total,
            success_count: self.success_count,
            error_count: self.error_count,
            errors: self.errors@.map_values(|e: String| e@),
        }
    }
}

impl ExportRunView {
    /// Number of files that are done.
    pub open spec fn done(self) -> nat {
        (self.success_count + self.error_count) as nat
    }

    /// The account after one more file.
    pub open spec fn recorded(self, outcome: ExportOutcomeView) -> ExportRunView {
        match outcome.error() {
            None => ExportRunView { success_count: (self.success_count + 1) as usize, ..self },
            Some(error) => ExportRunView {
                error_count: (self.error_count + 1) as usize,
                errors: self.errors.push(error),
                ..self
            },
        }
    }

    /// The report on one more file.
    pub open spec fn progress(self, outcome: ExportOutcomeView) -> ExportStatusView {
        ExportStatusView::Progress {
            current: (self.done() + 1) as usize,
            total: self.total,
            filename: outcome.shown(),
        }
    }

    /// The closing message.
    pub open spec fn summary(self) -> Seq<char> {
        if self.error_count == 0 {
            "Successfully exported "@ + decimal_text(self.success_count as nat) + " files."@
        } else {
            "Exported "@ + decimal_text(self.success_count as nat) + " files. "@ + decimal_text(
                self.error_count as nat,
            ) + " errors occurred."@
        }
    }

    /// The closing report.
    pub open spec fn complete(self) -> ExportStatusView {
        ExportStatusView::Complete {
            count: self.success_count,
            errors: self.error_count,
            message: self.summary(),
        }
    }
}

impl ExportRun {
    /// The account of a run of `total` files, none of which is done.
    pub fn new(total: usize) -> (run: ExportRun)
        ensures
            run@ == (ExportRunView {
                total,
                success_count: 0,
                error_count: 0,
                errors: Seq::empty(),
            }),
    {
        let run = ExportRun { total, success_count: 0, error_count: 0, errors: Vec::new() };
        assert(run@.errors =~= Seq::<Seq<char>>::empty());
        run
    }

    /// Takes in how the export of the next file ended and says what is to be
    /// reported of it.
    pub fn record(&mut self, outcome: ExportOutcome) -> (status: ExportStatus)
        requires
            old(self)@.done() < usize::MAX,
        ensures
            final(self)@ == old(self)@.recorded(outcome@),
            status@ == old(self)@.progress(outcome@),
    {
        let current = self.success_count + self.error_count + 1;
        let total = self.total;
        let ghost before = self@.errors;
        match outcome {
            ExportOutcome::Exported(name) => {
                self.success_count = self.success_count + 1;
                assert(self@.errors =~= before);
                ExportStatus::Progress { current, total, filename: name }
            },
            ExportOutcome::Failed(error) => {
                let text = String::from_str("Export failed: ").concat(error.as_str());
                let shown = String::from_str("Error: ").concat(text.as_str());
                self.error_count = self.error_count + 1;
                self.errors.push(text);
                assert(self@.errors =~= before.push(text@));
                ExportStatus::Progress { current, total, filename: shown }
            },
            ExportOutcome::Panicked(message) => {
                let text = match message {
                    Some(message) => String::from_str("PANIC: ").concat(message.as_str()),
                    None => String::from_str("PANIC: Unknown error"),
                };
                let shown = text.clone();
                self.error_count = self.error_count + 1;
                self.errors.push(text);
                assert(self@.errors =~= before.push(text@));
                ExportStatus::Progress { current, total, filename: shown }
            },
        }
    }

    /// The closing report of the run.
    pub fn finish(&self) -> (status: ExportStatus)
        ensures
            status@ == self@.complete(),
    {
        let count = decimal(self.success_count as u64);
        let message = if self.error_count == 0 {
            String::from_str("Successfully exported ").concat(count.as_str()).concat(" files.")
        } else {
            let errors = decimal(self.error_count as u64);
            String::from_str("Exported ").concat(count.as_str()).concat(" files. ").concat(
                errors.as_str(),
            ).concat(" errors occurred.")
        };
        ExportStatus::Complete { count: self.success_count, errors: self.error_count, message }
    }
}

} // verus!

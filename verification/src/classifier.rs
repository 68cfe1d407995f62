//! The decision on one file: an entry for the report where the extension in
//! its name does not fit its content, nothing otherwise.

use vstd::prelude::*;
use crate::class::join_tokens;
use crate::lookup::base_class;
use crate::resolver::{
    lemma_extensionless_never_mismatch, lemma_same_extension_is_correct, resolve, verdict, Verdict,
    VerdictView,
};
use crate::token::{
    current_extension, extension_token, lowercased, path_token, text_of, MAX_EXTENSION_LENGTH,
};

verus! {

/// A file as the traversal found it.
#[derive(Clone, Debug, PartialEq, Eq)]
pub struct FileEntry {
    pub path: String,
    pub size: u64,
    pub modified_date: u64,
}

/// A file whose name does not fit its content.
#[derive(Clone, Debug, PartialEq, Eq)]
pub struct BadFileEntry {
    pub path: String,
    pub modified_date: u64,
    pub size: u64,
    /// The token of the extension in the name; empty where it has none.
    pub current_extension: String,
    /// The extensions that fit the content, in increasing order, with commas
    /// between them.
    pub proper_extensions: String,
}

/// A file as a value of specifications.
pub ghost struct FileEntryView {
    pub path: Seq<char>,
    pub size: u64,
    pub modified_date: u64,
}

/// An entry as a value of specifications.
pub ghost struct BadFileEntryView {
    pub path: Seq<char>,
    pub modified_date: u64,
    pub size: u64,
    pub current_extension: Seq<char>,
    pub proper_extensions: Seq<char>,
}

impl View for FileEntry {
    type V = FileEntryView;

    open spec fn view(&self) -> FileEntryView {
        FileEntryView { path: self.path@, size: self.size, modified_date: self.modified_date }
    }
}

impl View for BadFileEntry {
    type V = BadFileEntryView;

    open spec fn view(&self) -> BadFileEntryView {
        BadFileEntryView {
            path: self.path@,
            modified_date: self.modified_date,
            size: self.size,
            current_extension: self.current_extension@,
            proper_extensions: self.proper_extensions@,
        }
    }
}

impl DeepView for FileEntry {
    type V = FileEntryView;

    open spec fn deep_view(&self) -> FileEntryView {
        self@
    }
}

impl DeepView for BadFileEntry {
    type V = BadFileEntryView;

    open spec fn deep_view(&self) -> BadFileEntryView {
        self@
    }
}

/// The entry in an optional [`BadFileEntry`].
pub open spec fn entry_of(entry: Option<BadFileEntry>) -> Option<BadFileEntryView> {
    match entry {
        Some(e) => Some(e@),
        None => None,
    }
}

/// The entry for a file with the wrong extension `current`, where `class`
/// lists the extensions that fit.
pub open spec fn mismatch_entry(record: FileEntryView, current: Seq<char>, class: Seq<Seq<char>>)
    -> BadFileEntryView {
    BadFileEntryView {
        path: record.path,
        modified_date: record.modified_date,
        size: record.size,
        current_extension: current,
        proper_extensions: join_tokens(class),
    }
}

/// What a verdict leaves of a file: an entry for a mismatch, nothing else.
pub open spec fn entry_for(record: FileEntryView, current: Seq<char>, v: VerdictView) -> Option<
    BadFileEntryView,
> {
    match v {
        VerdictView::Mismatch(class) => Some(mismatch_entry(record, current, class)),
        _ => None,
    }
}

/// What is reported of a file named with `current` whose content was found to
/// call for `proper`, `None` standing for content of no known type.
pub open spec fn classification(
    record: FileEntryView,
    current: Seq<char>,
    proper: Option<Seq<char>>,
    include_extensionless: bool,
) -> Option<BadFileEntryView> {
    match proper {
        None => None,
        Some(p) => entry_for(
            record,
            current,
            verdict(p, current, base_class(p), include_extensionless),
        ),
    }
}

/// Turns a verdict on `record` into its entry, if it calls for one.
pub fn materialize(record: FileEntry, current_extension: String, verdict: Verdict) -> (entry:
    Option<BadFileEntry>)
    ensures
        entry_of(entry) == entry_for(record@, current_extension@, verdict@),
{
    match verdict {
        Verdict::Mismatch(class) => {
            let proper_extensions = class.joined();
            Some(
                BadFileEntry {
                    path: record.path,
                    modified_date: record.modified_date,
                    size: record.size,
                    current_extension,
                    proper_extensions,
                },
            )
        },
        _ => None,
    }
}

/// Classifies a file of which the token of its extension and the extension
/// that its content calls for are at hand. Content of no known type leaves
/// no entry, and the tables are then not consulted.
pub fn classify_token(
    record: FileEntry,
    current_extension: String,
    proper_extension: Option<&str>,
    include_extensionless: bool,
) -> (entry: Option<BadFileEntry>)
    ensures
        entry_of(entry) == classification(
            record@,
            current_extension@,
            text_of(proper_extension),
            include_extensionless,
        ),
{
    match proper_extension {
        None => None,
        Some(proper) => {
            let verdict = resolve(proper, current_extension.as_str(), include_extensionless);
            materialize(record, current_extension, verdict)
        },
    }
}

/// Classifies a file by the extension in its path and the extension that its
/// content calls for. A file whose path holds no dot has no extension and
/// leaves no entry.
pub fn classify(record: FileEntry, proper_extension: Option<&str>, include_extensionless: bool) -> (entry:
    Option<BadFileEntry>)
    ensures
        entry_of(entry) == classification(
            record@,
            path_token(record.path@),
            text_of(proper_extension),
            include_extensionless,
        ),
        !record.path@.contains('.') ==> entry is None,
{
    let current = current_extension(record.path.as_str());
    proof {
        if let Some(p) = proper_extension {
            if current@.len() == 0 {
                assert(current@ =~= Seq::<char>::empty());
                lemma_extensionless_never_mismatch(p@, base_class(p@), include_extensionless);
            }
        }
    }
    classify_token(record, current, proper_extension, include_extensionless)
}

/// A file named with the very extension that its content calls for leaves no
/// entry.
pub proof fn lemma_same_extension_no_entry(
    record: FileEntryView,
    proper: Seq<char>,
    include_extensionless: bool,
)
    ensures
        classification(record, proper, Some(proper), include_extensionless) is None,
{
    lemma_same_extension_is_correct(proper, base_class(proper), include_extensionless);
}

/// A file whose extension is longer than [`MAX_EXTENSION_LENGTH`]
/// characters is classified as the same file without an extension is.
pub proof fn lemma_long_extension_as_none(
    record: FileEntryView,
    spelled: Seq<char>,
    proper: Option<Seq<char>>,
    include_extensionless: bool,
)
    ensures
        lowercased(spelled).len() > MAX_EXTENSION_LENGTH ==> classification(
            record,
            extension_token(Some(spelled)),
            proper,
            include_extensionless,
        ) == classification(record, extension_token(None), proper, include_extensionless),
{
}

/// A file without an extension leaves no entry, whatever its content and
/// whether or not such files are to be reported.
pub proof fn lemma_extensionless_no_entry(
    record: FileEntryView,
    proper: Option<Seq<char>>,
    include_extensionless: bool,
)
    ensures
        classification(record, extension_token(None), proper, include_extensionless) is None,
{
    if let Some(p) = proper {
        lemma_extensionless_never_mismatch(p, base_class(p), include_extensionless);
    }
}

/// Content of no known type leaves no entry.
pub proof fn lemma_unknown_content_no_entry(
    record: FileEntryView,
    current: Seq<char>,
    include_extensionless: bool,
)
    ensures
        classification(record, current, None, include_extensionless) is None,
{
}

} // verus!

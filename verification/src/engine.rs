//! The search for files with the wrong extension: its settings, the steps of
//! a run, and what a run leaves behind.

use vstd::prelude::*;
use crate::classifier::{BadFileEntry, BadFileEntryView, FileEntry, FileEntryView};
use crate::report::{
    findings, findings_text, header_line, header_text, printed_results, printed_text,
};
use crate::scan::{
    any_stopped, collect_outcomes, flagged_entries, visit, visit_outcome, Info, ItemOutcome,
    ItemOutcomeView, RunOutcome,
};
use crate::token::{path_token, text_of};

verus! {

/// Smallest file that is looked at unless the caller says otherwise.
pub const DEFAULT_MINIMAL_FILE_SIZE: u64 = 8192;

/// Texts gathered for the user in the course of a run.
#[derive(Clone, Debug, PartialEq, Eq)]
pub struct Messages {
    pub messages: Vec<String>,
    pub warnings: Vec<String>,
    pub errors: Vec<String>,
}

/// The texts of [`Messages`].
pub ghost struct MessagesView {
    pub messages: Seq<Seq<char>>,
    pub warnings: Seq<Seq<char>>,
    pub errors: Seq<Seq<char>>,
}

impl View for Messages {
    type V = MessagesView;

    open spec fn view(&self) -> MessagesView {
        MessagesView {
            messages: self.messages.deep_view(),
            warnings: self.warnings.deep_view(),
            errors: self.errors.deep_view(),
        }
    }
}

impl Messages {
    /// No texts.
    pub fn new() -> (texts: Self)
        ensures
            texts@ == (MessagesView {
                messages: Seq::empty(),
                warnings: Seq::empty(),
                errors: Seq::empty(),
            }),
    {
        let texts = Messages { messages: Vec::new(), warnings: Vec::new(), errors: Vec::new() };
        assert(texts.messages.deep_view() =~= Seq::<Seq<char>>::empty());
        assert(texts.warnings.deep_view() =~= Seq::<Seq<char>>::empty());
        assert(texts.errors.deep_view() =~= Seq::<Seq<char>>::empty());
        texts
    }
}

/// What the traversal of the directories came to.
#[derive(Debug)]
pub enum DirTraversalResult {
    /// The files found, and what the traversal has to say of places that it
    /// could not read.
    SuccessFiles { file_entries: Vec<FileEntry>, warnings: Vec<String> },
    /// The traversal was stopped on request.
    Stopped,
}

/// The search and its state.
pub struct BadExtensions {
    text_messages: Messages,
    information: Info,
    files_to_check: Vec<FileEntry>,
    bad_extensions_files: Vec<BadFileEntry>,
    minimal_file_size: u64,
    maximal_file_size: u64,
    recursive_search: bool,
    stopped_search: bool,
    save_also_as_json: bool,
    include_files_without_extension: bool,
}

/// The state of a search: its settings, the files that wait to be visited,
/// and the findings with their count.
pub ghost struct BadExtensionsView {
    pub text_messages: MessagesView,
    pub information: Info,
    pub files_to_check: Seq<FileEntryView>,
    pub bad_extensions_files: Seq<BadFileEntryView>,
    pub minimal_file_size: u64,
    pub maximal_file_size: u64,
    pub recursive_search: bool,
    pub stopped_search: bool,
    pub save_also_as_json: bool,
    pub include_files_without_extension: bool,
}

impl View for BadExtensions {
    type V = BadExtensionsView;

    closed spec fn view(&self) -> BadExtensionsView {
        BadExtensionsView {
            text_messages: self.text_messages@,
            information: self.information,
            files_to_check: self.files_to_check.deep_view(),
            bad_extensions_files: self.bad_extensions_files.deep_view(),
            minimal_file_size: self.minimal_file_size,
            maximal_file_size: self.maximal_file_size,
            recursive_search: self.recursive_search,
            stopped_search: self.stopped_search,
            save_also_as_json: self.save_also_as_json,
            include_files_without_extension: self.include_files_without_extension,
        }
    }
}

/// A size limit as it is kept: a limit of zero is taken for one.
pub open spec fn size_limit(requested: u64) -> u64 {
    if requested == 0 {
        1
    } else {
        requested
    }
}

/// The state of a search that has not run.
pub open spec fn initial_state() -> BadExtensionsView {
    BadExtensionsView {
        text_messages: MessagesView {
            messages: Seq::empty(),
            warnings: Seq::empty(),
            errors: Seq::empty(),
        },
        information: Info { number_of_files_with_bad_extension: 0 },
        files_to_check: Seq::empty(),
        bad_extensions_files: Seq::empty(),
        minimal_file_size: DEFAULT_MINIMAL_FILE_SIZE,
        maximal_file_size: u64::MAX,
        recursive_search: true,
        stopped_search: false,
        save_also_as_json: false,
        include_files_without_extension: true,
    }
}

/// The state after the traversal has answered. A traversal that was stopped
/// marks the run as stopped and leaves the rest as it was. Of any other the
/// files wait to be visited, be they none, and the warnings join those at
/// hand; findings, count and the mark of a stop stay as they were.
pub open spec fn after_traversal(
    state: BadExtensionsView,
    stopped: bool,
    file_entries: Seq<FileEntryView>,
    warnings: Seq<Seq<char>>,
) -> BadExtensionsView {
    if stopped {
        BadExtensionsView { stopped_search: true, ..state }
    } else {
        BadExtensionsView {
            files_to_check: file_entries,
            text_messages: MessagesView {
                warnings: state.text_messages.warnings + warnings,
                ..state.text_messages
            },
            ..state
        }
    }
}

/// The state after the files have been visited. A pass that was stopped
/// leaves the mark that it was stopped and nothing of what it found: the
/// findings and the count are those that were there before it. A completed
/// pass leaves its entries, their count and no such mark. Either way no file
/// is left to check.
pub open spec fn after_visits(state: BadExtensionsView, outcomes: Seq<ItemOutcomeView>)
    -> BadExtensionsView {
    if any_stopped(outcomes) {
        BadExtensionsView { files_to_check: Seq::empty(), stopped_search: true, ..state }
    } else {
        BadExtensionsView {
            files_to_check: Seq::empty(),
            bad_extensions_files: flagged_entries(outcomes),
            information: Info {
                number_of_files_with_bad_extension: flagged_entries(outcomes).len() as usize,
            },
            stopped_search: false,
            ..state
        }
    }
}

/// The state after a run of which the traversal and the visits are at hand.
/// Where the traversal was stopped, the visits do not count.
pub open spec fn after_run(
    state: BadExtensionsView,
    traversal: DirTraversalResult,
    outcomes: Seq<ItemOutcomeView>,
) -> BadExtensionsView {
    match traversal {
        DirTraversalResult::SuccessFiles { file_entries, warnings } => after_visits(
            after_traversal(state, false, file_entries.deep_view(), warnings.deep_view()),
            outcomes,
        ),
        DirTraversalResult::Stopped => after_traversal(state, true, Seq::empty(), Seq::empty()),
    }
}

/// The name of the file for a report: `results.txt` where none is given.
pub open spec fn report_file_name(file_name: Seq<char>) -> Seq<char> {
    if file_name.len() == 0 {
        "results.txt"@
    } else {
        file_name
    }
}

/// The step at which saving a report failed.
#[derive(Clone, Copy, Debug, PartialEq, Eq, Structural)]
pub enum SaveStep {
    /// The file could not be created.
    Create,
    /// The file could not be written to.
    Write,
}

/// What is said of a report that could not be saved.
pub open spec fn save_error(step: SaveStep, file_name: Seq<char>, reason: Seq<char>) -> Seq<char> {
    match step {
        SaveStep::Create => "Failed to create file "@ + file_name + ", reason "@ + reason,
        SaveStep::Write => "Failed to save results to file "@ + file_name + ", reason "@ + reason,
    }
}

impl BadExtensions {
    #[verifier::type_invariant]
    spec fn well_formed(&self) -> bool {
        &&& self.information.number_of_files_with_bad_extension == self.bad_extensions_files.len()
        &&& self.minimal_file_size >= 1
        &&& self.maximal_file_size >= 1
    }

    /// A search with the usual settings: files of 8192 bytes and more, of any
    /// size above, directories searched in depth, files without an
    /// extension looked at.
    pub fn new() -> (search: Self)
        ensures
            search@ == initial_state(),
    {
        let search = BadExtensions {
            text_messages: Messages::new(),
            information: Info::new(),
            files_to_check: Vec::new(),
            bad_extensions_files: Vec::new(),
            minimal_file_size: DEFAULT_MINIMAL_FILE_SIZE,
            maximal_file_size: u64::MAX,
            recursive_search: true,
            stopped_search: false,
            save_also_as_json: false,
            include_files_without_extension: true,
        };
        assert(search.files_to_check.deep_view() =~= Seq::<FileEntryView>::empty());
        assert(search.bad_extensions_files.deep_view() =~= Seq::<BadFileEntryView>::empty());
        search
    }

    /// Whether the last run was stopped on request, be it in the traversal or
    /// by a worker; not so before any run. A completed pass clears the mark.
    pub fn get_stopped_search(&self) -> (stopped: bool)
        ensures
            stopped == self@.stopped_search,
    {
        self.stopped_search
    }

    /// The findings of the last run that was completed.
    pub fn get_bad_extensions_files(&self) -> (entries: &Vec<BadFileEntry>)
        ensures
            entries.deep_view() == self@.bad_extensions_files,
            entries.len() == self@.information.number_of_files_with_bad_extension,
    {
        proof {
            use_type_invariant(self);
        }
        &self.bad_extensions_files
    }

    /// Sets the largest size of the files to look at; zero is taken for one.
    pub fn set_maximal_file_size(&mut self, maximal_file_size: u64)
        ensures
            final(self)@ == (BadExtensionsView {
                maximal_file_size: size_limit(maximal_file_size),
                ..old(self)@
            }),
    {
        proof {
            use_type_invariant(&*self);
        }
        self.maximal_file_size = if maximal_file_size == 0 {
            1
        } else {
            maximal_file_size
        };
    }

    /// Sets the smallest size of the files to look at; zero is taken for one.
    pub fn set_minimal_file_size(&mut self, minimal_file_size: u64)
        ensures
            final(self)@ == (BadExtensionsView {
                minimal_file_size: size_limit(minimal_file_size),
                ..old(self)@
            }),
    {
        proof {
            use_type_invariant(&*self);
        }
        self.minimal_file_size = if minimal_file_size == 0 {
            1
        } else {
            minimal_file_size
        };
    }

    /// The texts gathered so far.
    pub fn get_text_messages(&self) -> (texts: &Messages)
        ensures
            texts@ == self@.text_messages,
    {
        &self.text_messages
    }

    /// The counts of the last run that was completed: the number of its
    /// findings.
    pub fn get_information(&self) -> (info: &Info)
        ensures
            *info == self@.information,
            info.number_of_files_with_bad_extension == self@.bad_extensions_files.len(),
    {
        proof {
            use_type_invariant(self);
        }
        &self.information
    }

    /// Sets whether the findings are to be saved as JSON as well.
    pub fn set_save_also_as_json(&mut self, save_also_as_json: bool)
        ensures
            final(self)@ == (BadExtensionsView { save_also_as_json, ..old(self)@ }),
    {
        proof {
            use_type_invariant(&*self);
        }
        self.save_also_as_json = save_also_as_json;
    }

    /// Sets whether directories are searched in depth.
    pub fn set_recursive_search(&mut self, recursive_search: bool)
        ensures
            final(self)@ == (BadExtensionsView { recursive_search, ..old(self)@ }),
    {
        proof {
            use_type_invariant(&*self);
        }
        self.recursive_search = recursive_search;
    }

    /// Sets whether files without an extension are to be reported.
    pub fn set_include_files_without_extension(&mut self, include_files_without_extension: bool)
        ensures
            final(self)@ == (BadExtensionsView { include_files_without_extension, ..old(self)@ }),
    {
        proof {
            use_type_invariant(&*self);
        }
        self.include_files_without_extension = include_files_without_extension;
    }

    /// The smallest size of the files to look at, which is never zero.
    pub fn get_minimal_file_size(&self) -> (size: u64)
        ensures
            size == self@.minimal_file_size,
            size >= 1,
    {
        proof {
            use_type_invariant(self);
        }
        self.minimal_file_size
    }

    /// The largest size of the files to look at, which is never zero.
    pub fn get_maximal_file_size(&self) -> (size: u64)
        ensures
            size == self@.maximal_file_size,
            size >= 1,
    {
        proof {
            use_type_invariant(self);
        }
        self.maximal_file_size
    }

    /// Whether directories are searched in depth.
    pub fn get_recursive_search(&self) -> (recursive: bool)
        ensures
            recursive == self@.recursive_search,
    {
        self.recursive_search
    }

    /// Whether the findings are to be saved as JSON as well.
    pub fn get_save_also_as_json(&self) -> (save: bool)
        ensures
            save == self@.save_also_as_json,
    {
        self.save_also_as_json
    }

    /// Whether files without an extension are to be reported.
    pub fn get_include_files_without_extension(&self) -> (included: bool)
        ensures
            included == self@.include_files_without_extension,
    {
        self.include_files_without_extension
    }

    /// The files that the traversal found and that wait to be visited.
    pub fn get_files_to_check(&self) -> (files: &Vec<FileEntry>)
        ensures
            files.deep_view() == self@.files_to_check,
    {
        &self.files_to_check
    }

    /// Takes in the answer of the traversal: its files wait to be visited and
    /// its warnings join those at hand, or the run is marked as stopped.
    /// Returns whether the run goes on.
    pub fn check_files(&mut self, traversal: DirTraversalResult) -> (goes_on: bool)
        ensures
            goes_on == traversal is SuccessFiles,
            final(self)@ == match traversal {
                DirTraversalResult::SuccessFiles { file_entries, warnings } => after_traversal(
                    old(self)@,
                    false,
                    file_entries.deep_view(),
                    warnings.deep_view(),
                ),
                DirTraversalResult::Stopped => after_traversal(
                    old(self)@,
                    true,
                    Seq::empty(),
                    Seq::empty(),
                ),
            },
    {
        proof {
            use_type_invariant(&*self);
        }
        match traversal {
            DirTraversalResult::SuccessFiles { file_entries, warnings } => {
                let mut taken = BadExtensions::new();
                std::mem::swap(self, &mut taken);
                let BadExtensions {
                    text_messages,
                    information,
                    files_to_check: _,
                    bad_extensions_files,
                    minimal_file_size,
                    maximal_file_size,
                    recursive_search,
                    stopped_search,
                    save_also_as_json,
                    include_files_without_extension,
                } = taken;
                let Messages { messages, warnings: mut all_warnings, errors } = text_messages;
                let mut warnings = warnings;
                let ghost earlier = all_warnings.deep_view();
                let ghost added = warnings.deep_view();
                all_warnings.append(&mut warnings);
                assert(all_warnings.deep_view() =~= earlier + added);
                *self = BadExtensions {
                    text_messages: Messages { messages, warnings: all_warnings, errors },
                    information,
                    files_to_check: file_entries,
                    bad_extensions_files,
                    minimal_file_size,
                    maximal_file_size,
                    recursive_search,
                    stopped_search,
                    save_also_as_json,
                    include_files_without_extension,
                };
                true
            },
            DirTraversalResult::Stopped => {
                self.stopped_search = true;
                false
            },
        }
    }

    /// Visits one of the files under the settings of this search: a worker
    /// that has seen the request to stop leaves the file alone, any other
    /// classifies it by the extension that its content was found to call for.
    pub fn visit(&self, record: FileEntry, stop_requested: bool, proper_extension: Option<&str>) -> (outcome:
        ItemOutcome)
        ensures
            outcome@ == visit_outcome(
                record@,
                path_token(record.path@),
                stop_requested,
                text_of(proper_extension),
                self@.include_files_without_extension,
            ),
            !stop_requested && !record.path@.contains('.') ==> outcome is Clean,
    {
        visit(record, stop_requested, proper_extension, self.include_files_without_extension)
    }

    /// Takes in the visits to the files. A completed pass leaves its findings
    /// and their count; a pass that a worker stopped leaves those that were
    /// there before it. Returns whether the pass was completed.
    pub fn look_for_bad_extensions_files(&mut self, outcomes: Vec<ItemOutcome>) -> (completed: bool)
        ensures
            completed == !any_stopped(outcomes.deep_view()),
            final(self)@ == after_visits(old(self)@, outcomes.deep_view()),
    {
        proof {
            use_type_invariant(&*self);
        }
        match collect_outcomes(outcomes) {
            RunOutcome::Completed(entries, info) => {
                let mut taken = BadExtensions::new();
                std::mem::swap(self, &mut taken);
                let BadExtensions {
                    text_messages,
                    information: _,
                    files_to_check: _,
                    bad_extensions_files: _,
                    minimal_file_size,
                    maximal_file_size,
                    recursive_search,
                    stopped_search: _,
                    save_also_as_json,
                    include_files_without_extension,
                } = taken;
                let files_to_check: Vec<FileEntry> = Vec::new();
                assert(files_to_check.deep_view() =~= Seq::<FileEntryView>::empty());
                *self = BadExtensions {
                    text_messages,
                    information: info,
                    files_to_check,
                    bad_extensions_files: entries,
                    minimal_file_size,
                    maximal_file_size,
                    recursive_search,
                    stopped_search: false,
                    save_also_as_json,
                    include_files_without_extension,
                };
                true
            },
            RunOutcome::Cancelled => {
                let mut taken = BadExtensions::new();
                std::mem::swap(self, &mut taken);
                let BadExtensions {
                    text_messages,
                    information,
                    files_to_check: _,
                    bad_extensions_files,
                    minimal_file_size,
                    maximal_file_size,
                    recursive_search,
                    stopped_search: _,
                    save_also_as_json,
                    include_files_without_extension,
                } = taken;
                let files_to_check: Vec<FileEntry> = Vec::new();
                assert(files_to_check.deep_view() =~= Seq::<FileEntryView>::empty());
                *self = BadExtensions {
                    text_messages,
                    information,
                    files_to_check,
                    bad_extensions_files,
                    minimal_file_size,
                    maximal_file_size,
                    recursive_search,
                    stopped_search: true,
                    save_also_as_json,
                    include_files_without_extension,
                };
                false
            },
        }
    }

    /// Takes in a whole run: the answer of the traversal and, where it was not
    /// stopped, the visits to its files. After it the search says how this
    /// run ended, whatever came of earlier runs: it is marked as stopped where
    /// the traversal or a worker was stopped, with findings and count as they
    /// were before the run, and holds the findings of the run and their count
    /// where it was completed.
    pub fn find_bad_extensions_files(
        &mut self,
        traversal: DirTraversalResult,
        outcomes: Vec<ItemOutcome>,
    )
        ensures
            final(self)@ == after_run(old(self)@, traversal, outcomes.deep_view()),
            final(self)@.information.number_of_files_with_bad_extension
                == final(self)@.bad_extensions_files.len(),
            final(self)@.stopped_search == (traversal is Stopped || any_stopped(
                outcomes.deep_view(),
            )),
    {
        if !self.check_files(traversal) {
            proof {
                use_type_invariant(&*self);
            }
            return ;
        }
        self.look_for_bad_extensions_files(outcomes);
        proof {
            use_type_invariant(&*self);
        }
    }

    /// The name of the file to save a report to.
    pub fn results_file_name(file_name: &str) -> (name: String)
        ensures
            name@ == report_file_name(file_name@),
    {
        if file_name.is_empty() {
            "results.txt".to_owned()
        } else {
            file_name.to_owned()
        }
    }

    /// The report to save: a line on what was searched, then the findings.
    pub fn results_text(
        &self,
        included_directories: &Vec<String>,
        excluded_directories: &Vec<String>,
        excluded_items: &Vec<String>,
    ) -> (text: String)
        ensures
            text@ == header_line(
                included_directories.deep_view(),
                excluded_directories.deep_view(),
                excluded_items.deep_view(),
            ) + findings(
                self@.bad_extensions_files,
                self@.information.number_of_files_with_bad_extension as nat,
            ),
    {
        let mut text = header_text(included_directories, excluded_directories, excluded_items);
        let body = findings_text(
            &self.bad_extensions_files,
            self.information.number_of_files_with_bad_extension,
        );
        text.append(body.as_str());
        text
    }

    /// The findings as they are printed.
    pub fn print_text(&self) -> (text: String)
        ensures
            text@ == printed_results(
                self@.bad_extensions_files,
                self@.information.number_of_files_with_bad_extension as nat,
            ),
    {
        printed_text(
            &self.bad_extensions_files,
            self.information.number_of_files_with_bad_extension,
        )
    }

    /// Notes among the errors that the report could not be saved.
    pub fn save_failed(&mut self, step: SaveStep, file_name: &str, reason: &str)
        ensures
            final(self)@ == (BadExtensionsView {
                text_messages: MessagesView {
                    errors: old(self)@.text_messages.errors.push(
                        save_error(step, file_name@, reason@),
                    ),
                    ..old(self)@.text_messages
                },
                ..old(self)@
            }),
    {
        proof {
            use_type_invariant(&*self);
        }
        let mut text = match step {
            SaveStep::Create => "Failed to create file ".to_owned(),
            SaveStep::Write => "Failed to save results to file ".to_owned(),
        };
        text.append(file_name);
        text.append(", reason ");
        text.append(reason);
        let mut taken = BadExtensions::new();
        std::mem::swap(self, &mut taken);
        let BadExtensions {
            text_messages,
            information,
            files_to_check,
            bad_extensions_files,
            minimal_file_size,
            maximal_file_size,
            recursive_search,
            stopped_search,
            save_also_as_json,
            include_files_without_extension,
        } = taken;
        let Messages { messages, warnings, mut errors } = text_messages;
        let ghost earlier = errors.deep_view();
        errors.push(text);
        assert(errors.deep_view() =~= earlier.push(save_error(step, file_name@, reason@)));
        *self = BadExtensions {
            text_messages: Messages { messages, warnings, errors },
            information,
            files_to_check,
            bad_extensions_files,
            minimal_file_size,
            maximal_file_size,
            recursive_search,
            stopped_search,
            save_also_as_json,
            include_files_without_extension,
        };
    }
}

impl Default for BadExtensions {
    fn default() -> (search: Self)
        ensures
            search@ == initial_state(),
    {
        BadExtensions::new()
    }
}

} // verus!

//! Deleting the selected rows of a list of results: which rows go, which
//! files, and what the user is asked first.

use vstd::prelude::*;
use crate::order::{insert_in_order, key_order, keys, lemma_increasing_unique, Keyed};
use crate::token::{
    lemma_less_asymmetric, lemma_less_irreflexive, lemma_less_total, lemma_less_transitive,
    token_less, token_order, TokenOrder,
};

verus! {

/// What a row of a list of results is.
#[derive(Clone, Copy, Debug, PartialEq, Eq, Structural)]
pub enum RowKind {
    /// The row that stands before the files of a group.
    Header,
    /// A row for a file or folder.
    Record,
}

/// A row of a list of results, as far as deleting reads it.
#[derive(Clone, Debug, PartialEq, Eq)]
pub struct Row {
    pub kind: RowKind,
    pub selected: bool,
    pub path: String,
    pub name: String,
}

/// A row as a value of specifications.
pub ghost struct RowView {
    pub kind: RowKind,
    pub selected: bool,
    pub path: Seq<char>,
    pub name: Seq<char>,
}

impl View for Row {
    type V = RowView;

    open spec fn view(&self) -> RowView {
        RowView { kind: self.kind, selected: self.selected, path: self.path@, name: self.name@ }
    }
}

impl DeepView for Row {
    type V = RowView;

    open spec fn deep_view(&self) -> RowView {
        self@
    }
}

/// `picked` names the selected rows, each once, the last row first.
pub open spec fn lists_selected(rows: Seq<RowView>, picked: Seq<usize>) -> bool {
    &&& forall|k: int| 0 <= k < picked.len() ==> #[trigger] picked[k] < rows.len() && rows[picked[k] as int].selected
    &&& forall|k: int, m: int| 0 <= k < m < picked.len() ==> picked[k] > picked[m]
    &&& forall|i: int|
        0 <= i < rows.len() && (#[trigger] rows[i]).selected ==> exists|k: int|
            0 <= k < picked.len() && picked[k] == i
}

/// The selected rows, from the last to the first: the order in which rows
/// are taken out of a list, so that the places of those still to go do not
/// shift.
pub fn selected_rows(rows: &Vec<Row>) -> (picked: Vec<usize>)
    ensures
        lists_selected(rows.deep_view(), picked@),
{
    let ghost all = rows.deep_view();
    let mut picked: Vec<usize> = Vec::new();
    let mut i: usize = rows.len();
    while i > 0
        invariant
            all == rows.deep_view(),
            i <= rows.len(),
            forall|k: int|
                0 <= k < picked.len() ==> i <= #[trigger] picked[k] < rows.len()
                    && all[picked[k] as int].selected,
            forall|k: int, m: int| 0 <= k < m < picked.len() ==> picked[k] > picked[m],
            forall|j: int|
                i <= j < rows.len() && (#[trigger] all[j]).selected ==> exists|k: int|
                    0 <= k < picked.len() && picked[k] == j,
        decreases i,
    {
        i -= 1;
        let ghost before = picked@;
        if rows[i].selected {
            picked.push(i);
        }
        proof {
            assert(all[i as int] == rows[i as int]@);
            assert forall|j: int| i <= j < rows.len() && (#[trigger] all[j]).selected implies exists|
                k: int,
            | 0 <= k < picked.len() && picked[k] == j by {
                if j == i {
                    assert(picked[picked.len() - 1] == i);
                } else {
                    let k = choose|k: int| 0 <= k < before.len() && before[k] == j;
                    assert(picked[k] == j);
                }
            }
        }
    }
    picked
}

/// The rows from `header` up to `end` are a group all of whose files are
/// selected: a header row, then selected rows up to the next header or the
/// end of the list.
pub open spec fn whole_group_selected(rows: Seq<RowView>, header: int, end: int) -> bool {
    &&& 0 <= header < end <= rows.len()
    &&& rows[header].kind == RowKind::Header
    &&& end < rows.len() ==> rows[end].kind == RowKind::Header
    &&& forall|j: int|
        header < j < end ==> (#[trigger] rows[j]).kind == RowKind::Record && rows[j].selected
}

/// Whether deleting the selected rows would leave some group without any of
/// its files. In a list whose first header carries a path, the first group
/// stands for files that are kept whatever is deleted, and the answer is no.
pub open spec fn deletes_whole_group(rows: Seq<RowView>) -> bool {
    rows.len() > 0 && rows[0].path.len() == 0 && exists|header: int, end: int|
        whole_group_selected(rows, header, end)
}

/// Whether deleting the selected rows would leave some group without any of
/// its files.
pub fn all_files_in_group_selected(rows: &Vec<Row>) -> (whole: bool)
    requires
        rows.len() > 0 ==> rows[0].kind == RowKind::Header,
    ensures
        whole == deletes_whole_group(rows.deep_view()),
{
    let ghost all = rows.deep_view();
    if rows.len() == 0 {
        return false;
    }
    assert(all[0] == rows[0]@);
    if !rows[0].path.as_str().is_empty() {
        return false;
    }
    let mut selected_all = true;
    let ghost mut start: int = 0;
    let mut i: usize = 1;
    while i < rows.len()
        invariant
            all == rows.deep_view(),
            1 <= i <= rows.len(),
            all[0].path.len() == 0,
            0 <= start < i,
            all[start].kind == RowKind::Header,
            forall|j: int| start < j < i ==> (#[trigger] all[j]).kind == RowKind::Record,
            selected_all == (forall|j: int| start < j < i ==> (#[trigger] all[j]).selected),
            forall|header: int, end: int|
                #[trigger] whole_group_selected(all, header, end) ==> header >= start,
        decreases rows.len() - i,
    {
        assert(all[i as int] == rows[i as int]@);
        match rows[i].kind {
            RowKind::Header => {
                if selected_all {
                    assert(whole_group_selected(all, start, i as int));
                    return true;
                }
                proof {
                    assert forall|header: int, end: int| #[trigger]
                        whole_group_selected(all, header, end) implies header >= i by {
                        if header == start {
                            if end > i {
                                assert(all[i as int].kind == RowKind::Record);
                            }
                            if end < i {
                                assert(all[end].kind == RowKind::Record);
                            }
                        } else if start < header < i {
                            assert(all[header].kind == RowKind::Record);
                        }
                    }
                    start = i as int;
                }
                selected_all = true;
            },
            RowKind::Record => {
                if !rows[i].selected {
                    selected_all = false;
                }
            },
        }
        i += 1;
    }
    proof {
        if selected_all {
            assert(whole_group_selected(all, start, all.len() as int));
        } else {
            assert forall|header: int, end: int| !whole_group_selected(all, header, end) by {
                if whole_group_selected(all, header, end) {
                    if header == start {
                        if end < all.len() {
                            assert(all[end].kind == RowKind::Record);
                        }
                    } else {
                        assert(all[header].kind == RowKind::Record);
                    }
                }
            }
        }
    }
    selected_all
}

/// A file to delete: the directory it is in, and its name.
pub type Target = (Seq<char>, Seq<char>);

/// The order in which files are deleted: by directory, and within a
/// directory by name.
pub open spec fn target_less(a: Target, b: Target) -> bool {
    token_less(a.0, b.0) || (a.0 == b.0 && token_less(a.1, b.1))
}

/// Each file comes before all that follow it, so none occurs twice.
pub open spec fn targets_increasing(l: Seq<Target>) -> bool {
    forall|i: int, j: int| 0 <= i < j < l.len() ==> target_less(#[trigger] l[i], #[trigger] l[j])
}

/// The files of the first `n` rows that are selected.
pub open spec fn selected_among(rows: Seq<RowView>, n: int) -> Set<Target> {
    Set::new(
        |t: Target|
            exists|i: int|
                0 <= i < n && i < rows.len() && (#[trigger] rows[i]).selected && (
                rows[i].path,
                rows[i].name,
            ) == t,
    )
}

/// The files of the selected rows.
pub open spec fn selected_files(rows: Seq<RowView>) -> Set<Target> {
    selected_among(rows, rows.len() as int)
}

proof fn lemma_target_less_transitive(a: Target, b: Target, c: Target)
    requires
        target_less(a, b),
        target_less(b, c),
    ensures
        target_less(a, c),
{
    lemma_less_irreflexive(a.0);
    lemma_less_irreflexive(c.0);
    if token_less(a.0, b.0) && token_less(b.0, c.0) {
        lemma_less_transitive(a.0, b.0, c.0);
    }
    if a.0 == b.0 && b.0 == c.0 {
        lemma_less_transitive(a.1, b.1, c.1);
    }
}

/// The files to delete have at most one listing in the order of deletion.
pub proof fn lemma_targets_unique(a: Seq<Target>, b: Seq<Target>)
    requires
        targets_increasing(a),
        targets_increasing(b),
        a.to_set() == b.to_set(),
    ensures
        a == b,
{
    <(String, String)>::lemma_keys_are_ordered();
    lemma_increasing_unique(a, b, key_order::<(String, String)>());
}

/// Files are kept in the order of deletion.
impl Keyed for (String, String) {
    type Key = Target;

    open spec fn key(&self) -> Target {
        (self.0@, self.1@)
    }

    open spec fn key_less(a: Target, b: Target) -> bool {
        target_less(a, b)
    }

    proof fn lemma_keys_are_ordered() {
        assert forall|a: Target| !#[trigger] Self::key_less(a, a) by {
            lemma_less_irreflexive(a.0);
            lemma_less_irreflexive(a.1);
        }
        assert forall|a: Target, b: Target, c: Target| #[trigger]
            Self::key_less(a, b) && #[trigger] Self::key_less(b, c) implies Self::key_less(
            a,
            c,
        ) by {
            lemma_target_less_transitive(a, b, c);
        }
        assert forall|a: Target, b: Target|
            a == b || #[trigger] Self::key_less(a, b) || Self::key_less(b, a) by {
            lemma_less_total(a.0, b.0);
            lemma_less_total(a.1, b.1);
        }
    }

    fn place(&self, other: &Self) -> (r: TokenOrder) {
        proof {
            lemma_less_total(self.0@, other.0@);
            lemma_less_total(self.1@, other.1@);
            lemma_less_irreflexive(self.0@);
            lemma_less_irreflexive(self.1@);
            if token_less(self.0@, other.0@) {
                lemma_less_asymmetric(self.0@, other.0@);
            }
            if token_less(other.0@, self.0@) {
                lemma_less_asymmetric(other.0@, self.0@);
            }
            if token_less(self.1@, other.1@) {
                lemma_less_asymmetric(self.1@, other.1@);
            }
            if token_less(other.1@, self.1@) {
                lemma_less_asymmetric(other.1@, self.1@);
            }
        }
        match token_order(self.0.as_str(), other.0.as_str()) {
            TokenOrder::Same => token_order(self.1.as_str(), other.1.as_str()),
            o => o,
        }
    }
}

/// The files to delete for the selected rows of a list in groups, where the
/// same file may stand in several rows: each file once, by directory and
/// name. A header row is never selected.
pub fn deletion_targets(rows: &Vec<Row>) -> (targets: Vec<(String, String)>)
    requires
        forall|i: int|
            0 <= i < rows.len() && (#[trigger] rows[i]).selected ==> rows[i].kind
                == RowKind::Record,
    ensures
        targets_increasing(targets.deep_view()),
        targets.deep_view().to_set() == selected_files(rows.deep_view()),
{
    let ghost all = rows.deep_view();
    let mut targets: Vec<(String, String)> = Vec::new();
    assert(targets.deep_view().to_set() =~= selected_among(all, 0));
    let mut i: usize = 0;
    while i < rows.len()
        invariant
            all == rows.deep_view(),
            i <= rows.len(),
            targets_increasing(targets.deep_view()),
            targets.deep_view().to_set() == selected_among(all, i as int),
        decreases rows.len() - i,
    {
        let ghost earlier = selected_among(all, i as int);
        assert(all[i as int] == rows[i as int]@);
        if rows[i].selected {
            assert(keys(targets@) =~= targets.deep_view());
            insert_in_order(
                &mut targets,
                (rows[i].path.as_str().to_owned(), rows[i].name.as_str().to_owned()),
            );
            assert(keys(targets@) =~= targets.deep_view());
        }
        proof {
            let later = selected_among(all, i + 1);
            let item: Target = (all[i as int].path, all[i as int].name);
            assert forall|t: Target| later.contains(t) <==> (earlier.contains(t) || (all[i as int].selected
                && t == item)) by {
                if later.contains(t) {
                    let w = choose|w: int|
                        0 <= w < i + 1 && w < all.len() && (#[trigger] all[w]).selected && (
                        all[w].path,
                        all[w].name,
                    ) == t;
                    if w < i {
                        assert(earlier.contains(t));
                    }
                }
                if earlier.contains(t) {
                    let w = choose|w: int|
                        0 <= w < i && w < all.len() && (#[trigger] all[w]).selected && (
                        all[w].path,
                        all[w].name,
                    ) == t;
                    assert(0 <= w < i + 1 && all[w].selected);
                }
                if all[i as int].selected && t == item {
                    assert(later.contains(t));
                }
            }
            assert(targets.deep_view().to_set() =~= later);
        }
        i += 1;
    }
    targets
}

/// The full name of what is called `name` in the directory `path`.
pub fn full_name(path: &str, name: &str) -> (full: String)
    ensures
        full@ == path@ + "/"@ + name@,
{
    let mut full = path.to_owned();
    full.append("/");
    full.append(name);
    full
}

/// An item of a folder, as the check for empty folders reads it.
#[derive(Clone, Debug, PartialEq, Eq)]
pub enum FolderItem {
    /// A folder, with its name.
    Folder(String),
    /// Anything that is not a folder.
    Other,
    /// An item of which nothing could be learned, or a folder whose name is
    /// no text.
    Unreadable,
}

/// An item of a folder as a value of specifications.
pub ghost enum FolderItemView {
    Folder(Seq<char>),
    Other,
    Unreadable,
}

impl View for FolderItem {
    type V = FolderItemView;

    open spec fn view(&self) -> FolderItemView {
        match self {
            FolderItem::Folder(name) => FolderItemView::Folder(name@),
            FolderItem::Other => FolderItemView::Other,
            FolderItem::Unreadable => FolderItemView::Unreadable,
        }
    }
}

impl DeepView for FolderItem {
    type V = FolderItemView;

    open spec fn deep_view(&self) -> FolderItemView {
        self@
    }
}

/// The check whether a folder holds nothing but folders that hold nothing
/// but folders, and so on: the folders still to be listed, and whether
/// something else was met.
pub struct FolderCheck {
    pending: Vec<String>,
    failed: bool,
}

/// The state of a check: the folders still to be listed, the next one last,
/// and whether the check has failed.
pub ghost struct FolderCheckView {
    pub pending: Seq<Seq<char>>,
    pub failed: bool,
}

impl View for FolderCheck {
    type V = FolderCheckView;

    closed spec fn view(&self) -> FolderCheckView {
        FolderCheckView { pending: self.pending.deep_view(), failed: self.failed }
    }
}

/// Whether a listing holds folders only.
pub open spec fn folders_only(items: Seq<FolderItemView>) -> bool {
    forall|i: int| 0 <= i < items.len() ==> (#[trigger] items[i]) is Folder
}

/// The folders of a listing of `folder`, each as `folder`, a slash and its
/// name, in the order of the listing.
pub open spec fn subfolders(folder: Seq<char>, items: Seq<FolderItemView>) -> Seq<Seq<char>>
    decreases items.len(),
{
    if items.len() == 0 {
        Seq::empty()
    } else {
        let earlier = subfolders(folder, items.drop_last());
        match items.last() {
            FolderItemView::Folder(name) => earlier.push(folder + "/"@ + name),
            _ => earlier,
        }
    }
}

/// The check after `folder` was listed, `None` standing for a folder that
/// could not be read. A listing of folders only adds them to those still to
/// be listed; any other fails the check.
pub open spec fn after_listing(
    check: FolderCheckView,
    folder: Seq<char>,
    items: Option<Seq<FolderItemView>>,
) -> FolderCheckView {
    match items {
        Some(list) => if folders_only(list) {
            FolderCheckView { pending: check.pending + subfolders(folder, list), ..check }
        } else {
            FolderCheckView { failed: true, ..check }
        },
        None => FolderCheckView { failed: true, ..check },
    }
}

/// The listing in an optional list of items.
pub open spec fn listing_of(items: Option<Vec<FolderItem>>) -> Option<Seq<FolderItemView>> {
    match items {
        Some(list) => Some(list.deep_view()),
        None => None,
    }
}

impl FolderCheck {
    /// The check of `folder`, of which nothing has been listed yet.
    pub fn start(folder: String) -> (check: Self)
        ensures
            check@ == (FolderCheckView { pending: seq![folder@], failed: false }),
    {
        let mut pending: Vec<String> = Vec::new();
        pending.push(folder);
        assert(pending.deep_view() =~= seq![folder@]);
        FolderCheck { pending, failed: false }
    }

    /// The folder to list next, the one noted last; `None` when the check is
    /// over, be it failed or with no folder left.
    pub fn next_folder(&mut self) -> (folder: Option<String>)
        ensures
            match folder {
                Some(f) => !old(self)@.failed && old(self)@.pending.len() > 0 && f@ == old(
                    self,
                )@.pending.last() && final(self)@ == (FolderCheckView {
                    pending: old(self)@.pending.drop_last(),
                    failed: false,
                }),
                None => (old(self)@.failed || old(self)@.pending.len() == 0) && final(self)@ == old(
                    self,
                )@,
            },
    {
        if self.failed {
            return None;
        }
        let ghost before = self.pending.deep_view();
        let folder = self.pending.pop();
        proof {
            if folder is Some {
                assert(self.pending.deep_view() =~= before.drop_last());
            } else {
                assert(self.pending.deep_view() =~= before);
            }
        }
        folder
    }

    /// Takes in the listing of `folder`, `None` for a folder that could not
    /// be read.
    pub fn listed(&mut self, folder: &str, items: Option<Vec<FolderItem>>)
        ensures
            final(self)@ == after_listing(old(self)@, folder@, listing_of(items)),
    {
        match items {
            None => {
                self.failed = true;
            },
            Some(list) => {
                let ghost all = list.deep_view();
                let ghost start = self.pending.deep_view();
                let mut found: Vec<String> = Vec::new();
                let mut i: usize = 0;
                assert(all.take(0) =~= Seq::<FolderItemView>::empty());
                assert(found.deep_view() =~= subfolders(folder@, all.take(0)));
                while i < list.len()
                    invariant
                        *self == *old(self),
                        start == self.pending.deep_view(),
                        listing_of(items) == Some(all),
                        all == list.deep_view(),
                        i <= list.len(),
                        folders_only(all.take(i as int)),
                        found.deep_view() == subfolders(folder@, all.take(i as int)),
                    decreases list.len() - i,
                {
                    assert(all[i as int] == list[i as int]@);
                    assert(all.take(i + 1).drop_last() =~= all.take(i as int));
                    assert(all.take(i + 1).last() == all[i as int]);
                    match &list[i] {
                        FolderItem::Folder(name) => {
                            let next = full_name(folder, name.as_str());
                            let ghost before = found.deep_view();
                            found.push(next);
                            assert(found.deep_view() =~= before.push(folder@ + "/"@ + name@));
                            assert forall|k: int| 0 <= k < i + 1 implies (#[trigger] all.take(
                                i + 1,
                            )[k]) is Folder by {
                                if k < i {
                                    assert(all.take(i as int)[k] is Folder);
                                }
                            }
                        },
                        _ => {
                            assert(0 <= i < all.len() && !(all[i as int] is Folder));
                            assert(!folders_only(all));
                            self.failed = true;
                            return ;
                        },
                    }
                    i += 1;
                }
                assert(all.take(i as int) =~= all);
                self.pending.append(&mut found);
                assert(self.pending.deep_view() =~= start + subfolders(folder@, all));
            },
        }
    }

    /// Whether the check is over and met folders only, so that the folder
    /// may go with all that is in it.
    pub fn only_empty_folders(&self) -> (empty: bool)
        ensures
            empty == (!self@.failed && self@.pending.len() == 0),
    {
        !self.failed && self.pending.len() == 0
    }
}

/// The texts, each followed by a line break.
pub open spec fn lines(texts: Seq<Seq<char>>) -> Seq<char>
    decreases texts.len(),
{
    if texts.len() == 0 {
        Seq::empty()
    } else {
        lines(texts.drop_last()) + texts.last() + "\n"@
    }
}

/// What is shown of the files that could not be deleted: one line for each.
pub fn failure_text(failures: &Vec<String>) -> (text: String)
    ensures
        text@ == lines(failures.deep_view()),
{
    let ghost all = failures.deep_view();
    let mut text = String::new();
    let mut i: usize = 0;
    assert(all.take(0) =~= Seq::<Seq<char>>::empty());
    while i < failures.len()
        invariant
            all == failures.deep_view(),
            i <= failures.len(),
            text@ == lines(all.take(i as int)),
        decreases failures.len() - i,
    {
        text.append(failures[i].as_str());
        text.append("\n");
        proof {
            assert(all.take(i + 1).drop_last() =~= all.take(i as int));
            assert(all.take(i + 1).last() == failures[i as int]@);
        }
        i += 1;
    }
    assert(all.take(i as int) =~= all);
    text
}

/// What the user answered to a question put before deleting.
#[derive(Clone, Copy, Debug, PartialEq, Eq, Structural)]
pub enum DialogAnswer {
    /// Go on; and whether the question is to be put again next time.
    Confirmed { ask_next_time: bool },
    /// Do not go on.
    Dismissed,
}

/// The kind of list that the rows are in.
#[derive(Clone, Copy, Debug, PartialEq, Eq, Structural)]
pub enum ListKind {
    /// Files in groups, each group under a header row.
    Grouped,
    /// Folders found to be empty.
    EmptyDirectories,
    /// Files, one to a row.
    Plain,
}

/// The way in which the selected rows are removed.
#[derive(Clone, Copy, Debug, PartialEq, Eq, Structural)]
pub enum Removal {
    /// Each file once, though it may stand in several rows of a list in
    /// groups.
    Grouped,
    /// Folders, each only if it holds nothing but empty folders.
    EmptyFolders,
    /// Files, row by row.
    Files,
}

/// Which questions are put before deleting.
#[derive(Clone, Copy, Debug, PartialEq, Eq, Structural)]
pub struct DeleteSettings {
    pub confirm_deletion: bool,
    pub confirm_group_deletion: bool,
}

/// What has just happened in the course of a request to delete.
#[derive(Clone, Copy, Debug, PartialEq, Eq, Structural)]
pub enum DeleteEvent {
    /// The user asked to delete the selected rows.
    Requested,
    /// The user answered whether to delete at all.
    DeletionAnswered(DialogAnswer),
    /// The user answered whether to delete all files of a group.
    GroupDeletionAnswered(DialogAnswer),
}

/// What is to be done next.
#[derive(Clone, Copy, Debug, PartialEq, Eq, Structural)]
pub enum DeleteAction {
    /// Nothing: the request is over.
    Nothing,
    /// Ask whether to delete at all, and come back with the answer.
    AskDeletion,
    /// Ask whether to delete all files of a group, and come back with the
    /// answer.
    AskGroupDeletion,
    /// Remove the selected rows; with that the request is over.
    Remove(Removal),
}

/// One step of a request to delete: what to do, the settings as they are
/// after it, and whether a preview on show is to be hidden.
#[derive(Clone, Copy, Debug, PartialEq, Eq, Structural)]
pub struct DeleteStep {
    pub action: DeleteAction,
    pub settings: DeleteSettings,
    pub hide_preview: bool,
}

/// The step once it is settled that rows are to go: a list in groups is
/// asked about first where that is wanted and some group would lose all its
/// files.
pub open spec fn removal_step(
    list: ListKind,
    has_preview: bool,
    whole_group: bool,
    settings: DeleteSettings,
) -> DeleteStep {
    match list {
        ListKind::Grouped => if settings.confirm_group_deletion && whole_group {
            DeleteStep { action: DeleteAction::AskGroupDeletion, settings, hide_preview: false }
        } else {
            DeleteStep {
                action: DeleteAction::Remove(Removal::Grouped),
                settings,
                hide_preview: has_preview,
            }
        },
        ListKind::EmptyDirectories => DeleteStep {
            action: DeleteAction::Remove(Removal::EmptyFolders),
            settings,
            hide_preview: has_preview,
        },
        ListKind::Plain => DeleteStep {
            action: DeleteAction::Remove(Removal::Files),
            settings,
            hide_preview: has_preview,
        },
    }
}

/// The step that follows an event. With no row selected nothing happens. A
/// question is put only where the settings want it; an answer that declines
/// to be asked again switches the question off, and no answer switches one
/// on; a dismissed question ends the request without any removal.
pub open spec fn delete_step(
    event: DeleteEvent,
    selected_items: u64,
    list: ListKind,
    has_preview: bool,
    whole_group: bool,
    settings: DeleteSettings,
) -> DeleteStep {
    match event {
        DeleteEvent::Requested => if selected_items == 0 {
            DeleteStep { action: DeleteAction::Nothing, settings, hide_preview: false }
        } else if settings.confirm_deletion {
            DeleteStep { action: DeleteAction::AskDeletion, settings, hide_preview: false }
        } else {
            removal_step(list, has_preview, whole_group, settings)
        },
        DeleteEvent::DeletionAnswered(DialogAnswer::Confirmed { ask_next_time }) => removal_step(
            list,
            has_preview,
            whole_group,
            DeleteSettings {
                confirm_deletion: settings.confirm_deletion && ask_next_time,
                ..settings
            },
        ),
        DeleteEvent::DeletionAnswered(DialogAnswer::Dismissed) => DeleteStep {
            action: DeleteAction::Nothing,
            settings,
            hide_preview: false,
        },
        DeleteEvent::GroupDeletionAnswered(DialogAnswer::Confirmed { ask_next_time }) => DeleteStep {
            action: DeleteAction::Remove(Removal::Grouped),
            settings: DeleteSettings {
                confirm_group_deletion: settings.confirm_group_deletion && ask_next_time,
                ..settings
            },
            hide_preview: has_preview,
        },
        DeleteEvent::GroupDeletionAnswered(DialogAnswer::Dismissed) => DeleteStep {
            action: DeleteAction::Nothing,
            settings,
            hide_preview: has_preview,
        },
    }
}

/// Whether the step that follows an event looks at the rows. It does so
/// once it is settled that rows are to go, be it by a request that needs no
/// confirmation or by a confirmed one, and only for a list in groups with the
/// question about whole groups switched on.
pub open spec fn reads_rows(
    event: DeleteEvent,
    selected_items: u64,
    list: ListKind,
    settings: DeleteSettings,
) -> bool {
    &&& list == ListKind::Grouped
    &&& settings.confirm_group_deletion
    &&& match event {
        DeleteEvent::Requested => selected_items > 0 && !settings.confirm_deletion,
        DeleteEvent::DeletionAnswered(DialogAnswer::Confirmed { .. }) => true,
        _ => false,
    }
}

/// Whether the step that follows an event looks at the rows.
pub fn step_reads_rows(
    event: DeleteEvent,
    selected_items: u64,
    list: ListKind,
    settings: DeleteSettings,
) -> (reads: bool)
    ensures
        reads == reads_rows(event, selected_items, list, settings),
{
    let settled = match event {
        DeleteEvent::Requested => selected_items > 0 && !settings.confirm_deletion,
        DeleteEvent::DeletionAnswered(answer) => match answer {
            DialogAnswer::Confirmed { ask_next_time: _ } => true,
            DialogAnswer::Dismissed => false,
        },
        DeleteEvent::GroupDeletionAnswered(_) => false,
    };
    settled && list == ListKind::Grouped && settings.confirm_group_deletion
}

/// Decides how the selected rows are removed once it is settled that they
/// are to go. The rows are read only for a list in groups with the
/// question about whole groups switched on.
fn plan_removal(list: ListKind, has_preview: bool, rows: &Vec<Row>, settings: DeleteSettings) -> (step:
    DeleteStep)
    requires
        list == ListKind::Grouped && settings.confirm_group_deletion && rows.len() > 0 ==> rows[0].kind
            == RowKind::Header,
    ensures
        step == removal_step(list, has_preview, deletes_whole_group(rows.deep_view()), settings),
{
    match list {
        ListKind::Grouped => {
            if settings.confirm_group_deletion && all_files_in_group_selected(rows) {
                DeleteStep { action: DeleteAction::AskGroupDeletion, settings, hide_preview: false }
            } else {
                DeleteStep {
                    action: DeleteAction::Remove(Removal::Grouped),
                    settings,
                    hide_preview: has_preview,
                }
            }
        },
        ListKind::EmptyDirectories => DeleteStep {
            action: DeleteAction::Remove(Removal::EmptyFolders),
            settings,
            hide_preview: has_preview,
        },
        ListKind::Plain => DeleteStep {
            action: DeleteAction::Remove(Removal::Files),
            settings,
            hide_preview: has_preview,
        },
    }
}

/// Decides what follows an event in the course of a request to delete the
/// selected rows. Where the step looks at the rows, they begin with a header
/// row; where it does not, they may be any.
pub fn plan_deletion(
    event: DeleteEvent,
    selected_items: u64,
    list: ListKind,
    has_preview: bool,
    rows: &Vec<Row>,
    settings: DeleteSettings,
) -> (step: DeleteStep)
    requires
        reads_rows(event, selected_items, list, settings) && rows.len() > 0 ==> rows[0].kind
            == RowKind::Header,
    ensures
        step == delete_step(
            event,
            selected_items,
            list,
            has_preview,
            deletes_whole_group(rows.deep_view()),
            settings,
        ),
{
    match event {
        DeleteEvent::Requested => {
            if selected_items == 0 {
                DeleteStep { action: DeleteAction::Nothing, settings, hide_preview: false }
            } else if settings.confirm_deletion {
                DeleteStep { action: DeleteAction::AskDeletion, settings, hide_preview: false }
            } else {
                plan_removal(list, has_preview, rows, settings)
            }
        },
        DeleteEvent::DeletionAnswered(answer) => match answer {
            DialogAnswer::Confirmed { ask_next_time } => plan_removal(
                list,
                has_preview,
                rows,
                DeleteSettings {
                    confirm_deletion: settings.confirm_deletion && ask_next_time,
                    confirm_group_deletion: settings.confirm_group_deletion,
                },
            ),
            DialogAnswer::Dismissed => DeleteStep {
                action: DeleteAction::Nothing,
                settings,
                hide_preview: false,
            },
        },
        DeleteEvent::GroupDeletionAnswered(answer) => match answer {
            DialogAnswer::Confirmed { ask_next_time } => DeleteStep {
                action: DeleteAction::Remove(Removal::Grouped),
                settings: DeleteSettings {
                    confirm_deletion: settings.confirm_deletion,
                    confirm_group_deletion: settings.confirm_group_deletion && ask_next_time,
                },
                hide_preview: has_preview,
            },
            DialogAnswer::Dismissed => DeleteStep {
                action: DeleteAction::Nothing,
                settings,
                hide_preview: has_preview,
            },
        },
    }
}

} // verus!

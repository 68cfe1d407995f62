//! One pass over the files: what becomes of each file that a worker visits,
//! what the visits add up to, and what is told of the pass while it runs.

use vstd::prelude::*;
use crate::classifier::{
    classification, classify, BadFileEntry, BadFileEntryView, FileEntry, FileEntryView,
};
use crate::token::{path_token, text_of};

verus! {

/// What a visit to one file came to.
#[derive(Clone, Debug, PartialEq, Eq)]
pub enum ItemOutcome {
    /// The worker saw the request to stop and did not look at the file.
    Stopped,
    /// The file was looked at and leaves no entry.
    Clean,
    /// The file was looked at and its name does not fit.
    Flagged(BadFileEntry),
}

/// The outcome of a visit as a value of specifications.
pub ghost enum ItemOutcomeView {
    Stopped,
    Clean,
    Flagged(BadFileEntryView),
}

impl View for ItemOutcome {
    type V = ItemOutcomeView;

    open spec fn view(&self) -> ItemOutcomeView {
        match self {
            ItemOutcome::Stopped => ItemOutcomeView::Stopped,
            ItemOutcome::Clean => ItemOutcomeView::Clean,
            ItemOutcome::Flagged(entry) => ItemOutcomeView::Flagged(entry@),
        }
    }
}

impl DeepView for ItemOutcome {
    type V = ItemOutcomeView;

    open spec fn deep_view(&self) -> ItemOutcomeView {
        self@
    }
}

/// Counts of a finished pass.
#[derive(Clone, Copy, Debug, PartialEq, Eq, Structural)]
pub struct Info {
    pub number_of_files_with_bad_extension: usize,
}

impl Info {
    /// The counts before any pass.
    pub fn new() -> (info: Self)
        ensures
            info.number_of_files_with_bad_extension == 0,
    {
        Info { number_of_files_with_bad_extension: 0 }
    }
}

impl Default for Info {
    fn default() -> (info: Self)
        ensures
            info.number_of_files_with_bad_extension == 0,
    {
        Info::new()
    }
}

/// How a pass ended: with its entries and their count, or stopped on request
/// with nothing to show.
#[derive(Debug)]
pub enum RunOutcome {
    Completed(Vec<BadFileEntry>, Info),
    Cancelled,
}

/// The end of a pass as a value of specifications: the entries and their
/// count, or nothing.
pub ghost enum RunOutcomeView {
    Completed(Seq<BadFileEntryView>, nat),
    Cancelled,
}

impl View for RunOutcome {
    type V = RunOutcomeView;

    open spec fn view(&self) -> RunOutcomeView {
        match self {
            RunOutcome::Completed(entries, info) => RunOutcomeView::Completed(
                entries.deep_view(),
                info.number_of_files_with_bad_extension as nat,
            ),
            RunOutcome::Cancelled => RunOutcomeView::Cancelled,
        }
    }
}

/// What a visit comes to for the outcome of its classification.
pub open spec fn outcome_for(entry: Option<BadFileEntryView>) -> ItemOutcomeView {
    match entry {
        Some(e) => ItemOutcomeView::Flagged(e),
        None => ItemOutcomeView::Clean,
    }
}

/// What a visit to a file named with `current` comes to: a worker that has
/// seen the request to stop leaves the file alone, any other classifies it.
pub open spec fn visit_outcome(
    record: FileEntryView,
    current: Seq<char>,
    stop_requested: bool,
    proper: Option<Seq<char>>,
    include_extensionless: bool,
) -> ItemOutcomeView {
    if stop_requested {
        ItemOutcomeView::Stopped
    } else {
        outcome_for(classification(record, current, proper, include_extensionless))
    }
}

/// Whether a worker saw the request to stop at one of the visits.
pub open spec fn any_stopped(outcomes: Seq<ItemOutcomeView>) -> bool {
    exists|i: int| 0 <= i < outcomes.len() && #[trigger] outcomes[i] is Stopped
}

/// The entries among the outcomes, in their order.
pub open spec fn flagged_entries(outcomes: Seq<ItemOutcomeView>) -> Seq<BadFileEntryView>
    decreases outcomes.len(),
{
    if outcomes.len() == 0 {
        Seq::empty()
    } else {
        let earlier = flagged_entries(outcomes.drop_last());
        match outcomes.last() {
            ItemOutcomeView::Flagged(entry) => earlier.push(entry),
            _ => earlier,
        }
    }
}

/// How a pass with these visits ends: stopped if any worker saw the request,
/// else completed with the entries of the visits and their number.
pub open spec fn run_outcome(outcomes: Seq<ItemOutcomeView>) -> RunOutcomeView {
    if any_stopped(outcomes) {
        RunOutcomeView::Cancelled
    } else {
        RunOutcomeView::Completed(flagged_entries(outcomes), flagged_entries(outcomes).len())
    }
}

/// Each entry is found as often as a visit flagged it.
proof fn lemma_flagged_count(outcomes: Seq<ItemOutcomeView>, entry: BadFileEntryView)
    ensures
        flagged_entries(outcomes).to_multiset().count(entry) == outcomes.to_multiset().count(
            ItemOutcomeView::Flagged(entry),
        ),
    decreases outcomes.len(),
{
    if outcomes.len() == 0 {
        assert(outcomes.to_multiset().len() == 0) by {
            outcomes.to_multiset_ensures();
        }
        assert(flagged_entries(outcomes).to_multiset().len() == 0) by {
            flagged_entries(outcomes).to_multiset_ensures();
        }
    } else {
        let earlier = outcomes.drop_last();
        lemma_flagged_count(earlier, entry);
        assert(outcomes =~= earlier.push(outcomes.last()));
        vstd::seq_lib::to_multiset_build(earlier, outcomes.last());
        if let ItemOutcomeView::Flagged(found) = outcomes.last() {
            vstd::seq_lib::to_multiset_build(flagged_entries(earlier), found);
        }
    }
}

/// A worker saw the request to stop exactly where one of the visits says so.
proof fn lemma_stopped_count(outcomes: Seq<ItemOutcomeView>)
    ensures
        any_stopped(outcomes) <==> outcomes.to_multiset().count(ItemOutcomeView::Stopped) > 0,
{
    outcomes.to_multiset_ensures();
    if any_stopped(outcomes) {
        let i = choose|i: int| 0 <= i < outcomes.len() && #[trigger] outcomes[i] is Stopped;
        assert(outcomes[i] == ItemOutcomeView::Stopped);
        assert(outcomes.contains(ItemOutcomeView::Stopped));
    }
    if outcomes.contains(ItemOutcomeView::Stopped) {
        let i = choose|i: int| 0 <= i < outcomes.len() && outcomes[i] == ItemOutcomeView::Stopped;
        assert(outcomes[i] is Stopped);
    }
}

/// How a pass ends does not depend on the order in which the files were
/// visited: the same visits in another order stop the pass or not alike, and
/// leave the same entries, each as often.
pub proof fn lemma_order_of_visits_is_immaterial(
    first: Seq<ItemOutcomeView>,
    second: Seq<ItemOutcomeView>,
)
    requires
        first.to_multiset() == second.to_multiset(),
    ensures
        any_stopped(first) == any_stopped(second),
        run_outcome(first) is Cancelled <==> run_outcome(second) is Cancelled,
        flagged_entries(first).to_multiset() == flagged_entries(second).to_multiset(),
        flagged_entries(first).len() == flagged_entries(second).len(),
{
    lemma_stopped_count(first);
    lemma_stopped_count(second);
    assert forall|entry: BadFileEntryView|
        flagged_entries(first).to_multiset().count(entry) == flagged_entries(
            second,
        ).to_multiset().count(entry) by {
        lemma_flagged_count(first, entry);
        lemma_flagged_count(second, entry);
    }
    assert(flagged_entries(first).to_multiset() =~= flagged_entries(second).to_multiset());
    flagged_entries(first).to_multiset_ensures();
    flagged_entries(second).to_multiset_ensures();
}

/// A pass in which a worker saw the request to stop, at whichever visit, is
/// cancelled and hands out no entry.
pub proof fn lemma_stop_cancels_the_pass(outcomes: Seq<ItemOutcomeView>, i: int)
    requires
        0 <= i < outcomes.len(),
        outcomes[i] is Stopped,
    ensures
        run_outcome(outcomes) == RunOutcomeView::Cancelled,
{
}

/// The count of a completed pass is the number of its entries.
pub proof fn lemma_count_is_number_of_entries(outcomes: Seq<ItemOutcomeView>)
    ensures
        run_outcome(outcomes) matches RunOutcomeView::Completed(entries, count) ==> count
            == entries.len(),
{
}

/// The receiving end of a channel of `crossbeam_channel`, of which the
/// library knows nothing but that it can be asked for a message.
#[verifier::external_type_specification]
#[verifier::external_body]
#[verifier::reject_recursive_types(T)]
pub struct ExReceiver<T>(crossbeam_channel::Receiver<T>);

/// Calls `crossbeam_channel::Receiver::try_recv`, which does not wait, and
/// says whether it handed out a message. Trusted: nothing is claimed of the
/// answer, which depends on what other threads have sent.
#[verifier::external_body]
fn message_waiting(receiver: &crossbeam_channel::Receiver<()>) -> (waiting: bool) {
    receiver.try_recv().is_ok()
}

/// Whether a worker that is about to visit a file finds a request to stop.
/// Without a channel for such requests there is none.
pub fn stop_requested(stop_receiver: Option<&crossbeam_channel::Receiver<()>>) -> (stop: bool)
    ensures
        stop_receiver is None ==> !stop,
{
    match stop_receiver {
        Some(receiver) => message_waiting(receiver),
        None => false,
    }
}

/// Visits one file: a worker that has seen the request to stop leaves the
/// file alone; otherwise the file is classified by the extension that its
/// content was found to call for.
pub fn visit(
    record: FileEntry,
    stop_requested: bool,
    proper_extension: Option<&str>,
    include_extensionless: bool,
) -> (outcome: ItemOutcome)
    ensures
        outcome@ == visit_outcome(
            record@,
            path_token(record.path@),
            stop_requested,
            text_of(proper_extension),
            include_extensionless,
        ),
        !stop_requested && !record.path@.contains('.') ==> outcome is Clean,
{
    if stop_requested {
        return ItemOutcome::Stopped;
    }
    match classify(record, proper_extension, include_extensionless) {
        Some(entry) => ItemOutcome::Flagged(entry),
        None => ItemOutcome::Clean,
    }
}

/// The entries with their count.
pub fn finalize(entries: Vec<BadFileEntry>) -> (result: (Vec<BadFileEntry>, Info))
    ensures
        result.0 == entries,
        result.1.number_of_files_with_bad_extension == entries.len(),
{
    let number_of_files_with_bad_extension = entries.len();
    (entries, Info { number_of_files_with_bad_extension })
}

/// Adds up the visits of a pass. A pass in which any worker saw the request
/// to stop hands out nothing of what the others found.
pub fn collect_outcomes(outcomes: Vec<ItemOutcome>) -> (run: RunOutcome)
    ensures
        run@ == run_outcome(outcomes.deep_view()),
        run matches RunOutcome::Completed(entries, info) ==> info.number_of_files_with_bad_extension
            == entries.len(),
{
    let ghost all = outcomes.deep_view();
    let mut entries: Vec<BadFileEntry> = Vec::new();
    assert(all.take(0) =~= Seq::<ItemOutcomeView>::empty());
    assert(entries.deep_view() =~= flagged_entries(all.take(0)));
    for outcome in it: outcomes
        invariant
            all == outcomes.deep_view(),
            it.seq().len() == all.len(),
            forall|i: int| 0 <= i < all.len() ==> (#[trigger] it.seq()[i])@ == all[i],
            !any_stopped(all.take(it.index() as int)),
            entries.deep_view() == flagged_entries(all.take(it.index() as int)),
    {
        let ghost n = it.index() as int;
        let ghost done = all.take(n);
        let ghost next = all.take(n + 1);
        proof {
            assert(outcome@ == all[n]);
            assert(next.drop_last() =~= done);
            assert(next.last() == outcome@);
        }
        match outcome {
            ItemOutcome::Stopped => {
                assert(0 <= n < all.len() && all[n] is Stopped);
                return RunOutcome::Cancelled;
            },
            ItemOutcome::Clean => {},
            ItemOutcome::Flagged(entry) => {
                let ghost before = entries.deep_view();
                entries.push(entry);
                assert(entries.deep_view() =~= before.push(entry@));
            },
        }
        proof {
            if any_stopped(next) {
                let i = choose|i: int| 0 <= i < next.len() && #[trigger] next[i] is Stopped;
                if i < done.len() {
                    assert(done[i] is Stopped);
                }
            }
        }
    }
    assert(all.take(all.len() as int) =~= all);
    let (entries, info) = finalize(entries);
    RunOutcome::Completed(entries, info)
}

/// What is told of a pass while it runs.
#[derive(Clone, Copy, Debug, PartialEq, Eq, Structural)]
pub struct ProgressData {
    pub current_stage: u8,
    pub max_stage: u8,
    pub entries_checked: usize,
    pub entries_to_check: usize,
}

/// One round of the reporter: what it sends, and whether it is to wait and
/// make another round.
#[derive(Clone, Copy, Debug, PartialEq, Eq, Structural)]
pub struct ProgressStep {
    pub snapshot: ProgressData,
    pub again: bool,
}

/// One round of the reporter of a pass, which has one stage. It reports the
/// counts as they stand, also in the round in which it finds that the pass is
/// over, and goes on only while the pass is running.
pub fn progress_step(entries_checked: usize, entries_to_check: usize, running: bool) -> (step:
    ProgressStep)
    ensures
        step.snapshot == (ProgressData {
            current_stage: 1,
            max_stage: 1,
            entries_checked,
            entries_to_check,
        }),
        step.again == running,
{
    ProgressStep {
        snapshot: ProgressData { current_stage: 1, max_stage: 1, entries_checked, entries_to_check },
        again: running,
    }
}

/// The sending end of an unbounded channel of `futures`, of which the
/// library knows nothing but that it takes messages.
#[verifier::external_type_specification]
#[verifier::external_body]
#[verifier::reject_recursive_types(T)]
pub struct ExUnboundedSender<T>(futures::channel::mpsc::UnboundedSender<T>);

/// Calls `futures::channel::mpsc::UnboundedSender::unbounded_send` and says
/// whether the channel took the message. Trusted: nothing is claimed of the
/// answer, which depends on whether the other end is still there.
#[verifier::external_body]
fn send_snapshot(
    sender: &futures::channel::mpsc::UnboundedSender<ProgressData>,
    snapshot: ProgressData,
) -> (sent: bool) {
    sender.unbounded_send(snapshot).is_ok()
}

/// One round of the reporter as it was carried out: whether the report went
/// out, and whether the reporter is to wait and make another round.
#[derive(Clone, Copy, Debug, PartialEq, Eq, Structural)]
pub struct ProgressRound {
    pub sent: bool,
    pub again: bool,
}

/// Carries out one round of the reporter: sends the counts as they stand to
/// the subscriber and says whether another round is due, which it is while
/// the pass is running.
pub fn report_progress(
    progress_sender: &futures::channel::mpsc::UnboundedSender<ProgressData>,
    entries_checked: usize,
    entries_to_check: usize,
    running: bool,
) -> (round: ProgressRound)
    ensures
        round.again == running,
{
    let step = progress_step(entries_checked, entries_to_check, running);
    let sent = send_snapshot(progress_sender, step.snapshot);
    ProgressRound { sent, again: step.again }
}

} // verus!

//! The verdict on one file: how the extension in its name stands to the
//! extension that its content calls for.

use vstd::prelude::*;
use crate::class::{lemma_listing_is_sorted, sorted_tokens, strictly_increasing, EquivalenceClass};
use crate::lookup::{base_class, expand};
use crate::token::{token_order, TokenOrder};
use crate::workarounds::{lemma_real_extensions_not_empty, workaround_rules, workarounds};

verus! {

/// What is found of a file's extension.
#[derive(Debug, PartialEq, Eq)]
pub enum Verdict {
    /// The name carries an extension that fits the content.
    AlreadyCorrect,
    /// No extension at all is known for the content, so nothing is held
    /// against the name.
    Unclassifiable,
    /// The name has no extension, and such files are not reported.
    Acceptable,
    /// The name does not fit; the class holds the extensions that would.
    Mismatch(EquivalenceClass),
}

/// A verdict as a value of specifications: a mismatch carries the increasing
/// listing of its class.
pub ghost enum VerdictView {
    AlreadyCorrect,
    Unclassifiable,
    Acceptable,
    Mismatch(Seq<Seq<char>>),
}

impl View for Verdict {
    type V = VerdictView;

    open spec fn view(&self) -> VerdictView {
        match self {
            Verdict::AlreadyCorrect => VerdictView::AlreadyCorrect,
            Verdict::Unclassifiable => VerdictView::Unclassifiable,
            Verdict::Acceptable => VerdictView::Acceptable,
            Verdict::Mismatch(class) => VerdictView::Mismatch(class@),
        }
    }
}

/// Whether a correction speaks for `current`, given the extensions in `base`.
pub open spec fn rule_applies(
    rule: (Seq<char>, Seq<char>),
    base: Set<Seq<char>>,
    current: Seq<char>,
) -> bool {
    rule.1 == current && base.contains(rule.0)
}

/// Whether one of the first `n` corrections speaks for `current`.
pub open spec fn applies_among(n: int, base: Set<Seq<char>>, current: Seq<char>) -> bool {
    exists|k: int|
        0 <= k < n && k < workaround_rules().len() && rule_applies(
            #[trigger] workaround_rules()[k],
            base,
            current,
        )
}

/// Whether any correction speaks for `current`.
pub open spec fn workaround_applies(base: Set<Seq<char>>, current: Seq<char>) -> bool {
    applies_among(workaround_rules().len() as int, base, current)
}

/// `base` after the corrections: it gains `current` where one speaks for it.
pub open spec fn corrected_class(base: Set<Seq<char>>, current: Seq<char>) -> Set<Seq<char>> {
    if workaround_applies(base, current) {
        base.insert(current)
    } else {
        base
    }
}

/// The extensions held to fit the content of a file named with `current`,
/// where `base` is what the tables list for the content. For a name without
/// an extension nothing is gathered.
pub open spec fn acceptable_class(current: Seq<char>, base: Set<Seq<char>>) -> Set<Seq<char>> {
    if current.len() == 0 {
        Set::empty()
    } else {
        corrected_class(base, current)
    }
}

/// The verdict on a name with extension `current`, given the extensions
/// held to fit the content.
pub open spec fn decision(current: Seq<char>, class: Set<Seq<char>>, include_extensionless: bool)
    -> VerdictView {
    if class == Set::<Seq<char>>::empty() {
        VerdictView::Unclassifiable
    } else if current.len() == 0 {
        if include_extensionless {
            VerdictView::Mismatch(sorted_tokens(class))
        } else {
            VerdictView::Acceptable
        }
    } else if class.contains(current) {
        VerdictView::AlreadyCorrect
    } else {
        VerdictView::Mismatch(sorted_tokens(class))
    }
}

/// The verdict on a file whose content calls for `proper` and whose name
/// carries `current`, where `base` is what the tables list for `proper`.
pub open spec fn verdict(
    proper: Seq<char>,
    current: Seq<char>,
    base: Set<Seq<char>>,
    include_extensionless: bool,
) -> VerdictView {
    if current == proper {
        VerdictView::AlreadyCorrect
    } else {
        decision(current, acceptable_class(current, base), include_extensionless)
    }
}

/// Adds `current` to the class where a correction speaks for it.
pub fn apply_workarounds(class: &mut EquivalenceClass, current: &str)
    ensures
        final(class).members() == corrected_class(old(class).members(), current@),
        strictly_increasing(final(class)@),
{
    let ghost base = class.members();
    if class.is_empty() {
        assert(!workaround_applies(base, current@));
        return ;
    }
    let rules = workarounds();
    let mut k: usize = 0;
    while k < rules.len()
        invariant
            rules.deep_view() == workaround_rules(),
            k <= rules.len(),
            strictly_increasing(class@),
            class.members() == if applies_among(k as int, base, current@) {
                base.insert(current@)
            } else {
                base
            },
        decreases rules.len() - k,
    {
        let (listed, named) = rules[k];
        let ghost rule = workaround_rules()[k as int];
        assert(rule == rules.deep_view()[k as int]);
        assert(rule.0 == listed@ && rule.1 == named@);
        let ghost fired = applies_among(k as int, base, current@);
        proof {
            if fired {
                let w = choose|w: int|
                    0 <= w < k && w < workaround_rules().len() && rule_applies(
                        #[trigger] workaround_rules()[w],
                        base,
                        current@,
                    );
                assert(0 <= w < k + 1 && rule_applies(workaround_rules()[w], base, current@));
            }
            if applies_among(k + 1, base, current@) && !fired {
                let w = choose|w: int|
                    0 <= w < k + 1 && w < workaround_rules().len() && rule_applies(
                        #[trigger] workaround_rules()[w],
                        base,
                        current@,
                    );
                assert(w == k);
            }
        }
        if token_order(named, current) == TokenOrder::Same && class.contains(listed) {
            class.insert(named);
            proof {
                if base.contains(rule.0) {
                    assert(rule_applies(workaround_rules()[k as int], base, current@));
                }
                assert(class.members() =~= base.insert(current@));
            }
        }
        k += 1;
    }
}

/// Decides on a name with extension `current`, given the class of extensions
/// held to fit the content.
pub fn decide(current: &str, class: EquivalenceClass, include_extensionless: bool) -> (v: Verdict)
    ensures
        v@ == decision(current@, class.members(), include_extensionless),
{
    if class.is_empty() {
        Verdict::Unclassifiable
    } else if current.is_empty() {
        if include_extensionless {
            proof {
                lemma_listing_is_sorted(class@, class.members());
            }
            Verdict::Mismatch(class)
        } else {
            Verdict::Acceptable
        }
    } else if class.contains(current) {
        Verdict::AlreadyCorrect
    } else {
        proof {
            lemma_listing_is_sorted(class@, class.members());
        }
        Verdict::Mismatch(class)
    }
}

/// Resolves a file whose content calls for `proper` and whose name carries
/// `current`, with `base` as the extensions that the tables list for `proper`.
pub fn resolve_in(
    proper: &str,
    current: &str,
    base: EquivalenceClass,
    include_extensionless: bool,
) -> (v: Verdict)
    ensures
        v@ == verdict(proper@, current@, base.members(), include_extensionless),
{
    if token_order(current, proper) == TokenOrder::Same {
        return Verdict::AlreadyCorrect;
    }
    if current.is_empty() {
        let none = EquivalenceClass::new();
        decide(current, none, include_extensionless)
    } else {
        let mut class = base;
        apply_workarounds(&mut class, current);
        decide(current, class, include_extensionless)
    }
}

/// Resolves a file whose content calls for `proper` and whose name carries
/// `current`. The tables are consulted only for a name that has an extension
/// other than `proper`.
pub fn resolve(proper: &str, current: &str, include_extensionless: bool) -> (v: Verdict)
    ensures
        v@ == verdict(proper@, current@, base_class(proper@), include_extensionless),
{
    if token_order(current, proper) == TokenOrder::Same {
        Verdict::AlreadyCorrect
    } else if current.is_empty() {
        resolve_in(proper, current, EquivalenceClass::new(), include_extensionless)
    } else {
        resolve_in(proper, current, expand(proper), include_extensionless)
    }
}

/// A name whose extension is the one that the content calls for is correct,
/// whatever the tables list.
pub proof fn lemma_same_extension_is_correct(
    proper: Seq<char>,
    base: Set<Seq<char>>,
    include_extensionless: bool,
)
    ensures
        verdict(proper, proper, base, include_extensionless) == VerdictView::AlreadyCorrect,
{
}

/// A name without an extension is a mismatch exactly where such names are
/// reported and the class at hand has a member.
pub proof fn lemma_extensionless_policy(class: Set<Seq<char>>, include_extensionless: bool)
    ensures
        decision(Seq::empty(), class, include_extensionless) is Mismatch <==> include_extensionless
            && class != Set::<Seq<char>>::empty(),
        !include_extensionless ==> !(decision(Seq::empty(), class, false) is Mismatch),
{
}

/// For a name without an extension no class is gathered, so it is never a
/// mismatch, whatever the content and the setting.
pub proof fn lemma_extensionless_never_mismatch(
    proper: Seq<char>,
    base: Set<Seq<char>>,
    include_extensionless: bool,
)
    ensures
        acceptable_class(Seq::empty(), base) == Set::<Seq<char>>::empty(),
        !(verdict(proper, Seq::empty(), base, include_extensionless) is Mismatch),
        proper.len() > 0 ==> verdict(proper, Seq::empty(), base, include_extensionless)
            == VerdictView::Unclassifiable,
{
    assert(Seq::<char>::empty().len() == 0);
}

/// Where the tables list the first extension of a correction, a name that
/// carries its second is correct: that extension is in the class, and the
/// verdict is neither unclassifiable nor a mismatch.
pub proof fn lemma_workaround_accepts(
    proper: Seq<char>,
    base: Set<Seq<char>>,
    include_extensionless: bool,
    k: int,
)
    requires
        0 <= k < workaround_rules().len(),
        base.contains(workaround_rules()[k].0),
    ensures
        acceptable_class(workaround_rules()[k].1, base).contains(workaround_rules()[k].1),
        verdict(proper, workaround_rules()[k].1, base, include_extensionless)
            == VerdictView::AlreadyCorrect,
{
    let rule = workaround_rules()[k];
    lemma_real_extensions_not_empty();
    assert(rule_applies(workaround_rules()[k], base, rule.1));
    assert(workaround_applies(base, rule.1));
    let class = acceptable_class(rule.1, base);
    assert(class.contains(rule.1));
    assert(class != Set::<Seq<char>>::empty());
}

/// The class of a mismatch is the whole class held to fit the content, the
/// extensions that the tables list among them, and the name's own extension
/// is not in it.
pub proof fn lemma_mismatch_reports_class(
    proper: Seq<char>,
    current: Seq<char>,
    base: Set<Seq<char>>,
    include_extensionless: bool,
)
    requires
        verdict(proper, current, base, include_extensionless) is Mismatch,
    ensures
        current.len() > 0,
        current != proper,
        !base.contains(current),
        verdict(proper, current, base, include_extensionless) == VerdictView::Mismatch(
            sorted_tokens(base),
        ),
{
    assert(Seq::<char>::empty().len() == 0);
    if workaround_applies(base, current) {
        assert(base.insert(current).contains(current));
    }
}

} // verus!

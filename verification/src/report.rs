//! The findings of a pass as text.

use vstd::prelude::*;
use crate::classifier::{BadFileEntry, BadFileEntryView};

verus! {

/// The character for a decimal digit.
pub open spec fn digit_char(d: nat) -> char {
    if d == 0 {
        '0'
    } else if d == 1 {
        '1'
    } else if d == 2 {
        '2'
    } else if d == 3 {
        '3'
    } else if d == 4 {
        '4'
    } else if d == 5 {
        '5'
    } else if d == 6 {
        '6'
    } else if d == 7 {
        '7'
    } else if d == 8 {
        '8'
    } else {
        '9'
    }
}

/// A number in decimal digits, without leading zeros.
pub open spec fn decimal(n: nat) -> Seq<char>
    decreases n,
{
    if n < 10 {
        seq![digit_char(n)]
    } else {
        decimal(n / 10).push(digit_char(n % 10))
    }
}

/// The paths of the entries, each followed by a line break.
pub open spec fn path_lines(entries: Seq<BadFileEntryView>) -> Seq<char>
    decreases entries.len(),
{
    if entries.len() == 0 {
        Seq::empty()
    } else {
        path_lines(entries.drop_last()) + entries.last().path + "\n"@
    }
}

/// How `{:?}` shows a list of texts.
pub uninterp spec fn debug_listing(items: Seq<Seq<char>>) -> Seq<char>;

/// Formats the list with `{:?}`, the `Debug` form of a `Vec<String>`.
/// Trusted: the result is [`debug_listing`] of the texts.
#[verifier::external_body]
fn debug_text(items: &Vec<String>) -> (text: String)
    ensures
        text@ == debug_listing(items.deep_view()),
{
    format!("{:?}", items)
}

/// The line that names what was searched.
pub open spec fn header_line(
    included_directories: Seq<Seq<char>>,
    excluded_directories: Seq<Seq<char>>,
    excluded_items: Seq<Seq<char>>,
) -> Seq<char> {
    "Results of searching "@ + debug_listing(included_directories)
        + " with excluded directories "@ + debug_listing(excluded_directories)
        + " and excluded items "@ + debug_listing(excluded_items) + "\n"@
}

/// What follows the header in a saved report: the count and the paths, or a
/// sentence that says that nothing was found.
pub open spec fn findings(entries: Seq<BadFileEntryView>, count: nat) -> Seq<char> {
    if entries.len() == 0 {
        "Not found any files with invalid extension."@
    } else {
        "Found "@ + decimal(count) + " files with invalid extension.\n"@ + path_lines(entries)
    }
}

/// What is printed of a pass: the count, an empty line, and the paths.
pub open spec fn printed_results(entries: Seq<BadFileEntryView>, count: nat) -> Seq<char> {
    "Found "@ + decimal(count) + " files with invalid extension.\n\n"@ + path_lines(entries)
}

fn digit_text(d: usize) -> (text: &'static str)
    requires
        d < 10,
    ensures
        text@ == seq![digit_char(d as nat)],
{
    proof {
        reveal_strlit("0");
        reveal_strlit("1");
        reveal_strlit("2");
        reveal_strlit("3");
        reveal_strlit("4");
        reveal_strlit("5");
        reveal_strlit("6");
        reveal_strlit("7");
        reveal_strlit("8");
        reveal_strlit("9");
    }
    let text = if d == 0 {
        "0"
    } else if d == 1 {
        "1"
    } else if d == 2 {
        "2"
    } else if d == 3 {
        "3"
    } else if d == 4 {
        "4"
    } else if d == 5 {
        "5"
    } else if d == 6 {
        "6"
    } else if d == 7 {
        "7"
    } else if d == 8 {
        "8"
    } else {
        "9"
    };
    assert(text@ =~= seq![digit_char(d as nat)]);
    text
}

/// Writes a number in decimal digits.
pub fn decimal_text(n: usize) -> (text: String)
    ensures
        text@ == decimal(n as nat),
    decreases n,
{
    if n < 10 {
        digit_text(n).to_owned()
    } else {
        let mut text = decimal_text(n / 10);
        text.append(digit_text(n % 10));
        assert(text@ =~= decimal(n as nat));
        text
    }
}

/// Appends the paths of the entries to `text`, one to a line.
fn append_path_lines(text: &mut String, entries: &Vec<BadFileEntry>)
    ensures
        final(text)@ == old(text)@ + path_lines(entries.deep_view()),
{
    let ghost all = entries.deep_view();
    let ghost start = text@;
    let mut i: usize = 0;
    assert(all.take(0) =~= Seq::<BadFileEntryView>::empty());
    assert(text@ =~= start + path_lines(all.take(0)));
    while i < entries.len()
        invariant
            all == entries.deep_view(),
            i <= entries.len(),
            text@ == start + path_lines(all.take(i as int)),
        decreases entries.len() - i,
    {
        text.append(entries[i].path.as_str());
        text.append("\n");
        proof {
            assert(all.take(i + 1).drop_last() =~= all.take(i as int));
            assert(all.take(i + 1).last() == entries[i as int]@);
            assert(text@ =~= start + path_lines(all.take(i + 1)));
        }
        i += 1;
    }
    assert(all.take(i as int) =~= all);
}

/// The header of a saved report.
pub fn header_text(
    included_directories: &Vec<String>,
    excluded_directories: &Vec<String>,
    excluded_items: &Vec<String>,
) -> (text: String)
    ensures
        text@ == header_line(
            included_directories.deep_view(),
            excluded_directories.deep_view(),
            excluded_items.deep_view(),
        ),
{
    let mut text = "Results of searching ".to_owned();
    text.append(debug_text(included_directories).as_str());
    text.append(" with excluded directories ");
    text.append(debug_text(excluded_directories).as_str());
    text.append(" and excluded items ");
    text.append(debug_text(excluded_items).as_str());
    text.append("\n");
    text
}

/// What a saved report says after its header.
pub fn findings_text(entries: &Vec<BadFileEntry>, count: usize) -> (text: String)
    ensures
        text@ == findings(entries.deep_view(), count as nat),
{
    if entries.len() == 0 {
        "Not found any files with invalid extension.".to_owned()
    } else {
        let mut text = "Found ".to_owned();
        text.append(decimal_text(count).as_str());
        text.append(" files with invalid extension.\n");
        append_path_lines(&mut text, entries);
        text
    }
}

/// What is printed of a pass.
pub fn printed_text(entries: &Vec<BadFileEntry>, count: usize) -> (text: String)
    ensures
        text@ == printed_results(entries.deep_view(), count as nat),
{
    let mut text = "Found ".to_owned();
    text.append(decimal_text(count).as_str());
    text.append(" files with invalid extension.\n\n");
    append_path_lines(&mut text, entries);
    text
}

} // verus!

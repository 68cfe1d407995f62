//! Extension tokens: the text of a file name's extension in normalized form,
//! and the order in which tokens are listed.

use vstd::prelude::*;
use vstd::std_specs::iter::IteratorSpec;

verus! {

/// Strict lexicographic order on texts, character by character, by code point.
/// A proper prefix comes before every text that extends it.
pub open spec fn token_less(a: Seq<char>, b: Seq<char>) -> bool
    decreases a.len(),
{
    if b.len() == 0 {
        false
    } else if a.len() == 0 {
        true
    } else if a[0] != b[0] {
        (a[0] as int) < (b[0] as int)
    } else {
        token_less(a.drop_first(), b.drop_first())
    }
}

/// How one text stands to another in the order of [`token_less`].
#[derive(Clone, Copy, Debug, PartialEq, Eq, Structural)]
pub enum TokenOrder {
    Before,
    Same,
    After,
}

/// The position of `a` relative to `b`.
pub open spec fn order_of(a: Seq<char>, b: Seq<char>) -> TokenOrder {
    if a == b {
        TokenOrder::Same
    } else if token_less(a, b) {
        TokenOrder::Before
    } else {
        TokenOrder::After
    }
}

/// No text comes before itself.
pub proof fn lemma_less_irreflexive(a: Seq<char>)
    ensures
        !token_less(a, a),
    decreases a.len(),
{
    if a.len() > 0 {
        lemma_less_irreflexive(a.drop_first());
    }
}

/// Of two texts at most one comes before the other.
pub proof fn lemma_less_asymmetric(a: Seq<char>, b: Seq<char>)
    requires
        token_less(a, b),
    ensures
        !token_less(b, a),
    decreases a.len(),
{
    if a.len() > 0 && b.len() > 0 && a[0] == b[0] {
        lemma_less_asymmetric(a.drop_first(), b.drop_first());
    }
}

/// The order is transitive.
pub proof fn lemma_less_transitive(a: Seq<char>, b: Seq<char>, c: Seq<char>)
    requires
        token_less(a, b),
        token_less(b, c),
    ensures
        token_less(a, c),
    decreases a.len(),
{
    if a.len() > 0 && b.len() > 0 && c.len() > 0 && a[0] == b[0] && b[0] == c[0] {
        lemma_less_transitive(a.drop_first(), b.drop_first(), c.drop_first());
    }
}

/// Two different texts are ordered one way or the other.
pub proof fn lemma_less_total(a: Seq<char>, b: Seq<char>)
    ensures
        a == b || token_less(a, b) || token_less(b, a),
    decreases a.len(),
{
    if a.len() == 0 || b.len() == 0 {
        if a.len() == 0 && b.len() == 0 {
            assert(a =~= b);
        }
    } else if a[0] == b[0] {
        lemma_less_total(a.drop_first(), b.drop_first());
        if a.drop_first() == b.drop_first() {
            assert(a =~= seq![a[0]] + a.drop_first());
            assert(b =~= seq![b[0]] + b.drop_first());
        }
    }
}

/// A prefix that two texts share does not bear on their order.
pub proof fn lemma_less_after_common_prefix(a: Seq<char>, b: Seq<char>, n: int)
    requires
        0 <= n <= a.len(),
        n <= b.len(),
        a.take(n) == b.take(n),
    ensures
        token_less(a, b) == token_less(a.skip(n), b.skip(n)),
    decreases n,
{
    if n == 0 {
        assert(a.skip(0) =~= a);
        assert(b.skip(0) =~= b);
    } else {
        assert(a[0] == a.take(n)[0]);
        assert(b[0] == b.take(n)[0]);
        assert(a.drop_first().take(n - 1) =~= a.take(n).drop_first());
        assert(b.drop_first().take(n - 1) =~= b.take(n).drop_first());
        lemma_less_after_common_prefix(a.drop_first(), b.drop_first(), n - 1);
        assert(a.drop_first().skip(n - 1) =~= a.skip(n));
        assert(b.drop_first().skip(n - 1) =~= b.skip(n));
    }
}

/// Whether `a` has the smaller code point.
fn char_before(a: char, b: char) -> (r: bool)
    ensures
        r == ((a as int) < (b as int)),
{
    a < b
}

/// Compares two texts in the order of [`token_less`].
pub fn token_order(a: &str, b: &str) -> (r: TokenOrder)
    ensures
        r == order_of(a@, b@),
{
    let mut left = a.chars();
    let mut right = b.chars();
    let ghost mut n: int = 0;
    assert(a@.skip(0) =~= a@);
    assert(b@.skip(0) =~= b@);
    loop
        invariant
            0 <= n <= a@.len(),
            n <= b@.len(),
            a@.take(n) == b@.take(n),
            left.remaining() == a@.skip(n),
            right.remaining() == b@.skip(n),
        decreases a@.len() - n,
    {
        proof {
            lemma_less_after_common_prefix(a@, b@, n);
            lemma_less_after_common_prefix(b@, a@, n);
        }
        let x = left.next();
        let y = right.next();
        match (x, y) {
            (None, None) => {
                assert(a@ =~= a@.take(n));
                assert(b@ =~= b@.take(n));
                return TokenOrder::Same;
            },
            (None, Some(_)) => {
                assert(a@.len() < b@.len());
                return TokenOrder::Before;
            },
            (Some(_), None) => {
                assert(b@.len() < a@.len());
                return TokenOrder::After;
            },
            (Some(c), Some(d)) => {
                assert(c == a@[n] && d == b@[n]);
                if c != d {
                    proof {
                        assert(a@ != b@);
                        lemma_less_total(a@.skip(n), b@.skip(n));
                    }
                    if char_before(c, d) {
                        return TokenOrder::Before;
                    } else {
                        return TokenOrder::After;
                    }
                }
                proof {
                    assert(a@.take(n + 1) =~= a@.take(n).push(a@[n]));
                    assert(b@.take(n + 1) =~= b@.take(n).push(b@[n]));
                    assert(a@.skip(n).drop_first() =~= a@.skip(n + 1));
                    assert(b@.skip(n).drop_first() =~= b@.skip(n + 1));
                    n = n + 1;
                }
            },
        }
    }
}

/// Longest extension, in characters, that is still taken for one.
pub const MAX_EXTENSION_LENGTH: usize = 10;

/// The lower-case form of a text, as `str::to_lowercase` gives it.
pub uninterp spec fn lowercased(text: Seq<char>) -> Seq<char>;

/// Trusted: `str::to_lowercase` returns [`lowercased`] of the text.
pub assume_specification[ str::to_lowercase ](text: &str) -> (lower: String)
    ensures
        lower@ == lowercased(text@),
;

/// The token for an extension as a name spells it, `None` standing for a name
/// without one: the lower-case form, or the empty token where there is no
/// extension or the lower-case form is longer than
/// [`MAX_EXTENSION_LENGTH`] characters.
pub open spec fn extension_token(spelled: Option<Seq<char>>) -> Seq<char> {
    match spelled {
        None => Seq::empty(),
        Some(text) => if lowercased(text).len() > MAX_EXTENSION_LENGTH {
            Seq::empty()
        } else {
            lowercased(text)
        },
    }
}

/// The text in an optional `&str`.
pub open spec fn text_of(text: Option<&str>) -> Option<Seq<char>> {
    match text {
        Some(t) => Some(t@),
        None => None,
    }
}

/// Normalizes an extension as a name spells it into its token.
pub fn normalize_extension(spelled: Option<&str>) -> (token: String)
    ensures
        token@ == extension_token(text_of(spelled)),
{
    match spelled {
        None => String::new(),
        Some(text) => {
            let lower = text.to_lowercase();
            if lower.as_str().unicode_len() > MAX_EXTENSION_LENGTH {
                String::new()
            } else {
                lower
            }
        },
    }
}

/// The extension in a path as `std::path::Path::extension` reads it from the
/// text of the path, `None` for a path without one. Which part of a path is
/// its file name is a matter of the platform that the library is built for.
pub uninterp spec fn path_extension(path: Seq<char>) -> Option<Seq<char>>;

/// The text in an optional `String`.
pub open spec fn owned_text_of(text: Option<String>) -> Option<Seq<char>> {
    match text {
        Some(t) => Some(t@),
        None => None,
    }
}

/// The token of the extension in a path.
pub open spec fn path_token(path: Seq<char>) -> Seq<char> {
    extension_token(path_extension(path))
}

/// Calls `std::path::Path::extension` on the path and hands the extension out
/// as text. Trusted: the result is [`path_extension`] of the path; a path
/// without a dot has no extension, and an extension holds no dot.
#[verifier::external_body]
fn extension_in_path(path: &str) -> (spelled: Option<String>)
    ensures
        owned_text_of(spelled) == path_extension(path@),
        spelled matches Some(text) ==> path@.contains('.') && !text@.contains('.'),
{
    std::path::Path::new(path).extension().map(|text| text.to_string_lossy().into_owned())
}

/// The token of the extension in `path`: empty for a path without an
/// extension, and so for every path without a dot.
pub fn current_extension(path: &str) -> (token: String)
    ensures
        token@ == path_token(path@),
        token@.len() <= MAX_EXTENSION_LENGTH,
        !path@.contains('.') ==> token@.len() == 0,
{
    let spelled = extension_in_path(path);
    match spelled {
        Some(text) => normalize_extension(Some(text.as_str())),
        None => normalize_extension(None),
    }
}

/// An extension whose lower-case form has more than
/// [`MAX_EXTENSION_LENGTH`] characters counts as no extension.
pub proof fn lemma_long_extension_is_none(spelled: Seq<char>)
    ensures
        lowercased(spelled).len() > MAX_EXTENSION_LENGTH ==> extension_token(Some(spelled))
            == extension_token(None),
{
}

} // verus!

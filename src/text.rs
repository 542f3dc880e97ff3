//! Visual width of text, measured grapheme by grapheme.

use unicode_segmentation::UnicodeSegmentation;
use unicode_width::UnicodeWidthStr;
use vstd::prelude::*;
use vstd::string::StringExecFns;

verus! {

/// The extended grapheme clusters of a text, in order.
pub uninterp spec fn graphemes_of(s: Seq<char>) -> Seq<Seq<char>>;

/// The column width that the Unicode width tables give a text.
pub uninterp spec fn unicode_width_of(s: Seq<char>) -> nat;

/// The pieces of `gs` written one after another.
pub open spec fn joined(gs: Seq<Seq<char>>) -> Seq<char>
    decreases gs.len(),
{
    if gs.len() == 0 {
        Seq::empty()
    } else {
        joined(gs.drop_last()) + gs.last()
    }
}

/// A grapheme occupies two columns where the width tables call it wide, and
/// one column otherwise.
pub open spec fn grapheme_width(g: Seq<char>) -> nat {
    if unicode_width_of(g) >= 2 {
        2
    } else {
        1
    }
}

/// The summed width of a sequence of graphemes.
pub open spec fn widths_sum(gs: Seq<Seq<char>>) -> nat
    decreases gs.len(),
{
    if gs.len() == 0 {
        0
    } else {
        widths_sum(gs.drop_last()) + grapheme_width(gs.last())
    }
}

/// The visual width of a text.
pub open spec fn text_width(s: Seq<char>) -> nat {
    widths_sum(graphemes_of(s))
}

/// How many leading graphemes of `gs` fit into `max` columns.
pub open spec fn fit_count(gs: Seq<Seq<char>>, max: nat) -> nat
    decreases gs.len(),
{
    if widths_sum(gs) <= max || gs.len() == 0 {
        gs.len()
    } else {
        fit_count(gs.drop_last(), max)
    }
}

/// The longest prefix of whole graphemes of `s` whose width is at most `max`.
pub open spec fn fitted(s: Seq<char>, max: nat) -> Seq<char> {
    joined(graphemes_of(s).take(fit_count(graphemes_of(s), max) as int))
}

/// The width of `fitted(s, max)`.
pub open spec fn fitted_width(s: Seq<char>, max: nat) -> nat {
    widths_sum(graphemes_of(s).take(fit_count(graphemes_of(s), max) as int))
}

/// Width measurement and width-bounded truncation of text.
pub trait EmojiLength {
    /// The characters of the text.
    spec fn chars_view(&self) -> Seq<char>;

    /// The visual width of the text; saturates at the widest fitting prefix
    /// where the width exceeds `usize::MAX`.
    fn emoji_len(&self) -> (r: usize)
        ensures
            r == fitted_width(self.chars_view(), usize::MAX as nat),
            text_width(self.chars_view()) <= usize::MAX ==> r == text_width(self.chars_view()),
    ;

    /// The longest prefix of whole graphemes whose width is at most `n`.
    fn emoji_truncate(&self, n: usize) -> (r: String)
        ensures
            r@ == fitted(self.chars_view(), n as nat),
            exists|k: int|
                0 <= k <= graphemes_of(self.chars_view()).len() && r@ == joined(
                    #[trigger] graphemes_of(self.chars_view()).take(k),
                ),
            text_width(self.chars_view()) <= n ==> r@ == self.chars_view(),
    ;
}

impl EmojiLength for String {
    open spec fn chars_view(&self) -> Seq<char> {
        self@
    }

    fn emoji_len(&self) -> (r: usize) {
        let (gs, k, used) = fit_graphemes(self.as_str(), usize::MAX);
        proof {
            if text_width(self@) <= usize::MAX {
                lemma_fits_whole(self@, usize::MAX as nat);
            }
        }
        used
    }

    fn emoji_truncate(&self, n: usize) -> (r: String) {
        let (gs, k, used) = fit_graphemes(self.as_str(), n);
        let r = join_prefix(&gs, k);
        proof {
            let g = graphemes_of(self.chars_view());
            assert(r@ == joined(g.take(k as int)));
            if text_width(self@) <= n {
                lemma_fits_whole(self@, n as nat);
                assert(g.take(g.len() as int) =~= g);
            }
        }
        r
    }
}

/// Where a whole text fits, the fitted prefix is all of its graphemes.
pub proof fn lemma_fits_whole(s: Seq<char>, max: nat)
    requires
        text_width(s) <= max,
    ensures
        fit_count(graphemes_of(s), max) == graphemes_of(s).len(),
        fitted_width(s, max) == text_width(s),
        fitted(s, max) == joined(graphemes_of(s)),
{
    let gs = graphemes_of(s);
    assert(gs.take(gs.len() as int) =~= gs);
    lemma_fit_count_is(gs, max, gs.len() as int);
}

/// The first `k` pieces of `gs` written one after another.
pub(crate) fn join_prefix(gs: &Vec<String>, k: usize) -> (r: String)
    requires
        k <= gs.len(),
    ensures
        r@ == joined(gs.deep_view().take(k as int)),
{
    let ghost g = gs.deep_view();
    let mut out = String::new();
    let mut i: usize = 0;
    while i < k
        invariant
            g == gs.deep_view(),
            k <= gs.len(),
            i <= k,
            out@ == joined(g.take(i as int)),
        decreases k - i,
    {
        proof {
            lemma_joined_take_step(g, i as int);
            assert(g[i as int] == gs@[i as int]@);
        }
        out.append(gs[i].as_str());
        i = i + 1;
    }
    proof {
        assert(g.take(0) =~= Seq::<Seq<char>>::empty());
    }
    out
}

/// Relies on `UnicodeSegmentation::graphemes` (extended clusters): the
/// clusters are consecutive pieces that make up the whole text.
#[verifier::external_body]
fn graphemes(s: &str) -> (r: Vec<String>)
    ensures
        r.deep_view() == graphemes_of(s@),
        joined(r.deep_view()) == s@,
{
    s.graphemes(true).map(|g| g.to_string()).collect()
}

/// Relies on `UnicodeWidthStr::width`: the columns the width tables give a text.
#[verifier::external_body]
fn unicode_width(s: &str) -> (r: usize)
    ensures
        r == unicode_width_of(s@),
{
    UnicodeWidthStr::width(s)
}

/// Relies on `String::push`: appends one character.
#[verifier::external_body]
pub(crate) fn push_char(s: &mut String, c: char)
    ensures
        final(s)@ == old(s)@.push(c),
{
    s.push(c)
}

proof fn lemma_widths_sum_take_step(gs: Seq<Seq<char>>, i: int)
    requires
        0 <= i < gs.len(),
    ensures
        widths_sum(gs.take(i + 1)) == widths_sum(gs.take(i)) + grapheme_width(gs[i]),
{
    assert(gs.take(i + 1).drop_last() =~= gs.take(i));
}

proof fn lemma_joined_take_step(gs: Seq<Seq<char>>, i: int)
    requires
        0 <= i < gs.len(),
    ensures
        joined(gs.take(i + 1)) == joined(gs.take(i)) + gs[i],
{
    assert(gs.take(i + 1).drop_last() =~= gs.take(i));
}

/// Prefix sums of grapheme widths never decrease.
pub proof fn lemma_widths_sum_monotone(gs: Seq<Seq<char>>, i: int, j: int)
    requires
        0 <= i <= j <= gs.len(),
    ensures
        widths_sum(gs.take(i)) <= widths_sum(gs.take(j)),
    decreases j - i,
{
    if i < j {
        lemma_widths_sum_monotone(gs, i, j - 1);
        lemma_widths_sum_take_step(gs, j - 1);
    }
}

/// `k` is the fit count as soon as the first `k` graphemes fit and one more
/// would not.
proof fn lemma_fit_count_is(gs: Seq<Seq<char>>, max: nat, k: int)
    requires
        0 <= k <= gs.len(),
        widths_sum(gs.take(k)) <= max,
        k < gs.len() ==> widths_sum(gs.take(k + 1)) > max,
    ensures
        fit_count(gs, max) == k,
    decreases gs.len(),
{
    assert(gs.take(gs.len() as int) =~= gs);
    if k < gs.len() {
        lemma_widths_sum_monotone(gs, k + 1, gs.len() as int);
        let d = gs.drop_last();
        assert(d.take(k) =~= gs.take(k));
        if k + 1 <= d.len() {
            assert(d.take(k + 1) =~= gs.take(k + 1));
        }
        lemma_fit_count_is(d, max, k);
    }
}

/// The fitted prefix of a text never exceeds the width asked for.
pub proof fn lemma_fitted_width_bound(s: Seq<char>, max: nat)
    ensures
        fitted_width(s, max) <= max,
        fit_count(graphemes_of(s), max) <= graphemes_of(s).len(),
{
    lemma_fit_count_bound(graphemes_of(s), max);
}

proof fn lemma_fit_count_bound(gs: Seq<Seq<char>>, max: nat)
    ensures
        fit_count(gs, max) <= gs.len(),
        widths_sum(gs.take(fit_count(gs, max) as int)) <= max,
    decreases gs.len(),
{
    if gs.len() == 0 {
        assert(gs.take(0) =~= gs);
    } else if widths_sum(gs) <= max {
        assert(gs.take(gs.len() as int) =~= gs);
    } else {
        let d = gs.drop_last();
        lemma_fit_count_bound(d, max);
        assert(gs.take(fit_count(d, max) as int) =~= d.take(fit_count(d, max) as int));
    }
}

/// Splits `s` into its graphemes and finds the longest prefix that fits into
/// `max` columns: the number of graphemes taken and their width.
pub(crate) fn fit_graphemes(s: &str, max: usize) -> (r: (Vec<String>, usize, usize))
    ensures
        r.0.deep_view() == graphemes_of(s@),
        joined(r.0.deep_view()) == s@,
        r.1 == fit_count(graphemes_of(s@), max as nat),
        r.2 == fitted_width(s@, max as nat),
        r.2 <= max,
        r.1 <= r.0.len(),
{
    let gs = graphemes(s);
    let ghost g = gs.deep_view();
    let mut k: usize = 0;
    let mut used: usize = 0;
    let mut full = false;
    while k < gs.len() && !full
        invariant
            g == gs.deep_view(),
            g.len() == gs.len(),
            k <= gs.len(),
            used == widths_sum(g.take(k as int)),
            used <= max,
            full ==> k < g.len() && widths_sum(g.take(k + 1)) > max,
        decreases gs.len() - k, if full { 0int } else { 1int },
    {
        let raw = unicode_width(gs[k].as_str());
        let w: usize = if raw >= 2 { 2 } else { 1 };
        proof {
            assert(g[k as int] == gs@[k as int]@);
            lemma_widths_sum_take_step(g, k as int);
        }
        if w > max - used {
            full = true;
        } else {
            used = used + w;
            k = k + 1;
        }
    }
    proof {
        lemma_fit_count_is(g, max as nat, k as int);
    }
    (gs, k, used)
}

} // verus!

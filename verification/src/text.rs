//! Unicode text measurement and segmentation, and splitting text into
//! graphemes and ANSI escape sequences.
use vstd::prelude::*;

use textwrap;
use unicode_segmentation::UnicodeSegmentation;
use unicode_width::{UnicodeWidthChar, UnicodeWidthStr};

use crate::chars::str_chars;

verus! {

/// The width in columns that `unicode_width` gives a character, or `None`
/// for a control character.
pub uninterp spec fn unicode_char_columns(c: char) -> Option<usize>;

/// The width in columns that `unicode_width` gives a string.
pub uninterp spec fn unicode_str_columns(s: Seq<char>) -> usize;

/// The width in columns that `textwrap` gives a string, not counting ANSI
/// escape sequences.
pub uninterp spec fn textwrap_columns(s: Seq<char>) -> usize;

/// The extended grapheme clusters of a string, in order.
pub uninterp spec fn grapheme_clusters(s: Seq<char>) -> Seq<Seq<char>>;

/// The text that `textwrap::fill_inplace` leaves for a width.
pub uninterp spec fn textwrap_filled(s: Seq<char>, width: usize) -> Seq<char>;

/// All pieces joined in order.
pub open spec fn concat(parts: Seq<Seq<char>>) -> Seq<char>
    decreases parts.len(),
{
    if parts.len() == 0 {
        Seq::empty()
    } else {
        concat(parts.drop_last()) + parts.last()
    }
}

/// The characters of the first `i` parts are no more than those of all.
pub proof fn lemma_concat_prefix(parts: Seq<Seq<char>>, i: int)
    requires
        0 <= i <= parts.len(),
    ensures
        concat(parts.take(i)).len() <= concat(parts).len(),
    decreases parts.len() - i,
{
    if i < parts.len() {
        lemma_concat_prefix(parts.drop_last(), if i < parts.len() { i } else { i - 1 });
        assert(parts.drop_last().take(i) =~= parts.take(i));
    } else {
        assert(parts.take(i) =~= parts);
    }
}

/// Taking one more part adds that part at the end.
pub proof fn lemma_concat_step(parts: Seq<Seq<char>>, i: int)
    requires
        0 <= i < parts.len(),
    ensures
        concat(parts.take(i + 1)) == concat(parts.take(i)) + parts[i],
        concat(parts.take(i + 1)).len() <= concat(parts).len(),
{
    assert(parts.take(i + 1).drop_last() =~= parts.take(i));
    lemma_concat_prefix(parts, i + 1);
}

/// Putting a part in front puts its characters in front.
pub proof fn lemma_concat_front(first: Seq<char>, rest: Seq<Seq<char>>)
    ensures
        concat(seq![first] + rest) == first + concat(rest),
    decreases rest.len(),
{
    let all = seq![first] + rest;
    if rest.len() == 0 {
        assert(all =~= seq![first]);
        assert(all.drop_last() =~= Seq::<Seq<char>>::empty());
        assert(concat(all.drop_last()) == Seq::<char>::empty());
        assert(concat(all) == concat(all.drop_last()) + all.last());
        assert(concat(rest) == Seq::<char>::empty());
        assert(first + Seq::<char>::empty() =~= first);
        assert(Seq::<char>::empty() + first =~= first);
    } else {
        lemma_concat_front(first, rest.drop_last());
        assert(all.drop_last() =~= seq![first] + rest.drop_last());
        assert(all.last() == rest.last());
        assert(concat(all) == concat(all.drop_last()) + all.last());
        assert(concat(rest) == concat(rest.drop_last()) + rest.last());
        assert(first + concat(rest.drop_last()) + rest.last()
            =~= first + (concat(rest.drop_last()) + rest.last()));
    }
}

/// `String`'s `FromIterator<&char>` (`collect`): the string holds the
/// characters in order.
#[verifier::external_body]
pub(crate) fn string_from_chars(chars: &[char]) -> (r: String)
    ensures
        r@ == chars@,
{
    chars.iter().collect()
}

/// `UnicodeWidthChar::width`: the columns of a character, none for
/// control characters; named, not restated.
#[verifier::external_body]
fn unicode_char_width(c: char) -> (r: Option<usize>)
    ensures
        r == unicode_char_columns(c),
{
    UnicodeWidthChar::width(c)
}

/// `UnicodeWidthStr::width`: the columns of a string; named, not restated.
#[verifier::external_body]
fn unicode_str_width(s: &str) -> (r: usize)
    ensures
        r == unicode_str_columns(s@),
{
    UnicodeWidthStr::width(s)
}

/// `textwrap::core::display_width`: the columns of a string, ANSI escape
/// sequences left out; named, not restated.
#[verifier::external_body]
fn textwrap_display_width(s: &str) -> (r: usize)
    ensures
        r == textwrap_columns(s@),
{
    textwrap::core::display_width(s)
}

/// `textwrap::fill_inplace`: it only turns some spaces into newlines, so the
/// text keeps its length and every other character.
#[verifier::external_body]
fn textwrap_fill_inplace(s: &mut String, width: usize)
    ensures
        final(s)@ == textwrap_filled(old(s)@, width),
        final(s)@.len() == old(s)@.len(),
        forall|i: int|
            0 <= i < old(s)@.len() ==> #[trigger] final(s)@[i] == old(s)@[i] || (old(s)@[i] == ' '
                && final(s)@[i] == '\n'),
{
    textwrap::fill_inplace(s, width)
}

/// The text ends in a printable ASCII character (space to tilde) that
/// follows another ASCII character or nothing.
pub open spec fn ends_in_lone_ascii(s: Seq<char>) -> bool {
    &&& s.len() > 0
    &&& 0x20 <= (s.last() as u32) <= 0x7e
    &&& s.len() > 1 ==> (s[s.len() - 2] as u32) < 0x80
}

/// `UnicodeSegmentation::graphemes` with extended clusters: the clusters
/// are not empty and together they are the whole text. Its source gives a
/// printable ASCII character the category that joins no neighbour, and an
/// ASCII character before it none that joins it, so such a character
/// ending the text is a cluster of its own.
#[verifier::external_body]
fn unicode_graphemes(s: &str) -> (r: Vec<String>)
    ensures
        r@.map_values(|g: String| g@) == grapheme_clusters(s@),
        concat(r@.map_values(|g: String| g@)) == s@,
        forall|i: int| 0 <= i < r@.len() ==> #[trigger] r@[i]@.len() > 0,
        ends_in_lone_ascii(s@) ==> r@.len() > 0 && r@.last()@ == seq![s@.last()],
{
    s.graphemes(true).map(String::from).collect()
}

/// The width of a character in columns; control characters have none.
pub fn char_width(c: char) -> (r: u16)
    ensures
        r == (match unicode_char_columns(c) {
            Some(w) => w as u16,
            None => 0,
        }),
{
    match unicode_char_width(c) {
        Some(w) => w as u16,
        None => 0,
    }
}

/// The width of a string in columns.
pub fn str_width(s: &str) -> (r: u16)
    ensures
        r == unicode_str_columns(s@) as u16,
{
    unicode_str_width(s) as u16
}

/// The width of a string in columns, as `str_width` measures it.
pub fn chars_width(s: &[char]) -> (r: u16)
    ensures
        r == unicode_str_columns(s@) as u16,
{
    let st = string_from_chars(s);
    str_width(st.as_str())
}

/// The width of a string in columns, leaving out ANSI escape sequences.
pub fn display_width(s: &str) -> (r: u16)
    ensures
        r == textwrap_columns(s@) as u16,
{
    textwrap_display_width(s) as u16
}

/// Breaks the text into lines of at most `max_width` columns where it can,
/// by turning spaces into newlines.
pub fn text_wrap(s: &mut String, max_width: u16)
    ensures
        final(s)@ == textwrap_filled(old(s)@, max_width as usize),
        final(s)@.len() == old(s)@.len(),
        forall|i: int|
            0 <= i < old(s)@.len() ==> #[trigger] final(s)@[i] == old(s)@[i] || (old(s)@[i] == ' '
                && final(s)@[i] == '\n'),
{
    textwrap_fill_inplace(s, max_width as usize);
}

/// The extended grapheme clusters of a string.
pub fn graphemes(s: &str) -> (r: Vec<String>)
    ensures
        r@.map_values(|g: String| g@) == grapheme_clusters(s@),
        concat(grapheme_clusters(s@)) == s@,
{
    unicode_graphemes(s)
}

/// The extended grapheme clusters of a string, each with the index of its
/// first character, counted in characters as everywhere in this library.
pub fn grapheme_indices(s: &str) -> (r: Vec<(usize, String)>)
    ensures
        r@.len() == grapheme_clusters(s@).len(),
        forall|i: int|
            0 <= i < r@.len() ==> #[trigger] r@[i].1@ == grapheme_clusters(s@)[i] && r@[i].0 == concat(
                grapheme_clusters(s@).take(i),
            ).len(),
{
    let all = str_chars(s);
    let total: usize = all.len();
    let gs = graphemes(s);
    let ghost clusters = grapheme_clusters(s@);
    let mut out: Vec<(usize, String)> = Vec::new();
    let mut offset: usize = 0;
    let mut i: usize = 0;
    assert(clusters.take(0) =~= Seq::<Seq<char>>::empty());
    while i < gs.len()
        invariant
            all@ == s@,
            total == s@.len(),
            gs@.map_values(|g: String| g@) == clusters,
            clusters == grapheme_clusters(s@),
            concat(clusters) == s@,
            i == out@.len(),
            i <= gs@.len(),
            offset == concat(clusters.take(i as int)).len(),
            forall|k: int|
                0 <= k < out@.len() ==> #[trigger] out@[k].1@ == clusters[k] && out@[k].0 == concat(
                    clusters.take(k),
                ).len(),
        decreases gs@.len() - i,
    {
        assert(gs@[i as int]@ == clusters[i as int]);
        proof {
            lemma_concat_step(clusters, i as int);
        }
        let chars = str_chars(gs[i].as_str());
        let n = chars.len();
        assert(offset + n == concat(clusters.take(i as int + 1)).len());
        out.push((offset, string_from_chars(chars.as_slice())));
        offset = offset + n;
        i = i + 1;
    }
    out
}

/// The grapheme clusters of a text kept as characters.
pub fn grapheme_chars(s: &[char]) -> (r: Vec<Vec<char>>)
    ensures
        r@.map_values(|g: Vec<char>| g@) == grapheme_clusters(s@),
        concat(grapheme_clusters(s@)) == s@,
        forall|i: int| 0 <= i < r@.len() ==> #[trigger] r@[i]@.len() > 0,
{
    let st = string_from_chars(s);
    let gs = unicode_graphemes(st.as_str());
    let ghost clusters = grapheme_clusters(s@);
    let mut out: Vec<Vec<char>> = Vec::new();
    let mut i: usize = 0;
    while i < gs.len()
        invariant
            st@ == s@,
            gs@.map_values(|g: String| g@) == clusters,
            clusters == grapheme_clusters(s@),
            forall|k: int| 0 <= k < clusters.len() ==> #[trigger] clusters[k].len() > 0,
            i <= gs@.len(),
            out@.len() == i,
            forall|k: int| 0 <= k < i ==> #[trigger] out@[k]@ == clusters[k],
        decreases gs@.len() - i,
    {
        assert(gs@.map_values(|g: String| g@)[i as int] == gs@[i as int]@);
        let g = str_chars(gs[i].as_str());
        out.push(g);
        i = i + 1;
    }
    assert(out@.map_values(|g: Vec<char>| g@) =~= clusters);
    out
}

/// The length of the first grapheme cluster of a text, if it has one.
pub fn first_grapheme_len(s: &[char]) -> (r: Option<usize>)
    ensures
        grapheme_clusters(s@).len() == 0 ==> r is None,
        grapheme_clusters(s@).len() > 0 ==> r == Some(grapheme_clusters(s@)[0].len() as usize)
            && 0 < grapheme_clusters(s@)[0].len() <= s@.len(),
        r matches Some(n) ==> 0 < n <= s@.len(),
{
    let gs = grapheme_chars(s);
    let ghost clusters = grapheme_clusters(s@);
    if gs.len() == 0 {
        None
    } else {
        proof {
            assert(gs@.map_values(|g: Vec<char>| g@)[0] == gs@[0]@);
            lemma_concat_first_len(clusters);
        }
        Some(gs[0].len())
    }
}

/// The length of the last grapheme cluster of a text, if it has one.
pub fn last_grapheme_len(s: &[char]) -> (r: Option<usize>)
    ensures
        grapheme_clusters(s@).len() == 0 ==> r is None,
        grapheme_clusters(s@).len() > 0 ==> r == Some(grapheme_clusters(s@).last().len() as usize)
            && 0 < grapheme_clusters(s@).last().len() <= s@.len(),
        r matches Some(n) ==> 0 < n <= s@.len(),
        ends_in_lone_ascii(s@) ==> grapheme_clusters(s@).len() > 0 && grapheme_clusters(s@).last().len() == 1,
{
    let st = string_from_chars(s);
    let gs = unicode_graphemes(st.as_str());
    let ghost clusters = grapheme_clusters(s@);
    if gs.len() == 0 {
        None
    } else {
        let last: usize = gs.len() - 1;
        proof {
            assert(gs@.map_values(|g: String| g@)[last as int] == gs@[last as int]@);
            assert(clusters.last() == clusters[last as int]);
        }
        let chars = str_chars(gs[last].as_str());
        Some(chars.len())
    }
}

proof fn lemma_concat_first_len(parts: Seq<Seq<char>>)
    requires
        parts.len() > 0,
    ensures
        parts[0].len() <= concat(parts).len(),
    decreases parts.len(),
{
    if parts.len() > 1 {
        lemma_concat_first_len(parts.drop_last());
        assert(parts.drop_last()[0] == parts[0]);
    }
}

/// One piece of text for the terminal: a grapheme, or a whole ANSI escape
/// sequence from its ESC to its final `m`.
#[derive(Debug, Clone, PartialEq, Eq)]
pub enum GraphemeOrAnsi {
    Grapheme(Vec<char>),
    Ansi(Vec<char>),
}

impl GraphemeOrAnsi {
    pub open spec fn is_ansi(self) -> bool {
        self is Ansi
    }

    pub open spec fn text(self) -> Seq<char> {
        match self {
            GraphemeOrAnsi::Grapheme(g) => g@,
            GraphemeOrAnsi::Ansi(a) => a@,
        }
    }
}

/// The index of the first cluster from `from` on that is `m`, if any.
pub open spec fn find_m(gs: Seq<Seq<char>>, from: int) -> Option<int>
    decreases gs.len() - from,
{
    if from < 0 || from >= gs.len() {
        None
    } else if gs[from] == seq!['m'] {
        Some(from)
    } else {
        find_m(gs, from + 1)
    }
}

/// How the text of the clusters splits into graphemes and escape
/// sequences: an ESC cluster opens a sequence that runs to the next `m`
/// cluster; an ESC without an `m` after it ends the text.
pub open spec fn ansi_tokens(gs: Seq<Seq<char>>) -> Seq<(bool, Seq<char>)>
    decreases gs.len(),
{
    if gs.len() == 0 {
        Seq::empty()
    } else if gs[0] == seq!['\x1b'] {
        match find_m(gs, 1) {
            Some(j) => if 0 < j < gs.len() {
                seq![(true, concat(gs.take(j + 1)))] + ansi_tokens(gs.skip(j + 1))
            } else {
                Seq::empty()
            },
            None => Seq::empty(),
        }
    } else {
        seq![(false, gs[0])] + ansi_tokens(gs.drop_first())
    }
}

proof fn lemma_find_m_range(gs: Seq<Seq<char>>, from: int)
    requires
        0 <= from,
    ensures
        find_m(gs, from) matches Some(j) ==> from <= j < gs.len() && gs[j] == seq!['m'],
        find_m(gs, from) is None ==> forall|k: int| from <= k < gs.len() ==> gs[k] != seq!['m'],
    decreases gs.len() - from,
{
    if 0 <= from < gs.len() && gs[from] != seq!['m'] {
        lemma_find_m_range(gs, from + 1);
    }
}

fn is_single(g: &Vec<char>, c: char) -> (r: bool)
    ensures
        r == (g@ == seq![c]),
{
    if g.len() == 1 {
        let b = g[0] == c;
        assert(b ==> g@ =~= seq![c]);
        b
    } else {
        false
    }
}

/// The graphemes and escape sequences of a text, in order.
pub fn split_graphemes_ansi(text: &[char]) -> (r: Vec<GraphemeOrAnsi>)
    ensures
        r@.map_values(|t: GraphemeOrAnsi| (t.is_ansi(), t.text())) == ansi_tokens(
            grapheme_clusters(text@),
        ),
{
    let gs = grapheme_chars(text);
    let ghost all = gs@.map_values(|g: Vec<char>| g@);
    let mut out: Vec<GraphemeOrAnsi> = Vec::new();
    let mut i: usize = 0;
    assert(all.skip(0) =~= all);
    while i < gs.len()
        invariant
            all == gs@.map_values(|g: Vec<char>| g@),
            all == grapheme_clusters(text@),
            i <= gs@.len(),
            out@.map_values(|t: GraphemeOrAnsi| (t.is_ansi(), t.text())) + ansi_tokens(
                all.skip(i as int),
            ) == ansi_tokens(all),
        decreases gs@.len() - i,
    {
        let ghost rest = all.skip(i as int);
        let ghost before = out@.map_values(|t: GraphemeOrAnsi| (t.is_ansi(), t.text()));
        assert(rest[0] == gs@[i as int]@);
        if is_single(&gs[i], '\x1b') {
            // Look for the closing `m`.
            let mut j: usize = i + 1;
            while j < gs.len() && !is_single(&gs[j], 'm')
                invariant
                    all == gs@.map_values(|g: Vec<char>| g@),
                    i < j <= gs@.len(),
                    forall|k: int| i < k < j ==> #[trigger] all[k] != seq!['m'],
                decreases gs@.len() - j,
            {
                j = j + 1;
            }
            proof {
                lemma_find_m_range(rest, 1);
                assert forall|k: int| 1 <= k < j - i implies rest[k] != seq!['m'] by {
                    assert(rest[k] == all[i + k]);
                }
            }
            if j == gs.len() {
                proof {
                    assert(find_m(rest, 1) is None) by {
                        if find_m(rest, 1) is Some {
                            let jj = find_m(rest, 1)->0;
                            assert(rest[jj] == all[i + jj]);
                        }
                    }
                }
                assert(ansi_tokens(rest) =~= Seq::<(bool, Seq<char>)>::empty());
                return out;
            }
            assert(rest[(j - i) as int] == all[j as int]);
            assert(find_m(rest, 1) == Some((j - i) as int)) by {
                lemma_find_m_range(rest, 1);
                if find_m(rest, 1) is None {
                } else {
                    let jj = find_m(rest, 1)->0;
                    if jj < j - i {
                        assert(rest[jj] == all[i + jj]);
                    } else if jj > j - i {
                        lemma_find_m_first(rest, 1, (j - i) as int);
                    }
                }
            }
            let mut seq_chars: Vec<char> = Vec::new();
            let mut k: usize = i;
            while k <= j
                invariant
                    all == gs@.map_values(|g: Vec<char>| g@),
                    i <= k <= j + 1,
                    j < gs.len(),
                    seq_chars@ == concat(all.subrange(i as int, k as int)),
                decreases j + 1 - k,
            {
                assert(all.subrange(i as int, k as int + 1).drop_last() =~= all.subrange(
                    i as int,
                    k as int,
                ));
                crate::chars::push_chars(&mut seq_chars, gs[k].as_slice());
                k = k + 1;
            }
            assert(rest.take((j - i) as int + 1) =~= all.subrange(i as int, j as int + 1));
            assert(rest.skip((j - i) as int + 1) =~= all.skip(j as int + 1));
            out.push(GraphemeOrAnsi::Ansi(seq_chars));
            assert(out@.map_values(|t: GraphemeOrAnsi| (t.is_ansi(), t.text())) =~= before.push(
                (true, concat(rest.take((j - i) as int + 1))),
            ));
            i = j + 1;
        } else {
            let g = gs[i].clone();
            out.push(GraphemeOrAnsi::Grapheme(g));
            assert(rest.drop_first() =~= all.skip(i as int + 1));
            assert(out@.map_values(|t: GraphemeOrAnsi| (t.is_ansi(), t.text())) =~= before.push(
                (false, rest[0]),
            ));
            i = i + 1;
        }
    }
    assert(all.skip(i as int) =~= Seq::<Seq<char>>::empty());
    assert(out@.map_values(|t: GraphemeOrAnsi| (t.is_ansi(), t.text())) =~= ansi_tokens(all));
    out
}

proof fn lemma_find_m_first(gs: Seq<Seq<char>>, from: int, j: int)
    requires
        from <= j < gs.len(),
        0 <= from,
        gs[j] == seq!['m'],
    ensures
        find_m(gs, from) matches Some(k) && k <= j,
    decreases j - from,
{
    if gs[from] != seq!['m'] {
        lemma_find_m_first(gs, from + 1, j);
    }
}

fn copy_chars(v: &Vec<char>) -> (r: Vec<char>)
    ensures
        r@ == v@,
{
    let mut out: Vec<char> = Vec::new();
    crate::chars::push_chars(&mut out, v.as_slice());
    out
}

impl GraphemeOrAnsi {
    /// A copy of the piece.
    pub fn duplicate(&self) -> (r: Self)
        ensures
            r.is_ansi() == self.is_ansi(),
            r.text() == self.text(),
    {
        match self {
            GraphemeOrAnsi::Grapheme(g) => GraphemeOrAnsi::Grapheme(copy_chars(g)),
            GraphemeOrAnsi::Ansi(a) => GraphemeOrAnsi::Ansi(copy_chars(a)),
        }
    }
}

/// The graphemes and escape sequences of a text, handed out one at a time.
pub struct GraphemeAnsiIter {
    tokens: Vec<GraphemeOrAnsi>,
    index: usize,
}

impl GraphemeAnsiIter {
    /// What is still to come.
    pub closed spec fn remaining(self) -> Seq<(bool, Seq<char>)> {
        self.tokens@.map_values(|t: GraphemeOrAnsi| (t.is_ansi(), t.text())).skip(self.index as int)
    }

    pub closed spec fn wf(self) -> bool {
        self.index <= self.tokens@.len()
    }

    pub fn new(text: &[char]) -> (r: Self)
        ensures
            r.wf(),
            r.remaining() == ansi_tokens(grapheme_clusters(text@)),
    {
        let tokens = split_graphemes_ansi(text);
        let r = GraphemeAnsiIter { tokens, index: 0 };
        assert(r.remaining() =~= ansi_tokens(grapheme_clusters(text@)));
        r
    }

    /// The next grapheme or escape sequence, if any.
    pub fn next(&mut self) -> (r: Option<GraphemeOrAnsi>)
        requires
            old(self).wf(),
        ensures
            final(self).wf(),
            old(self).remaining().len() == 0 ==> r is None && final(self).remaining() == old(
                self,
            ).remaining(),
            old(self).remaining().len() > 0 ==> (r matches Some(t) && (t.is_ansi(), t.text())
                == old(self).remaining()[0]) && final(self).remaining() == old(
                self,
            ).remaining().drop_first(),
    {
        if self.index < self.tokens.len() {
            let t = self.tokens[self.index].duplicate();
            self.index = self.index + 1;
            assert(final(self).remaining() =~= old(self).remaining().drop_first());
            Some(t)
        } else {
            None
        }
    }
}

} // verus!

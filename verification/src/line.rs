//! A line buffer of styled characters for one physical output row, with
//! visual-width accounting and the soft/hard wrap-point algorithm.

use vstd::prelude::*;

use crate::CPL;
use crate::elements::{Justify, StyledChar};

verus! {

/// Rust's Unicode `White_Space` set, written out so that wrap decisions
/// have an exact specification.
pub open spec fn spec_is_whitespace(c: char) -> bool {
    c == ' ' || ('\u{09}' <= c && c <= '\u{0D}') || c == '\u{85}' || c == '\u{A0}'
        || c == '\u{1680}' || ('\u{2000}' <= c && c <= '\u{200A}') || c == '\u{2028}'
        || c == '\u{2029}' || c == '\u{202F}' || c == '\u{205F}' || c == '\u{3000}'
}

/// Whether a character counts as whitespace for wrapping.
pub fn is_whitespace_char(c: char) -> (r: bool)
    ensures
        r == spec_is_whitespace(c),
{
    match c {
        ' ' | '\u{09}'..='\u{0D}' | '\u{85}' | '\u{A0}' | '\u{1680}'
        | '\u{2000}'..='\u{200A}' | '\u{2028}' | '\u{2029}' | '\u{202F}' | '\u{205F}'
        | '\u{3000}' => true,
        _ => false,
    }
}

/// Total visual columns of a sequence of styled characters.
pub open spec fn width_of(s: Seq<StyledChar>) -> nat
    decreases s.len(),
{
    if s.len() == 0 {
        0
    } else {
        width_of(s.drop_last()) + s.last().spec_width()
    }
}

pub proof fn lemma_width_push(s: Seq<StyledChar>, c: StyledChar)
    ensures
        width_of(s.push(c)) == width_of(s) + c.spec_width(),
{
    assert(s.push(c).drop_last() =~= s);
}

pub proof fn lemma_width_take_step(s: Seq<StyledChar>, i: int)
    requires
        0 <= i < s.len(),
    ensures
        width_of(s.take(i + 1)) == width_of(s.take(i)) + s[i].spec_width(),
{
    assert(s.take(i + 1).drop_last() =~= s.take(i));
    assert(s.take(i + 1).last() == s[i]);
}

pub proof fn lemma_width_take_mono(s: Seq<StyledChar>, i: int, j: int)
    requires
        0 <= i <= j <= s.len(),
    ensures
        width_of(s.take(i)) <= width_of(s.take(j)),
    decreases j - i,
{
    if i < j {
        lemma_width_take_mono(s, i, j - 1);
        lemma_width_take_step(s, j - 1);
    }
}

pub proof fn lemma_width_take_full(s: Seq<StyledChar>)
    ensures
        width_of(s.take(s.len() as int)) == width_of(s),
{
    assert(s.take(s.len() as int) =~= s);
}

/// The width of a sequence splits around any single position.
pub proof fn lemma_width_split_at(s: Seq<StyledChar>, i: int)
    requires
        0 <= i < s.len(),
    ensures
        width_of(s) == width_of(s.take(i)) + s[i].spec_width() + width_of(s.skip(i + 1)),
    decreases s.len() - i,
{
    if i + 1 == s.len() {
        assert(s.skip(i + 1) =~= Seq::<StyledChar>::empty());
        assert(s.take(i) =~= s.drop_last());
    } else {
        lemma_width_split_at(s.drop_last(), i);
        assert(s.drop_last().take(i) =~= s.take(i));
        assert(s.drop_last().skip(i + 1) =~= s.skip(i + 1).drop_last());
        assert(s.skip(i + 1).last() == s.last());
    }
}

/// A position where a soft wrap may happen: a whitespace character whose
/// preceding characters fit within the column budget.
pub open spec fn is_wrap_candidate(s: Seq<StyledChar>, i: int) -> bool {
    0 <= i < s.len() && spec_is_whitespace(s[i].ch) && width_of(s.take(i)) <= CPL as nat
}

/// The last wrap candidate strictly before position `n`, if any.
pub open spec fn last_candidate_before(s: Seq<StyledChar>, n: int) -> Option<int>
    decreases n,
{
    if n <= 0 {
        None
    } else if is_wrap_candidate(s, n - 1) {
        Some(n - 1)
    } else {
        last_candidate_before(s, n - 1)
    }
}

/// `last_candidate_before` returns exactly the largest candidate below `n`.
pub proof fn lemma_last_candidate_props(s: Seq<StyledChar>, n: int)
    requires
        0 <= n <= s.len(),
    ensures
        last_candidate_before(s, n) matches Some(i) ==> 0 <= i < n && is_wrap_candidate(s, i)
            && (forall|j: int| i < j < n ==> !is_wrap_candidate(s, j)),
        last_candidate_before(s, n) is None ==> forall|j: int| 0 <= j < n ==> !is_wrap_candidate(
            s,
            j,
        ),
    decreases n,
{
    if n > 0 {
        lemma_last_candidate_props(s, n - 1);
    }
}

/// Positions known to carry no candidate do not change the result.
pub proof fn lemma_last_candidate_stable(s: Seq<StyledChar>, m: int, n: int)
    requires
        0 <= m <= n <= s.len(),
        forall|j: int| m <= j < n ==> !is_wrap_candidate(s, j),
    ensures
        last_candidate_before(s, n) == last_candidate_before(s, m),
    decreases n - m,
{
    if m < n {
        lemma_last_candidate_stable(s, m, n - 1);
    }
}

/// Where a full line soft-wraps: `None` if the characters fit within the
/// budget or no whitespace falls within it, otherwise the index of the
/// last whitespace character whose prefix still fits.
pub open spec fn spec_wrap_point(s: Seq<StyledChar>) -> Option<int> {
    if width_of(s) <= CPL as nat {
        None
    } else {
        last_candidate_before(s, s.len() as int)
    }
}

/// The wrap point of an over-budget line is the last whitespace character
/// at or before the column boundary: it is a candidate, and no later
/// position is one.
pub proof fn lemma_wrap_point_is_last_whitespace(s: Seq<StyledChar>)
    requires
        width_of(s) > CPL as nat,
    ensures
        spec_wrap_point(s) matches Some(i) ==> is_wrap_candidate(s, i) && (forall|j: int|
            i < j < s.len() ==> !is_wrap_candidate(s, j)),
        spec_wrap_point(s) is None ==> forall|j: int| 0 <= j < s.len() ==> !is_wrap_candidate(
            s,
            j,
        ),
{
    lemma_last_candidate_props(s, s.len() as int);
}

/// An exec index option viewed as a spec index option.
pub open spec fn opt_index(r: Option<usize>) -> Option<int> {
    match r {
        None => None,
        Some(u) => Some(u as int),
    }
}

/// What `Line::add_char` does to the character sequence: the kept prefix
/// and, when the line overflowed, the characters moved to a new line.
/// A soft wrap drops exactly the whitespace character at the wrap point;
/// a hard wrap moves exactly the just-appended character.
pub open spec fn line_add_spec(s: Seq<StyledChar>, c: StyledChar) -> (Seq<StyledChar>, Option<
    Seq<StyledChar>,
>) {
    let pushed = s.push(c);
    if width_of(pushed) <= CPL as nat {
        (pushed, None)
    } else {
        match spec_wrap_point(pushed) {
            Some(i) => {
                let rem = pushed.skip(i + 1);
                (pushed.take(i), if rem.len() == 0 { None } else { Some(rem) })
            },
            None => (s, Some(seq![c])),
        }
    }
}

/// An ordered buffer of styled characters plus a justification mode for
/// one physical output row.
#[derive(Debug)]
pub struct Line {
    pub chars: Vec<StyledChar>,
    pub justify_content: Justify,
}

/// The mathematical value of a `Line`: its character sequence and its
/// justification.
#[verifier::ext_equal]
pub struct LineView {
    pub chars: Seq<StyledChar>,
    pub justify: Justify,
}

impl View for Line {
    type V = LineView;

    open spec fn view(&self) -> LineView {
        LineView { chars: self.chars@, justify: self.justify_content }
    }
}

/// `line_add_spec` lifted to whole lines: the new line produced by a wrap
/// carries the justification of the line it was split from.
pub open spec fn line_view_add(l: LineView, c: StyledChar) -> (LineView, Option<LineView>) {
    let kept = line_add_spec(l.chars, c).0;
    let rem = line_add_spec(l.chars, c).1;
    (
        LineView { chars: kept, justify: l.justify },
        match rem {
            None => None,
            Some(rs) => Some(LineView { chars: rs, justify: l.justify }),
        },
    )
}

impl Default for Line {
    fn default() -> (r: Self)
        ensures
            r.chars@ == Seq::<StyledChar>::empty(),
            r.justify_content == Justify::Left,
    {
        Line { chars: Vec::new(), justify_content: Justify::Left }
    }
}

/// Whether the characters' total width exceeds the column budget,
/// computed without summing past the budget.
fn width_exceeds_cpl(chars: &Vec<StyledChar>) -> (r: bool)
    ensures
        r == (width_of(chars@) > CPL as nat),
{
    let ghost s = chars@;
    let mut width: usize = 0;
    let mut i: usize = 0;
    while i < chars.len()
        invariant
            0 <= i <= s.len(),
            chars@ == s,
            width == width_of(s.take(i as int)),
            width <= CPL as usize,
        decreases s.len() - i,
    {
        let w = chars[i].state.text_size.char_width();
        proof {
            lemma_width_take_step(s, i as int);
        }
        width = width + w;
        if width > CPL as usize {
            proof {
                lemma_width_take_mono(s, i + 1, s.len() as int);
                lemma_width_take_full(s);
            }
            return true;
        }
        i = i + 1;
    }
    proof {
        lemma_width_take_full(s);
    }
    false
}

impl Line {
    /// Calculate the visual width of the line, accounting for text size.
    pub fn visual_width(&self) -> (w: usize)
        requires
            width_of(self.chars@) <= usize::MAX,
        ensures
            w == width_of(self.chars@),
    {
        let ghost s = self.chars@;
        let mut width: usize = 0;
        let mut i: usize = 0;
        while i < self.chars.len()
            invariant
                0 <= i <= s.len(),
                self.chars@ == s,
                width == width_of(s.take(i as int)),
                width_of(s) <= usize::MAX,
            decreases s.len() - i,
        {
            let w = self.chars[i].state.text_size.char_width();
            proof {
                lemma_width_take_step(s, i as int);
                lemma_width_take_mono(s, i + 1, s.len() as int);
                lemma_width_take_full(s);
            }
            width = width + w;
            i = i + 1;
        }
        proof {
            lemma_width_take_full(s);
        }
        width
    }

    /// Find the character index where we should soft-wrap (at whitespace).
    /// Returns None if the line fits within the budget or no whitespace
    /// falls within it.
    pub fn find_wrap_point(&self) -> (r: Option<usize>)
        ensures
            opt_index(r) == spec_wrap_point(self.chars@),
    {
        let ghost s = self.chars@;
        if !width_exceeds_cpl(&self.chars) {
            return None;
        }
        let mut width: usize = 0;
        let mut last_whitespace_idx: Option<usize> = None;
        let mut i: usize = 0;
        while i < self.chars.len()
            invariant
                0 <= i <= s.len(),
                self.chars@ == s,
                width == width_of(s.take(i as int)),
                width <= CPL as usize,
                width_of(s) > CPL as nat,
                opt_index(last_whitespace_idx) == last_candidate_before(s, i as int),
            decreases s.len() - i,
        {
            let sc = &self.chars[i];
            if is_whitespace_char(sc.ch) && width <= CPL as usize {
                last_whitespace_idx = Some(i);
            }
            let w = sc.state.text_size.char_width();
            proof {
                lemma_width_take_step(s, i as int);
            }
            width = width + w;
            if width > CPL as usize {
                proof {
                    assert(opt_index(last_whitespace_idx) == last_candidate_before(
                        s,
                        i + 1,
                    ));
                    assert forall|j: int| i + 1 <= j < s.len() implies !is_wrap_candidate(
                        s,
                        j,
                    ) by {
                        lemma_width_take_mono(s, i + 1, j);
                    }
                    lemma_last_candidate_stable(s, i + 1, s.len() as int);
                }
                return last_whitespace_idx;
            }
            i = i + 1;
        }
        last_whitespace_idx
    }

    /// Add a character to the line, and return a new line if the line is
    /// full.  Uses visual width (accounting for text size) to determine
    /// when to wrap.  A soft wrap discards the whitespace character at the
    /// wrap point; a hard wrap moves exactly the just-appended character;
    /// either way the new line carries this line's justification.
    pub fn add_char(&mut self, sch: StyledChar) -> (r: Option<Line>)
        ensures
            final(self).chars@ == line_add_spec(old(self).chars@, sch).0,
            final(self).justify_content == old(self).justify_content,
            (r is None) <==> (line_add_spec(old(self).chars@, sch).1 is None),
            r matches Some(l) ==> line_add_spec(old(self).chars@, sch).1 matches Some(rem)
                && l.chars@ == rem && l.justify_content == old(self).justify_content,
            width_of(old(self).chars@) <= CPL as nat ==> width_of(final(self).chars@)
                <= CPL as nat,
    {
        let ghost s0 = old(self).chars@;
        self.chars.push(sch);
        let ghost pushed = self.chars@;
        proof {
            lemma_width_push(s0, sch);
        }
        if !width_exceeds_cpl(&self.chars) {
            return None;
        }
        let wrap = self.find_wrap_point();
        let remainder: Vec<StyledChar>;
        match wrap {
            Some(wrap_point) => {
                proof {
                    lemma_last_candidate_props(pushed, pushed.len() as int);
                }
                let mut rem = self.chars.split_off(wrap_point);
                proof {
                    assert(rem@.len() > 0);
                }
                rem.remove(0);
                proof {
                    assert(rem@ =~= pushed.skip(wrap_point + 1));
                }
                remainder = rem;
            },
            None => {
                let n = self.chars.len();
                remainder = self.chars.split_off(n - 1);
                proof {
                    assert(self.chars@ =~= s0);
                    assert(remainder@ =~= seq![sch]);
                }
            },
        }
        if remainder.len() == 0 {
            None
        } else {
            Some(Line { justify_content: self.justify_content, chars: remainder })
        }
    }
}

/// A soft wrap splits at the last whitespace character at or before the
/// column boundary, and that whitespace character is dropped from both
/// resulting lines: the kept prefix and the remainder partition the
/// characters around it, with nothing else lost.
pub proof fn lemma_soft_wrap_drops_whitespace(s: Seq<StyledChar>, c: StyledChar)
    requires
        width_of(s.push(c)) > CPL as nat,
    ensures
        spec_wrap_point(s.push(c)) matches Some(i) ==> {
            let pushed = s.push(c);
            &&& spec_is_whitespace(pushed[i].ch)
            &&& forall|j: int| i < j < pushed.len() ==> !is_wrap_candidate(pushed, j)
            &&& line_add_spec(s, c).0 == pushed.take(i)
            &&& (line_add_spec(s, c).1 matches Some(rem) ==> rem == pushed.skip(i + 1))
            &&& pushed.take(i) + seq![pushed[i]] + pushed.skip(i + 1) == pushed
        },
{
    let pushed = s.push(c);
    lemma_wrap_point_is_last_whitespace(pushed);
    match spec_wrap_point(pushed) {
        None => {},
        Some(i) => {
            assert(pushed.take(i) + seq![pushed[i]] + pushed.skip(i + 1) =~= pushed);
        },
    }
}

/// After `add_char` on a line that was within the column budget, the
/// mutated line is within the budget again, for every mix of text sizes.
pub proof fn lemma_add_char_within_budget(s: Seq<StyledChar>, c: StyledChar)
    requires
        width_of(s) <= CPL as nat,
    ensures
        width_of(line_add_spec(s, c).0) <= CPL as nat,
{
    let pushed = s.push(c);
    if width_of(pushed) > CPL as nat {
        lemma_last_candidate_props(pushed, pushed.len() as int);
        match spec_wrap_point(pushed) {
            Some(i) => {
                assert(width_of(pushed.take(i)) <= CPL as nat);
            },
            None => {
            },
        }
    }
}

} // verus!

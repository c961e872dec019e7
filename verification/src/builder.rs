//! The mutable layout session: accumulates lines, tracks the pending
//! style state stamped onto newly appended content, and exposes the
//! mutation API used by all producers.

use vstd::prelude::*;

use crate::cp437::{spec_is_cp437, spec_normalize, is_cp437_char, normalize_char, EncodingError};
use crate::elements::{FormatState, Justify, StyledChar, TextDecoration, TextSize};
use crate::line::{Line, LineView, line_view_add, line_add_spec, is_wrap_candidate, lemma_last_candidate_stable, spec_is_whitespace, spec_wrap_point, width_of};
use crate::CPL;

verus! {

/// The lines of a builder as mathematical values.
pub open spec fn lines_view(s: Seq<Line>) -> Seq<LineView> {
    Seq::new(s.len(), |i: int| s[i]@)
}

/// An empty line carrying the given justification.
pub open spec fn empty_line_with(j: Justify) -> LineView {
    LineView { chars: Seq::empty(), justify: j }
}

/// The justification a newly created line inherits: that of the most
/// recently active line, or `Left` if none exists yet.
pub open spec fn spec_current_justify(lines: Seq<LineView>) -> Justify {
    if lines.len() == 0 {
        Justify::Left
    } else {
        lines.last().justify
    }
}

/// The line currently being written: the last line, or a fresh empty
/// line if none exists yet.
pub open spec fn spec_active_line(lines: Seq<LineView>) -> LineView {
    if lines.len() == 0 {
        empty_line_with(Justify::Left)
    } else {
        lines.last()
    }
}

/// All lines but the active one.
pub open spec fn spec_done_lines(lines: Seq<LineView>) -> Seq<LineView> {
    if lines.len() == 0 {
        lines
    } else {
        lines.drop_last()
    }
}

/// Feeding one already-normalized styled character into the builder's
/// line sequence: the character goes into the active line, and a wrap
/// pushes the completed line and leaves the remainder active.
pub open spec fn feed_one(lines: Seq<LineView>, c: StyledChar) -> Seq<LineView> {
    let cur = spec_active_line(lines);
    let done = spec_done_lines(lines);
    let l2 = line_view_add(cur, c).0;
    match line_view_add(cur, c).1 {
        None => done.push(l2),
        Some(nl) => done.push(l2).push(nl),
    }
}

/// Feeding a string of characters, each normalized and stamped with the
/// pending style, one at a time.  An empty string still materialises the
/// active line.
pub open spec fn feed_chars(lines: Seq<LineView>, s: Seq<char>, st: FormatState) -> Seq<LineView>
    decreases s.len(),
{
    if s.len() == 0 {
        if lines.len() == 0 {
            lines.push(empty_line_with(Justify::Left))
        } else {
            lines
        }
    } else {
        feed_chars(
            feed_one(lines, StyledChar { ch: spec_normalize(s[0]), state: st }),
            s.skip(1),
            st,
        )
    }
}

/// Feeding a character into an empty line sequence is feeding it into a
/// sequence holding one fresh left-justified line.
proof fn lemma_feed_one_fresh(c: StyledChar)
    ensures
        feed_one(Seq::<LineView>::empty(), c) == feed_one(
            Seq::<LineView>::empty().push(empty_line_with(Justify::Left)),
            c,
        ),
{
    let fresh = Seq::<LineView>::empty().push(empty_line_with(Justify::Left));
    assert(fresh.drop_last() =~= Seq::<LineView>::empty());
}

/// Feeding `t` then one more character equals feeding `t.push(c)`.
pub proof fn lemma_feed_snoc(lines: Seq<LineView>, t: Seq<char>, c: char, st: FormatState)
    ensures
        feed_chars(lines, t.push(c), st) == feed_one(
            feed_chars(lines, t, st),
            StyledChar { ch: spec_normalize(c), state: st },
        ),
    decreases t.len(),
{
    let sc = StyledChar { ch: spec_normalize(c), state: st };
    let u = t.push(c);
    if t.len() == 0 {
        assert(u[0] == c);
        assert(u.skip(1) =~= Seq::<char>::empty());
        assert(feed_chars(lines, u, st) == feed_chars(feed_one(lines, sc), u.skip(1), st));
        assert(feed_one(lines, sc).len() > 0);
        assert(feed_chars(feed_one(lines, sc), Seq::<char>::empty(), st) == feed_one(lines, sc));
        if lines.len() == 0 {
            assert(feed_chars(lines, t, st) == lines.push(empty_line_with(Justify::Left)));
            assert(lines =~= Seq::<LineView>::empty());
            lemma_feed_one_fresh(sc);
        } else {
            assert(feed_chars(lines, t, st) == lines);
        }
    } else {
        assert(u[0] == t[0]);
        assert(u.skip(1) =~= t.skip(1).push(c));
        let sc0 = StyledChar { ch: spec_normalize(t[0]), state: st };
        assert(feed_chars(lines, u, st) == feed_chars(feed_one(lines, sc0), u.skip(1), st));
        lemma_feed_snoc(feed_one(lines, sc0), t.skip(1), c, st);
        assert(feed_chars(lines, t, st) == feed_chars(feed_one(lines, sc0), t.skip(1), st));
    }
}

/// The first character of a string whose normalized form the device
/// cannot represent, if any.
pub open spec fn spec_first_invalid(s: Seq<char>) -> Option<int>
    decreases s.len(),
{
    if s.len() == 0 {
        None
    } else if !spec_is_cp437(spec_normalize(s[0])) {
        Some(0)
    } else {
        match spec_first_invalid(s.skip(1)) {
            None => None,
            Some(i) => Some(i + 1),
        }
    }
}

/// `spec_first_invalid` names the first index whose normalized character
/// is not on the device's code page.
pub proof fn lemma_first_invalid_props(s: Seq<char>)
    ensures
        spec_first_invalid(s) matches Some(i) ==> 0 <= i < s.len() && !spec_is_cp437(
            spec_normalize(s[i]),
        ) && (forall|j: int| 0 <= j < i ==> spec_is_cp437(spec_normalize(s[j]))),
        spec_first_invalid(s) is None ==> forall|j: int|
            0 <= j < s.len() ==> spec_is_cp437(spec_normalize(s[j])),
    decreases s.len(),
{
    if s.len() > 0 && spec_is_cp437(spec_normalize(s[0])) {
        lemma_first_invalid_props(s.skip(1));
        match spec_first_invalid(s.skip(1)) {
            None => {
                assert forall|j: int| 0 <= j < s.len() implies spec_is_cp437(
                    spec_normalize(s[j]),
                ) by {
                    if j > 0 {
                        assert(s.skip(1)[j - 1] == s[j]);
                    }
                }
            },
            Some(i) => {
                assert(s.skip(1)[i] == s[i + 1]);
                assert forall|j: int| 0 <= j < i + 1 implies spec_is_cp437(
                    spec_normalize(s[j]),
                ) by {
                    if j > 0 {
                        assert(s.skip(1)[j - 1] == s[j]);
                    }
                }
            },
        }
    }
}

/// Every character of the run, once normalized, is on the device's code
/// page.
pub open spec fn all_printable(s: Seq<char>) -> bool {
    forall|j: int| 0 <= j < s.len() ==> spec_is_cp437(#[trigger] spec_normalize(s[j]))
}

/// A fully printable run has no first invalid character.
pub proof fn lemma_all_printable(s: Seq<char>)
    requires
        all_printable(s),
    ensures
        spec_first_invalid(s) is None,
{
    lemma_first_invalid_props(s);
    match spec_first_invalid(s) {
        None => {},
        Some(i) => {
            assert(spec_is_cp437(spec_normalize(s[i])));
        },
    }
}

/// The session object for one print job: the accumulated lines, the
/// cut-on-finish flag, and the pending style stamped onto appended
/// content.
pub struct PrintBuilder {
    pub lines: Vec<Line>,
    pub cut: bool,
    pub current_text_size: TextSize,
    pub current_text_decoration: TextDecoration,
}

/// The mathematical value of a builder.
#[verifier::ext_equal]
pub struct BuilderView {
    pub lines: Seq<LineView>,
    pub cut: bool,
    pub text_size: TextSize,
    pub text_decoration: TextDecoration,
}

impl View for PrintBuilder {
    type V = BuilderView;

    open spec fn view(&self) -> BuilderView {
        BuilderView {
            lines: lines_view(self.lines@),
            cut: self.cut,
            text_size: self.current_text_size,
            text_decoration: self.current_text_decoration,
        }
    }
}

/// The pending style fields of a builder, as a snapshot.
pub open spec fn spec_pending_state(b: BuilderView) -> FormatState {
    FormatState { text_size: b.text_size, text_decoration: b.text_decoration }
}

impl Default for PrintBuilder {
    fn default() -> (r: Self)
        ensures
            r@.lines == Seq::<LineView>::empty(),
            r@.cut == false,
            r@.text_size == TextSize::Medium,
            r@.text_decoration == (TextDecoration { bold: false, underline: false, italic: false }),
    {
        let r = PrintBuilder {
            lines: Vec::new(),
            cut: false,
            current_text_size: TextSize::Medium,
            current_text_decoration: TextDecoration {
                bold: false,
                underline: false,
                italic: false,
            },
        };
        proof {
            assert(r@.lines =~= Seq::<LineView>::empty());
        }
        r
    }
}

impl PrintBuilder {
    /// A fresh session with no lines, default pending style, and the
    /// given cut-on-finish flag.
    pub fn new(cut: bool) -> (r: Self)
        ensures
            r@.lines == Seq::<LineView>::empty(),
            r@.cut == cut,
            r@.text_size == TextSize::Medium,
            r@.text_decoration == (TextDecoration { bold: false, underline: false, italic: false }),
    {
        let r = PrintBuilder {
            lines: Vec::new(),
            cut,
            current_text_size: TextSize::Medium,
            current_text_decoration: TextDecoration {
                bold: false,
                underline: false,
                italic: false,
            },
        };
        proof {
            assert(r@.lines =~= Seq::<LineView>::empty());
        }
        r
    }

    /// The justification a newly created line would inherit.
    pub fn current_line_justify_content(&self) -> (j: Justify)
        ensures
            j == spec_current_justify(self@.lines),
    {
        if self.lines.len() == 0 {
            Justify::Left
        } else {
            self.lines[self.lines.len() - 1].justify_content
        }
    }

    /// Add a single styled character to the current line, normalizing it
    /// and validating it against the device code page.  Provides greater
    /// control over formatting than `add_content`.
    pub fn add_char_content(&mut self, content: StyledChar) -> (r: Result<(), EncodingError>)
        ensures
            spec_is_cp437(spec_normalize(content.ch)) ==> r is Ok && final(self)@ == (
            BuilderView {
                lines: feed_one(
                    old(self)@.lines,
                    StyledChar { ch: spec_normalize(content.ch), state: content.state },
                ),
                ..old(self)@
            }),
            !spec_is_cp437(spec_normalize(content.ch)) ==> r == Err::<(), EncodingError>(
                EncodingError::UnsupportedCharacter(spec_normalize(content.ch)),
            ) && final(self)@ == old(self)@,
    {
        let normalized = match normalize_char(content.ch) {
            Some(c) => c,
            None => content.ch,
        };
        if !is_cp437_char(normalized) {
            return Err(EncodingError::UnsupportedCharacter(normalized));
        }
        let sch = StyledChar { ch: normalized, state: content.state };
        let ghost lines0 = self@.lines;
        let popped = self.lines.pop();
        let mut current_line = match popped {
            Some(line) => line,
            None => Line { justify_content: Justify::Left, chars: Vec::new() },
        };
        let ghost cur0 = spec_active_line(lines0);
        let ghost done0 = spec_done_lines(lines0);
        proof {
            if lines0.len() == 0 {
                assert(current_line@ =~= cur0);
                assert(lines_view(self.lines@) =~= done0);
            } else {
                assert(current_line@ == lines0.last());
                assert(lines_view(self.lines@) =~= done0);
            }
        }
        let new_line = current_line.add_char(sch);
        self.lines.push(current_line);
        if let Some(new_line) = new_line {
            self.lines.push(new_line);
        }
        proof {
            assert(self@.lines =~= feed_one(lines0, sch));
            assert(self@ =~= (BuilderView { lines: feed_one(lines0, sch), ..old(self)@ }));
        }
        Ok(())
    }

    /// Add text to the current line under the pending style.  Characters
    /// are normalized and validated one at a time; the first unsupported
    /// character stops the call with an error, leaving everything
    /// appended before it in place.
    pub fn add_content(&mut self, content: &str) -> (r: Result<(), EncodingError>)
        ensures
            r is Ok <==> spec_first_invalid(content@) is None,
            r is Ok ==> final(self)@ == (BuilderView {
                lines: feed_chars(
                    old(self)@.lines,
                    content@,
                    spec_pending_state(old(self)@),
                ),
                ..old(self)@
            }),
            r matches Err(e) ==> spec_first_invalid(content@) matches Some(i) && e
                == EncodingError::UnsupportedCharacter(spec_normalize(content@[i]))
                && final(self)@ == (BuilderView {
                lines: feed_chars(
                    old(self)@.lines,
                    content@.take(i),
                    spec_pending_state(old(self)@),
                ),
                ..old(self)@
            }),
    {
        let ghost lines0 = self@.lines;
        let ghost st = spec_pending_state(self@);
        let ghost s = content@;
        if self.lines.len() == 0 {
            self.lines.push(Line { justify_content: Justify::Left, chars: Vec::new() });
            proof {
                assert(self@.lines =~= lines0.push(empty_line_with(Justify::Left)));
            }
        }
        proof {
            assert(self@.lines == feed_chars(lines0, s.take(0), st));
        }
        let n = content.unicode_len();
        let mut i: usize = 0;
        while i < n
            invariant
                0 <= i <= n,
                n == s.len(),
                content@ == s,
                st == spec_pending_state(old(self)@),
                self.cut == old(self).cut,
                self.current_text_size == old(self).current_text_size,
                self.current_text_decoration == old(self).current_text_decoration,
                lines0 == old(self)@.lines,
                lines_view(self.lines@) == feed_chars(lines0, s.take(i as int), st),
                forall|j: int| 0 <= j < i ==> spec_is_cp437(spec_normalize(s[j])),
            decreases n - i,
        {
            let c = content.get_char(i);
            let normalized = match normalize_char(c) {
                Some(nc) => nc,
                None => c,
            };
            if !is_cp437_char(normalized) {
                proof {
                    lemma_first_invalid_props(s);
                    match spec_first_invalid(s) {
                        None => {
                            assert(spec_is_cp437(spec_normalize(s[i as int])));
                            assert(false);
                        },
                        Some(fi) => {
                            if fi < i {
                                assert(spec_is_cp437(spec_normalize(s[fi])));
                                assert(false);
                            }
                            if fi > i {
                                assert(spec_is_cp437(spec_normalize(s[i as int])));
                                assert(false);
                            }
                        },
                    }
                    assert(self@ =~= (BuilderView {
                        lines: feed_chars(lines0, s.take(i as int), st),
                        ..old(self)@
                    }));
                }
                return Err(EncodingError::UnsupportedCharacter(normalized));
            }
            let current_state = FormatState {
                text_size: self.current_text_size,
                text_decoration: self.current_text_decoration,
            };
            let step = self.add_char_content(StyledChar { ch: c, state: current_state });
            proof {
                assert(step is Ok);
                lemma_feed_snoc(lines0, s.take(i as int), s[i as int], st);
                assert(s.take(i as int).push(s[i as int]) =~= s.take(i + 1));
            }
            i = i + 1;
        }
        proof {
            assert(s.take(n as int) =~= s);
            lemma_first_invalid_props(s);
            match spec_first_invalid(s) {
                None => {},
                Some(fi) => {
                    assert(spec_is_cp437(spec_normalize(s[fi])));
                    assert(false);
                },
            }
            assert(self@ =~= (BuilderView { lines: feed_chars(lines0, s, st), ..old(self)@ }));
        }
        Ok(())
    }

    /// Push an empty line inheriting the active line's justification, or
    /// `Left` if no line exists yet.
    pub fn new_line(&mut self)
        ensures
            final(self)@ == (BuilderView {
                lines: old(self)@.lines.push(
                    empty_line_with(spec_current_justify(old(self)@.lines)),
                ),
                ..old(self)@
            }),
    {
        let justify = self.current_line_justify_content();
        self.lines.push(Line { justify_content: justify, chars: Vec::new() });
        proof {
            assert(final(self)@.lines =~= old(self)@.lines.push(
                empty_line_with(spec_current_justify(old(self)@.lines)),
            ));
            assert(final(self)@ =~= (BuilderView {
                lines: old(self)@.lines.push(
                    empty_line_with(spec_current_justify(old(self)@.lines)),
                ),
                ..old(self)@
            }));
        }
    }

    /// Set the justification of the active (last) line, or create an
    /// empty line carrying it if none exists yet.
    pub fn set_justify_content(&mut self, justify: Justify)
        ensures
            old(self)@.lines.len() == 0 ==> final(self)@ == (BuilderView {
                lines: seq![empty_line_with(justify)],
                ..old(self)@
            }),
            old(self)@.lines.len() > 0 ==> final(self)@ == (BuilderView {
                lines: old(self)@.lines.update(
                    old(self)@.lines.len() - 1,
                    LineView { justify, ..old(self)@.lines.last() },
                ),
                ..old(self)@
            }),
    {
        let n = self.lines.len();
        if n == 0 {
            self.lines.push(Line { justify_content: justify, chars: Vec::new() });
            proof {
                assert(final(self)@.lines =~= seq![empty_line_with(justify)]);
                assert(final(self)@ =~= (BuilderView {
                    lines: seq![empty_line_with(justify)],
                    ..old(self)@
                }));
            }
        } else {
            let mut last = match self.lines.pop() {
                Some(line) => line,
                None => Line { justify_content: justify, chars: Vec::new() },
            };
            last.justify_content = justify;
            self.lines.push(last);
            proof {
                assert(final(self)@.lines =~= old(self)@.lines.update(
                    old(self)@.lines.len() - 1,
                    LineView { justify, ..old(self)@.lines.last() },
                ));
                assert(final(self)@ =~= (BuilderView {
                    lines: old(self)@.lines.update(
                        old(self)@.lines.len() - 1,
                        LineView { justify, ..old(self)@.lines.last() },
                    ),
                    ..old(self)@
                }));
            }
        }
    }

    /// Set the text size of subsequently appended characters.
    pub fn set_text_size(&mut self, size: TextSize)
        ensures
            final(self)@ == (BuilderView { text_size: size, ..old(self)@ }),
    {
        self.current_text_size = size;
        proof {
            assert(final(self)@ =~= (BuilderView { text_size: size, ..old(self)@ }));
        }
    }

    /// Set the text decoration of subsequently appended characters.
    pub fn set_text_decoration(&mut self, decoration: TextDecoration)
        ensures
            final(self)@ == (BuilderView { text_decoration: decoration, ..old(self)@ }),
    {
        self.current_text_decoration = decoration;
        proof {
            assert(final(self)@ =~= (BuilderView { text_decoration: decoration, ..old(self)@ }));
        }
    }

    /// Reset the pending style to defaults and the active line's
    /// justification to `Left`.
    pub fn reset_styles(&mut self)
        ensures
            final(self)@.text_size == TextSize::Medium,
            final(self)@.text_decoration == (TextDecoration {
                bold: false,
                underline: false,
                italic: false,
            }),
            final(self)@.cut == old(self)@.cut,
            old(self)@.lines.len() == 0 ==> final(self)@.lines == seq![
                empty_line_with(Justify::Left),
            ],
            old(self)@.lines.len() > 0 ==> final(self)@.lines == old(self)@.lines.update(
                old(self)@.lines.len() - 1,
                LineView { justify: Justify::Left, ..old(self)@.lines.last() },
            ),
    {
        self.current_text_size = TextSize::Medium;
        self.current_text_decoration = TextDecoration {
            bold: false,
            underline: false,
            italic: false,
        };
        self.set_justify_content(Justify::Left);
    }
}

/// Justification propagates: every line that feeding characters appends
/// beyond the already-completed ones carries the justification of the
/// line that was active when feeding started.
pub proof fn lemma_feed_justify(lines: Seq<LineView>, s: Seq<char>, st: FormatState)
    ensures
        ({
            let done = spec_done_lines(lines);
            let cur = spec_active_line(lines);
            let out = feed_chars(lines, s, st);
            out.len() >= done.len() && out.take(done.len() as int) == done && forall|k: int|
                done.len() <= k < out.len() ==> out[k].justify == cur.justify
        }),
    decreases s.len(),
{
    let done = spec_done_lines(lines);
    let cur = spec_active_line(lines);
    let out = feed_chars(lines, s, st);
    if s.len() == 0 {
        if lines.len() == 0 {
            assert(out.take(0) =~= done);
        } else {
            assert(out.take(done.len() as int) =~= done);
        }
    } else {
        let sc = StyledChar { ch: spec_normalize(s[0]), state: st };
        let next = feed_one(lines, sc);
        lemma_feed_justify(next, s.skip(1), st);
        let done2 = spec_done_lines(next);
        let cur2 = spec_active_line(next);
        let l2 = line_view_add(cur, sc).0;
        match line_view_add(cur, sc).1 {
            None => {
                assert(next == done.push(l2));
                assert(done2 =~= done);
                assert(cur2 == l2);
            },
            Some(nl) => {
                assert(next == done.push(l2).push(nl));
                assert(done2 =~= done.push(l2));
                assert(cur2 == nl);
            },
        }
        assert(cur2.justify == cur.justify);
        assert(out == feed_chars(next, s.skip(1), st));
        assert(out.take(done2.len() as int) == done2);
        assert forall|idx: int| 0 <= idx < done.len() implies out[idx] == done[idx] by {
            assert(out.take(done2.len() as int)[idx] == out[idx]);
            assert(done2[idx] == done[idx]);
        }
        assert(out.take(done.len() as int) =~= done);
        assert forall|k: int| done.len() <= k < out.len() implies out[k].justify
            == cur.justify by {
            if k >= done2.len() {
                assert(out[k].justify == cur2.justify);
            } else {
                assert(out.take(done2.len() as int)[k] == out[k]);
                assert(out[k] == done2[k]);
            }
        }
    }
}

/// A block element that renders itself as a sequence of builder calls.
pub trait ToBuilderCommand {
    /// Issue this element's builder mutations.
    fn to_builder_command(&self, builder: &mut PrintBuilder) -> Result<(), EncodingError>;
}

/// What `new_line` does to a builder.
pub open spec fn bv_new_line(b: BuilderView) -> BuilderView {
    BuilderView { lines: b.lines.push(empty_line_with(spec_current_justify(b.lines))), ..b }
}

/// What `set_justify_content` does to a builder.
pub open spec fn bv_set_justify(b: BuilderView, j: Justify) -> BuilderView {
    if b.lines.len() == 0 {
        BuilderView { lines: seq![empty_line_with(j)], ..b }
    } else {
        BuilderView {
            lines: b.lines.update(b.lines.len() - 1, LineView { justify: j, ..b.lines.last() }),
            ..b
        }
    }
}

/// What `set_text_size` does to a builder.
pub open spec fn bv_set_size(b: BuilderView, s: TextSize) -> BuilderView {
    BuilderView { text_size: s, ..b }
}

/// What `set_text_decoration` does to a builder.
pub open spec fn bv_set_decoration(b: BuilderView, d: TextDecoration) -> BuilderView {
    BuilderView { text_decoration: d, ..b }
}

/// What `reset_styles` does to a builder.
pub open spec fn bv_reset_styles(b: BuilderView) -> BuilderView {
    bv_set_justify(
        BuilderView {
            text_size: TextSize::Medium,
            text_decoration: TextDecoration { bold: false, underline: false, italic: false },
            ..b
        },
        Justify::Left,
    )
}

/// What a successful `add_content` does to a builder.
pub open spec fn bv_add_content(b: BuilderView, s: Seq<char>) -> BuilderView {
    BuilderView { lines: feed_chars(b.lines, s, spec_pending_state(b)), ..b }
}

/// What `add_content` did when it stopped at the invalid character `i`.
pub open spec fn bv_add_content_upto(b: BuilderView, s: Seq<char>, i: int) -> BuilderView {
    BuilderView { lines: feed_chars(b.lines, s.take(i), spec_pending_state(b)), ..b }
}

/// Every character of the run is non-whitespace and `w` columns wide.
pub open spec fn uniform_nonws(s: Seq<StyledChar>, w: nat) -> bool {
    forall|j: int|
        0 <= j < s.len() ==> #[trigger] s[j].spec_width() == w && !spec_is_whitespace(s[j].ch)
}

/// A run of uniform-width characters is as wide as its length times the
/// character width.
proof fn lemma_uniform_width(s: Seq<StyledChar>, w: nat)
    requires
        uniform_nonws(s, w),
    ensures
        width_of(s) == s.len() * w,
    decreases s.len(),
{
    if s.len() == 0 {
        assert(s.len() * w == 0) by (nonlinear_arith)
            requires
                s.len() == 0,
        ;
    } else {
        assert(uniform_nonws(s.drop_last(), w));
        lemma_uniform_width(s.drop_last(), w);
        assert(s.len() * w == (s.len() - 1) * w + w) by (nonlinear_arith);
    }
}

/// Feeding non-whitespace uniform-width characters into a builder whose
/// active line is itself uniform and within budget: every line completed
/// by the feed holds exactly `CPL / w` characters, and the final active
/// line is uniform and within budget.
/// The characters of a run of lines, concatenated in order.
pub open spec fn joined_chars(lines: Seq<LineView>) -> Seq<StyledChar>
    decreases lines.len(),
{
    if lines.len() == 0 {
        Seq::empty()
    } else {
        joined_chars(lines.drop_last()) + lines.last().chars
    }
}

/// A string's characters normalized and stamped with one pending style.
pub open spec fn stamped_chars(s: Seq<char>, st: FormatState) -> Seq<StyledChar> {
    Seq::new(s.len(), |i: int| StyledChar { ch: spec_normalize(s[i]), state: st })
}

proof fn lemma_hard_wrap_feed(lines: Seq<LineView>, s: Seq<char>, st: FormatState)
    requires
        forall|j: int| 0 <= j < s.len() ==> !spec_is_whitespace(#[trigger] spec_normalize(s[j])),
        uniform_nonws(spec_active_line(lines).chars, st.text_size.spec_char_width()),
        spec_active_line(lines).chars.len() * st.text_size.spec_char_width() <= CPL as int,
    ensures
        ({
            let w = st.text_size.spec_char_width();
            let done = spec_done_lines(lines);
            let out = feed_chars(lines, s, st);
            out.len() > done.len() && out.take(done.len() as int) == done && (forall|k: int|
                done.len() <= k < out.len() - 1 ==> #[trigger] out[k].chars.len() == (
                CPL as int) / (w as int)) && uniform_nonws(out.last().chars, w)
                && out.last().chars.len() * w <= CPL as int && joined_chars(out)
                == joined_chars(done) + spec_active_line(lines).chars + stamped_chars(s, st)
        }),
    decreases s.len(),
{
    let w = st.text_size.spec_char_width();
    let done = spec_done_lines(lines);
    let cur = spec_active_line(lines);
    let out = feed_chars(lines, s, st);
    if s.len() == 0 {
        if lines.len() == 0 {
            assert(out.take(0) =~= done);
            assert(out.last() == empty_line_with(Justify::Left));
            assert(out.drop_last() =~= done);
        } else {
            assert(out.take(done.len() as int) =~= done);
            assert(out.drop_last() =~= done);
        }
        assert(stamped_chars(s, st) =~= Seq::<StyledChar>::empty());
        assert(joined_chars(out) =~= joined_chars(done) + cur.chars + stamped_chars(s, st));
    } else {
        let sc = StyledChar { ch: spec_normalize(s[0]), state: st };
        let m = cur.chars.len() as int;
        let pushed = cur.chars.push(sc);
        assert(sc.spec_width() == w);
        assert(uniform_nonws(pushed, w)) by {
            assert forall|j: int|
                0 <= j < pushed.len() implies #[trigger] pushed[j].spec_width() == w
                    && !spec_is_whitespace(pushed[j].ch) by {
                if j < m {
                    assert(pushed[j] == cur.chars[j]);
                    assert(cur.chars[j].spec_width() == w);
                } else {
                    assert(pushed[j] == sc);
                    assert(!spec_is_whitespace(spec_normalize(s[0])));
                }
            }
        }
        lemma_uniform_width(pushed, w);
        let next = feed_one(lines, sc);
        let l2 = line_view_add(cur, sc).0;
        assert(forall|j: int|
            0 <= j < s.skip(1).len() ==> !spec_is_whitespace(
                #[trigger] spec_normalize(s.skip(1)[j]),
            ));
        if width_of(pushed) <= CPL as nat {
            assert(line_add_spec(cur.chars, sc).0 == pushed);
            assert(line_add_spec(cur.chars, sc).1 is None);
            assert(next == done.push(l2));
            assert(spec_done_lines(next) =~= done);
            assert(spec_active_line(next) == l2);
            lemma_hard_wrap_feed(next, s.skip(1), st);
            assert(out.take(done.len() as int) =~= done);
            assert(stamped_chars(s.skip(1), st) =~= stamped_chars(s, st).skip(1));
            assert(stamped_chars(s, st)[0] == sc);
            assert(joined_chars(out) == joined_chars(done) + l2.chars + stamped_chars(
                s.skip(1),
                st,
            ));
            assert(joined_chars(done) + l2.chars + stamped_chars(s.skip(1), st) =~= joined_chars(
                done,
            ) + cur.chars + stamped_chars(s, st));
        } else {
            // No whitespace anywhere in the over-budget line: hard wrap.
            assert forall|j: int| 0 <= j < pushed.len() implies !is_wrap_candidate(
                pushed,
                j,
            ) by {
                assert(pushed[j].spec_width() == w);
            }
            lemma_last_candidate_stable(pushed, 0, pushed.len() as int);
            assert(spec_wrap_point(pushed) is None);
            assert(line_add_spec(cur.chars, sc).0 == cur.chars);
            assert(line_add_spec(cur.chars, sc).1 == Some(seq![sc]));
            let nl = LineView { chars: seq![sc], justify: cur.justify };
            assert(next == done.push(l2).push(nl));
            let done2 = done.push(l2);
            assert(spec_done_lines(next) =~= done2);
            assert(spec_active_line(next) == nl);
            // The completed line holds exactly CPL / w characters.
            assert(m * w <= CPL as int);
            assert((m + 1) * w == m * w + w) by (nonlinear_arith);
            assert(CPL as int - m * w < w);
            vstd::arithmetic::div_mod::lemma_fundamental_div_mod_converse(
                CPL as int,
                w as int,
                m,
                CPL as int - m * w,
            );
            assert(m == (CPL as int) / (w as int));
            assert(uniform_nonws(nl.chars, w)) by {
                assert(seq![sc][0] == sc);
            }
            assert(nl.chars.len() * w == w) by (nonlinear_arith)
                requires
                    nl.chars.len() == 1,
            ;
            lemma_hard_wrap_feed(next, s.skip(1), st);
            assert(out.take(done2.len() as int) == done2);
            assert(out.take(done.len() as int) =~= out.take(done2.len() as int).take(
                done.len() as int,
            ));
            assert(out.take(done.len() as int) =~= done);
            assert forall|k: int| done.len() <= k < out.len() - 1 implies #[trigger] out[k].chars.len()
                == (CPL as int) / (w as int) by {
                if k == done.len() {
                    assert(out.take(done2.len() as int)[k] == out[k]);
                    assert(out[k] == l2);
                }
            }
            assert(joined_chars(done2) == joined_chars(done) + l2.chars) by {
                assert(done2.drop_last() =~= done);
            }
            assert(stamped_chars(s.skip(1), st) =~= stamped_chars(s, st).skip(1));
            assert(stamped_chars(s, st)[0] == sc);
            assert(joined_chars(out) == joined_chars(done2) + nl.chars + stamped_chars(
                s.skip(1),
                st,
            ));
            assert(joined_chars(done2) + nl.chars + stamped_chars(s.skip(1), st) =~= joined_chars(
                done,
            ) + cur.chars + stamped_chars(s, st));
        }
    }
}

/// Hard-wrap law: a string with no whitespace, fed into an empty builder
/// under a single text size, wraps purely by the column budget: every
/// completed line holds exactly `CPL / w` characters, where `w` is the
/// visual width of one character, only the last line may hold fewer, and
/// the lines joined in order hold exactly the normalized input — no
/// character lost or reordered.
pub proof fn lemma_hard_wrap_uniform(s: Seq<char>, st: FormatState)
    requires
        forall|j: int| 0 <= j < s.len() ==> !spec_is_whitespace(#[trigger] spec_normalize(s[j])),
    ensures
        ({
            let w = st.text_size.spec_char_width();
            let out = feed_chars(Seq::empty(), s, st);
            out.len() > 0 && (forall|k: int|
                0 <= k < out.len() - 1 ==> #[trigger] out[k].chars.len() == (CPL as int) / (
                w as int)) && out.last().chars.len() * w <= CPL as int && joined_chars(out)
                == stamped_chars(s, st)
        }),
{
    let w = st.text_size.spec_char_width();
    assert(spec_active_line(Seq::empty()).chars.len() * w == 0) by (nonlinear_arith)
        requires
            spec_active_line(Seq::<LineView>::empty()).chars.len() == 0,
    ;
    lemma_hard_wrap_feed(Seq::empty(), s, st);
    assert(joined_chars(feed_chars(Seq::empty(), s, st)) =~= stamped_chars(s, st));
}

} // verus!

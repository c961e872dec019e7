//! Serialisation of accumulated lines into the device command sequence,
//! with page-cut pagination: the uniform command vocabulary every
//! transport variant accepts, and the emission walk that produces it.

use vstd::prelude::*;

use crate::builder::{BuilderView, PrintBuilder, lines_view};
use vstd::arithmetic::div_mod::{
    lemma_fundamental_div_mod, lemma_fundamental_div_mod_converse,
    lemma_mod_division_less_than_divisor,
};
use crate::elements::{Justify, StyledChar, TextSize};
use crate::line::{Line, LineView};

verus! {

/// One printer command, as issued to whichever transport was selected.
#[derive(Clone, Copy, Debug, PartialEq, Eq, Structural)]
pub enum DeviceCommand {
    SetJustify(Justify),
    SetSize(TextSize),
    SetBold(bool),
    SetUnderline(bool),
    Write(char),
    Feed,
    Cut,
    Print,
}

/// The commands that render one styled character: its size, its
/// decoration, then the character itself.  The device has no italic
/// face, so italic is rendered identically to underline: the character
/// is underlined whenever either flag is set.
pub open spec fn char_commands(c: StyledChar) -> Seq<DeviceCommand> {
    seq![
        DeviceCommand::SetSize(c.state.text_size),
        DeviceCommand::SetBold(c.state.text_decoration.bold),
        DeviceCommand::SetUnderline(
            c.state.text_decoration.underline || c.state.text_decoration.italic,
        ),
        DeviceCommand::Write(c.ch),
    ]
}

/// The commands for a run of styled characters, in order.
pub open spec fn chars_commands(s: Seq<StyledChar>) -> Seq<DeviceCommand>
    decreases s.len(),
{
    if s.len() == 0 {
        Seq::empty()
    } else {
        char_commands(s[0]) + chars_commands(s.skip(1))
    }
}

/// The commands for one line: its justification, its characters, then a
/// line feed.
pub open spec fn line_commands(l: LineView) -> Seq<DeviceCommand> {
    seq![DeviceCommand::SetJustify(l.justify)] + chars_commands(l.chars) + seq![
        DeviceCommand::Feed,
    ]
}

/// The commands for a run of lines, in order.
pub open spec fn lines_commands(ls: Seq<LineView>) -> Seq<DeviceCommand>
    decreases ls.len(),
{
    if ls.len() == 0 {
        Seq::empty()
    } else {
        line_commands(ls[0]) + lines_commands(ls.skip(1))
    }
}

/// `m` blank feeds.
pub open spec fn pad_feeds(m: nat) -> Seq<DeviceCommand>
    decreases m,
{
    if m == 0 {
        Seq::empty()
    } else {
        seq![DeviceCommand::Feed] + pad_feeds((m - 1) as nat)
    }
}

/// How many blank feeds pad a partial trailing page out to `n` rows.
pub open spec fn pad_count(n: int, count: int) -> nat {
    if n > count {
        (n - count) as nat
    } else {
        0
    }
}

/// Paginated emission: each line's commands, a cut every time the row
/// counter reaches `n`, and a padded final cut when a partial page
/// remains, so that every page is physically the same length.
pub open spec fn paged_commands(ls: Seq<LineView>, n: int, count: int) -> Seq<DeviceCommand>
    decreases ls.len(),
{
    if ls.len() == 0 {
        if count > 0 {
            pad_feeds(pad_count(n, count)) + seq![DeviceCommand::Cut]
        } else {
            Seq::empty()
        }
    } else {
        line_commands(ls[0]) + (if count + 1 >= n {
            seq![DeviceCommand::Cut] + paged_commands(ls.skip(1), n, 0)
        } else {
            paged_commands(ls.skip(1), n, count + 1)
        })
    }
}

/// The full command sequence a builder emits: without pagination, all
/// lines then one final cut or plain print depending on the session's
/// cut flag; with pagination, `paged_commands`.
pub open spec fn plan_commands(b: BuilderView, rows: Option<u32>) -> Seq<DeviceCommand> {
    match rows {
        None => lines_commands(b.lines) + seq![
            if b.cut {
                DeviceCommand::Cut
            } else {
                DeviceCommand::Print
            },
        ],
        Some(n) => paged_commands(b.lines, n as int, 0),
    }
}

/// Append the commands of one line to a command buffer.
fn push_line_commands(cmds: &mut Vec<DeviceCommand>, line: &Line)
    ensures
        final(cmds)@ == old(cmds)@ + line_commands(line@),
{
    let ghost base = old(cmds)@;
    let ghost s = line.chars@;
    let ghost j = line.justify_content;
    cmds.push(DeviceCommand::SetJustify(line.justify_content));
    let mut ci: usize = 0;
    while ci < line.chars.len()
        invariant
            0 <= ci <= s.len(),
            line.chars@ == s,
            line.justify_content == j,
            cmds@ == base + seq![DeviceCommand::SetJustify(j)] + chars_commands(s.take(ci as int)),
        decreases s.len() - ci,
    {
        let sc = &line.chars[ci];
        cmds.push(DeviceCommand::SetSize(sc.state.text_size));
        cmds.push(DeviceCommand::SetBold(sc.state.text_decoration.bold));
        cmds.push(DeviceCommand::SetUnderline(
            sc.state.text_decoration.underline || sc.state.text_decoration.italic,
        ));
        cmds.push(DeviceCommand::Write(sc.ch));
        proof {
            lemma_chars_commands_snoc(s, ci as int);
            assert(cmds@ =~= base + seq![DeviceCommand::SetJustify(j)] + chars_commands(
                s.take(ci + 1),
            ));
        }
        ci = ci + 1;
    }
    cmds.push(DeviceCommand::Feed);
    proof {
        assert(s.take(s.len() as int) =~= s);
        assert(cmds@ =~= base + line_commands(line@));
    }
}

/// One more character appends its commands.
proof fn lemma_chars_commands_snoc(s: Seq<StyledChar>, i: int)
    requires
        0 <= i < s.len(),
    ensures
        chars_commands(s.take(i + 1)) == chars_commands(s.take(i)) + char_commands(s[i]),
    decreases i,
{
    if i == 0 {
        assert(s.take(1)[0] == s[0]);
        assert(s.take(1).skip(1) =~= Seq::<StyledChar>::empty());
        assert(s.take(0) =~= Seq::<StyledChar>::empty());
        assert(chars_commands(s.take(1)) =~= chars_commands(s.take(0)) + char_commands(s[0]));
    } else {
        lemma_chars_commands_snoc(s.skip(1), i - 1);
        let t = s.take(i + 1);
        let t0 = s.take(i);
        assert(t[0] == s[0]);
        assert(t0[0] == s[0]);
        assert(t.skip(1) =~= s.skip(1).take(i));
        assert(t0.skip(1) =~= s.skip(1).take(i - 1));
        assert(s.skip(1)[i - 1] == s[i]);
        assert(chars_commands(t) == char_commands(s[0]) + chars_commands(s.skip(1).take(i)));
        assert(chars_commands(t0) == char_commands(s[0]) + chars_commands(
            s.skip(1).take(i - 1),
        ));
        assert(chars_commands(t) =~= chars_commands(t0) + char_commands(s[i]));
    }
}

impl PrintBuilder {
    /// Walk the accumulated lines and produce the device command
    /// sequence: per line a justify command, per character its size,
    /// decoration and write commands, then a feed; with `rows` set, a
    /// cut every `rows` lines and a padded final cut; without, a single
    /// final cut or plain print according to the session's cut flag.
    pub fn emit_commands(&self, rows: Option<u32>) -> (cmds: Vec<DeviceCommand>)
        ensures
            cmds@ == plan_commands(self@, rows),
    {
        let ghost lv = self@.lines;
        let mut cmds: Vec<DeviceCommand> = Vec::new();
        match rows {
            Some(rows_per_page) => {
                let ghost n = rows_per_page as int;
                let ghost target = paged_commands(lv, n, 0);
                proof {
                    assert(lv.skip(0) =~= lv);
                    assert(cmds@ + paged_commands(lv.skip(0), n, 0) =~= target);
                }
                let mut line_count: u32 = 0;
                let mut li: usize = 0;
                while li < self.lines.len()
                    invariant
                        0 <= li <= self.lines@.len(),
                        lv == lines_view(self.lines@),
                        n == rows_per_page as int,
                        rows_per_page > 0 ==> line_count < rows_per_page,
                        rows_per_page == 0 ==> line_count == 0,
                        cmds@ + paged_commands(lv.skip(li as int), n, line_count as int)
                            == target,
                    decreases self.lines@.len() - li,
                {
                    let ghost cmds0 = cmds@;
                    let ghost count0 = line_count as int;
                    let line = &self.lines[li];
                    push_line_commands(&mut cmds, line);
                    line_count = line_count + 1;
                    let did_cut = line_count >= rows_per_page;
                    if did_cut {
                        cmds.push(DeviceCommand::Cut);
                        line_count = 0;
                    }
                    proof {
                        let tail = lv.skip(li as int);
                        assert(tail[0] == line@);
                        assert(tail.skip(1) =~= lv.skip(li + 1));
                        if count0 + 1 >= n {
                            assert(paged_commands(tail, n, count0) == line_commands(line@) + (
                            seq![DeviceCommand::Cut] + paged_commands(lv.skip(li + 1), n, 0)));
                            assert(cmds@ + paged_commands(lv.skip(li + 1), n, 0) =~= cmds0
                                + paged_commands(tail, n, count0));
                        } else {
                            assert(paged_commands(tail, n, count0) == line_commands(line@)
                                + paged_commands(lv.skip(li + 1), n, count0 + 1));
                            assert(cmds@ + paged_commands(lv.skip(li + 1), n, count0 + 1)
                                =~= cmds0 + paged_commands(tail, n, count0));
                        }
                    }
                    li = li + 1;
                }
                proof {
                    assert(lv.skip(lv.len() as int) =~= Seq::<LineView>::empty());
                }
                if line_count > 0 {
                    while line_count < rows_per_page
                        invariant
                            0 < line_count <= rows_per_page,
                            n == rows_per_page as int,
                            cmds@ + pad_feeds(pad_count(n, line_count as int)) + seq![
                                DeviceCommand::Cut,
                            ] == target,
                        decreases rows_per_page - line_count,
                    {
                        let ghost cmds0 = cmds@;
                        let ghost count0 = line_count as int;
                        cmds.push(DeviceCommand::Feed);
                        line_count = line_count + 1;
                        proof {
                            assert(pad_feeds(pad_count(n, count0)) == seq![DeviceCommand::Feed]
                                + pad_feeds(pad_count(n, count0 + 1)));
                            assert(cmds@ + pad_feeds(pad_count(n, count0 + 1)) + seq![
                                DeviceCommand::Cut,
                            ] =~= cmds0 + pad_feeds(pad_count(n, count0)) + seq![
                                DeviceCommand::Cut,
                            ]);
                        }
                    }
                    cmds.push(DeviceCommand::Cut);
                    proof {
                        assert(pad_feeds(pad_count(n, line_count as int)) =~= Seq::<
                            DeviceCommand,
                        >::empty());
                        assert(cmds@ =~= target);
                    }
                }
            },
            None => {
                let ghost target = lines_commands(lv);
                proof {
                    assert(lv.skip(0) =~= lv);
                }
                let mut li: usize = 0;
                while li < self.lines.len()
                    invariant
                        0 <= li <= self.lines@.len(),
                        lv == lines_view(self.lines@),
                        cmds@ + lines_commands(lv.skip(li as int)) == target,
                    decreases self.lines@.len() - li,
                {
                    let ghost cmds0 = cmds@;
                    let line = &self.lines[li];
                    push_line_commands(&mut cmds, line);
                    proof {
                        let tail = lv.skip(li as int);
                        assert(tail[0] == line@);
                        assert(tail.skip(1) =~= lv.skip(li + 1));
                        assert(lines_commands(tail) == line_commands(line@) + lines_commands(
                            lv.skip(li + 1),
                        ));
                        assert(cmds@ + lines_commands(lv.skip(li + 1)) =~= cmds0
                            + lines_commands(tail));
                    }
                    li = li + 1;
                }
                proof {
                    assert(lv.skip(lv.len() as int) =~= Seq::<LineView>::empty());
                }
                if self.cut {
                    cmds.push(DeviceCommand::Cut);
                } else {
                    cmds.push(DeviceCommand::Print);
                }
                proof {
                    assert(cmds@ =~= plan_commands(self@, rows));
                }
            },
        }
        cmds
    }
}

/// How many cut commands a sequence holds.
pub open spec fn count_cuts(s: Seq<DeviceCommand>) -> int
    decreases s.len(),
{
    if s.len() == 0 {
        0
    } else {
        (if s[0] is Cut {
            1int
        } else {
            0int
        }) + count_cuts(s.skip(1))
    }
}

/// How many feed commands a sequence holds.
pub open spec fn count_feeds(s: Seq<DeviceCommand>) -> int
    decreases s.len(),
{
    if s.len() == 0 {
        0
    } else {
        (if s[0] is Feed {
            1int
        } else {
            0int
        }) + count_feeds(s.skip(1))
    }
}

/// Cut and feed counts distribute over concatenation.
pub proof fn lemma_counts_add(a: Seq<DeviceCommand>, b: Seq<DeviceCommand>)
    ensures
        count_cuts(a + b) == count_cuts(a) + count_cuts(b),
        count_feeds(a + b) == count_feeds(a) + count_feeds(b),
    decreases a.len(),
{
    if a.len() == 0 {
        assert(a + b =~= b);
    } else {
        assert((a + b)[0] == a[0]);
        assert((a + b).skip(1) =~= a.skip(1) + b);
        lemma_counts_add(a.skip(1), b);
    }
}

/// Rendering one character issues no cut and no feed.
proof fn lemma_counts_char_commands(c: StyledChar)
    ensures
        count_cuts(char_commands(c)) == 0,
        count_feeds(char_commands(c)) == 0,
{
    reveal_with_fuel(count_cuts, 5);
    reveal_with_fuel(count_feeds, 5);
    let s = char_commands(c);
    let s1 = s.skip(1);
    let s2 = s.skip(2);
    let s3 = s.skip(3);
    assert(s1.skip(1) =~= s2);
    assert(s2.skip(1) =~= s3);
    assert(s3.skip(1) =~= Seq::<DeviceCommand>::empty());
}

/// Rendering a run of characters issues no cut and no feed.
proof fn lemma_counts_chars_commands(s: Seq<StyledChar>)
    ensures
        count_cuts(chars_commands(s)) == 0,
        count_feeds(chars_commands(s)) == 0,
    decreases s.len(),
{
    if s.len() > 0 {
        lemma_counts_char_commands(s[0]);
        lemma_counts_chars_commands(s.skip(1));
        lemma_counts_add(char_commands(s[0]), chars_commands(s.skip(1)));
    }
}

/// Rendering one line issues no cut and exactly one feed.
proof fn lemma_counts_line_commands(l: LineView)
    ensures
        count_cuts(line_commands(l)) == 0,
        count_feeds(line_commands(l)) == 1,
{
    reveal_with_fuel(count_cuts, 3);
    reveal_with_fuel(count_feeds, 3);
    lemma_counts_chars_commands(l.chars);
    lemma_counts_add(seq![DeviceCommand::SetJustify(l.justify)], chars_commands(l.chars));
    lemma_counts_add(
        seq![DeviceCommand::SetJustify(l.justify)] + chars_commands(l.chars),
        seq![DeviceCommand::Feed],
    );
    assert(seq![DeviceCommand::SetJustify(l.justify)].skip(1) =~= Seq::<DeviceCommand>::empty());
    assert(seq![DeviceCommand::Feed].skip(1) =~= Seq::<DeviceCommand>::empty());
}

/// Padding issues no cut and exactly `m` feeds.
proof fn lemma_counts_pad_feeds(m: nat)
    ensures
        count_cuts(pad_feeds(m)) == 0,
        count_feeds(pad_feeds(m)) == m,
    decreases m,
{
    reveal_with_fuel(count_cuts, 3);
    reveal_with_fuel(count_feeds, 3);
    if m > 0 {
        lemma_counts_pad_feeds((m - 1) as nat);
        lemma_counts_add(seq![DeviceCommand::Feed], pad_feeds((m - 1) as nat));
        assert(seq![DeviceCommand::Feed].skip(1) =~= Seq::<DeviceCommand>::empty());
    }
}

/// Cut and feed counts of a paginated emission that starts with `count`
/// rows already on the open page.
proof fn lemma_paged_counts(ls: Seq<LineView>, n: int, count: int)
    requires
        1 <= n,
        0 <= count < n,
    ensures
        count_cuts(paged_commands(ls, n, count)) == (count + ls.len()) / n + (
        if (count + ls.len()) % n > 0 {
            1int
        } else {
            0int
        }),
        count_feeds(paged_commands(ls, n, count)) == ls.len() + (
        if (count + ls.len()) % n > 0 {
            n - (count + ls.len()) % n
        } else {
            0int
        }),
    decreases ls.len(),
{
    reveal_with_fuel(count_cuts, 3);
    reveal_with_fuel(count_feeds, 3);
    let x = count + ls.len();
    if ls.len() == 0 {
        lemma_fundamental_div_mod_converse(x, n, 0, x);
        if count > 0 {
            lemma_counts_pad_feeds(pad_count(n, count));
            lemma_counts_add(pad_feeds(pad_count(n, count)), seq![DeviceCommand::Cut]);
            assert(seq![DeviceCommand::Cut].skip(1) =~= Seq::<DeviceCommand>::empty());
        }
    } else {
        let rest = ls.skip(1);
        lemma_counts_line_commands(ls[0]);
        if count + 1 >= n {
            lemma_paged_counts(rest, n, 0);
            let tail = seq![DeviceCommand::Cut] + paged_commands(rest, n, 0);
            lemma_counts_add(seq![DeviceCommand::Cut], paged_commands(rest, n, 0));
            assert(seq![DeviceCommand::Cut].skip(1) =~= Seq::<DeviceCommand>::empty());
            lemma_counts_add(line_commands(ls[0]), tail);
            let l1 = rest.len() as int;
            let q = l1 / n;
            let r = l1 % n;
            lemma_fundamental_div_mod(l1, n);
            lemma_mod_division_less_than_divisor(l1, n);
            assert(x == (q + 1) * n + r) by (nonlinear_arith)
                requires
                    l1 == n * q + r,
                    count == n - 1,
                    x == count + l1 + 1,
            ;
            lemma_fundamental_div_mod_converse(x, n, q + 1, r);
        } else {
            lemma_paged_counts(rest, n, count + 1);
            lemma_counts_add(line_commands(ls[0]), paged_commands(rest, n, count + 1));
        }
    }
}

/// Pagination round trip: emitting `k * n + r` lines with `n` rows per
/// page issues exactly `k` cuts plus one more when a partial page
/// remains, and pads the final page so that the feeds total a whole
/// number of pages: every page, including the last, is physically the
/// same length.
pub proof fn lemma_pagination_round_trip(b: BuilderView, n: u32, k: int, r: int)
    requires
        n >= 1,
        k >= 0,
        0 <= r < n as int,
        b.lines.len() == k * (n as int) + r,
    ensures
        count_cuts(plan_commands(b, Some(n))) == k + (
        if r > 0 {
            1int
        } else {
            0int
        }),
        count_feeds(plan_commands(b, Some(n))) == (
        if r > 0 {
            (k + 1) * (n as int)
        } else {
            k * (n as int)
        }),
{
    let ni = n as int;
    lemma_paged_counts(b.lines, ni, 0);
    assert(b.lines.len() as int == ni * k + r) by (nonlinear_arith)
        requires
            b.lines.len() == k * ni + r,
    ;
    lemma_fundamental_div_mod_converse(b.lines.len() as int, ni, k, r);
    if r > 0 {
        assert((k + 1) * ni == k * ni + ni) by (nonlinear_arith);
    }
}

} // verus!

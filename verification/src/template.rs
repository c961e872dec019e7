//! Template data for box and banner printing, and the shared remote-file
//! vocabulary of the command-line front ends.

use vstd::prelude::*;

use rand::RngExt;

verus! {

/// One box drawing pattern: its top border, repeated row, and bottom
/// border.
#[derive(Clone, Debug)]
pub struct BoxPattern {
    pub top: String,
    pub row: String,
    pub bottom: String,
}

/// Group pattern-file lines into box patterns: each full group of four
/// lines gives a pattern from its first three, and a final group of
/// exactly three does too.
pub fn box_patterns_from_lines(lines: &Vec<String>) -> (r: Vec<BoxPattern>)
    ensures
        r@.len() == (lines@.len() + 1) / 4,
        forall|k: int| 0 <= k < r@.len() ==> (#[trigger] r@[k].top)@ == lines@[4 * k]@,
        forall|k: int| 0 <= k < r@.len() ==> (#[trigger] r@[k].row)@ == lines@[4 * k + 1]@,
        forall|k: int| 0 <= k < r@.len() ==> (#[trigger] r@[k].bottom)@ == lines@[4 * k + 2]@,
{
    let mut r: Vec<BoxPattern> = Vec::new();
    let n = lines.len();
    let total = n / 4 + (if n % 4 == 3 {
        1
    } else {
        0
    });
    proof {
        vstd::arithmetic::div_mod::lemma_fundamental_div_mod(n as int, 4);
        let q = n as int / 4;
        let rem = n as int % 4;
        if rem == 3 {
            vstd::arithmetic::div_mod::lemma_fundamental_div_mod_converse(
                n as int + 1,
                4,
                q + 1,
                0,
            );
        } else {
            vstd::arithmetic::div_mod::lemma_fundamental_div_mod_converse(
                n as int + 1,
                4,
                q,
                rem + 1,
            );
        }
        assert(total as int == (n as int + 1) / 4);
        assert(4 * (total as int) <= n as int + 1);
    }
    let mut k: usize = 0;
    while k < total
        invariant
            0 <= k <= total,
            n == lines@.len(),
            total as int == (n as int + 1) / 4,
            4 * (total as int) <= n as int + 1,
            r@.len() == k,
            forall|j: int| 0 <= j < k ==> (#[trigger] r@[j].top)@ == lines@[4 * j]@,
            forall|j: int| 0 <= j < k ==> (#[trigger] r@[j].row)@ == lines@[4 * j + 1]@,
            forall|j: int| 0 <= j < k ==> (#[trigger] r@[j].bottom)@ == lines@[4 * j + 2]@,
        decreases total - k,
    {
        let base = 4 * k;
        proof {
            assert(4 * (k as int) + 2 < n as int);
        }
        let pattern = BoxPattern {
            top: lines[base].clone(),
            row: lines[base + 1].clone(),
            bottom: lines[base + 2].clone(),
        };
        r.push(pattern);
        k = k + 1;
    }
    r
}

/// Relies on rand's `random_range`: a value uniformly chosen from a
/// non-empty range lies in that range.
#[verifier::external_body]
fn random_below(n: usize) -> (r: usize)
    requires
        n > 0,
    ensures
        r < n,
{
    let mut rng = rand::rng();
    rng.random_range(0..n)
}

/// Pick one box pattern at random: some pattern of the list whenever the
/// list is non-empty.
pub fn choose_box_pattern(patterns: &Vec<BoxPattern>) -> (r: Option<&BoxPattern>)
    ensures
        r is Some <==> patterns@.len() > 0,
        r matches Some(p) ==> exists|i: int| 0 <= i < patterns@.len() && *p == patterns@[i],
{
    if patterns.len() == 0 {
        return None;
    }
    let idx = random_below(patterns.len());
    let p = &patterns[idx];
    proof {
        assert((idx as int) < patterns@.len() && *p == patterns@[idx as int]);
    }
    Some(p)
}

/// The print style of a raw template.
#[derive(Clone, Copy, Debug, PartialEq, Eq, Structural)]
pub enum TemplateVariation {
    Raw,
    Heading,
}

impl Default for TemplateVariation {
    fn default() -> (r: Self)
        ensures
            r == TemplateVariation::Raw,
    {
        TemplateVariation::Raw
    }
}

/// A plain-line template: its content lines, a minimum page length, and
/// its print style.
#[derive(Debug)]
pub struct Template {
    pub content: Vec<String>,
    pub min_lines: u8,
    pub variation: TemplateVariation,
}

impl Default for Template {
    fn default() -> (r: Self)
        ensures
            r.content@ == Seq::<String>::empty(),
            r.min_lines == 0,
            r.variation == TemplateVariation::Raw,
    {
        Template { content: Vec::new(), min_lines: 0, variation: TemplateVariation::Raw }
    }
}

/// The day a template banner is printed for: today, tomorrow, or the
/// next occurrence of a weekday.
#[derive(Clone, Copy, Debug, PartialEq, Eq, Structural)]
pub enum DateBanner {
    Today,
    Tomorrow,
    /// Next Monday
    Mon,
    /// Next Tuesday
    Tue,
    /// Next Wednesday
    Wed,
    /// Next Thursday
    Thu,
    /// Next Friday
    Fri,
    /// Next Saturday
    Sat,
    /// Next Sunday
    Sun,
}

impl Default for DateBanner {
    fn default() -> (r: Self)
        ensures
            r == DateBanner::Today,
    {
        DateBanner::Today
    }
}

impl DateBanner {
    /// The weekday this banner names, counted from Monday as zero, or
    /// none for the relative days.
    pub fn weekday_number(&self) -> (r: Option<u8>)
        ensures
            r matches Some(d) ==> d < 7,
            r is None <==> (self is Today || self is Tomorrow),
    {
        match self {
            DateBanner::Today => None,
            DateBanner::Tomorrow => None,
            DateBanner::Mon => Some(0),
            DateBanner::Tue => Some(1),
            DateBanner::Wed => Some(2),
            DateBanner::Thu => Some(3),
            DateBanner::Fri => Some(4),
            DateBanner::Sat => Some(5),
            DateBanner::Sun => Some(6),
        }
    }
}

/// How many days until the next occurrence of a weekday: between one and
/// seven, and a full week when the target is the current day.
pub fn days_until_weekday(current: u8, target: u8) -> (r: u8)
    requires
        current < 7,
        target < 7,
    ensures
        1 <= r <= 7,
        (r as int) % 7 == (target as int - current as int) % 7,
{
    let diff = (target + 7 - current) % 7;
    if diff == 0 {
        proof {
            assert((7int) % 7 == (target as int - current as int) % 7) by (nonlinear_arith)
                requires
                    ((target + 7 - current) as int) % 7 == 0,
                    current < 7,
                    target < 7,
            ;
        }
        7
    } else {
        proof {
            assert((diff as int) % 7 == (target as int - current as int) % 7)
                by (nonlinear_arith)
                requires
                    diff as int == ((target + 7 - current) as int) % 7,
                    current < 7,
                    target < 7,
            ;
        }
        diff
    }
}

/// The tracking span of a habit template.
#[derive(Clone, Copy, Debug, PartialEq, Eq, Structural)]
pub enum TimePeriod {
    Week,
    TwoWeek,
    Month,
}

impl Default for TimePeriod {
    fn default() -> (r: Self)
        ensures
            r == TimePeriod::TwoWeek,
    {
        TimePeriod::TwoWeek
    }
}

impl TimePeriod {
    /// The span in days, where it is a fixed number; a month follows the
    /// calendar and has none.
    pub fn fixed_days(&self) -> (r: Option<u8>)
        ensures
            self is Week ==> r == Some(7u8),
            self is TwoWeek ==> r == Some(14u8),
            self is Month ==> r is None,
    {
        match self {
            TimePeriod::Week => Some(7),
            TimePeriod::TwoWeek => Some(14),
            TimePeriod::Month => None,
        }
    }
}

/// The acknowledgement sent back after a print command was forwarded.
#[derive(Clone, Debug)]
pub struct Message {
    pub message: String,
}

impl Default for Message {
    fn default() -> (r: Self)
        ensures
            r.message@ == "Print command sent! Check rongta for print-out"@,
    {
        Message { message: String::from_str("Print command sent! Check rongta for print-out") }
    }
}

/// The remote endpoint and topic a print command is forwarded to.  The
/// values come from the environment; reading it happens outside this
/// crate.
#[derive(Clone, Debug)]
pub struct IotConfigEnv {
    pub endpoint: String,
    pub topic: String,
}

/// Which file a remote print job reads.
#[derive(Clone, Copy, Debug, PartialEq, Eq, Structural)]
pub enum RemoteFile {
    Markdown,
    Text,
}

impl RemoteFile {
    /// The file name the job reads on the remote host.
    pub fn file_name(&self) -> (r: String)
        ensures
            self is Markdown ==> r@ == "konan_print.md"@,
            self is Text ==> r@ == "konan_print.txt"@,
    {
        match self {
            RemoteFile::Markdown => String::from_str("konan_print.md"),
            RemoteFile::Text => String::from_str("konan_print.txt"),
        }
    }
}

} // verus!

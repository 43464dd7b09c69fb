//! One scheduled task: a 5-field schedule, the command line it runs, an
//! operator-facing description, and an advisory next-run display string.

use vstd::prelude::*;

use unicode_width::UnicodeWidthStr;

verus! {

pub struct CronJob {
    pub cron_notation: String,
    pub job: String,
    pub job_description: String,
    pub next_execution: String,
}

/// The persisted part of a job: its (schedule, command, description)
/// triple. The next-run string is advisory display state and not part of
/// the persisted value.
pub open spec fn entry_of(j: CronJob) -> (Seq<char>, Seq<char>, Seq<char>) {
    (j.cron_notation@, j.job@, j.job_description@)
}

pub open spec fn entries_of(s: Seq<CronJob>) -> Seq<(Seq<char>, Seq<char>, Seq<char>)> {
    s.map_values(|j: CronJob| entry_of(j))
}

impl CronJob {
    /// The empty job: all four fields blank.
    pub fn empty() -> (r: CronJob)
        ensures
            r.cron_notation@ == Seq::<char>::empty(),
            r.job@ == Seq::<char>::empty(),
            r.job_description@ == Seq::<char>::empty(),
            r.next_execution@ == Seq::<char>::empty(),
    {
        CronJob {
            cron_notation: String::new(),
            job: String::new(),
            job_description: String::new(),
            next_execution: String::new(),
        }
    }

    /// Rebuilds a job from its parts, field for field.
    pub fn new(cron_job: CronJob) -> (r: Self)
        ensures
            r == cron_job,
    {
        Self {
            cron_notation: cron_job.cron_notation,
            job: cron_job.job,
            job_description: cron_job.job_description,
            next_execution: cron_job.next_execution,
        }
    }

    /// The three displayed columns: schedule, next run, description.
    pub fn ref_array(&self) -> (r: [&String; 3])
        ensures
            r@ == seq![&self.cron_notation, &self.next_execution, &self.job_description],
    {
        [&self.cron_notation, &self.next_execution, &self.job_description]
    }

    pub fn cron_notation(&self) -> (r: &str)
        ensures
            r@ == self.cron_notation@,
    {
        self.cron_notation.as_str()
    }

    pub fn next_execution(&self) -> (r: &str)
        ensures
            r@ == self.next_execution@,
    {
        self.next_execution.as_str()
    }

    pub fn job_description(&self) -> (r: &str)
        ensures
            r@ == self.job_description@,
    {
        self.job_description.as_str()
    }
}

impl Default for CronJob {
    /// The empty job.
    fn default() -> (r: Self)
        ensures
            r.cron_notation@ == Seq::<char>::empty(),
            r.job@ == Seq::<char>::empty(),
            r.job_description@ == Seq::<char>::empty(),
            r.next_execution@ == Seq::<char>::empty(),
    {
        CronJob::empty()
    }
}

// ---------------------------------------------------------------------
// displayed column widths
// ---------------------------------------------------------------------

/// The displayed column count of a string, as the terminal width tables
/// give it.
pub uninterp spec fn text_width(s: Seq<char>) -> nat;

/// Relies on `unicode_width::UnicodeWidthStr::width`: the displayed column
/// count of a string, a fixed function of its characters.
#[verifier::external_body]
fn str_width(s: &str) -> (r: usize)
    ensures
        r as nat == text_width(s@),
{
    UnicodeWidthStr::width(s)
}

/// The widest schedule column over `s`.
pub open spec fn max_notation_width(s: Seq<CronJob>) -> nat
    decreases s.len(),
{
    if s.len() == 0 {
        0
    } else {
        let w = text_width(s.last().cron_notation@);
        let m = max_notation_width(s.drop_last());
        if w > m {
            w
        } else {
            m
        }
    }
}

/// The widest next-run column over `s`.
pub open spec fn max_next_width(s: Seq<CronJob>) -> nat
    decreases s.len(),
{
    if s.len() == 0 {
        0
    } else {
        let w = text_width(s.last().next_execution@);
        let m = max_next_width(s.drop_last());
        if w > m {
            w
        } else {
            m
        }
    }
}

/// The widest description column over `s`.
pub open spec fn max_description_width(s: Seq<CronJob>) -> nat
    decreases s.len(),
{
    if s.len() == 0 {
        0
    } else {
        let w = text_width(s.last().job_description@);
        let m = max_description_width(s.drop_last());
        if w > m {
            w
        } else {
            m
        }
    }
}

/// Caps a displayed width at what a layout constraint can carry.
pub open spec fn width_as_u16(w: nat) -> u16 {
    if w > 65535 {
        65535
    } else {
        w as u16
    }
}

fn to_u16_width(w: usize) -> (r: u16)
    ensures
        r == width_as_u16(w as nat),
{
    if w > 65535 {
        65535
    } else {
        w as u16
    }
}

/// The widest entry of each displayed column, capped at the largest
/// layout constraint.
pub fn constraint_len_calculator(items: &Vec<CronJob>) -> (r: (u16, u16, u16))
    ensures
        r.0 == width_as_u16(max_notation_width(items@)),
        r.1 == width_as_u16(max_next_width(items@)),
        r.2 == width_as_u16(max_description_width(items@)),
{
    let mut w0: usize = 0;
    let mut w1: usize = 0;
    let mut w2: usize = 0;
    let mut i: usize = 0;
    proof {
        assert(items@.take(0) =~= Seq::<CronJob>::empty());
    }
    while i < items.len()
        invariant
            i <= items@.len(),
            w0 as nat == max_notation_width(items@.take(i as int)),
            w1 as nat == max_next_width(items@.take(i as int)),
            w2 as nat == max_description_width(items@.take(i as int)),
        decreases items@.len() - i,
    {
        proof {
            let t = items@.take(i as int + 1);
            assert(t.last() == items@[i as int]);
            assert(t.drop_last() =~= items@.take(i as int));
        }
        let v0 = str_width(items[i].cron_notation.as_str());
        if v0 > w0 {
            w0 = v0;
        }
        let v1 = str_width(items[i].next_execution.as_str());
        if v1 > w1 {
            w1 = v1;
        }
        let v2 = str_width(items[i].job_description.as_str());
        if v2 > w2 {
            w2 = v2;
        }
        i = i + 1;
    }
    proof {
        assert(items@.take(items@.len() as int) =~= items@);
    }
    (to_u16_width(w0), to_u16_width(w1), to_u16_width(w2))
}

} // verus!

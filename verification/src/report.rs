//! Rendering of the report text: a From/To header, one line per project,
//! a total line and a mandays line.

use vstd::prelude::*;
use crate::date::{Date, date_chars};
use vstd::arithmetic::div_mod::lemma_fundamental_div_mod;
use crate::digits::{dec_str, push_u64};
use crate::duration::{
    decompose, mandays, spec_days, spec_hours, spec_minutes, spec_manday_days, spec_manday_hours,
    spec_manday_minutes, spec_manday_extra_seconds,
};
use crate::timelog::{
    DateRange, Record, aggregate, entry_views, filter_records, spec_filter, spec_totals,
    sum_seconds, lemma_sum_take_le,
};

verus! {

/// `{days}d {hours}h {minutes}m` for a duration, by the truncating rules.
pub open spec fn dhm_chars(s: int) -> Seq<char> {
    dec_str(spec_days(s) as nat) + "d "@ + dec_str(spec_hours(s) as nat) + "h "@ + dec_str(
        spec_minutes(s) as nat,
    ) + "m"@
}

fn push_dhm(out: &mut String, seconds: u64)
    ensures
        final(out)@ == old(out)@ + dhm_chars(seconds as int),
{
    let t = decompose(seconds);
    push_u64(out, t.days);
    out.append("d ");
    push_u64(out, t.hours);
    out.append("h ");
    push_u64(out, t.minutes);
    out.append("m");
}

/// `k` zero characters.
pub open spec fn zero_chars(k: int) -> Seq<char> {
    Seq::new(if k < 0 {
        0
    } else {
        k as nat
    }, |i: int| '0')
}

/// `q` with its trailing decimal zeros removed.
pub open spec fn strip10(q: nat) -> nat
    decreases q,
{
    if q == 0 {
        0
    } else if q % 10 == 0 {
        strip10(q / 10)
    } else {
        q
    }
}

pub open spec fn pow10(k: nat) -> nat
    decreases k,
{
    if k == 0 {
        1
    } else {
        10 * pow10((k - 1) as nat)
    }
}

/// The decimal expansion of `r/60` to fifteen places, without the leading
/// `0.` and with trailing zeros removed: the leading zeros of the
/// expansion, then the significant digits.
pub open spec fn frac_sixtieths_chars(r: int) -> Seq<char> {
    let q = (r * 1000000000000000 / 60) as nat;
    zero_chars(15 - dec_str(q).len()) + dec_str(strip10(q))
}

/// The mandays rendering `{days}d {hours}h {minutes}m`: days and hours are
/// truncated whole numbers, but the minutes value keeps its fractional
/// part, shown as a decimal expansion when the leftover seconds do not
/// fill whole minutes.
pub open spec fn mandays_chars(s: int) -> Seq<char> {
    dec_str(spec_manday_days(s) as nat) + "d "@ + dec_str(spec_manday_hours(s) as nat) + "h "@
        + dec_str(spec_manday_minutes(s) as nat) + (if spec_manday_extra_seconds(s) == 0 {
        Seq::<char>::empty()
    } else {
        "."@ + frac_sixtieths_chars(spec_manday_extra_seconds(s))
    }) + "m"@
}

proof fn lemma_dec_len(n: nat, k: nat)
    requires
        1 <= k,
        n < pow10(k),
    ensures
        dec_str(n).len() <= k,
    decreases n,
{
    if n < 10 {
    } else {
        if k == 1 {
            assert(pow10(1) == 10);
            assert(false);
        }
        assert(pow10(k) == 10 * pow10((k - 1) as nat));
        lemma_fundamental_div_mod(n as int, 10);
        assert(n / 10 < pow10((k - 1) as nat));
        lemma_dec_len(n / 10, (k - 1) as nat);
    }
}

fn num_digits(n: u64) -> (c: usize)
    ensures
        c == dec_str(n as nat).len(),
    decreases n,
{
    proof {
        reveal_with_fuel(pow10, 22);
        assert((n as nat) < pow10(20));
        lemma_dec_len(n as nat, 20);
    }
    if n < 10 {
        1
    } else {
        let c = num_digits(n / 10);
        c + 1
    }
}

fn push_frac_sixtieths(out: &mut String, r: u64)
    requires
        1 <= r < 60,
    ensures
        final(out)@ == old(out)@ + frac_sixtieths_chars(r as int),
{
    proof {
        reveal_with_fuel(pow10, 16);
        lemma_fundamental_div_mod(r as int * 1000000000000000, 60);
    }
    let q: u64 = r * 1000000000000000 / 60;
    proof {
        assert(q < 1000000000000000);
        assert((q as nat) < pow10(15));
        lemma_dec_len(q as nat, 15);
        reveal_strlit("0");
        assert("0"@ =~= seq!['0']);
    }
    let nd = num_digits(q);
    let mut k = nd;
    while k < 15
        invariant
            nd <= k <= 15,
            out@ == old(out)@ + zero_chars(k - nd),
            "0"@ =~= seq!['0'],
        decreases 15 - k,
    {
        out.append("0");
        proof {
            assert(zero_chars(k + 1 - nd) =~= zero_chars(k - nd) + seq!['0']);
        }
        k += 1;
    }
    let mut qs = q;
    while qs % 10 == 0
        invariant
            1 <= r < 60,
            0 < qs,
            strip10(qs as nat) == strip10((r * 1000000000000000 / 60) as nat),
        decreases qs,
    {
        qs = qs / 10;
    }
    push_u64(out, qs);
    proof {
        assert(strip10(qs as nat) == qs as nat);
    }
}

fn push_mandays(out: &mut String, seconds: u64)
    ensures
        final(out)@ == old(out)@ + mandays_chars(seconds as int),
{
    let m = mandays(seconds);
    push_u64(out, m.days);
    out.append("d ");
    push_u64(out, m.hours);
    out.append("h ");
    push_u64(out, m.minutes);
    if m.extra_seconds != 0 {
        out.append(".");
        push_frac_sixtieths(out, m.extra_seconds);
    }
    out.append("m");
}

fn push_date(out: &mut String, d: &Date)
    requires
        d.valid(),
    ensures
        final(out)@ == old(out)@ + date_chars(*d),
{
    let y = d.year as u64;
    let mo = d.month as u64;
    let dy = d.day as u64;
    push_u64(out, y / 1000);
    push_u64(out, (y / 100) % 10);
    push_u64(out, (y / 10) % 10);
    push_u64(out, y % 10);
    out.append("-");
    push_u64(out, mo / 10);
    push_u64(out, mo % 10);
    out.append("-");
    push_u64(out, dy / 10);
    push_u64(out, dy % 10);
    proof {
        reveal_strlit("-");
        assert("-"@ =~= seq!['-']);
        assert(out@ =~= old(out)@ + date_chars(*d));
    }
}

/// One report line: the decomposed duration, then the project name.
pub open spec fn project_line_chars(name: Seq<char>, secs: int) -> Seq<char> {
    dhm_chars(secs) + " on "@ + name + "\n"@
}

/// The per-project lines, one per entry, in entry order.
pub open spec fn project_lines_chars(entries: Seq<(Seq<char>, int)>) -> Seq<char>
    decreases entries.len(),
{
    if entries.len() == 0 {
        Seq::empty()
    } else {
        project_lines_chars(entries.drop_last()) + project_line_chars(
            entries.last().0,
            entries.last().1,
        )
    }
}

/// The whole report for `records` and `range`: a From and a To line, a
/// blank line, one line per project of the filtered records in
/// first-occurrence order, a blank line, the total, and the total in
/// mandays.
pub open spec fn report_chars(records: Seq<Record>, range: DateRange) -> Seq<char> {
    let filtered = spec_filter(records, range);
    let total = sum_seconds(filtered);
    "From "@ + date_chars(range.start) + "\n"@ + "To "@ + date_chars(range.end) + "\n"@ + "\n"@
        + project_lines_chars(spec_totals(filtered)) + "\n"@ + "Total: "@ + dhm_chars(total)
        + "\n"@ + "Total mandays: "@ + mandays_chars(total) + "\n"@
}

/// Renders the report for the records that fall in the range.
pub fn build_report(records: &Vec<Record>, range: &DateRange) -> (r: String)
    requires
        range.start.valid(),
        range.end.valid(),
        sum_seconds(spec_filter(records@, *range)) <= u64::MAX,
    ensures
        r@ == report_chars(records@, *range),
{
    let filtered = filter_records(records, range);
    let (entries, total) = aggregate(&filtered);
    let mut out = String::new();
    out.append("From ");
    push_date(&mut out, &range.start);
    out.append("\n");
    out.append("To ");
    push_date(&mut out, &range.end);
    out.append("\n");
    out.append("\n");
    let ghost header = out@;
    let ghost all_entries = entry_views(entries@);
    let mut i: usize = 0;
    while i < entries.len()
        invariant
            i <= entries@.len(),
            all_entries == entry_views(entries@),
            out@ == header + project_lines_chars(all_entries.take(i as int)),
        decreases entries@.len() - i,
    {
        proof {
            assert(all_entries.take(i + 1).drop_last() =~= all_entries.take(i as int));
            assert(all_entries.take(i + 1).last() == all_entries[i as int]);
            assert(all_entries[i as int] == (entries@[i as int].0@, entries@[i as int].1 as int));
        }
        let secs = entries[i].1;
        push_dhm(&mut out, secs);
        out.append(" on ");
        let name = &entries[i].0;
        out.append(name.as_str());
        out.append("\n");
        i += 1;
    }
    proof {
        assert(all_entries.take(entries@.len() as int) =~= all_entries);
    }
    out.append("\n");
    out.append("Total: ");
    push_dhm(&mut out, total);
    out.append("\n");
    out.append("Total mandays: ");
    push_mandays(&mut out, total);
    out.append("\n");
    proof {
        assert(out@ =~= report_chars(records@, *range));
    }
    out
}

/// Renders the report unless the filtered records' seconds together
/// overflow a 64-bit count, which is reported as `None`.
pub fn try_build_report(records: &Vec<Record>, range: &DateRange) -> (r: Option<String>)
    requires
        range.start.valid(),
        range.end.valid(),
    ensures
        match r {
            Some(s) => sum_seconds(spec_filter(records@, *range)) <= u64::MAX && s@ == report_chars(
                records@,
                *range,
            ),
            None => sum_seconds(spec_filter(records@, *range)) > u64::MAX,
        },
{
    let filtered = filter_records(records, range);
    let mut total: u64 = 0;
    let mut i: usize = 0;
    while i < filtered.len()
        invariant
            i <= filtered@.len(),
            filtered@ == spec_filter(records@, *range),
            total == sum_seconds(filtered@.take(i as int)),
        decreases filtered@.len() - i,
    {
        proof {
            assert(filtered@.take(i + 1).drop_last() =~= filtered@.take(i as int));
            assert(filtered@.take(i + 1).last() == filtered@[i as int]);
            lemma_sum_take_le(filtered@, i + 1);
        }
        total = match total.checked_add(filtered[i].time_spent_seconds) {
            Some(t) => t,
            None => {
                return None;
            },
        };
        i += 1;
    }
    proof {
        assert(filtered@.take(filtered@.len() as int) =~= filtered@);
    }
    Some(build_report(records, range))
}

/// The options of the report command: an optional explicit range, and the
/// switch that starts the range at the epoch.
#[derive(Clone, Copy, PartialEq, Eq, Structural, Debug)]
pub struct Report {
    pub start_date: Option<Date>,
    pub end_date: Option<Date>,
    pub from_beginning: bool,
}

impl Report {
    /// The range start: the epoch when everything from the beginning was
    /// asked for, else the explicit start date, else the given default
    /// (the Monday of the current week).
    pub fn start_date(&self, week_monday: Date) -> (d: Date)
        ensures
            d == (if self.from_beginning {
                (Date { year: 1970, month: 1, day: 1 })
            } else if self.start_date is Some {
                self.start_date->0
            } else {
                week_monday
            }),
    {
        if self.from_beginning {
            return Date { year: 1970, month: 1, day: 1 };
        }
        match self.start_date {
            Some(d) => d,
            None => week_monday,
        }
    }

    /// The range end: the explicit end date, else the given default
    /// (today).
    pub fn end_date(&self, today: Date) -> (d: Date)
        ensures
            d == (if self.end_date is Some {
                self.end_date->0
            } else {
                today
            }),
    {
        match self.end_date {
            Some(d) => d,
            None => today,
        }
    }
}

} // verus!

//! Time-log records, the inclusive date-range filter, and the per-project
//! accumulation of seconds.

use vstd::prelude::*;
use crate::date::Date;
use crate::response::UserTimeLogsCurrentUserTimelogsNodesProject;

verus! {

/// One logged duration of work against one issue and project on one date.
#[derive(Debug)]
pub struct Record {
    pub spent_at: Date,
    pub time_spent_seconds: u64,
    pub project: UserTimeLogsCurrentUserTimelogsNodesProject,
    pub issue_id: String,
    pub issue_title: String,
}

impl Clone for Record {
    fn clone(&self) -> (r: Self)
        ensures
            r == *self,
    {
        Record {
            spent_at: self.spent_at,
            time_spent_seconds: self.time_spent_seconds,
            project: self.project.clone(),
            issue_id: self.issue_id.clone(),
            issue_title: self.issue_title.clone(),
        }
    }
}

/// An inclusive date range. A reversed range (`start` after `end`) is
/// allowed and matches no date.
#[derive(Clone, Copy, PartialEq, Eq, Structural, Debug)]
pub struct DateRange {
    pub start: Date,
    pub end: Date,
}

/// A record falls in a range when its date is neither before the start nor
/// after the end.
pub open spec fn in_range(r: Record, range: DateRange) -> bool {
    range.start.spec_le(r.spent_at) && r.spent_at.spec_le(range.end)
}

/// The records of `s` that fall in `range`, in their original order.
pub open spec fn spec_filter(s: Seq<Record>, range: DateRange) -> Seq<Record>
    decreases s.len(),
{
    if s.len() == 0 {
        Seq::empty()
    } else {
        spec_filter(s.drop_last(), range) + (if in_range(s.last(), range) {
            seq![s.last()]
        } else {
            Seq::<Record>::empty()
        })
    }
}

/// Keeps the records whose date lies in the inclusive range.
pub fn filter_records(records: &Vec<Record>, range: &DateRange) -> (out: Vec<Record>)
    ensures
        out@ == spec_filter(records@, *range),
{
    let mut out: Vec<Record> = Vec::new();
    let mut i: usize = 0;
    while i < records.len()
        invariant
            i <= records@.len(),
            out@ == spec_filter(records@.take(i as int), *range),
        decreases records@.len() - i,
    {
        proof {
            assert(records@.take(i + 1).drop_last() =~= records@.take(i as int));
            assert(records@.take(i + 1).last() == records@[i as int]);
        }
        let r = &records[i];
        if range.start.is_on_or_before(&r.spent_at) && r.spent_at.is_on_or_before(&range.end) {
            out.push(r.clone());
            proof {
                assert(out@ =~= spec_filter(records@.take(i as int), *range) + seq![
                    records@[i as int],
                ]);
            }
        }
        i += 1;
    }
    proof {
        assert(records@.take(records@.len() as int) =~= records@);
    }
    out
}

/// The filter keeps exactly the in-range records: everything it returns
/// lies in the range, everything in range is kept, everything outside is
/// excluded, and a date equal to either bound of a forward range is in.
pub proof fn lemma_filter_in_range(s: Seq<Record>, range: DateRange)
    ensures
        forall|i: int|
            0 <= i < spec_filter(s, range).len() ==> in_range(
                #[trigger] spec_filter(s, range)[i],
                range,
            ),
        forall|i: int|
            0 <= i < s.len() && in_range(#[trigger] s[i], range) ==> spec_filter(
                s,
                range,
            ).contains(s[i]),
        forall|r: Record| !in_range(r, range) ==> !spec_filter(s, range).contains(r),
        forall|r: Record|
            range.start.spec_le(range.end) && (r.spent_at == range.start || r.spent_at
                == range.end) ==> in_range(r, range),
    decreases s.len(),
{
    if s.len() > 0 {
        lemma_filter_in_range(s.drop_last(), range);
        let f0 = spec_filter(s.drop_last(), range);
        let f = spec_filter(s, range);
        assert forall|i: int| 0 <= i < s.len() && in_range(#[trigger] s[i], range) implies
            f.contains(s[i]) by {
            if i < s.len() - 1 {
                assert(s.drop_last()[i] == s[i]);
                assert(f0.contains(s[i]));
                let k = choose|k: int| 0 <= k < f0.len() && f0[k] == s[i];
                assert(f[k] == s[i]);
            } else {
                assert(f[f0.len() as int] == s[i]);
            }
        }
        assert forall|r: Record| !in_range(r, range) implies !f.contains(r) by {
            if f.contains(r) {
                let k = choose|k: int| 0 <= k < f.len() && f[k] == r;
            }
        }
    }
}

/// A reversed range (start after end) matches nothing.
pub proof fn lemma_reversed_range_empty(s: Seq<Record>, range: DateRange)
    requires
        !range.start.spec_le(range.end),
    ensures
        spec_filter(s, range) == Seq::<Record>::empty(),
    decreases s.len(),
{
    if s.len() > 0 {
        lemma_reversed_range_empty(s.drop_last(), range);
        assert(!in_range(s.last(), range));
        assert(spec_filter(s, range) =~= Seq::<Record>::empty());
    }
}

/// The seconds of all records of `s` summed.
pub open spec fn sum_seconds(s: Seq<Record>) -> int
    decreases s.len(),
{
    if s.len() == 0 {
        0
    } else {
        sum_seconds(s.drop_last()) + s.last().time_spent_seconds
    }
}

/// The seconds of the records of `s` whose project is `name`, summed.
pub open spec fn sum_for(s: Seq<Record>, name: Seq<char>) -> int
    decreases s.len(),
{
    if s.len() == 0 {
        0
    } else {
        sum_for(s.drop_last(), name) + (if s.last().project.name@ == name {
            s.last().time_spent_seconds as int
        } else {
            0
        })
    }
}

/// The distinct project names of `s`, each at the position of its first
/// occurrence.
pub open spec fn names_in_order(s: Seq<Record>) -> Seq<Seq<char>>
    decreases s.len(),
{
    if s.len() == 0 {
        Seq::empty()
    } else {
        let rest = names_in_order(s.drop_last());
        if rest.contains(s.last().project.name@) {
            rest
        } else {
            rest.push(s.last().project.name@)
        }
    }
}

/// The per-project totals of `s`: one pair per distinct project name, in
/// first-occurrence order, each with all seconds logged against it.
pub open spec fn spec_totals(s: Seq<Record>) -> Seq<(Seq<char>, int)> {
    names_in_order(s).map_values(|n: Seq<char>| (n, sum_for(s, n)))
}

pub open spec fn entry_views(entries: Seq<(String, u64)>) -> Seq<(Seq<char>, int)> {
    entries.map_values(|e: (String, u64)| (e.0@, e.1 as int))
}

pub proof fn lemma_sum_for_le(s: Seq<Record>, name: Seq<char>)
    ensures
        0 <= sum_for(s, name) <= sum_seconds(s),
    decreases s.len(),
{
    if s.len() > 0 {
        lemma_sum_for_le(s.drop_last(), name);
    }
}

pub proof fn lemma_sum_take_le(s: Seq<Record>, i: int)
    requires
        0 <= i <= s.len(),
    ensures
        sum_seconds(s.take(i)) <= sum_seconds(s),
    decreases s.len() - i,
{
    if i == s.len() {
        assert(s.take(i) =~= s);
    } else {
        assert(s.take(i + 1).drop_last() =~= s.take(i));
        assert(s.take(i + 1).last() == s[i]);
        lemma_sum_take_le(s, i + 1);
    }
}

/// No project name appears twice among the totals.
pub proof fn lemma_names_distinct(s: Seq<Record>)
    ensures
        forall|i: int, j: int|
            0 <= i < j < names_in_order(s).len() ==> names_in_order(s)[i] != names_in_order(s)[j],
    decreases s.len(),
{
    if s.len() > 0 {
        lemma_names_distinct(s.drop_last());
        let rest = names_in_order(s.drop_last());
        let nm = s.last().project.name@;
        if !rest.contains(nm) {
            assert forall|i: int, j: int|
                0 <= i < j < names_in_order(s).len() implies names_in_order(s)[i]
                != names_in_order(s)[j] by {
                if j == rest.len() {
                    assert(names_in_order(s)[i] == rest[i]);
                    assert(rest.contains(rest[i]));
                }
            }
        }
    }
}

/// A project name that never occurs in `s` accumulates nothing.
pub proof fn lemma_absent_name_sum_zero(s: Seq<Record>, name: Seq<char>)
    requires
        !names_in_order(s).contains(name),
    ensures
        sum_for(s, name) == 0,
    decreases s.len(),
{
    if s.len() > 0 {
        let rest = names_in_order(s.drop_last());
        if rest.contains(name) {
            let k = choose|k: int| 0 <= k < rest.len() && rest[k] == name;
            assert(names_in_order(s)[k] == name);
            assert(names_in_order(s).contains(name));
        }
        if s.last().project.name@ == name {
            if !rest.contains(name) {
                assert(names_in_order(s)[rest.len() as int] == name);
                assert(names_in_order(s).contains(name));
            }
            assert(false);
        }
        lemma_absent_name_sum_zero(s.drop_last(), name);
    }
}

/// The seconds of the totals' entries summed.
pub open spec fn sum_entries(entries: Seq<(Seq<char>, int)>) -> int
    decreases entries.len(),
{
    if entries.len() == 0 {
        0
    } else {
        sum_entries(entries.drop_last()) + entries.last().1
    }
}

pub open spec fn sum_by_names(s: Seq<Record>, names: Seq<Seq<char>>) -> int
    decreases names.len(),
{
    if names.len() == 0 {
        0
    } else {
        sum_by_names(s, names.drop_last()) + sum_for(s, names.last())
    }
}

proof fn lemma_sum_by_names_extend(s: Seq<Record>, names: Seq<Seq<char>>)
    requires
        s.len() > 0,
        forall|i: int, j: int| 0 <= i < j < names.len() ==> names[i] != names[j],
    ensures
        sum_by_names(s, names) == sum_by_names(s.drop_last(), names) + (if names.contains(
            s.last().project.name@,
        ) {
            s.last().time_spent_seconds as int
        } else {
            0
        }),
    decreases names.len(),
{
    let nm = s.last().project.name@;
    if names.len() == 0 {
    } else {
        let shorter = names.drop_last();
        assert(forall|i: int, j: int| 0 <= i < j < shorter.len() ==> shorter[i] != shorter[j]);
        lemma_sum_by_names_extend(s, shorter);
        assert(sum_for(s, names.last()) == sum_for(s.drop_last(), names.last()) + (if names.last()
            == nm {
            s.last().time_spent_seconds as int
        } else {
            0
        }));
        if names.last() == nm {
            if shorter.contains(nm) {
                let k = choose|k: int| 0 <= k < shorter.len() && shorter[k] == nm;
                assert(names[k] == nm && names[names.len() - 1] == nm);
                assert(false);
            }
            assert(names.contains(nm)) by {
                assert(names[names.len() - 1] == nm);
            }
        } else {
            assert(names.contains(nm) == shorter.contains(nm)) by {
                if names.contains(nm) {
                    let k = choose|k: int| 0 <= k < names.len() && names[k] == nm;
                    assert(k < names.len() - 1);
                    assert(shorter[k] == nm);
                    assert(shorter.contains(nm));
                }
                if shorter.contains(nm) {
                    let k = choose|k: int| 0 <= k < shorter.len() && shorter[k] == nm;
                    assert(names[k] == nm);
                    assert(names.contains(nm));
                }
            }
        }
    }
}

proof fn lemma_sum_by_names_partitions(s: Seq<Record>)
    ensures
        sum_by_names(s, names_in_order(s)) == sum_seconds(s),
    decreases s.len(),
{
    if s.len() > 0 {
        let s0 = s.drop_last();
        let nm = s.last().project.name@;
        let sec = s.last().time_spent_seconds as int;
        lemma_sum_by_names_partitions(s0);
        lemma_names_distinct(s0);
        let rest = names_in_order(s0);
        if rest.contains(nm) {
            assert(names_in_order(s) == rest);
            lemma_sum_by_names_extend(s, rest);
            assert(sum_by_names(s, rest) == sum_by_names(s0, rest) + sec);
        } else {
            assert(names_in_order(s) == rest.push(nm));
            assert(rest.push(nm).drop_last() =~= rest);
            assert(rest.push(nm).last() == nm);
            assert(sum_by_names(s, rest.push(nm)) == sum_by_names(s, rest) + sum_for(s, nm));
            lemma_sum_by_names_extend(s, rest);
            assert(sum_by_names(s, rest) == sum_by_names(s0, rest));
            lemma_absent_name_sum_zero(s0, nm);
            assert(sum_for(s, nm) == sec);
        }
    }
}

/// Nothing is lost or invented in aggregation: the per-project totals sum
/// back to the records' own seconds.
pub proof fn lemma_totals_conserve(s: Seq<Record>)
    ensures
        sum_entries(spec_totals(s)) == sum_seconds(s),
{
    let names = names_in_order(s);
    let totals = spec_totals(s);
    assert(sum_entries(totals) == sum_by_names(s, names)) by {
        lemma_sum_entries_of_map(s, names);
    }
    lemma_sum_by_names_partitions(s);
}

proof fn lemma_sum_entries_of_map(s: Seq<Record>, names: Seq<Seq<char>>)
    ensures
        sum_entries(names.map_values(|n: Seq<char>| (n, sum_for(s, n)))) == sum_by_names(s, names),
    decreases names.len(),
{
    let mapped = names.map_values(|n: Seq<char>| (n, sum_for(s, n)));
    if names.len() == 0 {
        assert(mapped.len() == 0);
    } else {
        lemma_sum_entries_of_map(s, names.drop_last());
        assert(mapped.drop_last() =~= names.drop_last().map_values(
            |n: Seq<char>| (n, sum_for(s, n)),
        ));
        assert(mapped.last() == (names.last(), sum_for(s, names.last())));
    }
}

/// Aggregates the records of `records` into per-project totals and a grand
/// total. The entries carry the distinct project names in first-occurrence
/// order, each paired with the sum of the seconds logged against it.
pub fn aggregate(records: &Vec<Record>) -> (r: (Vec<(String, u64)>, u64))
    requires
        sum_seconds(records@) <= u64::MAX,
    ensures
        entry_views(r.0@) == spec_totals(records@),
        r.1 == sum_seconds(records@),
{
    let mut entries: Vec<(String, u64)> = Vec::new();
    let mut total: u64 = 0;
    let mut i: usize = 0;
    while i < records.len()
        invariant
            i <= records@.len(),
            sum_seconds(records@) <= u64::MAX,
            total == sum_seconds(records@.take(i as int)),
            entries@.map_values(|e: (String, u64)| e.0@) =~= names_in_order(
                records@.take(i as int),
            ),
            forall|j: int|
                0 <= j < entries@.len() ==> entries@[j].1 == sum_for(
                    records@.take(i as int),
                    #[trigger] entries@[j].0@,
                ),
            forall|j: int, k: int|
                0 <= j < k < entries@.len() ==> entries@[j].0@ != entries@[k].0@,
        decreases records@.len() - i,
    {
        let ghost prefix = records@.take(i as int);
        let ghost prefix1 = records@.take(i + 1);
        proof {
            assert(prefix1.drop_last() =~= prefix);
            assert(prefix1.last() == records@[i as int]);
            lemma_sum_take_le(records@, i + 1);
            lemma_sum_for_le(prefix, records@[i as int].project.name@);
            assert(sum_seconds(prefix1) == sum_seconds(prefix)
                + records@[i as int].time_spent_seconds);
        }
        let r = &records[i];
        let sec = r.time_spent_seconds;
        total = total + sec;
        let ghost nm = r.project.name@;
        proof {
            assert(sum_for(prefix1, nm) == sum_for(prefix, nm) + sec);
        }
        let mut j: usize = 0;
        let mut found = false;
        while j < entries.len() && !found
            invariant
                j <= entries@.len(),
                nm == r.project.name@,
                !found ==> forall|k: int| 0 <= k < j ==> entries@[k].0@ != nm,
                found ==> j < entries@.len() && entries@[j as int].0@ == nm,
            decreases entries@.len() - j + (if found {
                0int
            } else {
                1int
            }),
        {
            let pair = &entries[j];
            if pair.0.eq(&r.project.name) {
                found = true;
            } else {
                j += 1;
            }
        }
        let ghost old_entries = entries@;
        let ghost old_names = old_entries.map_values(|e: (String, u64)| e.0@);
        if found {
            proof {
                assert(old_names[j as int] == nm);
                assert(old_names.contains(nm));
                assert(names_in_order(prefix1) == old_names);
                // the entry's new value stays within the grand total
                lemma_sum_for_le(prefix1, nm);
                assert(sum_for(prefix, nm) + sec <= sum_seconds(records@));
            }
            let old_secs = entries[j].1;
            entries[j].1 = old_secs + sec;
            proof {
                assert(entries@[j as int].0 == old_entries[j as int].0);
                assert(entries@[j as int].1 == old_secs + sec);
                assert forall|k: int| 0 <= k < entries@.len() implies entries@[k].1 == sum_for(
                    prefix1,
                    #[trigger] entries@[k].0@,
                ) by {
                    if k == j as int {
                        assert(entries@[k].0@ == nm);
                    } else {
                        assert(entries@[k] == old_entries[k]);
                        assert(old_entries[k].0@ != nm);
                        assert(sum_for(prefix1, old_entries[k].0@) == sum_for(
                            prefix,
                            old_entries[k].0@,
                        ));
                    }
                }
                assert(entries@.map_values(|e: (String, u64)| e.0@) =~= old_names);
            }
        } else {
            proof {
                assert(j == entries@.len());
                assert(!old_names.contains(nm)) by {
                    assert forall|k: int| 0 <= k < old_names.len() implies old_names[k] != nm by {
                        assert(old_names[k] == old_entries[k].0@);
                    }
                }
                assert(names_in_order(prefix1) == old_names.push(nm));
                lemma_absent_name_sum_zero(prefix, nm);
            }
            entries.push((r.project.name.clone(), sec));
            proof {
                assert(entries@.map_values(|e: (String, u64)| e.0@) =~= old_names.push(nm));
                assert forall|k: int| 0 <= k < entries@.len() implies entries@[k].1 == sum_for(
                    prefix1,
                    #[trigger] entries@[k].0@,
                ) by {
                    if k < old_entries.len() {
                        assert(entries@[k] == old_entries[k]);
                        assert(old_entries[k].0@ != nm);
                        assert(sum_for(prefix1, old_entries[k].0@) == sum_for(
                            prefix,
                            old_entries[k].0@,
                        ));
                    } else {
                        assert(entries@[k].0@ == nm && entries@[k].1 == sec);
                    }
                }
            }
        }
        i += 1;
    }
    proof {
        assert(records@.take(records@.len() as int) =~= records@);
        lemma_names_distinct(records@);
        let names = entries@.map_values(|e: (String, u64)| e.0@);
        assert(entry_views(entries@) =~= spec_totals(records@)) by {
            assert(names =~= names_in_order(records@));
            assert forall|k: int| 0 <= k < entries@.len() implies entry_views(entries@)[k]
                == spec_totals(records@)[k] by {
                assert(names[k] == entries@[k].0@);
            }
        }
    }
    (entries, total)
}

} // verus!

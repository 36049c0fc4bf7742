//! Historical-event annotations: an immutable, date-sorted event table,
//! binary-search lookup of the events at or nearest after a target date, and
//! the joined info string displayed beside a resolved date.

use vstd::prelude::*;
use vstd::string::StringExecFns;

use crate::date::{date_lt, lemma_date_order, spec_date_le, spec_date_lt, Date, Day, Month, Year};

verus! {

/// A historical occurrence: a date and its description.
pub struct Event {
    pub date: Date,
    pub info: String,
}

impl Event {
    pub fn new(date: Date, info: String) -> (e: Event)
        ensures
            e.date == date,
            e.info == info,
    {
        Event { date, info }
    }
}

/// An equal copy of an event.
fn copy_event(e: &Event) -> (r: Event)
    ensures
        r == *e,
{
    Event { date: e.date, info: e.info.clone() }
}

/// The ghost view of an event: its date and the characters of its info text.
pub open spec fn spec_event_view(e: Event) -> (Date, Seq<char>) {
    (e.date, e.info@)
}

/// The ghost view of an event sequence.
pub open spec fn spec_events_view(s: Seq<Event>) -> Seq<(Date, Seq<char>)> {
    s.map_values(|e: Event| spec_event_view(e))
}

/// A table is sorted when its dates ascend weakly.
pub open spec fn spec_table_sorted(t: Seq<(Date, Seq<char>)>) -> bool {
    forall|i: int, j: int| 0 <= i < j < t.len() ==> spec_date_le(t[i].0, t[j].0)
}

/// The insertion point of `d` in the sorted table `t`: the index of the first
/// entry whose date is at or after `d`, or the table's length when every
/// entry is before `d`.
pub open spec fn spec_ins_pt(t: Seq<(Date, Seq<char>)>, d: Date) -> int
    decreases t.len(),
{
    if t.len() == 0 {
        0
    } else if spec_date_lt(t[0].0, d) {
        1 + spec_ins_pt(t.drop_first(), d)
    } else {
        0
    }
}

/// The index the lookup starts from: the insertion point, pulled back to the
/// last entry when `d` lies past the whole table.
pub open spec fn spec_lookup_base(t: Seq<(Date, Seq<char>)>, d: Date) -> int {
    let i = spec_ins_pt(t, d);
    if i >= t.len() {
        t.len() - 1
    } else {
        i
    }
}

/// The entries a lookup of `d` in `t` returns: the entry at the lookup base
/// and up to two subsequent entries, in ascending date order.
pub open spec fn spec_lookup(t: Seq<(Date, Seq<char>)>, d: Date) -> Seq<(Date, Seq<char>)> {
    let b = spec_lookup_base(t, d);
    let e = if b + 3 <= t.len() {
        b + 3
    } else {
        t.len() as int
    };
    t.subrange(b, e)
}

/// The info texts of the returned entries, joined by `", "`.
pub open spec fn spec_join_infos(t: Seq<(Date, Seq<char>)>) -> Seq<char>
    decreases t.len(),
{
    if t.len() == 0 {
        Seq::empty()
    } else if t.len() == 1 {
        t[0].1
    } else {
        spec_join_infos(t.drop_last()) + ", "@ + t.last().1
    }
}

/// The built-in event table, as a ghost value.
pub open spec fn spec_default_table() -> Seq<(Date, Seq<char>)> {
    seq![
        (
            Date { year: Year(-44i64), month: Month::March, day: Day(15) },
            "Julius Caesar assassinated"@,
        ),
        (
            Date { year: Year(1941i64), month: Month::December, day: Day(7) },
            "Pearl Harbour attacked"@,
        ),
        (Date { year: Year(2001i64), month: Month::September, day: Day(11) }, "9/11"@),
    ]
}

/// The built-in event table, sorted ascending by date.
pub fn default_events() -> (v: Vec<Event>)
    ensures
        spec_events_view(v@) == spec_default_table(),
        spec_table_sorted(spec_events_view(v@)),
        v@.len() == 3,
{
    let mut v: Vec<Event> = Vec::new();
    v.push(
        Event::new(
            Date::new(Year(-44), Month::March, Day(15)),
            String::from_str("Julius Caesar assassinated"),
        ),
    );
    v.push(
        Event::new(
            Date::new(Year(1941), Month::December, Day(7)),
            String::from_str("Pearl Harbour attacked"),
        ),
    );
    v.push(
        Event::new(
            Date::new(Year(2001), Month::September, Day(11)),
            String::from_str("9/11"),
        ),
    );
    proof {
        assert(spec_events_view(v@) =~= spec_default_table());
    }
    v
}

/// An index that splits a table into entries strictly before `d` and entries
/// at or after `d` is the insertion point.
proof fn lemma_ins_pt_from_bounds(t: Seq<(Date, Seq<char>)>, d: Date, i: int)
    requires
        0 <= i <= t.len(),
        forall|j: int| 0 <= j < i ==> spec_date_lt(t[j].0, d),
        i < t.len() ==> !spec_date_lt(t[i].0, d),
    ensures
        spec_ins_pt(t, d) == i,
    decreases t.len(),
{
    if t.len() == 0 {
    } else if spec_date_lt(t[0].0, d) {
        assert(i >= 1);
        let tail = t.drop_first();
        assert forall|j: int| 0 <= j < i - 1 implies spec_date_lt(tail[j].0, d) by {
            assert(tail[j] == t[j + 1]);
        }
        assert(i - 1 < tail.len() ==> !spec_date_lt(tail[i - 1].0, d));
        lemma_ins_pt_from_bounds(tail, d, i - 1);
    } else {
        assert(i == 0);
    }
}

/// Returns the event at the lookup base for `date` and up to two subsequent
/// events: the events at or nearest after `date` in the sorted table.
pub fn lookup_events(events: &Vec<Event>, date: Date) -> (r: Vec<Event>)
    requires
        events@.len() >= 1,
        spec_table_sorted(spec_events_view(events@)),
    ensures
        spec_events_view(r@) == spec_lookup(spec_events_view(events@), date),
{
    let ghost t = spec_events_view(events@);
    let mut lo: usize = 0;
    let mut hi: usize = events.len();
    while lo < hi
        invariant
            0 <= lo <= hi <= events@.len(),
            t == spec_events_view(events@),
            spec_table_sorted(t),
            forall|j: int| 0 <= j < lo ==> spec_date_lt(t[j].0, date),
            forall|j: int| hi <= j < t.len() ==> !spec_date_lt(t[j].0, date),
        decreases hi - lo,
    {
        let mid = lo + (hi - lo) / 2;
        proof {
            assert(t[mid as int].0 == events@[mid as int].date);
        }
        if date_lt(&events[mid].date, &date) {
            proof {
                assert forall|j: int| 0 <= j < mid + 1 implies spec_date_lt(t[j].0, date) by {
                    if j < mid {
                        lemma_date_order(t[j].0, t[mid as int].0, date);
                    }
                }
            }
            lo = mid + 1;
        } else {
            proof {
                assert forall|j: int| mid <= j < t.len() implies !spec_date_lt(t[j].0, date) by {
                    if j > mid && spec_date_lt(t[j].0, date) {
                        lemma_date_order(t[mid as int].0, t[j].0, date);
                    }
                }
            }
            hi = mid;
        }
    }
    proof {
        lemma_ins_pt_from_bounds(t, date, lo as int);
    }
    let base = if lo >= events.len() {
        events.len() - 1
    } else {
        lo
    };
    let end = if events.len() - base <= 3 {
        events.len()
    } else {
        base + 3
    };
    let mut r: Vec<Event> = Vec::new();
    let mut i: usize = base;
    while i < end
        invariant
            base <= i <= end <= events@.len(),
            r@.len() == i - base,
            forall|k: int| 0 <= k < r@.len() ==> r@[k] == events@[base + k],
        decreases end - i,
    {
        r.push(copy_event(&events[i]));
        i += 1;
    }
    proof {
        assert(spec_events_view(r@) =~= spec_lookup(t, date));
    }
    r
}

/// Looks up the events at or nearest after `date` in the built-in table.
/// The anchor `now` does not influence the selection.
pub fn get_events(now: Date, date: Date) -> (r: Vec<Event>)
    ensures
        spec_events_view(r@) == spec_lookup(spec_default_table(), date),
{
    let events = default_events();
    lookup_events(&events, date)
}

/// The info texts of the events near `date`, joined by `", "`.
pub fn info_for(now: Date, date: Date) -> (s: String)
    ensures
        s@ == spec_join_infos(spec_lookup(spec_default_table(), date)),
{
    let events = get_events(now, date);
    let ghost t = spec_events_view(events@);
    if events.len() == 0 {
        let s = String::new();
        proof {
            assert(s@ =~= spec_join_infos(t));
        }
        s
    } else {
        let mut s = events[0].info.clone();
        proof {
            assert(t.take(1) =~= seq![t[0]]);
            assert(s@ == spec_join_infos(t.take(1)));
        }
        let mut i: usize = 1;
        while i < events.len()
            invariant
                1 <= i <= events@.len(),
                t == spec_events_view(events@),
                s@ == spec_join_infos(t.take(i as int)),
            decreases events@.len() - i,
        {
            s.append(", ");
            s.append(events[i].info.as_str());
            proof {
                reveal_strlit(", ");
                let tk = t.take(i + 1);
                assert(tk.drop_last() =~= t.take(i as int));
                assert(tk.last() == t[i as int]);
                assert(s@ =~= spec_join_infos(t.take(i + 1)));
            }
            i += 1;
        }
        proof {
            assert(t.take(events@.len() as int) =~= t);
        }
        s
    }
}

} // verus!

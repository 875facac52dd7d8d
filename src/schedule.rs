//! Times of day, schedule events, ordering a schedule by time, and matching a
//! time of day against a schedule's on/off windows.
use vstd::prelude::*;

use crate::config::ConfigError;

verus! {

/// A time of day, held as the number of seconds since midnight.
#[derive(Clone, Copy, Debug, PartialEq, Eq, Structural)]
pub struct TimeOfDay {
    secs: u32,
}

/// The result of chrono's `%H:%M` parser on a string: its hour and minute.
pub uninterp spec fn parsed_hm(s: Seq<char>) -> Option<(u32, u32)>;

/// Relies on chrono::NaiveTime::parse_from_str with the format "%H:%M", and on
/// NaiveTime's hour() and minute(), which lie in 0..24 and 0..60.
#[verifier::external_body]
fn chrono_parse_hm(s: &str) -> (r: Option<(u32, u32)>)
    ensures
        r == parsed_hm(s@),
        r.is_some() ==> r.unwrap().0 < 24 && r.unwrap().1 < 60,
{
    chrono::NaiveTime::parse_from_str(s, "%H:%M").ok().map(
        |t| (chrono::Timelike::hour(&t), chrono::Timelike::minute(&t)),
    )
}

/// Seconds since midnight of hour `h`, minute `m` and second `s`.
pub open spec fn hms_seconds(h: nat, m: nat, s: nat) -> nat {
    h * 3600 + m * 60 + s
}

impl TimeOfDay {
    /// Seconds since midnight.
    pub closed spec fn spec_seconds(self) -> nat {
        self.secs as nat
    }

    /// The time of day `h:m:s`, or `None` unless `h < 24`, `m < 60` and `s < 60`.
    pub fn from_hms(h: u32, m: u32, s: u32) -> (r: Option<TimeOfDay>)
        ensures
            r.is_some() <==> (h < 24 && m < 60 && s < 60),
            r.is_some() ==> r.unwrap().spec_seconds() == hms_seconds(h as nat, m as nat, s as nat),
    {
        if h < 24 && m < 60 && s < 60 {
            Some(TimeOfDay { secs: h * 3600 + m * 60 + s })
        } else {
            None
        }
    }

    /// Seconds since midnight.
    pub fn seconds(&self) -> (r: u32)
        ensures
            r as nat == self.spec_seconds(),
    {
        self.secs
    }
}

/// What a schedule event does to its actuator.
#[derive(Clone, Copy, Debug, PartialEq, Eq, Hash, Structural)]
pub enum Action {
    On,
    Off,
}

/// One entry of a schedule: at `time`, perform `action`.
#[derive(Clone, Copy, Debug, PartialEq, Eq, Structural)]
pub struct Event {
    pub time: TimeOfDay,
    pub action: Action,
}

impl Event {
    /// Parses the time of an event, written `HH:MM`.
    pub fn parse_time(s: &str) -> (r: Result<TimeOfDay, ConfigError>)
        ensures
            parsed_hm(s@).is_none() ==> r == Err::<TimeOfDay, ConfigError>(ConfigError::InvalidTime),
            parsed_hm(s@).is_some() ==> r.is_ok() && r.unwrap().spec_seconds() == hms_seconds(
                parsed_hm(s@).unwrap().0 as nat,
                parsed_hm(s@).unwrap().1 as nat,
                0,
            ),
    {
        match chrono_parse_hm(s) {
            Some((h, m)) => match TimeOfDay::from_hms(h, m, 0) {
                Some(t) => Ok(t),
                None => Err(ConfigError::InvalidTime),
            },
            None => Err(ConfigError::InvalidTime),
        }
    }

    pub fn new(time: TimeOfDay, action: Action) -> (r: Event)
        ensures
            r.time == time,
            r.action == action,
    {
        Event { time, action }
    }
}

/// Time of day of the `i`th event of `s`, in seconds.
pub open spec fn at(s: Seq<Event>, i: int) -> nat {
    s[i].time.spec_seconds()
}

/// The `k`th on/off pair of `s` (events `2k` and `2k+1`) holds time `t`:
/// `t` lies in the half-open window `[on, off)`.
pub open spec fn pair_covers(s: Seq<Event>, k: int, t: nat) -> bool {
    0 <= k && 2 * k + 1 < s.len() && at(s, 2 * k) <= t && t < at(s, 2 * k + 1)
}

/// `s`, read as consecutive on/off pairs, has a window that holds `t`.
/// A trailing event with no partner opens no window.
pub open spec fn spec_schedule_on(s: Seq<Event>, t: nat) -> bool {
    exists|k: int| #[trigger] pair_covers(s, k, t)
}

/// `s` is ordered by time of day, ascending.
pub open spec fn sorted_by_time(s: Seq<Event>) -> bool {
    forall|i: int, j: int| 0 <= i <= j < s.len() ==> at(s, i) <= at(s, j)
}

/// The `k`th pair of `s` opens with `On` and closes with `Off`.
pub open spec fn pair_on_off(s: Seq<Event>, k: int) -> bool {
    s[2 * k].action == Action::On && s[2 * k + 1].action == Action::Off
}

/// Every pair of `s` (events `2k` and `2k+1`) is `On` then `Off`.
pub open spec fn pairs_on_off(s: Seq<Event>) -> bool {
    forall|k: int| 0 <= k && 2 * k + 1 < s.len() ==> #[trigger] pair_on_off(s, k)
}

/// `s` satisfies the invariants checked when a configuration is loaded:
/// ordered by time, not empty, of even length, and made of consecutive
/// (`On`, `Off`) pairs.
pub open spec fn schedule_valid(s: Seq<Event>) -> bool {
    &&& sorted_by_time(s)
    &&& s.len() > 0
    &&& s.len() % 2 == 0
    &&& pairs_on_off(s)
}

/// Inserts `e` into `s` after every event whose time is not later than `e`'s.
pub open spec fn insert_by_time(s: Seq<Event>, e: Event) -> Seq<Event>
    decreases s.len(),
{
    if s.len() == 0 {
        seq![e]
    } else if at(s, s.len() - 1) <= e.time.spec_seconds() {
        s.push(e)
    } else {
        insert_by_time(s.drop_last(), e).push(s.last())
    }
}

/// The stable sort of `s` by time of day: events with equal times keep
/// their order.
pub open spec fn sort_by_time(s: Seq<Event>) -> Seq<Event>
    decreases s.len(),
{
    if s.len() == 0 {
        s
    } else {
        insert_by_time(sort_by_time(s.drop_last()), s.last())
    }
}

proof fn lemma_insert_at(s: Seq<Event>, e: Event, j: int)
    requires
        0 <= j <= s.len(),
        forall|k: int| j <= k < s.len() ==> at(s, k) > e.time.spec_seconds(),
        j == 0 || at(s, j - 1) <= e.time.spec_seconds(),
    ensures
        insert_by_time(s, e) == s.insert(j, e),
    decreases s.len(),
{
    if s.len() == 0 {
        assert(seq![e] =~= s.insert(j, e));
    } else if at(s, s.len() - 1) <= e.time.spec_seconds() {
        assert(s.push(e) =~= s.insert(j, e));
    } else {
        let d = s.drop_last();
        assert forall|k: int| j <= k < d.len() implies at(d, k) > e.time.spec_seconds() by {
            assert(d[k] == s[k]);
            assert(at(s, k) > e.time.spec_seconds());
        }
        if j > 0 {
            assert(d[j - 1] == s[j - 1]);
        }
        lemma_insert_at(d, e, j);
        assert(d.insert(j, e).push(s.last()) =~= s.insert(j, e));
    }
}

proof fn lemma_insert_sorted(s: Seq<Event>, e: Event)
    requires
        sorted_by_time(s),
    ensures
        sorted_by_time(insert_by_time(s, e)),
        insert_by_time(s, e).len() == s.len() + 1,
        forall|i: int|
            0 <= i < s.len() + 1 ==> #[trigger] insert_by_time(s, e)[i] == e || s.contains(
                insert_by_time(s, e)[i],
            ),
    decreases s.len(),
{
    let r = insert_by_time(s, e);
    if s.len() == 0 {
    } else if at(s, s.len() - 1) <= e.time.spec_seconds() {
        assert forall|i: int| 0 <= i < s.len() + 1 implies #[trigger] r[i] == e || s.contains(
            r[i],
        ) by {
            if i < s.len() {
                assert(r[i] == s[i]);
            }
        }
        assert forall|i: int, j: int| 0 <= i <= j < r.len() implies at(r, i) <= at(r, j) by {
            if j < s.len() {
                assert(at(s, i) <= at(s, j));
            } else if i < s.len() {
                assert(at(s, i) <= at(s, s.len() - 1));
            }
        }
    } else {
        let d = s.drop_last();
        assert forall|i: int, j: int| 0 <= i <= j < d.len() implies at(d, i) <= at(d, j) by {
            assert(d[i] == s[i]);
            assert(d[j] == s[j]);
            assert(at(s, i) <= at(s, j));
        }
        lemma_insert_sorted(d, e);
        let q = insert_by_time(d, e);
        assert forall|i: int| 0 <= i < q.len() implies at(q, i) <= at(s, s.len() - 1) by {
            if q[i] != e {
                assert(d.contains(q[i]));
                let k = choose|k: int| 0 <= k < d.len() && d[k] == q[i];
                assert(s[k] == d[k]);
                assert(at(s, k) <= at(s, s.len() - 1));
            }
        }
        assert forall|i: int| 0 <= i < s.len() + 1 implies #[trigger] r[i] == e || s.contains(
            r[i],
        ) by {
            if i < q.len() {
                assert(r[i] == q[i]);
                if q[i] != e {
                    let k = choose|k: int| 0 <= k < d.len() && d[k] == q[i];
                    assert(s[k] == q[i]);
                }
            } else {
                assert(r[i] == s[s.len() - 1]);
            }
        }
        assert forall|i: int, j: int| 0 <= i <= j < r.len() implies at(r, i) <= at(r, j) by {
            if j < q.len() {
                assert(at(q, i) <= at(q, j));
            } else if i < q.len() {
                assert(at(q, i) <= at(s, s.len() - 1));
            }
        }
    }
}

/// Sorting by time yields a schedule ordered by time, of the same length.
pub proof fn lemma_sort_sorted(s: Seq<Event>)
    ensures
        sorted_by_time(sort_by_time(s)),
        sort_by_time(s).len() == s.len(),
    decreases s.len(),
{
    if s.len() > 0 {
        lemma_sort_sorted(s.drop_last());
        lemma_insert_sorted(sort_by_time(s.drop_last()), s.last());
    }
}

/// Orders `v` by time of day, ascending, keeping the order of events with
/// equal times.
pub fn sort_schedule(v: &mut Vec<Event>)
    ensures
        final(v)@ == sort_by_time(old(v)@),
{
    let ghost orig = v@;
    let mut out: Vec<Event> = Vec::new();
    let n = v.len();
    let mut i: usize = 0;
    assert(orig.subrange(0, 0) =~= Seq::<Event>::empty());
    while i < n
        invariant
            n == v.len(),
            v@ == orig,
            i <= n,
            out@ == sort_by_time(orig.subrange(0, i as int)),
        decreases n - i,
    {
        let e = v[i];
        let mut j: usize = out.len();
        while j > 0 && out[j - 1].time.seconds() > e.time.seconds()
            invariant
                j <= out.len(),
                forall|k: int| j <= k < out.len() ==> at(out@, k) > e.time.spec_seconds(),
            decreases j,
        {
            j = j - 1;
        }
        proof {
            lemma_insert_at(out@, e, j as int);
            let p = orig.subrange(0, i + 1);
            assert(p.drop_last() =~= orig.subrange(0, i as int));
            assert(p.last() == e);
        }
        out.insert(j, e);
        i = i + 1;
    }
    assert(orig.subrange(0, n as int) =~= orig);
    *v = out;
}

/// Whether `t` falls in one of the on/off windows of `schedule`.
pub fn schedule_on(schedule: &Vec<Event>, t: TimeOfDay) -> (r: bool)
    ensures
        r == spec_schedule_on(schedule@, t.spec_seconds()),
{
    let s = schedule;
    let tt = t.seconds();
    let mut k: usize = 0;
    let ghost mut p: int = 0;
    while s.len() - k >= 2
        invariant
            s@ == schedule@,
            k <= s.len(),
            0 <= p,
            k == 2 * p,
            tt as nat == t.spec_seconds(),
            forall|q: int| 0 <= q < p ==> !#[trigger] pair_covers(s@, q, t.spec_seconds()),
        decreases s.len() - k,
    {
        let on = s[k].time.seconds();
        let off = s[k + 1].time.seconds();
        if on <= tt && tt < off {
            assert(at(s@, 2 * p) == on);
            assert(at(s@, 2 * p + 1) == off);
            assert(pair_covers(s@, p, t.spec_seconds()));
            return true;
        }
        k = k + 2;
        proof {
            p = p + 1;
        }
    }
    assert forall|q: int| !#[trigger] pair_covers(s@, q, t.spec_seconds()) by {
        if 0 <= q && q >= p {
            assert(2 * q + 1 >= s.len());
        }
    }
    false
}

/// A time equal to the start of a window of a loaded schedule is inside
/// the schedule's on time, unless that window is empty.
pub proof fn lemma_on_boundary(s: Seq<Event>, k: int)
    requires
        schedule_valid(s),
        0 <= k,
        2 * k + 1 < s.len(),
        at(s, 2 * k) < at(s, 2 * k + 1),
    ensures
        spec_schedule_on(s, at(s, 2 * k)),
{
    assert(pair_covers(s, k, at(s, 2 * k)));
}

/// A time equal to the end of a window of a loaded schedule is outside the
/// schedule's on time, unless the next window opens at that same time.
pub proof fn lemma_off_boundary(s: Seq<Event>, k: int)
    requires
        schedule_valid(s),
        0 <= k,
        2 * k + 1 < s.len(),
        2 * k + 2 < s.len() ==> at(s, 2 * k + 1) < at(s, 2 * k + 2),
    ensures
        !spec_schedule_on(s, at(s, 2 * k + 1)),
{
    let t = at(s, 2 * k + 1);
    assert forall|q: int| !#[trigger] pair_covers(s, q, t) by {
        if pair_covers(s, q, t) {
            if q < k {
                assert(at(s, 2 * q + 1) <= at(s, 2 * k + 1));
            } else if q > k {
                assert(at(s, 2 * k + 2) <= at(s, 2 * q));
            }
        }
    }
}

} // verus!

//! The decisions of the cron scheduler: which cron runs in a tick, when it
//! runs next, and which broken schedules have been reported. The caller
//! owns the clock and the runs; times are milliseconds.
use crate::sorted_map::SortedMap;
use crate::text::{append, concat};
use vstd::prelude::*;

verus! {

/// The scheduler's memory between ticks: when each cron is due next, and
/// which crons have a schedule that was reported as broken.
pub struct SchedulerState {
    next_runs: SortedMap<i64>,
    reported: SortedMap<()>,
}

/// What a tick does with one cron.
pub enum CronAction {
    /// Report that the cron's schedule does not parse.
    ReportBroken,
    /// Nothing yet.
    Wait,
    /// Run the cron for the given due time.
    Run(i64),
}

/// What a tick does with a cron whose schedule does not parse: report it
/// when it was not reported, else nothing.
pub open spec fn broken_tick_action(reported: Set<Seq<char>>, key: Seq<char>) -> CronAction {
    if reported.contains(key) {
        CronAction::Wait
    } else {
        CronAction::ReportBroken
    }
}

impl SchedulerState {
    pub closed spec fn next_runs(&self) -> Map<Seq<char>, i64> {
        self.next_runs@
    }

    pub closed spec fn reported(&self) -> Set<Seq<char>> {
        self.reported@.dom()
    }

    /// A scheduler that has seen nothing yet.
    pub fn new() -> (s: Self)
        ensures
            s.next_runs() == Map::<Seq<char>, i64>::empty(),
            s.reported() == Set::<Seq<char>>::empty(),
    {
        let s = SchedulerState { next_runs: SortedMap::new(), reported: SortedMap::new() };
        assert(s.reported() =~= Set::<Seq<char>>::empty());
        s
    }

    /// A cron whose schedule does not parse. It is reported only when it
    /// was not reported since its schedule last parsed; the answer says
    /// whether to report it now.
    pub fn schedule_invalid(&mut self, key: &str) -> (report: bool)
        ensures
            report == !old(self).reported().contains(key@),
            final(self).reported() == old(self).reported().insert(key@),
            final(self).next_runs() == old(self).next_runs(),
    {
        let report = !self.reported.contains_key(key);
        self.reported.insert(crate::text::owned(key), ());
        assert(self.reported() =~= old(self).reported().insert(key@));
        report
    }

    /// A cron whose schedule parses, in a tick at `now`. A cron seen for
    /// the first time is due at `first_due` (its next time after `now`, or
    /// `now` when it has none). The answer is when it is due, if that is
    /// not after `now`: then it runs.
    pub fn due(&mut self, key: &str, now: i64, first_due: i64) -> (r: Option<i64>)
        ensures
            final(self).reported() == old(self).reported().remove(key@),
            final(self).next_runs() == (if old(self).next_runs().contains_key(key@) {
                old(self).next_runs()
            } else {
                old(self).next_runs().insert(key@, first_due)
            }),
            ({
                let due_at = final(self).next_runs()[key@];
                &&& final(self).next_runs().contains_key(key@)
                &&& r == (if due_at > now {
                    None::<i64>
                } else {
                    Some(due_at)
                })
            }),
    {
        self.reported.remove(key);
        assert(self.reported() =~= old(self).reported().remove(key@));
        let due_at = match self.next_runs.get(key) {
            Some(d) => *d,
            None => {
                self.next_runs.insert(crate::text::owned(key), first_due);
                first_due
            },
        };
        if due_at > now {
            None
        } else {
            Some(due_at)
        }
    }

    /// After a cron ran: it is next due at `next`, when its schedule has a
    /// next time; otherwise it stays due when it was.
    pub fn ran(&mut self, key: &str, next: Option<i64>)
        ensures
            final(self).reported() == old(self).reported(),
            final(self).next_runs() == match next {
                Some(n) => old(self).next_runs().insert(key@, n),
                None => old(self).next_runs(),
            },
    {
        if let Some(n) = next {
            self.next_runs.insert(crate::text::owned(key), n);
        }
    }

    /// One tick for a cron at `now`: `first_due` is when the cron would
    /// first be due, or `None` when its schedule does not parse. A broken
    /// schedule is reported when it was not reported since it last parsed,
    /// and never runs; a schedule that parses runs when due, as `due` says.
    pub fn tick(&mut self, key: &str, now: i64, first_due: Option<i64>) -> (r: CronAction)
        ensures
            first_due is None ==> {
                &&& r == broken_tick_action(old(self).reported(), key@)
                &&& final(self).reported() == old(self).reported().insert(key@)
                &&& final(self).next_runs() == old(self).next_runs()
            },
            first_due matches Some(f) ==> {
                let next = if old(self).next_runs().contains_key(key@) {
                    old(self).next_runs()
                } else {
                    old(self).next_runs().insert(key@, f)
                };
                &&& final(self).reported() == old(self).reported().remove(key@)
                &&& final(self).next_runs() == next
                &&& r == (if next[key@] > now {
                    CronAction::Wait
                } else {
                    CronAction::Run(next[key@])
                })
            },
    {
        match first_due {
            None => {
                if self.schedule_invalid(key) {
                    CronAction::ReportBroken
                } else {
                    CronAction::Wait
                }
            },
            Some(f) => match self.due(key, now, f) {
                Some(due_at) => CronAction::Run(due_at),
                None => CronAction::Wait,
            },
        }
    }
}

/// The key the scheduler knows a cron by: `<package>:<id>`.
pub fn cron_key(package: &str, id: &str) -> (r: String)
    ensures
        r@ == package@ + ":"@ + id@,
{
    let mut k = concat(package, ":");
    append(&mut k, id);
    k
}

/// The number of ticks that reported a broken schedule.
pub open spec fn report_count(actions: Seq<CronAction>) -> nat
    decreases actions.len(),
{
    if actions.len() == 0 {
        0
    } else {
        report_count(actions.drop_last()) + if actions.last() is ReportBroken {
            1nat
        } else {
            0nat
        }
    }
}

/// A broken schedule is reported once, over any number of scheduler ticks
/// in which it stays broken, and the cron never runs in them.
/// `reported[i]` is the set of reported crons before tick `i` (other crons
/// may change it in between) and `actions[i]` what `tick` did with the
/// cron in tick `i`: as its contract says for a schedule that does not
/// parse, a report exactly when the cron was not reported, after which it
/// is. Then the ticks report once when the cron was not reported before
/// the first of them, never otherwise, and none of them runs the cron.
pub proof fn law_broken_schedule_reported_once(
    reported: Seq<Set<Seq<char>>>,
    actions: Seq<CronAction>,
    key: Seq<char>,
)
    requires
        reported.len() == actions.len() + 1,
        forall|i: int| 0 <= i < actions.len() ==> #[trigger] actions[i] == broken_tick_action(reported[i], key),
        forall|i: int| 0 <= i < actions.len() ==> #[trigger] reported[i + 1].contains(key),
    ensures
        report_count(actions) == if actions.len() > 0 && !reported[0].contains(key) {
            1nat
        } else {
            0nat
        },
        forall|i: int| 0 <= i < actions.len() ==> !(#[trigger] actions[i] is Run),
    decreases actions.len(),
{
    if actions.len() > 0 {
        let n = actions.len();
        let prefix = actions.drop_last();
        let earlier = reported.take(n as int);
        assert forall|i: int| 0 <= i < prefix.len() implies #[trigger] prefix[i] == broken_tick_action(earlier[i], key) by {
            assert(prefix[i] == actions[i]);
        }
        assert forall|i: int| 0 <= i < prefix.len() implies #[trigger] earlier[i + 1].contains(key) by {
            assert(reported[i + 1].contains(key));
        }
        law_broken_schedule_reported_once(earlier, prefix, key);
        assert(actions[n - 1] == broken_tick_action(reported[n - 1], key));
        if n > 1 {
            assert(reported[(n - 2) + 1].contains(key));
        }
    }
    assert forall|i: int| 0 <= i < actions.len() implies !(#[trigger] actions[i] is Run) by {
        assert(actions[i] == broken_tick_action(reported[i], key));
    }
}

/// A schedule that parses again starts a new breakage: after a tick in
/// which it parsed, the cron is no longer among the reported ones, so its
/// next breakage is reported.
pub proof fn law_parsed_schedule_rearms_report(reported: Set<Seq<char>>, key: Seq<char>)
    ensures
        !reported.remove(key).contains(key),
{
}

} // verus!

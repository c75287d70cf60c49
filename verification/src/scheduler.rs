//! Owned schedules that switch one device on or off, either once at an
//! instant (UTC) or on chosen days of the week at a time of day, and the
//! rules by which a periodic check picks the schedules to run and the ones
//! to drop.

use vstd::prelude::*;

use crate::calendar::{
    chrono_utc_text, utc_text, date_before, date_is_before, datetime_before, datetime_is_before, chrono_weekday,
    chrono_weekday_index, Date, DateTime, TimeOfDay, Weekday,
};
use crate::id_map::{
    entries_insert, entries_insert_all, entries_map, entries_remove, entries_remove_all,
    entry_values, has_key, keys_unique, lemma_remove_all_entries, Duplicate, IdMap,
};
use crate::text::is_uuid_v4_text;

verus! {

/// What a schedule does to its device.
#[derive(Clone, Copy, PartialEq, Eq, Structural, Debug)]
pub enum Action {
    On,
    Off,
}

/// When a schedule fires.
#[derive(Clone, Debug)]
pub enum ScheduleKind {
    /// Once, at the first check at or after `datetime` (UTC).
    Once { datetime: DateTime },
    /// On each day of `weekdays`, in the first half minute of `time`, until
    /// `end_date` has passed, except on `exclude_dates`.
    Recurring {
        weekdays: Vec<Weekday>,
        time: TimeOfDay,
        end_date: Option<Date>,
        exclude_dates: Vec<Date>,
    },
}

/// The model of a `ScheduleKind`.
pub enum ScheduleKindView {
    Once { datetime: DateTime },
    Recurring {
        weekdays: Seq<Weekday>,
        time: TimeOfDay,
        end_date: Option<Date>,
        exclude_dates: Seq<Date>,
    },
}

impl View for ScheduleKind {
    type V = ScheduleKindView;

    open spec fn view(&self) -> ScheduleKindView {
        match self {
            ScheduleKind::Once { datetime } => ScheduleKindView::Once { datetime: *datetime },
            ScheduleKind::Recurring { weekdays, time, end_date, exclude_dates } =>
                ScheduleKindView::Recurring {
                weekdays: weekdays@,
                time: *time,
                end_date: *end_date,
                exclude_dates: exclude_dates@,
            },
        }
    }
}

/// A schedule of one owner for one device.
#[derive(Clone, Debug)]
pub struct Schedule {
    pub id: String,
    pub owner: String,
    pub device: String,
    pub action: Action,
    pub kind: ScheduleKind,
}

/// The model of a `Schedule`.
pub struct ScheduleView {
    pub id: Seq<char>,
    pub owner: Seq<char>,
    pub device: Seq<char>,
    pub action: Action,
    pub kind: ScheduleKindView,
}

impl View for Schedule {
    type V = ScheduleView;

    open spec fn view(&self) -> ScheduleView {
        ScheduleView {
            id: self.id@,
            owner: self.owner@,
            device: self.device@,
            action: self.action,
            kind: self.kind@,
        }
    }
}

fn copy_weekdays(v: &Vec<Weekday>) -> (r: Vec<Weekday>)
    ensures
        r@ == v@,
{
    let mut r: Vec<Weekday> = Vec::new();
    let mut i: usize = 0;
    while i < v.len()
        invariant
            i <= v@.len(),
            r@ == v@.take(i as int),
        decreases v@.len() - i,
    {
        r.push(v[i]);
        assert(v@.take(i + 1) =~= v@.take(i as int).push(v@[i as int]));
        i = i + 1;
    }
    assert(v@.take(i as int) =~= v@);
    r
}

fn copy_dates(v: &Vec<Date>) -> (r: Vec<Date>)
    ensures
        r@ == v@,
{
    let mut r: Vec<Date> = Vec::new();
    let mut i: usize = 0;
    while i < v.len()
        invariant
            i <= v@.len(),
            r@ == v@.take(i as int),
        decreases v@.len() - i,
    {
        r.push(v[i]);
        assert(v@.take(i + 1) =~= v@.take(i as int).push(v@[i as int]));
        i = i + 1;
    }
    assert(v@.take(i as int) =~= v@);
    r
}

impl Duplicate for ScheduleKind {
    fn duplicate(&self) -> (r: Self) {
        match self {
            ScheduleKind::Once { datetime } => ScheduleKind::Once { datetime: *datetime },
            ScheduleKind::Recurring { weekdays, time, end_date, exclude_dates } => {
                ScheduleKind::Recurring {
                    weekdays: copy_weekdays(weekdays),
                    time: *time,
                    end_date: *end_date,
                    exclude_dates: copy_dates(exclude_dates),
                }
            },
        }
    }
}

impl Duplicate for Schedule {
    fn duplicate(&self) -> (r: Self) {
        Schedule {
            id: self.id.clone(),
            owner: self.owner.clone(),
            device: self.device.clone(),
            action: self.action,
            kind: self.kind.duplicate(),
        }
    }
}


/// The schedule runs at the check made at `now`, a `weekday`.
pub open spec fn runs_at(kind: ScheduleKindView, now: DateTime, weekday: Weekday) -> bool {
    match kind {
        ScheduleKindView::Once { datetime } => !datetime_before(now, datetime),
        ScheduleKindView::Recurring { weekdays, time, end_date, exclude_dates } => {
            &&& !(end_date matches Some(end) && date_before(end, now.date))
            &&& !exclude_dates.contains(now.date)
            &&& weekdays.contains(weekday)
            &&& now.time.hour == time.hour
            &&& now.time.minute == time.minute
            &&& now.time.second < 30
        },
    }
}

/// The schedule is dropped at the check made at `now`: a one-time schedule
/// once its instant has come, a recurring one once its end date has passed.
pub open spec fn expires_at(kind: ScheduleKindView, now: DateTime) -> bool {
    match kind {
        ScheduleKindView::Once { datetime } => !datetime_before(now, datetime),
        ScheduleKindView::Recurring { end_date, .. } => end_date matches Some(end) && date_before(
            end,
            now.date,
        ),
    }
}

/// One device action that a check decided on.
#[derive(Clone, Debug)]
pub struct Execution {
    /// The identifier the schedule is stored under.
    pub id: String,
    pub device: String,
    pub action: Action,
}

/// The model of an `Execution`.
pub struct ExecutionView {
    pub id: Seq<char>,
    pub device: Seq<char>,
    pub action: Action,
}

impl View for Execution {
    type V = ExecutionView;

    open spec fn view(&self) -> ExecutionView {
        ExecutionView { id: self.id@, device: self.device@, action: self.action }
    }
}

/// The actions that a check over `entries` at `now`, a `weekday`, performs, in entry order.
pub open spec fn planned_executions(
    entries: Seq<(Seq<char>, ScheduleView)>,
    now: DateTime,
    weekday: Weekday,
) -> Seq<ExecutionView>
    decreases entries.len(),
{
    if entries.len() == 0 {
        Seq::empty()
    } else {
        let prev = planned_executions(entries.drop_last(), now, weekday);
        let e = entries.last();
        if runs_at(e.1.kind, now, weekday) {
            prev.push(ExecutionView { id: e.0, device: e.1.device, action: e.1.action })
        } else {
            prev
        }
    }
}

/// The identifiers that a check over `entries` at `now` drops, in entry order.
pub open spec fn planned_removals(entries: Seq<(Seq<char>, ScheduleView)>, now: DateTime) -> Seq<
    Seq<char>,
>
    decreases entries.len(),
{
    if entries.len() == 0 {
        Seq::empty()
    } else {
        let prev = planned_removals(entries.drop_last(), now);
        let e = entries.last();
        if expires_at(e.1.kind, now) {
            prev.push(e.0)
        } else {
            prev
        }
    }
}

/// What a check decided: the device actions to perform, in order, and the
/// schedules to drop afterwards.
pub struct CheckPlan {
    pub executions: Vec<Execution>,
    pub removals: Vec<String>,
}

/// The schedule with its identifier replaced by `id`.
pub open spec fn with_id(s: ScheduleView, id: Seq<char>) -> ScheduleView {
    ScheduleView { id: id, ..s }
}

/// The schedules among `values` that belong to `owner`, in order.
pub open spec fn owned_by(values: Seq<ScheduleView>, owner: Seq<char>) -> Seq<ScheduleView>
    decreases values.len(),
{
    if values.len() == 0 {
        Seq::empty()
    } else {
        let prev = owned_by(values.drop_last(), owner);
        if values.last().owner == owner {
            prev.push(values.last())
        } else {
            prev
        }
    }
}

fn weekdays_contain(v: &Vec<Weekday>, w: Weekday) -> (r: bool)
    ensures
        r == v@.contains(w),
{
    let mut i: usize = 0;
    while i < v.len()
        invariant
            i <= v@.len(),
            forall|j: int| 0 <= j < i ==> v@[j] != w,
        decreases v@.len() - i,
    {
        if v[i] == w {
            assert(v@[i as int] == w);
            return true;
        }
        i = i + 1;
    }
    false
}

fn dates_contain(v: &Vec<Date>, d: &Date) -> (r: bool)
    ensures
        r == v@.contains(*d),
{
    let mut i: usize = 0;
    while i < v.len()
        invariant
            i <= v@.len(),
            forall|j: int| 0 <= j < i ==> v@[j] != *d,
        decreases v@.len() - i,
    {
        if v[i] == *d {
            assert(v@[i as int] == *d);
            return true;
        }
        i = i + 1;
    }
    false
}

impl ScheduleKind {
    /// Whether the schedule runs at the check made at `now`, a `weekday`.
    pub fn runs_at(&self, now: &DateTime, weekday: Weekday) -> (r: bool)
        ensures
            r == runs_at(self@, *now, weekday),
    {
        match self {
            ScheduleKind::Once { datetime } => !datetime_is_before(now, datetime),
            ScheduleKind::Recurring { weekdays, time, end_date, exclude_dates } => {
                if let Some(end) = end_date {
                    if date_is_before(end, &now.date) {
                        return false;
                    }
                }
                if dates_contain(exclude_dates, &now.date) {
                    return false;
                }
                if !weekdays_contain(weekdays, weekday) {
                    return false;
                }
                now.time.hour == time.hour && now.time.minute == time.minute && now.time.second
                    < 30
            },
        }
    }

    /// Whether the schedule is dropped at the check made at `now`.
    pub fn expires_at(&self, now: &DateTime) -> (r: bool)
        ensures
            r == expires_at(self@, *now),
    {
        match self {
            ScheduleKind::Once { datetime } => !datetime_is_before(now, datetime),
            ScheduleKind::Recurring { end_date, .. } => match end_date {
                Some(end) => date_is_before(end, &now.date),
                None => false,
            },
        }
    }
}

/// The schedules of all owners, by identifier.
pub struct Scheduler {
    schedules: IdMap<Schedule>,
}

impl View for Scheduler {
    type V = Seq<(Seq<char>, ScheduleView)>;

    closed spec fn view(&self) -> Seq<(Seq<char>, ScheduleView)> {
        self.schedules@
    }
}

impl Scheduler {
    /// No identifier occurs twice.
    pub open spec fn wf(&self) -> bool {
        keys_unique(self@)
    }

    /// The schedules as a map from identifier to schedule.
    pub open spec fn as_map(&self) -> Map<Seq<char>, ScheduleView> {
        entries_map(self@)
    }

    /// A scheduler with no schedules.
    pub fn new() -> (s: Scheduler)
        ensures
            s.wf(),
            s@ == Seq::<(Seq<char>, ScheduleView)>::empty(),
    {
        Scheduler { schedules: IdMap::new() }
    }

    /// A scheduler holding the stored pairs of identifier and schedule; a
    /// later pair replaces an earlier one with the same identifier.
    pub fn load(pairs: Vec<(String, Schedule)>) -> (s: Scheduler)
        ensures
            s.wf(),
            s@ == entries_insert_all(pairs@.map_values(|p: (String, Schedule)| (p.0@, p.1@))),
    {
        Scheduler { schedules: IdMap::from_pairs(pairs) }
    }

    /// Stores `schedule` under a fresh random identifier that no stored
    /// schedule has, which also becomes the schedule's own `id`, and hands the
    /// identifier back. Every stored schedule is kept.
    pub fn insert(&mut self, schedule: Schedule) -> (id: String)
        requires
            old(self).wf(),
        ensures
            final(self).wf(),
            is_uuid_v4_text(id@),
            !has_key(old(self)@, id@),
            final(self)@ == entries_insert(old(self)@, id@, with_id(schedule@, id@)),
            final(self)@ == old(self)@.push((id@, with_id(schedule@, id@))),
    {
        let id = self.schedules.fresh_uuid_key();
        self.insert_with_id(id.clone(), schedule);
        id
    }

    /// Stores `schedule` under `id`, which also becomes the schedule's own `id`.
    pub fn insert_with_id(&mut self, id: String, schedule: Schedule)
        requires
            old(self).wf(),
        ensures
            final(self).wf(),
            final(self)@ == entries_insert(old(self)@, id@, with_id(schedule@, id@)),
    {
        let mut schedule = schedule;
        schedule.id = id.clone();
        proof {
            crate::id_map::lemma_insert_keeps_unique(self@, id@, schedule@);
        }
        self.schedules.insert(id, schedule);
    }

    /// Replaces the schedule stored under `id` by `schedule`, as it is; does
    /// nothing when no schedule has that identifier.
    pub fn update(&mut self, id: &str, schedule: Schedule)
        requires
            old(self).wf(),
        ensures
            final(self).wf(),
            final(self)@ == if has_key(old(self)@, id@) {
                entries_insert(old(self)@, id@, schedule@)
            } else {
                old(self)@
            },
    {
        if self.schedules.contains_key(id) {
            self.schedules.insert(id.to_owned(), schedule);
        }
    }

    /// Whether a schedule is stored under `id`.
    pub fn contains(&self, id: &str) -> (r: bool)
        requires
            self.wf(),
        ensures
            r == has_key(self@, id@),
    {
        self.schedules.contains_key(id)
    }

    /// Drops the schedule stored under `id`, if any.
    pub fn remove(&mut self, id: &str)
        requires
            old(self).wf(),
        ensures
            final(self).wf(),
            final(self)@ == entries_remove(old(self)@, id@),
    {
        let _ = self.schedules.remove(id);
    }

    /// Copies of the schedules of `owner`, in entry order.
    pub fn list_owner(&self, owner: &str) -> (r: Vec<Schedule>)
        ensures
            r@.map_values(|s: Schedule| s@) == owned_by(entry_values(self@), owner@),
    {
        let ghost vals = entry_values(self@);
        let o = owner.to_owned();
        let mut r: Vec<Schedule> = Vec::new();
        let mut i: usize = 0;
        while i < self.schedules.len()
            invariant
                i <= self@.len(),
                o@ == owner@,
                vals == entry_values(self@),
                r@.map_values(|s: Schedule| s@) =~= owned_by(vals.take(i as int), owner@),
            decreases self@.len() - i,
        {
            let (_, s) = self.schedules.entry_at(i);
            assert(vals.take(i + 1).drop_last() =~= vals.take(i as int));
            assert(vals.take(i + 1).last() == s@);
            if s.owner == o {
                r.push(s.duplicate());
            }
            i = i + 1;
        }
        assert(vals.take(i as int) =~= vals);
        r
    }

    /// Copies of all pairs of identifier and schedule, in entry order.
    pub fn entries(&self) -> (r: Vec<(String, Schedule)>)
        ensures
            r@.map_values(|p: (String, Schedule)| (p.0@, p.1@)) == self@,
    {
        self.schedules.pairs()
    }

    /// Copies of all schedules, in entry order.
    pub fn list_all(&self) -> (r: Vec<Schedule>)
        ensures
            r@.map_values(|s: Schedule| s@) == entry_values(self@),
    {
        self.schedules.values()
    }

    /// The decisions of a check made at `now`, a `weekday`: which device
    /// actions to perform and which schedules to drop.
    pub fn plan_check_on(&self, now: &DateTime, weekday: Weekday) -> (plan: CheckPlan)
        ensures
            plan.executions@.map_values(|e: Execution| e@) == planned_executions(self@, *now, weekday),
            plan.removals@.map_values(|s: String| s@) == planned_removals(self@, *now),
    {
        let mut executions: Vec<Execution> = Vec::new();
        let mut removals: Vec<String> = Vec::new();
        let mut i: usize = 0;
        while i < self.schedules.len()
            invariant
                i <= self@.len(),
                executions@.map_values(|e: Execution| e@) =~= planned_executions(self@.take(i as int), *now, weekday),
                removals@.map_values(|s: String| s@) =~= planned_removals(self@.take(i as int), *now),
            decreases self@.len() - i,
        {
            let (id, s) = self.schedules.entry_at(i);
            assert(self@.take(i + 1).drop_last() =~= self@.take(i as int));
            assert(self@.take(i + 1).last() == self@[i as int]);
            if s.kind.runs_at(now, weekday) {
                executions.push(Execution { id: id.clone(), device: s.device.clone(), action: s.action });
            }
            if s.kind.expires_at(now) {
                removals.push(id.clone());
            }
            i = i + 1;
        }
        assert(self@.take(i as int) =~= self@);
        CheckPlan { executions, removals }
    }

    /// The decisions of a check made at `now` (UTC), on the day of the week of
    /// its date.
    pub fn plan_check(&self, now: &DateTime) -> (plan: CheckPlan)
        requires
            now.wf(),
        ensures
            ({
                let weekday_now = crate::calendar::weekday_from_index(
                    chrono_weekday_index(now.date.year as int, now.date.month as int, now.date.day as int),
                );
                &&& plan.executions@.map_values(|e: Execution| e@) == planned_executions(self@, *now, weekday_now)
                &&& plan.removals@.map_values(|s: String| s@) == planned_removals(self@, *now)
            }),
    {
        let weekday = chrono_weekday(&now.date);
        proof {
            crate::calendar::lemma_weekday_from_index(weekday);
        }
        self.plan_check_on(now, weekday)
    }

    /// Drops the schedules stored under each identifier of `ids`.
    pub fn remove_all(&mut self, ids: &Vec<String>)
        requires
            old(self).wf(),
        ensures
            final(self).wf(),
            final(self)@ == entries_remove_all(old(self)@, ids@.map_values(|s: String| s@)),
    {
        self.schedules.remove_all(ids);
    }
}


/// The line a check writes to the schedule log after it ran the schedule
/// stored under `id` at `now`.
pub open spec fn execution_log_text(now: DateTime, id: Seq<char>) -> Seq<char> {
    utc_text(now) + " executed "@ + id + "\n"@
}

/// The line a check writes to the schedule log after it ran the schedule
/// stored under `id` at `now` (UTC).
pub fn execution_log_line(now: &DateTime, id: &str) -> (line: String)
    requires
        now.wf(),
    ensures
        line@ == execution_log_text(*now, id@),
{
    let mut line = chrono_utc_text(now);
    line.append(" executed ");
    line.append(id);
    line.append("\n");
    line
}

/// Log lines of runs at one instant differ whenever the identifiers differ.
pub proof fn law_log_line_names_the_schedule(now: DateTime, id1: Seq<char>, id2: Seq<char>)
    ensures
        execution_log_text(now, id1) == execution_log_text(now, id2) ==> id1 == id2,
{
    if execution_log_text(now, id1) == execution_log_text(now, id2) {
        let p = utc_text(now) + " executed "@;
        let t1 = execution_log_text(now, id1);
        let t2 = execution_log_text(now, id2);
        assert(t1.len() == t2.len());
        assert(id1 =~= t1.subrange(p.len() as int, (p.len() + id1.len()) as int));
        assert(id2 =~= t2.subrange(p.len() as int, (p.len() + id2.len()) as int));
    }
}

/// A check drops exactly the schedules that have expired: an identifier is
/// among the planned removals if and only if an entry with that identifier
/// expires at `now`.
pub proof fn law_removals_are_the_expired(entries: Seq<(Seq<char>, ScheduleView)>, now: DateTime, k: Seq<char>)
    ensures
        planned_removals(entries, now).contains(k) <==> exists|i: int|
            0 <= i < entries.len() && #[trigger] entries[i].0 == k && expires_at(entries[i].1.kind, now),
    decreases entries.len(),
{
    if entries.len() > 0 {
        let prev = entries.drop_last();
        law_removals_are_the_expired(prev, now, k);
        let n = entries.len() - 1;
        if planned_removals(entries, now).contains(k) {
            let r = planned_removals(prev, now);
            if r.contains(k) {
                let i = choose|i: int| 0 <= i < prev.len() && #[trigger] prev[i].0 == k && expires_at(prev[i].1.kind, now);
                assert(entries[i] == prev[i]);
            } else {
                assert(entries[n].0 == k);
            }
        }
        if exists|i: int| 0 <= i < entries.len() && #[trigger] entries[i].0 == k && expires_at(entries[i].1.kind, now) {
            let i = choose|i: int| 0 <= i < entries.len() && #[trigger] entries[i].0 == k && expires_at(entries[i].1.kind, now);
            if i < n {
                assert(prev[i] == entries[i]);
                let r = planned_removals(prev, now);
                let j = choose|j: int| 0 <= j < r.len() && r[j] == k;
                if expires_at(entries.last().1.kind, now) {
                    assert(r.push(entries.last().0)[j] == k);
                }
            } else {
                let r = planned_removals(prev, now);
                assert(r.push(k)[r.len() as int] == k);
            }
        }
    }
}

/// A check performs exactly the actions of the schedules that run: an
/// action is planned if and only if some entry runs at `now` and the action
/// carries that entry's identifier, device and action.
pub proof fn law_executions_are_the_due(
    entries: Seq<(Seq<char>, ScheduleView)>,
    now: DateTime,
    weekday: Weekday,
    e: ExecutionView,
)
    ensures
        planned_executions(entries, now, weekday).contains(e) <==> exists|i: int|
            0 <= i < entries.len() && #[trigger] entries[i].0 == e.id && entries[i].1.device == e.device
                && entries[i].1.action == e.action && runs_at(entries[i].1.kind, now, weekday),
    decreases entries.len(),
{
    if entries.len() > 0 {
        let prev = entries.drop_last();
        law_executions_are_the_due(prev, now, weekday, e);
        let n = entries.len() - 1;
        let r = planned_executions(prev, now, weekday);
        let last = entries.last();
        let le = ExecutionView { id: last.0, device: last.1.device, action: last.1.action };
        if planned_executions(entries, now, weekday).contains(e) {
            if r.contains(e) {
                let i = choose|i: int|
                    0 <= i < prev.len() && #[trigger] prev[i].0 == e.id && prev[i].1.device == e.device
                        && prev[i].1.action == e.action && runs_at(prev[i].1.kind, now, weekday);
                assert(entries[i] == prev[i]);
            } else {
                let j = choose|j: int| 0 <= j < r.push(le).len() && r.push(le)[j] == e;
                assert(j == r.len());
                assert(entries[n].0 == e.id);
            }
        }
        if exists|i: int|
            0 <= i < entries.len() && #[trigger] entries[i].0 == e.id && entries[i].1.device == e.device
                && entries[i].1.action == e.action && runs_at(entries[i].1.kind, now, weekday) {
            let i = choose|i: int|
                0 <= i < entries.len() && #[trigger] entries[i].0 == e.id && entries[i].1.device == e.device
                    && entries[i].1.action == e.action && runs_at(entries[i].1.kind, now, weekday);
            if i < n {
                assert(prev[i] == entries[i]);
                let j = choose|j: int| 0 <= j < r.len() && r[j] == e;
                if runs_at(last.1.kind, now, weekday) {
                    assert(r.push(le)[j] == e);
                }
            } else {
                assert(le == e);
                assert(r.push(le)[r.len() as int] == e);
            }
        }
    }
}

/// A one-time schedule runs at exactly the check that drops it; a recurring
/// schedule never runs at a check that drops it.
pub proof fn law_run_and_drop(kind: ScheduleKindView, now: DateTime, weekday: Weekday)
    ensures
        kind is Once ==> (runs_at(kind, now, weekday) == expires_at(kind, now)),
        kind is Recurring ==> !(runs_at(kind, now, weekday) && expires_at(kind, now)),
{
}

/// A recurring schedule runs only at a check in the first half minute of
/// its own hour and minute, on one of its days, on a date it does not
/// exclude and not after its end date; and a check at that moment runs it.
pub proof fn law_recurring_runs_only_at_its_time(
    weekdays: Seq<Weekday>,
    time: TimeOfDay,
    end_date: Option<Date>,
    exclude_dates: Seq<Date>,
    now: DateTime,
    weekday: Weekday,
)
    ensures
        ({
            let kind = ScheduleKindView::Recurring { weekdays, time, end_date, exclude_dates };
            runs_at(kind, now, weekday) <==> {
                &&& now.time.hour == time.hour
                &&& now.time.minute == time.minute
                &&& now.time.second < 30
                &&& exists|i: int| 0 <= i < weekdays.len() && weekdays[i] == weekday
                &&& forall|i: int| 0 <= i < exclude_dates.len() ==> exclude_dates[i] != now.date
                &&& forall|end: Date| end_date == Some(end) ==> !date_before(end, now.date)
            }
        }),
{
}

/// On any one date a recurring schedule runs in at most one half-minute
/// window: two checks that both run it share the hour and the minute.
pub proof fn law_recurring_runs_once_a_day(
    kind: ScheduleKindView,
    now1: DateTime,
    weekday1: Weekday,
    now2: DateTime,
    weekday2: Weekday,
)
    requires
        kind is Recurring,
        now1.date == now2.date,
        runs_at(kind, now1, weekday1),
        runs_at(kind, now2, weekday2),
    ensures
        now1.time.hour == now2.time.hour,
        now1.time.minute == now2.time.minute,
        now1.time.second < 30,
        now2.time.second < 30,
{
}

/// A one-time schedule runs at every check at or after its instant and at
/// none before it.
pub proof fn law_once_runs_from_its_instant(datetime: DateTime, now: DateTime, weekday: Weekday)
    ensures
        runs_at(ScheduleKindView::Once { datetime }, now, weekday) <==> !datetime_before(now, datetime),
        datetime_before(now, datetime) ==> !expires_at(ScheduleKindView::Once { datetime }, now),
{
}

/// A one-time schedule is dropped at every check at or after its instant;
/// a recurring one exactly when the check's date is after its end date.
pub proof fn law_expires_exactly(kind: ScheduleKindView, now: DateTime)
    ensures
        kind matches ScheduleKindView::Once { datetime } ==> (expires_at(kind, now) <==> !datetime_before(now, datetime)),
        kind matches ScheduleKindView::Recurring { end_date, .. } ==> (expires_at(kind, now) <==> (
        end_date is Some && date_before(end_date->0, now.date))),
{
}

/// The planned removals are the identifiers of the expiring entries, in
/// entry order, each once.
pub proof fn law_removals_are_filtered(entries: Seq<(Seq<char>, ScheduleView)>, now: DateTime)
    ensures
        planned_removals(entries, now) == entries.filter(
            |e: (Seq<char>, ScheduleView)| expires_at(e.1.kind, now),
        ).map_values(|e: (Seq<char>, ScheduleView)| e.0),
    decreases entries.len(),
{
    reveal(Seq::filter);
    let pred = |e: (Seq<char>, ScheduleView)| expires_at(e.1.kind, now);
    let key = |e: (Seq<char>, ScheduleView)| e.0;
    if entries.len() > 0 {
        law_removals_are_filtered(entries.drop_last(), now);
        let f = entries.drop_last().filter(pred);
        if pred(entries.last()) {
            assert(f.push(entries.last()).map_values(key) =~= f.map_values(key).push(entries.last().0));
        }
    } else {
        assert(entries.filter(pred).map_values(key) =~= Seq::<Seq<char>>::empty());
    }
}

/// The planned actions are those of the running entries, in entry order,
/// each once, carrying the entry's identifier, device and action.
pub proof fn law_executions_are_filtered(entries: Seq<(Seq<char>, ScheduleView)>, now: DateTime, weekday: Weekday)
    ensures
        planned_executions(entries, now, weekday) == entries.filter(
            |e: (Seq<char>, ScheduleView)| runs_at(e.1.kind, now, weekday),
        ).map_values(
            |e: (Seq<char>, ScheduleView)| ExecutionView { id: e.0, device: e.1.device, action: e.1.action },
        ),
    decreases entries.len(),
{
    reveal(Seq::filter);
    let pred = |e: (Seq<char>, ScheduleView)| runs_at(e.1.kind, now, weekday);
    let ex = |e: (Seq<char>, ScheduleView)| ExecutionView { id: e.0, device: e.1.device, action: e.1.action };
    if entries.len() > 0 {
        law_executions_are_filtered(entries.drop_last(), now, weekday);
        let f = entries.drop_last().filter(pred);
        if pred(entries.last()) {
            assert(f.push(entries.last()).map_values(ex) =~= f.map_values(ex).push(ex(entries.last())));
        }
    } else {
        assert(entries.filter(pred).map_values(ex) =~= Seq::<ExecutionView>::empty());
    }
}

/// The schedules listed for an owner are the stored schedules with that
/// owner, in order, each once.
pub proof fn law_owner_listing_is_filtered(values: Seq<ScheduleView>, owner: Seq<char>)
    ensures
        owned_by(values, owner) == values.filter(|v: ScheduleView| v.owner == owner),
    decreases values.len(),
{
    reveal(Seq::filter);
    if values.len() > 0 {
        law_owner_listing_is_filtered(values.drop_last(), owner);
    }
}

/// An expired schedule stays expired: whatever expires at `now` expires at
/// every later instant too.
pub proof fn law_expiry_is_permanent(kind: ScheduleKindView, now: DateTime, later: DateTime)
    requires
        !datetime_before(later, now),
        expires_at(kind, now),
    ensures
        expires_at(kind, later),
{
}

/// Dropping what a check plans to drop leaves nothing for a second check at
/// the same instant to drop.
pub proof fn law_second_check_drops_nothing(entries: Seq<(Seq<char>, ScheduleView)>, now: DateTime)
    requires
        keys_unique(entries),
    ensures
        planned_removals(entries_remove_all(entries, planned_removals(entries, now)), now).len() == 0,
{
    let keys = planned_removals(entries, now);
    let rest = entries_remove_all(entries, keys);
    if planned_removals(rest, now).len() > 0 {
        let k = planned_removals(rest, now)[0];
        assert(planned_removals(rest, now).contains(k));
        law_removals_are_the_expired(rest, now, k);
        let i = choose|i: int| 0 <= i < rest.len() && #[trigger] rest[i].0 == k && expires_at(rest[i].1.kind, now);
        lemma_remove_all_entries(entries, keys, i);
        let j = choose|j: int| 0 <= j < entries.len() && entries[j] == rest[i];
        assert(entries[j].0 == k);
        law_removals_are_the_expired(entries, now, k);
        assert(keys.contains(k));
    }
}

/// A stored schedule is read back under its identifier, carrying that
/// identifier, and no other identifier changes.
pub proof fn law_insert_reads_back(entries: Seq<(Seq<char>, ScheduleView)>, id: Seq<char>, schedule: ScheduleView)
    requires
        keys_unique(entries),
    ensures
        entries_map(entries_insert(entries, id, with_id(schedule, id))) =~= entries_map(entries).insert(
            id,
            with_id(schedule, id),
        ),
        entries_map(entries_insert(entries, id, with_id(schedule, id)))[id].id == id,
        entries_map(entries_insert(entries, id, with_id(schedule, id)))[id].owner == schedule.owner,
        entries_map(entries_insert(entries, id, with_id(schedule, id)))[id].device == schedule.device,
        entries_map(entries_insert(entries, id, with_id(schedule, id)))[id].action == schedule.action,
        entries_map(entries_insert(entries, id, with_id(schedule, id)))[id].kind == schedule.kind,
{
    crate::id_map::lemma_insert_map(entries, id, with_id(schedule, id));
}

/// A removed schedule is gone and no other identifier changes.
pub proof fn law_remove_forgets(entries: Seq<(Seq<char>, ScheduleView)>, id: Seq<char>)
    requires
        keys_unique(entries),
    ensures
        entries_map(entries_remove(entries, id)) =~= entries_map(entries).remove(id),
{
    crate::id_map::lemma_remove_map(entries, id);
}

/// The schedules listed for an owner are exactly the schedules with that owner.
pub proof fn law_owner_listing(values: Seq<ScheduleView>, owner: Seq<char>, v: ScheduleView)
    ensures
        owned_by(values, owner).contains(v) <==> (values.contains(v) && v.owner == owner),
    decreases values.len(),
{
    if values.len() > 0 {
        let prev = values.drop_last();
        law_owner_listing(prev, owner, v);
        let r = owned_by(prev, owner);
        if owned_by(values, owner).contains(v) {
            if r.contains(v) {
                let i = choose|i: int| 0 <= i < prev.len() && prev[i] == v;
                assert(values[i] == v);
            } else {
                assert(values[values.len() - 1] == v);
            }
        }
        if values.contains(v) && v.owner == owner {
            let i = choose|i: int| 0 <= i < values.len() && values[i] == v;
            if i < values.len() - 1 {
                assert(prev[i] == v);
                let j = choose|j: int| 0 <= j < r.len() && r[j] == v;
                if values.last().owner == owner {
                    assert(r.push(values.last())[j] == v);
                }
            } else {
                assert(r.push(v)[r.len() as int] == v);
            }
        }
    }
}

} // verus!

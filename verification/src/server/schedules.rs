//! The schedules of the HTTP server: a store of schedules by identifier,
//! partial updates, and the rule that picks the schedules due at a minute of
//! local time. Times, dates and days are compared as the text the server
//! writes for them (`07:05`, `2024-03-09`, `Sat`).

use vstd::prelude::*;

use crate::calendar::{
    chrono_rfc3339_text, rfc3339_text, MAX_YEAR, MIN_YEAR, chrono_date_text, chrono_hour_minute_text, chrono_weekday, chrono_weekday_abbrev,
    chrono_weekday_index, date_text, hour_minute_text, lemma_weekday_from_index,
    weekday_abbrev_text, weekday_from_index, DateTime, TimeOfDay,
};
use crate::id_map::{
    entries_insert, entries_insert_all, entries_map, entries_remove, entry_values, has_key,
    keys_unique, lemma_key_position, value_of, Duplicate, IdMap,
};
use crate::scheduler::Action;
use crate::text::{
    std_uppercase, uppercase_text, is_uuid_v4_text, list_contains_text, new_uuid_v4_text, text_before, text_eq, text_is_before,
};

verus! {

/// Whether a schedule fires on one date or on days of the week.
#[derive(Clone, Copy, PartialEq, Eq, Structural, Debug)]
pub enum ScheduleType {
    Single,
    Recurring,
}

/// A schedule of the HTTP server. A single schedule fires on the date held
/// in `end_date`; a recurring one on `days_of_week` until `end_date`.
#[derive(Clone, Debug)]
pub struct Schedule {
    pub id: String,
    pub device_id: String,
    pub action: String,
    pub schedule_type: ScheduleType,
    pub time: String,
    pub days_of_week: Vec<String>,
    pub exclude_dates: Vec<String>,
    pub end_date: Option<String>,
    pub owner: String,
}

/// The model of a `Schedule`.
pub struct ScheduleView {
    pub id: Seq<char>,
    pub device_id: Seq<char>,
    pub action: Seq<char>,
    pub schedule_type: ScheduleType,
    pub time: Seq<char>,
    pub days_of_week: Seq<Seq<char>>,
    pub exclude_dates: Seq<Seq<char>>,
    pub end_date: Option<Seq<char>>,
    pub owner: Seq<char>,
}

/// The texts of a list of `String`s.
pub open spec fn texts(v: Seq<String>) -> Seq<Seq<char>> {
    v.map_values(|s: String| s@)
}

/// The text of an optional `String`.
pub open spec fn opt_text(o: Option<String>) -> Option<Seq<char>> {
    match o {
        Some(s) => Some(s@),
        None => None,
    }
}

impl View for Schedule {
    type V = ScheduleView;

    open spec fn view(&self) -> ScheduleView {
        ScheduleView {
            id: self.id@,
            device_id: self.device_id@,
            action: self.action@,
            schedule_type: self.schedule_type,
            time: self.time@,
            days_of_week: texts(self.days_of_week@),
            exclude_dates: texts(self.exclude_dates@),
            end_date: opt_text(self.end_date),
            owner: self.owner@,
        }
    }
}

fn copy_texts(v: &Vec<String>) -> (r: Vec<String>)
    ensures
        texts(r@) == texts(v@),
{
    let mut r: Vec<String> = Vec::new();
    let mut i: usize = 0;
    while i < v.len()
        invariant
            i <= v@.len(),
            texts(r@) =~= texts(v@).take(i as int),
        decreases v@.len() - i,
    {
        r.push(v[i].clone());
        assert(texts(v@).take(i + 1) =~= texts(v@).take(i as int).push(v@[i as int]@));
        i = i + 1;
    }
    assert(texts(v@).take(i as int) =~= texts(v@));
    r
}

fn copy_opt_text(o: &Option<String>) -> (r: Option<String>)
    ensures
        opt_text(r) == opt_text(*o),
{
    match o {
        Some(s) => Some(s.clone()),
        None => None,
    }
}

impl Duplicate for Schedule {
    fn duplicate(&self) -> (r: Self) {
        Schedule {
            id: self.id.clone(),
            device_id: self.device_id.clone(),
            action: self.action.clone(),
            schedule_type: self.schedule_type,
            time: self.time.clone(),
            days_of_week: copy_texts(&self.days_of_week),
            exclude_dates: copy_texts(&self.exclude_dates),
            end_date: copy_opt_text(&self.end_date),
            owner: self.owner.clone(),
        }
    }
}

/// The owner that the server gives to the schedules it creates.
pub open spec fn default_owner_text() -> Seq<char> {
    "admin@yourdomain.com"@
}

/// The owner that the server gives to the schedules it creates.
pub fn default_owner() -> (s: String)
    ensures
        s@ == default_owner_text(),
{
    "admin@yourdomain.com".to_owned()
}

impl Schedule {
    /// A single schedule for `device_id` at `time` (hour and minute), under a
    /// fresh random identifier, with no date and the server's default owner.
    pub fn new_single(device_id: String, action: String, time: TimeOfDay) -> (s: Schedule)
        requires
            time.wf(),
        ensures
            is_uuid_v4_text(s.id@),
            s@ == single_schedule(s.id@, device_id@, action@, hour_minute_text(time)),
            s.device_id@ == device_id@,
            s.action@ == action@,
            s.schedule_type == ScheduleType::Single,
            s.time@ == hour_minute_text(time),
            s.days_of_week@.len() == 0,
            s.exclude_dates@.len() == 0,
            s.end_date is None,
            s.owner@ == default_owner_text(),
    {
        let id = new_uuid_v4_text();
        Schedule::new_single_with_id(id, device_id, action, time)
    }

    /// A single schedule with identifier `id` for `device_id` at `time`, with
    /// no date and the server's default owner.
    pub fn new_single_with_id(id: String, device_id: String, action: String, time: TimeOfDay) -> (s:
        Schedule)
        requires
            time.wf(),
        ensures
            s@ == single_schedule(id@, device_id@, action@, hour_minute_text(time)),
            s.id@ == id@,
            s.device_id@ == device_id@,
            s.action@ == action@,
            s.schedule_type == ScheduleType::Single,
            s.time@ == hour_minute_text(time),
            s.days_of_week@.len() == 0,
            s.exclude_dates@.len() == 0,
            s.end_date is None,
            s.owner@ == default_owner_text(),
    {
        let s = Schedule {
            id,
            device_id,
            action,
            schedule_type: ScheduleType::Single,
            time: chrono_hour_minute_text(&time),
            days_of_week: Vec::new(),
            exclude_dates: Vec::new(),
            end_date: None,
            owner: default_owner(),
        };
        assert(texts(s.days_of_week@) =~= Seq::<Seq<char>>::empty());
        assert(texts(s.exclude_dates@) =~= Seq::<Seq<char>>::empty());
        s
    }
}

/// The single schedule that `new_single` makes.
pub open spec fn single_schedule(
    id: Seq<char>,
    device_id: Seq<char>,
    action: Seq<char>,
    time: Seq<char>,
) -> ScheduleView {
    ScheduleView {
        id,
        device_id,
        action,
        schedule_type: ScheduleType::Single,
        time,
        days_of_week: Seq::empty(),
        exclude_dates: Seq::empty(),
        end_date: None,
        owner: default_owner_text(),
    }
}

/// A partial change of a schedule: each field that is present replaces the
/// schedule's field.
#[derive(Clone, Debug)]
pub struct ScheduleUpdate {
    pub time: Option<String>,
    pub days_of_week: Option<Vec<String>>,
    pub exclude_dates: Option<Vec<String>>,
    pub end_date: Option<String>,
    pub action: Option<String>,
}

/// The model of a `ScheduleUpdate`.
pub struct ScheduleUpdateView {
    pub time: Option<Seq<char>>,
    pub days_of_week: Option<Seq<Seq<char>>>,
    pub exclude_dates: Option<Seq<Seq<char>>>,
    pub end_date: Option<Seq<char>>,
    pub action: Option<Seq<char>>,
}

/// The texts of an optional list of `String`s.
pub open spec fn opt_texts(o: Option<Vec<String>>) -> Option<Seq<Seq<char>>> {
    match o {
        Some(v) => Some(texts(v@)),
        None => None,
    }
}

impl View for ScheduleUpdate {
    type V = ScheduleUpdateView;

    open spec fn view(&self) -> ScheduleUpdateView {
        ScheduleUpdateView {
            time: opt_text(self.time),
            days_of_week: opt_texts(self.days_of_week),
            exclude_dates: opt_texts(self.exclude_dates),
            end_date: opt_text(self.end_date),
            action: opt_text(self.action),
        }
    }
}

/// A present value, or else the current one.
pub open spec fn or_keep<T>(new: Option<T>, current: T) -> T {
    match new {
        Some(v) => v,
        None => current,
    }
}

/// The schedule `s` after the partial change `u`.
pub open spec fn apply_update(s: ScheduleView, u: ScheduleUpdateView) -> ScheduleView {
    ScheduleView {
        time: or_keep(u.time, s.time),
        days_of_week: or_keep(u.days_of_week, s.days_of_week),
        exclude_dates: or_keep(u.exclude_dates, s.exclude_dates),
        end_date: match u.end_date {
            Some(e) => Some(e),
            None => s.end_date,
        },
        action: or_keep(u.action, s.action),
        ..s
    }
}

/// Why the store refused a request.
#[derive(Clone, Copy, PartialEq, Eq, Structural, Debug)]
pub enum StoreError {
    /// No schedule has the identifier.
    NotFound,
}

impl StoreError {
    /// The text that describes the error.
    pub fn message(&self) -> (s: String)
        ensures
            s@ == "schedule not found"@,
    {
        match self {
            StoreError::NotFound => "schedule not found".to_owned(),
        }
    }
}

/// The schedule runs at the minute written `time`, on the date written
/// `date`, a day written `weekday`.
pub open spec fn is_due(s: ScheduleView, time: Seq<char>, date: Seq<char>, weekday: Seq<char>) -> bool {
    &&& s.time == time
    &&& !s.exclude_dates.contains(date)
    &&& match s.schedule_type {
        ScheduleType::Single => date == or_keep(s.end_date, Seq::<char>::empty()),
        ScheduleType::Recurring => {
            &&& s.days_of_week.contains(weekday)
            &&& !(s.end_date matches Some(end) && text_before(end, date))
        },
    }
}

/// The schedules among `values` that are due, in order.
pub open spec fn due_list(values: Seq<ScheduleView>, time: Seq<char>, date: Seq<char>, weekday: Seq<char>) -> Seq<
    ScheduleView,
>
    decreases values.len(),
{
    if values.len() == 0 {
        Seq::empty()
    } else {
        let prev = due_list(values.drop_last(), time, date, weekday);
        if is_due(values.last(), time, date, weekday) {
            prev.push(values.last())
        } else {
            prev
        }
    }
}

/// The device command that an action text names: `on` or `off`.
pub open spec fn command_of(action: Seq<char>) -> Option<Action> {
    if action == seq!['o', 'n'] {
        Some(Action::On)
    } else if action == seq!['o', 'f', 'f'] {
        Some(Action::Off)
    } else {
        None
    }
}

/// The action text `on` and only it names the command to switch on; `off`
/// and only it names the command to switch off.
pub proof fn law_command_texts(action: Seq<char>)
    ensures
        command_of(action) == Some(Action::On) <==> action == "on"@,
        command_of(action) == Some(Action::Off) <==> action == "off"@,
        command_of(action) is None <==> (action != "on"@ && action != "off"@),
{
    reveal_strlit("on");
    reveal_strlit("off");
    assert("on"@ =~= seq!['o', 'n']);
    assert("off"@ =~= seq!['o', 'f', 'f']);
}

/// The device command of a schedule's action text, if it names one.
pub fn action_command(action: &str) -> (r: Option<Action>)
    ensures
        r == command_of(action@),
{
    proof {
        reveal_strlit("on");
        reveal_strlit("off");
        assert("on"@ =~= seq!['o', 'n']);
        assert("off"@ =~= seq!['o', 'f', 'f']);
    }
    if text_eq(action, "on") {
        Some(Action::On)
    } else if text_eq(action, "off") {
        Some(Action::Off)
    } else {
        None
    }
}

impl Schedule {
    /// Whether the schedule runs at the minute written `time`, on the date
    /// written `date`, a day written `weekday`.
    pub fn is_due(&self, time: &str, date: &str, weekday: &str) -> (r: bool)
        ensures
            r == is_due(self@, time@, date@, weekday@),
    {
        if !text_eq(self.time.as_str(), time) {
            return false;
        }
        let excluded = list_contains_text(&self.exclude_dates, date);
        proof {
            if excluded {
                let i = choose|i: int| 0 <= i < self.exclude_dates@.len() && #[trigger] self.exclude_dates@[i]@ == date@;
                assert(texts(self.exclude_dates@)[i] == date@);
            } else {
                assert forall|i: int| 0 <= i < texts(self.exclude_dates@).len() implies #[trigger] texts(self.exclude_dates@)[i] != date@ by {
                    assert(texts(self.exclude_dates@)[i] == self.exclude_dates@[i]@);
                }
            }
        }
        if excluded {
            return false;
        }
        match self.schedule_type {
            ScheduleType::Single => {
                match &self.end_date {
                    Some(end) => text_eq(date, end.as_str()),
                    None => {
                        proof {
                            reveal_strlit("");
                            assert(""@ =~= Seq::<char>::empty());
                        }
                        text_eq(date, "")
                    },
                }
            },
            ScheduleType::Recurring => {
                let listed = list_contains_text(&self.days_of_week, weekday);
                proof {
                    if listed {
                        let i = choose|i: int| 0 <= i < self.days_of_week@.len() && #[trigger] self.days_of_week@[i]@ == weekday@;
                        assert(texts(self.days_of_week@)[i] == weekday@);
                    } else {
                        assert forall|i: int| 0 <= i < texts(self.days_of_week@).len() implies #[trigger] texts(self.days_of_week@)[i] != weekday@ by {
                            assert(texts(self.days_of_week@)[i] == self.days_of_week@[i]@);
                        }
                    }
                }
                if !listed {
                    return false;
                }
                match &self.end_date {
                    Some(end) => !text_is_before(end.as_str(), date),
                    None => true,
                }
            },
        }
    }
}


/// The schedules of the server, by identifier.
pub struct ScheduleStore {
    schedules: IdMap<Schedule>,
}

impl View for ScheduleStore {
    type V = Seq<(Seq<char>, ScheduleView)>;

    closed spec fn view(&self) -> Seq<(Seq<char>, ScheduleView)> {
        self.schedules@
    }
}

impl ScheduleStore {
    /// No identifier occurs twice.
    pub open spec fn wf(&self) -> bool {
        keys_unique(self@)
    }

    /// The schedules as a map from identifier to schedule.
    pub open spec fn as_map(&self) -> Map<Seq<char>, ScheduleView> {
        entries_map(self@)
    }

    /// A store with no schedules.
    pub fn new() -> (s: ScheduleStore)
        ensures
            s.wf(),
            s@ == Seq::<(Seq<char>, ScheduleView)>::empty(),
    {
        ScheduleStore { schedules: IdMap::new() }
    }

    /// A store holding the stored pairs of identifier and schedule; a later
    /// pair replaces an earlier one with the same identifier.
    pub fn load(pairs: Vec<(String, Schedule)>) -> (s: ScheduleStore)
        ensures
            s.wf(),
            s@ == entries_insert_all(pairs@.map_values(|p: (String, Schedule)| (p.0@, p.1@))),
    {
        ScheduleStore { schedules: IdMap::from_pairs(pairs) }
    }

    /// Stores `schedule` under its own identifier and hands that identifier back.
    pub fn insert(&mut self, schedule: Schedule) -> (id: String)
        requires
            old(self).wf(),
        ensures
            final(self).wf(),
            id@ == schedule@.id,
            final(self)@ == entries_insert(old(self)@, schedule@.id, schedule@),
    {
        let id = schedule.id.clone();
        self.schedules.insert(id.clone(), schedule);
        id
    }

    /// Applies the partial change `partial` to the schedule stored under
    /// `id`; refuses with `NotFound`, changing nothing, when there is none.
    pub fn update(&mut self, id: &str, partial: ScheduleUpdate) -> (r: Result<(), StoreError>)
        requires
            old(self).wf(),
        ensures
            final(self).wf(),
            r is Err <==> !has_key(old(self)@, id@),
            r matches Err(e) ==> e == StoreError::NotFound && final(self)@ == old(self)@,
            r is Ok ==> final(self)@ == entries_insert(
                old(self)@,
                id@,
                apply_update(value_of(old(self)@, id@), partial@),
            ),
            r is Ok ==> has_key(final(self)@, id@),
            r is Ok ==> (partial@.time matches Some(t) ==> value_of(final(self)@, id@).time == t),
            r is Ok ==> (partial@.days_of_week matches Some(d) ==> value_of(final(self)@, id@).days_of_week == d),
            r is Ok ==> (partial@.exclude_dates matches Some(x) ==> value_of(final(self)@, id@).exclude_dates == x),
            r is Ok ==> (partial@.end_date matches Some(e) ==> value_of(final(self)@, id@).end_date == Some(e)),
            r is Ok ==> (partial@.action matches Some(a) ==> value_of(final(self)@, id@).action == a),
            r is Ok ==> value_of(final(self)@, id@).id == value_of(old(self)@, id@).id,
            r is Ok ==> value_of(final(self)@, id@).device_id == value_of(old(self)@, id@).device_id,
            r is Ok ==> value_of(final(self)@, id@).owner == value_of(old(self)@, id@).owner,
    {
        match self.schedules.position(id) {
            None => Err(StoreError::NotFound),
            Some(i) => {
                let (_, current) = self.schedules.entry_at(i);
                let mut s = current.duplicate();
                let ScheduleUpdate { time, days_of_week, exclude_dates, end_date, action } = partial;
                if let Some(t) = time {
                    s.time = t;
                }
                if let Some(days) = days_of_week {
                    s.days_of_week = days;
                }
                if let Some(exclude) = exclude_dates {
                    s.exclude_dates = exclude;
                }
                if let Some(e) = end_date {
                    s.end_date = Some(e);
                }
                if let Some(a) = action {
                    s.action = a;
                }
                proof {
                    lemma_key_position(self@, i as int);
                }
                self.schedules.set_value_at(i, s);
                proof {
                    lemma_key_position(self@, i as int);
                }
                Ok(())
            },
        }
    }

    /// Drops the schedule stored under `id`, if any.
    pub fn delete(&mut self, id: &str)
        requires
            old(self).wf(),
        ensures
            final(self).wf(),
            final(self)@ == entries_remove(old(self)@, id@),
    {
        let _ = self.schedules.remove(id);
    }

    /// Copies of all pairs of identifier and schedule, in entry order.
    pub fn entries(&self) -> (r: Vec<(String, Schedule)>)
        ensures
            r@.map_values(|p: (String, Schedule)| (p.0@, p.1@)) == self@,
    {
        self.schedules.pairs()
    }

    /// Copies of all schedules, in entry order.
    pub fn values(&self) -> (r: Vec<Schedule>)
        ensures
            r@.map_values(|s: Schedule| s@) == entry_values(self@),
    {
        self.schedules.values()
    }

    /// Copies of the schedules due at the minute written `time`, on the date
    /// written `date`, a day written `weekday`, in entry order.
    pub fn due_at(&self, time: &str, date: &str, weekday: &str) -> (r: Vec<Schedule>)
        ensures
            r@.map_values(|s: Schedule| s@) == due_list(entry_values(self@), time@, date@, weekday@),
    {
        let ghost vals = entry_values(self@);
        let mut r: Vec<Schedule> = Vec::new();
        let mut i: usize = 0;
        while i < self.schedules.len()
            invariant
                i <= self@.len(),
                vals == entry_values(self@),
                r@.map_values(|s: Schedule| s@) =~= due_list(vals.take(i as int), time@, date@, weekday@),
            decreases self@.len() - i,
        {
            let (_, s) = self.schedules.entry_at(i);
            assert(vals.take(i + 1).drop_last() =~= vals.take(i as int));
            assert(vals.take(i + 1).last() == s@);
            if s.is_due(time, date, weekday) {
                r.push(s.duplicate());
            }
            i = i + 1;
        }
        assert(vals.take(i as int) =~= vals);
        r
    }

    /// Copies of the schedules due at the local date and time `now`, in entry
    /// order: `now` is written as the server writes its clock, hour:minute,
    /// year-month-day and the three-letter day of the week.
    pub fn due_schedules(&self, now: &DateTime) -> (r: Vec<Schedule>)
        requires
            now.wf(),
        ensures
            r@.map_values(|s: Schedule| s@) == due_list(
                entry_values(self@),
                hour_minute_text(now.time),
                date_text(now.date),
                weekday_abbrev_text(
                    weekday_from_index(
                        chrono_weekday_index(now.date.year as int, now.date.month as int, now.date.day as int),
                    ),
                ),
            ),
    {
        let time = chrono_hour_minute_text(&now.time);
        let date = chrono_date_text(&now.date);
        let weekday = chrono_weekday(&now.date);
        proof {
            lemma_weekday_from_index(weekday);
        }
        let day = chrono_weekday_abbrev(weekday);
        self.due_at(time.as_str(), date.as_str(), day.as_str())
    }
}


impl Default for ScheduleStore {
    /// A store with no schedules.
    fn default() -> (s: Self)
        ensures
            s.wf(),
            s@ == Seq::<(Seq<char>, ScheduleView)>::empty(),
    {
        ScheduleStore::new()
    }
}

/// The line the server writes to the schedule log when a schedule comes due
/// at the local time `now`, `offset_seconds` east of UTC.
pub open spec fn execution_log_text(now: DateTime, offset_seconds: int, s: ScheduleView) -> Seq<char> {
    "["@ + rfc3339_text(now, offset_seconds) + "] 예약 실행: ID="@ + s.id + " 디바이스="@ + s.device_id
        + " 동작="@ + std_uppercase(s.action) + "\n"@
}

/// The line the server writes to the schedule log when `schedule` comes due
/// at the local time `now`, `offset_seconds` east of UTC.
pub fn execution_log_line(now: &DateTime, offset_seconds: i32, schedule: &Schedule) -> (line: String)
    requires
        now.wf(),
        MIN_YEAR < now.date.year < MAX_YEAR,
        -86400 < offset_seconds < 86400,
    ensures
        line@ == execution_log_text(*now, offset_seconds as int, schedule@),
{
    let mut line = "[".to_owned();
    let stamp = chrono_rfc3339_text(now, offset_seconds);
    line.append(stamp.as_str());
    line.append("] 예약 실행: ID=");
    line.append(schedule.id.as_str());
    line.append(" 디바이스=");
    line.append(schedule.device_id.as_str());
    line.append(" 동작=");
    let upper = uppercase_text(schedule.action.as_str());
    line.append(upper.as_str());
    line.append("\n");
    line
}

/// A single schedule keeps the identifier, device and action it was made
/// with, fires at the given minute, and starts with no days, no exclusions,
/// no date and the server's default owner.
pub proof fn law_single_schedule_fields(id: Seq<char>, device_id: Seq<char>, action: Seq<char>, time: Seq<char>)
    ensures
        single_schedule(id, device_id, action, time).id == id,
        single_schedule(id, device_id, action, time).device_id == device_id,
        single_schedule(id, device_id, action, time).action == action,
        single_schedule(id, device_id, action, time).time == time,
        single_schedule(id, device_id, action, time).schedule_type == ScheduleType::Single,
        single_schedule(id, device_id, action, time).days_of_week.len() == 0,
        single_schedule(id, device_id, action, time).exclude_dates.len() == 0,
        single_schedule(id, device_id, action, time).end_date is None,
        single_schedule(id, device_id, action, time).owner == "admin@yourdomain.com"@,
{
}

/// Each field present in a partial change replaces the schedule's field, and
/// each absent one leaves it as it was.
pub proof fn law_update_replaces_present_fields(s: ScheduleView, u: ScheduleUpdateView)
    ensures
        u.time matches Some(t) ==> apply_update(s, u).time == t,
        u.time is None ==> apply_update(s, u).time == s.time,
        u.days_of_week matches Some(d) ==> apply_update(s, u).days_of_week == d,
        u.days_of_week is None ==> apply_update(s, u).days_of_week == s.days_of_week,
        u.exclude_dates matches Some(x) ==> apply_update(s, u).exclude_dates == x,
        u.exclude_dates is None ==> apply_update(s, u).exclude_dates == s.exclude_dates,
        u.end_date matches Some(e) ==> apply_update(s, u).end_date == Some(e),
        u.end_date is None ==> apply_update(s, u).end_date == s.end_date,
        u.action matches Some(a) ==> apply_update(s, u).action == a,
        u.action is None ==> apply_update(s, u).action == s.action,
{
}

/// A schedule is due exactly when it is set for that minute, the date is
/// not excluded, and: for a single schedule the date is its own (or empty
/// when it has none); for a recurring one the day is one of its days and the
/// date does not come after its end date.
pub proof fn law_is_due_exactly(s: ScheduleView, time: Seq<char>, date: Seq<char>, weekday: Seq<char>)
    ensures
        is_due(s, time, date, weekday) <==> {
            &&& s.time == time
            &&& forall|i: int| 0 <= i < s.exclude_dates.len() ==> s.exclude_dates[i] != date
            &&& (s.schedule_type == ScheduleType::Single ==> (match s.end_date {
                Some(e) => date == e,
                None => date.len() == 0,
            }))
            &&& (s.schedule_type == ScheduleType::Recurring ==> {
                &&& exists|i: int| 0 <= i < s.days_of_week.len() && s.days_of_week[i] == weekday
                &&& forall|e: Seq<char>| s.end_date == Some(e) ==> !text_before(e, date)
            })
        },
{
    if s.schedule_type == ScheduleType::Single && s.end_date is None {
        if date.len() == 0 {
            assert(date =~= Seq::<char>::empty());
        }
    }
}

/// The schedules picked at a minute are the due stored schedules, in order,
/// each once.
pub proof fn law_due_list_is_filtered(values: Seq<ScheduleView>, time: Seq<char>, date: Seq<char>, weekday: Seq<char>)
    ensures
        due_list(values, time, date, weekday) == values.filter(|v: ScheduleView| is_due(v, time, date, weekday)),
    decreases values.len(),
{
    reveal(Seq::filter);
    if values.len() > 0 {
        law_due_list_is_filtered(values.drop_last(), time, date, weekday);
    }
}

/// Log lines of schedules for the same device and action at one instant
/// differ whenever the schedules' identifiers differ.
pub proof fn law_log_line_names_the_schedule(now: DateTime, offset_seconds: int, s1: ScheduleView, s2: ScheduleView)
    requires
        s1.device_id == s2.device_id,
        s1.action == s2.action,
    ensures
        execution_log_text(now, offset_seconds, s1) == execution_log_text(now, offset_seconds, s2)
            ==> s1.id == s2.id,
{
    if execution_log_text(now, offset_seconds, s1) == execution_log_text(now, offset_seconds, s2) {
        let p = "["@ + rfc3339_text(now, offset_seconds) + "] 예약 실행: ID="@;
        let t1 = execution_log_text(now, offset_seconds, s1);
        let t2 = execution_log_text(now, offset_seconds, s2);
        assert(t1.len() == t2.len());
        assert(s1.id =~= t1.subrange(p.len() as int, (p.len() + s1.id.len()) as int));
        assert(s2.id =~= t2.subrange(p.len() as int, (p.len() + s2.id.len()) as int));
    }
}

/// A partial change never touches the identifier, the device, the kind or
/// the owner of a schedule; with no field present it changes nothing; and
/// applying it twice is the same as applying it once.
pub proof fn law_update_fields(s: ScheduleView, u: ScheduleUpdateView)
    ensures
        apply_update(s, u).id == s.id,
        apply_update(s, u).device_id == s.device_id,
        apply_update(s, u).schedule_type == s.schedule_type,
        apply_update(s, u).owner == s.owner,
        apply_update(apply_update(s, u), u) == apply_update(s, u),
        (u.time is None && u.days_of_week is None && u.exclude_dates is None && u.end_date is None
            && u.action is None) ==> apply_update(s, u) == s,
{
}

/// Updating the schedule under `id` changes what is stored under `id` and
/// nothing else.
pub proof fn law_update_changes_only_its_schedule(
    entries: Seq<(Seq<char>, ScheduleView)>,
    id: Seq<char>,
    u: ScheduleUpdateView,
)
    requires
        keys_unique(entries),
        has_key(entries, id),
    ensures
        entries_map(entries_insert(entries, id, apply_update(value_of(entries, id), u)))
            =~= entries_map(entries).insert(id, apply_update(entries_map(entries)[id], u)),
{
    crate::id_map::lemma_insert_map(entries, id, apply_update(value_of(entries, id), u));
}

/// A stored schedule is read back under its own identifier, and no other
/// identifier changes.
pub proof fn law_insert_reads_back(entries: Seq<(Seq<char>, ScheduleView)>, schedule: ScheduleView)
    requires
        keys_unique(entries),
    ensures
        entries_map(entries_insert(entries, schedule.id, schedule)) =~= entries_map(entries).insert(
            schedule.id,
            schedule,
        ),
{
    crate::id_map::lemma_insert_map(entries, schedule.id, schedule);
}

/// A deleted schedule is gone and no other identifier changes.
pub proof fn law_delete_forgets(entries: Seq<(Seq<char>, ScheduleView)>, id: Seq<char>)
    requires
        keys_unique(entries),
    ensures
        entries_map(entries_remove(entries, id)) =~= entries_map(entries).remove(id),
{
    crate::id_map::lemma_remove_map(entries, id);
}

/// The schedules picked at a minute are exactly the stored schedules that
/// are due then.
pub proof fn law_due_list_is_the_due(
    values: Seq<ScheduleView>,
    time: Seq<char>,
    date: Seq<char>,
    weekday: Seq<char>,
    v: ScheduleView,
)
    ensures
        due_list(values, time, date, weekday).contains(v) <==> (values.contains(v) && is_due(
            v,
            time,
            date,
            weekday,
        )),
    decreases values.len(),
{
    if values.len() > 0 {
        let prev = values.drop_last();
        law_due_list_is_the_due(prev, time, date, weekday, v);
        let r = due_list(prev, time, date, weekday);
        if due_list(values, time, date, weekday).contains(v) {
            if r.contains(v) {
                let i = choose|i: int| 0 <= i < prev.len() && prev[i] == v;
                assert(values[i] == v);
            } else {
                assert(values[values.len() - 1] == v);
            }
        }
        if values.contains(v) && is_due(v, time, date, weekday) {
            let i = choose|i: int| 0 <= i < values.len() && values[i] == v;
            if i < values.len() - 1 {
                assert(prev[i] == v);
                let j = choose|j: int| 0 <= j < r.len() && r[j] == v;
                if is_due(values.last(), time, date, weekday) {
                    assert(r.push(values.last())[j] == v);
                }
            } else {
                assert(r.push(v)[r.len() as int] == v);
            }
        }
    }
}

/// A due schedule is set for that minute and not excluded on that date; a
/// single schedule is due only on its own date, and a recurring one only on
/// its days of the week and never after its end date.
pub proof fn law_due_conditions(s: ScheduleView, time: Seq<char>, date: Seq<char>, weekday: Seq<char>)
    requires
        is_due(s, time, date, weekday),
    ensures
        s.time == time,
        !s.exclude_dates.contains(date),
        s.schedule_type == ScheduleType::Single ==> s.end_date == Some(date) || (s.end_date is None
            && date.len() == 0),
        s.schedule_type == ScheduleType::Recurring ==> s.days_of_week.contains(weekday),
        s.schedule_type == ScheduleType::Recurring && s.end_date is Some ==> !text_before(
            s.end_date->0,
            date,
        ),
{
}

} // verus!

//! What a client sends to create a schedule, and the schedule the server
//! makes of it.

use vstd::prelude::*;

use crate::server::schedules::{
    default_owner, default_owner_text, opt_text, texts, Schedule, ScheduleType, ScheduleView,
};
use crate::text::{is_uuid_v4_text, new_uuid_v4_text};

verus! {

/// The fields of a new schedule as a client sends them.
#[derive(Clone, Debug)]
pub struct ScheduleInput {
    pub device_id: String,
    pub action: String,
    pub schedule_type: ScheduleType,
    pub time: String,
    pub days_of_week: Vec<String>,
    pub exclude_dates: Vec<String>,
    pub end_date: Option<String>,
}

/// The schedule made of `input` under identifier `id`, owned by the server's default owner.
pub open spec fn schedule_of_input(input: ScheduleInput, id: Seq<char>) -> ScheduleView {
    ScheduleView {
        id,
        device_id: input.device_id@,
        action: input.action@,
        schedule_type: input.schedule_type,
        time: input.time@,
        days_of_week: texts(input.days_of_week@),
        exclude_dates: texts(input.exclude_dates@),
        end_date: opt_text(input.end_date),
        owner: default_owner_text(),
    }
}

impl ScheduleInput {
    /// The schedule made of this input under a fresh random identifier.
    pub fn into_schedule(self) -> (s: Schedule)
        ensures
            is_uuid_v4_text(s.id@),
            s@ == schedule_of_input(self, s.id@),
            s.device_id@ == self.device_id@,
            s.action@ == self.action@,
            s.schedule_type == self.schedule_type,
            s.time@ == self.time@,
            s.days_of_week@ == self.days_of_week@,
            s.exclude_dates@ == self.exclude_dates@,
            s.end_date == self.end_date,
            s.owner@ == default_owner_text(),
    {
        let id = new_uuid_v4_text();
        self.into_schedule_with_id(id)
    }

    /// The schedule made of this input under the identifier `id`.
    pub fn into_schedule_with_id(self, id: String) -> (s: Schedule)
        ensures
            s@ == schedule_of_input(self, id@),
            s.id == id,
            s.device_id@ == self.device_id@,
            s.action@ == self.action@,
            s.schedule_type == self.schedule_type,
            s.time@ == self.time@,
            s.days_of_week@ == self.days_of_week@,
            s.exclude_dates@ == self.exclude_dates@,
            s.end_date == self.end_date,
            s.owner@ == default_owner_text(),
    {
        Schedule {
            id,
            device_id: self.device_id,
            action: self.action,
            schedule_type: self.schedule_type,
            time: self.time,
            days_of_week: self.days_of_week,
            exclude_dates: self.exclude_dates,
            end_date: self.end_date,
            owner: default_owner(),
        }
    }
}

/// The schedule made of an input carries every field the client sent, the
/// given identifier and the server's default owner.
pub proof fn law_input_fields_are_kept(input: ScheduleInput, id: Seq<char>)
    ensures
        schedule_of_input(input, id).id == id,
        schedule_of_input(input, id).device_id == input.device_id@,
        schedule_of_input(input, id).action == input.action@,
        schedule_of_input(input, id).schedule_type == input.schedule_type,
        schedule_of_input(input, id).time == input.time@,
        schedule_of_input(input, id).days_of_week == input.days_of_week@.map_values(|t: String| t@),
        schedule_of_input(input, id).exclude_dates == input.exclude_dates@.map_values(|t: String| t@),
        schedule_of_input(input, id).end_date == (match input.end_date {
            Some(e) => Some(e@),
            None => None::<Seq<char>>,
        }),
        schedule_of_input(input, id).owner == "admin@yourdomain.com"@,
{
}

} // verus!

//! Counts of travellers at railway stations by time of day, and the
//! stations that are used most and least.

use crate::tally::{added, largest, smallest, Tally};
use vstd::prelude::*;

verus! {

/// The times of day that travellers are counted for.
#[derive(Clone, Copy, Debug, Hash, PartialEq, Eq, Structural)]
pub enum TimeOfDay {
    Morning,
    Midday,
    Evening,
    Midnight,
    Total,
}

/// The counts of one station in one period: the travellers who went in and
/// came out, by time of day, where they were counted.
#[derive(Debug)]
pub struct StationRecord {
    pub time_period: String,
    pub station: String,
    pub entries_morning: Option<i32>,
    pub exits_morning: Option<i32>,
    pub entries_midday: Option<i32>,
    pub exits_midday: Option<i32>,
    pub entries_evening: Option<i32>,
    pub exits_evening: Option<i32>,
    pub entries_midnight: Option<i32>,
    pub exits_midnight: Option<i32>,
    pub entries_total: Option<i32>,
    pub exits_total: Option<i32>,
}

/// The records that the questions are asked of.
#[derive(Debug)]
pub struct Solution {
    pub records: Vec<StationRecord>,
}

impl StationRecord {
    /// The travellers who went in and who came out at the time of day.
    pub open spec fn counts(&self, time_of_day: TimeOfDay) -> (Option<i32>, Option<i32>) {
        match time_of_day {
            TimeOfDay::Morning => (self.entries_morning, self.exits_morning),
            TimeOfDay::Midday => (self.entries_midday, self.exits_midday),
            TimeOfDay::Evening => (self.entries_evening, self.exits_evening),
            TimeOfDay::Midnight => (self.entries_midnight, self.exits_midnight),
            TimeOfDay::Total => (self.entries_total, self.exits_total),
        }
    }

    /// The travellers who used the station at the time of day, going in or
    /// coming out; none where one of the two was not counted.
    pub open spec fn spec_usage(&self, time_of_day: TimeOfDay) -> Option<int> {
        match self.counts(time_of_day) {
            (Some(entries), Some(exits)) => Some(entries + exits),
            _ => None,
        }
    }

    /// The travellers who used the station at the time of day.
    pub fn usage(&self, time_of_day: TimeOfDay) -> (total: Option<i64>)
        ensures
            match total {
                Some(sum) => self.spec_usage(time_of_day) == Some(sum as int),
                None => self.spec_usage(time_of_day) is None,
            },
    {
        let (entries, exits) = match time_of_day {
            TimeOfDay::Morning => (self.entries_morning, self.exits_morning),
            TimeOfDay::Midday => (self.entries_midday, self.exits_midday),
            TimeOfDay::Evening => (self.entries_evening, self.exits_evening),
            TimeOfDay::Midnight => (self.entries_midnight, self.exits_midnight),
            TimeOfDay::Total => (self.entries_total, self.exits_total),
        };
        match (entries, exits) {
            (Some(entries), Some(exits)) => Some(entries as i64 + exits as i64),
            _ => None,
        }
    }
}

/// The travellers of each station at the time of day, added up over all
/// records that counted them, the stations in the order in which they
/// first come up.
pub open spec fn usage_totals(records: Seq<StationRecord>, time_of_day: TimeOfDay) -> Seq<
    (Seq<char>, int),
>
    decreases records.len(),
{
    if records.len() == 0 {
        Seq::empty()
    } else {
        match records.last().spec_usage(time_of_day) {
            Some(sum) => added(
                usage_totals(records.drop_last(), time_of_day),
                records.last().station@,
                sum,
            ),
            None => usage_totals(records.drop_last(), time_of_day),
        }
    }
}

/// The station with the fewest travellers at the time of day and the one
/// with the most, in this order, over all records; of stations with
/// equally many the one that comes up first. None where no record counted
/// the travellers of that time.
pub fn most_least_used_stations(solution: &Solution, time_of_day: TimeOfDay) -> (stations: Option<
    (String, String),
>)
    ensures
        match stations {
            Some((least, most)) => {
                let totals = usage_totals(solution.records@, time_of_day);
                &&& totals.len() > 0
                &&& least@ == totals[smallest(totals)].0
                &&& most@ == totals[largest(totals)].0
            },
            None => usage_totals(solution.records@, time_of_day).len() == 0,
        },
{
    let records = &solution.records;
    let mut stations = Tally::new();
    let mut i: usize = 0;
    proof {
        assert(records@.take(0) == Seq::<StationRecord>::empty());
    }
    while i < records.len()
        invariant
            i <= records@.len(),
            stations.wf(),
            stations.additions() <= i,
            stations@ == usage_totals(records@.take(i as int), time_of_day),
        decreases records@.len() - i,
    {
        proof {
            assert(records@.take(i + 1).drop_last() == records@.take(i as int));
            assert(records@.take(i + 1).last() == records@[i as int]);
        }
        match records[i].usage(time_of_day) {
            Some(total) => {
                stations.add(records[i].station.as_str(), total);
            },
            None => {},
        }
        i += 1;
    }
    proof {
        assert(records@.take(records@.len() as int) == records@);
    }
    let least_used = match stations.least() {
        Some(name) => name,
        None => {
            return None;
        },
    };
    let most_used = match stations.most() {
        Some(name) => name,
        None => {
            return None;
        },
    };
    Some((least_used, most_used))
}

/// One enrolment of a student in a course.
#[derive(Debug)]
pub struct Enrolment {
    pub course_code: String,
    pub student_number: String,
}

/// What the enrolments add up to.
#[derive(Debug)]
pub struct Enrolments {
    /// The number of students, each counted once.
    pub unique_students: usize,
    /// The first course with the most enrolments, and their number.
    pub most_common: (String, i128),
    /// The first course with the fewest enrolments, and their number.
    pub least_common: (String, i128),
}

/// The enrolments of each course counted, the courses in the order in
/// which they first come up.
pub open spec fn course_counts(records: Seq<Enrolment>) -> Seq<(Seq<char>, int)>
    decreases records.len(),
{
    if records.len() == 0 {
        Seq::empty()
    } else {
        added(course_counts(records.drop_last()), records.last().course_code@, 1)
    }
}

/// The records of each student counted, the students in the order in
/// which they first come up.
pub open spec fn student_counts(records: Seq<Enrolment>) -> Seq<(Seq<char>, int)>
    decreases records.len(),
{
    if records.len() == 0 {
        Seq::empty()
    } else {
        added(student_counts(records.drop_last()), records.last().student_number@, 1)
    }
}

/// Counts the students and finds the courses with the most and the fewest
/// enrolments. None where there are no enrolments.
pub fn summarise(records: &Vec<Enrolment>) -> (summary: Option<Enrolments>)
    ensures
        match summary {
            Some(found) => {
                let courses = course_counts(records@);
                &&& records@.len() > 0
                &&& courses.len() > 0
                &&& found.unique_students == student_counts(records@).len()
                &&& found.most_common.0@ == courses[largest(courses)].0
                &&& found.least_common.0@ == courses[smallest(courses)].0
            },
            None => records@.len() == 0,
        },
{
    let mut students = Tally::new();
    let mut courses = Tally::new();
    let mut i: usize = 0;
    proof {
        assert(records@.take(0) == Seq::<Enrolment>::empty());
    }
    while i < records.len()
        invariant
            i <= records@.len(),
            students.wf(),
            courses.wf(),
            students.additions() == i,
            courses.additions() == i,
            students@ == student_counts(records@.take(i as int)),
            courses@ == course_counts(records@.take(i as int)),
            i > 0 ==> courses@.len() > 0,
        decreases records@.len() - i,
    {
        proof {
            assert(records@.take(i + 1).drop_last() == records@.take(i as int));
            assert(records@.take(i + 1).last() == records@[i as int]);
            crate::tally::lemma_added_len(course_counts(records@.take(i as int)), records@[i as int].course_code@, 1);
        }
        students.add(records[i].student_number.as_str(), 1);
        courses.add(records[i].course_code.as_str(), 1);
        i += 1;
    }
    proof {
        assert(records@.take(records@.len() as int) == records@);
    }
    let most = match courses.most() {
        Some(name) => name,
        None => {
            return None;
        },
    };
    let least = match courses.least() {
        Some(name) => name,
        None => {
            return None;
        },
    };
    let most_count = match courses.total(most.as_str()) {
        Some(count) => count,
        None => 0,
    };
    let least_count = match courses.total(least.as_str()) {
        Some(count) => count,
        None => 0,
    };
    Some(
        Enrolments {
            unique_students: students.len(),
            most_common: (most, most_count),
            least_common: (least, least_count),
        },
    )
}

} // verus!

//! The schedule entry and its mathematical value.

use vstd::prelude::*;

verus! {

/// What a schedule entry is, as a value: four free-text labels, the
/// caller-assigned identifier, and three small numbers. Nothing is validated:
/// any day, period or duration that fits the field is a legal entry.
pub struct CourseView {
    pub id: Seq<char>,
    pub name: Seq<char>,
    pub teacher: Seq<char>,
    pub class_name: Seq<char>,
    pub day: u8,
    pub period: u8,
    pub duration: u8,
    pub room: Seq<char>,
}

/// The values of a run of entries, in order.
pub open spec fn views(courses: Seq<Course>) -> Seq<CourseView> {
    courses.map_values(|c: Course| c@)
}

/// One entry of the timetable.
#[derive(Debug)]
pub struct Course {
    id: String,
    name: String,
    teacher: String,
    class_name: String,
    day: u8,
    period: u8,
    duration: u8,
    room: String,
}

impl View for Course {
    type V = CourseView;

    closed spec fn view(&self) -> CourseView {
        CourseView {
            id: self.id@,
            name: self.name@,
            teacher: self.teacher@,
            class_name: self.class_name@,
            day: self.day,
            period: self.period,
            duration: self.duration,
            room: self.room@,
        }
    }
}

impl Course {
    /// Builds an entry from its eight fields, in the order in which they are
    /// stored and exchanged.
    pub fn new(
        id: String,
        name: String,
        teacher: String,
        class_name: String,
        day: u8,
        period: u8,
        duration: u8,
        room: String,
    ) -> (c: Course)
        ensures
            c@ == (CourseView {
                id: id@,
                name: name@,
                teacher: teacher@,
                class_name: class_name@,
                day,
                period,
                duration,
                room: room@,
            }),
    {
        Course { id, name, teacher, class_name, day, period, duration, room }
    }

    /// The identifier by which the entry is looked up.
    pub fn id(&self) -> (r: &String)
        ensures
            r@ == self@.id,
    {
        &self.id
    }

    /// The course name.
    pub fn name(&self) -> (r: &String)
        ensures
            r@ == self@.name,
    {
        &self.name
    }

    /// The teacher.
    pub fn teacher(&self) -> (r: &String)
        ensures
            r@ == self@.teacher,
    {
        &self.teacher
    }

    /// The class that attends.
    pub fn class_name(&self) -> (r: &String)
        ensures
            r@ == self@.class_name,
    {
        &self.class_name
    }

    /// The day of the week, 1 for Monday to 7 for Sunday by convention.
    pub fn day(&self) -> (r: u8)
        ensures
            r == self@.day,
    {
        self.day
    }

    /// The slot in which the course starts.
    pub fn period(&self) -> (r: u8)
        ensures
            r == self@.period,
    {
        self.period
    }

    /// The number of consecutive slots that the course occupies.
    pub fn duration(&self) -> (r: u8)
        ensures
            r == self@.duration,
    {
        self.duration
    }

    /// The room.
    pub fn room(&self) -> (r: &String)
        ensures
            r@ == self@.room,
    {
        &self.room
    }
}

impl Clone for Course {
    fn clone(&self) -> (c: Course)
        ensures
            c@ == self@,
    {
        Course {
            id: self.id.clone(),
            name: self.name.clone(),
            teacher: self.teacher.clone(),
            class_name: self.class_name.clone(),
            day: self.day,
            period: self.period,
            duration: self.duration,
            room: self.room.clone(),
        }
    }
}

impl PartialEq for Course {
    fn eq(&self, other: &Course) -> (r: bool) {
        self.id == other.id && self.name == other.name && self.teacher == other.teacher
            && self.class_name == other.class_name && self.day == other.day && self.period
            == other.period && self.duration == other.duration && self.room == other.room
    }
}

impl vstd::std_specs::cmp::PartialEqSpecImpl for Course {
    open spec fn obeys_eq_spec() -> bool {
        true
    }

    open spec fn eq_spec(&self, other: &Course) -> bool {
        self@ == other@
    }
}

impl Eq for Course {

}

} // verus!

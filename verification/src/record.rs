//! The timetable as rows of text: eight columns in a fixed order, one header
//! row, one row per entry. Columns are matched by position, never by name.

use vstd::prelude::*;
use crate::course::{Course, CourseView, views};
use crate::number::{decimal, decimal_text, lemma_parse_decimal, number_or_one, parse_number};

verus! {

/// The number of columns of a row that carries an entry.
pub const COLUMNS: usize = 8;

/// The texts of the fields of a record.
pub open spec fn fields_view(fields: Seq<String>) -> Seq<Seq<char>> {
    fields.map_values(|f: String| f@)
}

/// The texts of the fields of each record.
pub open spec fn records_view(records: Seq<Vec<String>>) -> Seq<Seq<Seq<char>>> {
    records.map_values(|r: Vec<String>| fields_view(r@))
}

/// The header row that opens every exported table.
pub open spec fn header_row() -> Seq<Seq<char>> {
    seq![
        "课程ID"@,
        "课程名称"@,
        "教师"@,
        "班级"@,
        "星期"@,
        "第几节"@,
        "持续节数"@,
        "教室"@,
    ]
}

/// The row of an entry: identifier, name, teacher, class, then day, period
/// and duration in decimal, then the room.
pub open spec fn course_row(c: CourseView) -> Seq<Seq<char>> {
    seq![
        c.id,
        c.name,
        c.teacher,
        c.class_name,
        decimal(c.day as nat),
        decimal(c.period as nat),
        decimal(c.duration as nat),
        c.room,
    ]
}

/// The rows of an exported table: the header, then the entries in order.
pub open spec fn export_rows(courses: Seq<CourseView>) -> Seq<Seq<Seq<char>>> {
    seq![header_row()] + courses.map_values(|c: CourseView| course_row(c))
}

/// The entry that a row carries. A row with fewer than eight columns carries
/// none. Of a longer row the first eight columns count. A numeric column that
/// holds no number below 256 counts as 1.
pub open spec fn row_course(row: Seq<Seq<char>>) -> Option<CourseView> {
    if row.len() < COLUMNS {
        None
    } else {
        Some(
            CourseView {
                id: row[0],
                name: row[1],
                teacher: row[2],
                class_name: row[3],
                day: number_or_one(row[4]),
                period: number_or_one(row[5]),
                duration: number_or_one(row[6]),
                room: row[7],
            },
        )
    }
}

/// The entries that a run of rows carries, in the order of the rows; rows
/// that carry none leave no trace.
pub open spec fn rows_courses(rows: Seq<Seq<Seq<char>>>) -> Seq<CourseView> {
    rows.filter_map(|row: Seq<Seq<char>>| row_course(row))
}

/// The number of rows that carry an entry.
pub open spec fn complete_rows(rows: Seq<Seq<Seq<char>>>) -> nat {
    rows.filter(|row: Seq<Seq<char>>| row.len() >= COLUMNS).len()
}

/// As many entries come out of a run of rows as it has rows of eight columns
/// or more: a shorter row is dropped and changes nothing else.
pub proof fn lemma_rows_courses_len(rows: Seq<Seq<Seq<char>>>)
    ensures
        rows_courses(rows).len() == complete_rows(rows),
    decreases rows.len(),
{
    reveal(Seq::filter);
    if rows.len() > 0 {
        lemma_rows_courses_len(rows.drop_last());
    }
}

/// The header record.
pub fn header_record() -> (r: Vec<String>)
    ensures
        fields_view(r@) == header_row(),
{
    let mut fields: Vec<String> = Vec::new();
    fields.push(String::from_str("课程ID"));
    fields.push(String::from_str("课程名称"));
    fields.push(String::from_str("教师"));
    fields.push(String::from_str("班级"));
    fields.push(String::from_str("星期"));
    fields.push(String::from_str("第几节"));
    fields.push(String::from_str("持续节数"));
    fields.push(String::from_str("教室"));
    assert(fields_view(fields@) =~= header_row());
    fields
}

/// The record of an entry.
pub fn course_record(course: &Course) -> (r: Vec<String>)
    ensures
        fields_view(r@) == course_row(course@),
{
    let mut fields: Vec<String> = Vec::new();
    fields.push(course.id().clone());
    fields.push(course.name().clone());
    fields.push(course.teacher().clone());
    fields.push(course.class_name().clone());
    fields.push(decimal_text(course.day()));
    fields.push(decimal_text(course.period()));
    fields.push(decimal_text(course.duration()));
    fields.push(course.room().clone());
    assert(fields_view(fields@) =~= course_row(course@));
    fields
}

/// Reads a numeric column, with 1 for a column that holds no number.
pub fn number_field(field: &str) -> (n: u8)
    ensures
        n == number_or_one(field@),
{
    match parse_number(field) {
        Some(n) => n,
        None => 1,
    }
}

/// The entry that a record carries, if it has the eight columns.
pub fn course_from_record(fields: &Vec<String>) -> (r: Option<Course>)
    ensures
        r is Some <==> fields@.len() >= COLUMNS,
        match r {
            Some(c) => row_course(fields_view(fields@)) == Some(c@),
            None => row_course(fields_view(fields@)) is None,
        },
{
    if fields.len() < COLUMNS {
        return None;
    }
    let course = Course::new(
        fields[0].clone(),
        fields[1].clone(),
        fields[2].clone(),
        fields[3].clone(),
        number_field(fields[4].as_str()),
        number_field(fields[5].as_str()),
        number_field(fields[6].as_str()),
        fields[7].clone(),
    );
    Some(course)
}

/// The entries that a run of records carries. Records with fewer than eight
/// columns are passed over without a word.
pub fn courses_from_records(records: &Vec<Vec<String>>) -> (r: Vec<Course>)
    ensures
        views(r@) == rows_courses(records_view(records@)),
        r@.len() == complete_rows(records_view(records@)),
{
    let mut courses: Vec<Course> = Vec::new();
    let ghost rows = records_view(records@);
    for i in 0..records.len()
        invariant
            rows == records_view(records@),
            views(courses@) == rows_courses(rows.take(i as int)),
    {
        let ghost before = views(courses@);
        proof {
            assert(rows.take(i + 1).drop_last() == rows.take(i as int));
            assert(rows.take(i + 1).last() == fields_view(records@[i as int]@));
        }
        match course_from_record(&records[i]) {
            Some(course) => {
                courses.push(course);
                assert(views(courses@) =~= before + seq![course@]);
            },
            None => {},
        }
    }
    proof {
        assert(rows.take(records@.len() as int) == rows);
        lemma_rows_courses_len(rows);
    }
    courses
}

/// The records of an exported table: the header, then one record per entry.
pub fn export_records(courses: &Vec<Course>) -> (r: Vec<Vec<String>>)
    ensures
        records_view(r@) == export_rows(views(courses@)),
{
    let mut records: Vec<Vec<String>> = Vec::new();
    records.push(header_record());
    for i in 0..courses.len()
        invariant
            records@.len() == i + 1,
            records_view(records@) == export_rows(views(courses@).take(i as int)),
    {
        let ghost before = records_view(records@);
        records.push(course_record(&courses[i]));
        proof {
            assert(records_view(records@) =~= before.push(course_row(courses@[i as int]@)));
            assert(export_rows(views(courses@).take(i + 1)) =~= export_rows(
                views(courses@).take(i as int),
            ).push(course_row(courses@[i as int]@)));
        }
    }
    proof {
        assert(views(courses@).take(courses@.len() as int) == views(courses@));
    }
    records
}

/// Every row of an exported table has the eight columns.
pub proof fn lemma_export_rows_width(courses: Seq<CourseView>)
    ensures
        export_rows(courses).len() == courses.len() + 1,
        forall|k: int|
            0 <= k < export_rows(courses).len() ==> (#[trigger] export_rows(courses)[k]).len()
                == COLUMNS,
{
    assert forall|k: int| 0 <= k < export_rows(courses).len() implies (#[trigger] export_rows(
        courses,
    )[k]).len() == COLUMNS by {
        if k > 0 {
            assert(export_rows(courses)[k] == course_row(courses[k - 1]));
        }
    }
}

/// A row that was written for an entry carries that entry: the texts come
/// back as they were, and each number comes back as the number it was.
pub proof fn lemma_row_round_trip(c: CourseView)
    ensures
        row_course(course_row(c)) == Some(c),
{
    lemma_parse_decimal(c.day);
    lemma_parse_decimal(c.period);
    lemma_parse_decimal(c.duration);
}

/// Reading an exported table back, with the header row set aside, gives the
/// entries that were exported, each field as it was and in the same order.
pub proof fn lemma_export_import_round_trip(courses: Seq<CourseView>)
    ensures
        export_rows(courses).len() == courses.len() + 1,
        export_rows(courses)[0] == header_row(),
        rows_courses(export_rows(courses).skip(1)) == courses,
{
    let rows = courses.map_values(|c: CourseView| course_row(c));
    assert(export_rows(courses).skip(1) =~= rows);
    lemma_rows_round_trip(courses);
}

/// The rows written for a run of entries carry exactly those entries.
pub proof fn lemma_rows_round_trip(courses: Seq<CourseView>)
    ensures
        rows_courses(courses.map_values(|c: CourseView| course_row(c))) == courses,
    decreases courses.len(),
{
    let rows = courses.map_values(|c: CourseView| course_row(c));
    if courses.len() == 0 {
        assert(rows_courses(rows) =~= courses);
    } else {
        let front = courses.drop_last();
        lemma_rows_round_trip(front);
        lemma_row_round_trip(courses.last());
        assert(rows.drop_last() =~= front.map_values(|c: CourseView| course_row(c)));
        assert(rows.last() == course_row(courses.last()));
        assert(rows_courses(rows) =~= courses);
    }
}

} // verus!

use course_schedule::record::{
    course_from_record, course_record, courses_from_records, export_records, header_record,
    COLUMNS,
};
use course_schedule::Course;

fn texts(fields: &[&str]) -> Vec<String> {
    fields.iter().map(|f| f.to_string()).collect()
}

fn sample() -> Course {
    Course::new(
        "c-1".to_string(),
        "Physics".to_string(),
        "Zhang".to_string(),
        "C3".to_string(),
        5,
        12,
        3,
        "Lab 2".to_string(),
    )
}

#[test]
fn a_row_has_eight_columns() {
    assert_eq!(COLUMNS, 8);
    assert_eq!(header_record().len(), 8);
    assert_eq!(course_record(&sample()).len(), 8);
}

#[test]
fn header_record_is_the_fixed_header() {
    assert_eq!(
        header_record(),
        texts(&["课程ID", "课程名称", "教师", "班级", "星期", "第几节", "持续节数", "教室"])
    );
}

#[test]
fn course_record_lists_the_fields_in_order() {
    assert_eq!(
        course_record(&sample()),
        texts(&["c-1", "Physics", "Zhang", "C3", "5", "12", "3", "Lab 2"])
    );
}

#[test]
fn course_from_record_reads_the_fields_in_order() {
    let record = texts(&["c-1", "Physics", "Zhang", "C3", "5", "12", "3", "Lab 2"]);
    assert_eq!(course_from_record(&record), Some(sample()));
}

#[test]
fn course_from_record_needs_eight_columns() {
    assert_eq!(course_from_record(&Vec::new()), None);
    assert_eq!(course_from_record(&texts(&["only"])), None);
    assert_eq!(course_from_record(&texts(&["1", "2", "3", "4", "5", "6", "7"])), None);
    assert!(course_from_record(&texts(&["1", "2", "3", "4", "5", "6", "7", "8"])).is_some());
    assert!(course_from_record(&texts(&["1", "2", "3", "4", "5", "6", "7", "8", "9"])).is_some());
}

#[test]
fn course_from_record_defaults_each_number_on_its_own() {
    let record = texts(&["id", "n", "t", "c", "seven", "4", "", "r"]);
    let course = course_from_record(&record).unwrap();
    assert_eq!(course.day(), 1);
    assert_eq!(course.period(), 4);
    assert_eq!(course.duration(), 1);
    assert_eq!(course.id(), "id");
    assert_eq!(course.room(), "r");
}

#[test]
fn course_from_record_of_the_header_gives_defaults() {
    let course = course_from_record(&header_record()).unwrap();
    assert_eq!(
        course,
        Course::new(
            "课程ID".to_string(),
            "课程名称".to_string(),
            "教师".to_string(),
            "班级".to_string(),
            1,
            1,
            1,
            "教室".to_string()
        )
    );
}

#[test]
fn courses_from_records_drops_short_records_silently() {
    let records = vec![
        texts(&["1", "Math", "Wu", "A1", "1", "1", "1", "101"]),
        texts(&["short", "row"]),
        texts(&["2", "Art", "Wu", "A1", "2", "2", "2", "102"]),
        Vec::new(),
        texts(&["3", "PE", "Wu", "A1", "3", "3", "3", "103", "extra"]),
    ];
    let courses = courses_from_records(&records);
    assert_eq!(courses.len(), 3);
    let ids: Vec<&str> = courses.iter().map(|c| c.id().as_str()).collect();
    assert_eq!(ids, vec!["1", "2", "3"]);
    assert_eq!(courses[2].room(), "103");
}

#[test]
fn courses_from_records_of_nothing_is_empty() {
    assert!(courses_from_records(&Vec::new()).is_empty());
    assert!(courses_from_records(&vec![texts(&["a"]), texts(&["b", "c"])]).is_empty());
}

#[test]
fn export_records_opens_with_the_header() {
    let records = export_records(&vec![sample(), sample()]);
    assert_eq!(records.len(), 3);
    assert_eq!(records[0], header_record());
    assert_eq!(records[1], course_record(&sample()));
    assert_eq!(records[2], course_record(&sample()));
    assert_eq!(export_records(&Vec::new()), vec![header_record()]);
}

#[test]
fn records_of_entries_carry_the_entries() {
    let courses = vec![
        sample(),
        Course::new(
            "".to_string(),
            ",".to_string(),
            "\"".to_string(),
            "\n".to_string(),
            0,
            255,
            128,
            "+1".to_string(),
        ),
    ];
    let records = export_records(&courses);
    assert_eq!(courses_from_records(&records[1..].to_vec()), courses);
}

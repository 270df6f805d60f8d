use course_schedule::interchange::read_records;
use course_schedule::{export_to_csv, get_courses, import_from_csv, AppState, Course, StoreError};

const HEADER: &str = "课程ID,课程名称,教师,班级,星期,第几节,持续节数,教室\n";

fn lesson(id: &str, name: &str, day: u8, period: u8, duration: u8) -> Course {
    Course::new(
        id.to_string(),
        name.to_string(),
        "Wu".to_string(),
        "A1".to_string(),
        day,
        period,
        duration,
        "101".to_string(),
    )
}

fn exported(courses: Vec<Course>) -> String {
    let state = AppState::new("courses.json", Some(courses));
    String::from_utf8(export_to_csv(&state).unwrap()).unwrap()
}

#[test]
fn export_of_empty_store_is_the_header_row() {
    assert_eq!(exported(Vec::new()), HEADER);
}

#[test]
fn export_writes_one_row_per_entry_in_order() {
    let text = exported(vec![lesson("1", "Math", 1, 2, 2), lesson("2", "Art", 7, 10, 1)]);
    assert_eq!(text, format!("{}1,Math,Wu,A1,1,2,2,101\n2,Art,Wu,A1,7,10,1,101\n", HEADER));
}

#[test]
fn export_renders_numbers_in_decimal() {
    let text = exported(vec![lesson("n", "N", 0, 255, 100)]);
    assert_eq!(text, format!("{}n,N,Wu,A1,0,255,100,101\n", HEADER));
}

#[test]
fn export_quotes_special_characters() {
    let course = Course::new(
        "a,b".to_string(),
        "say \"hi\"".to_string(),
        "two\nlines".to_string(),
        "".to_string(),
        1,
        1,
        1,
        " padded ".to_string(),
    );
    let text = exported(vec![course]);
    assert_eq!(
        text,
        format!("{}\"a,b\",\"say \"\"hi\"\"\",\"two\nlines\",,1,1,1, padded \n", HEADER)
    );
}

#[test]
fn export_leaves_the_store_as_it_was() {
    let state = AppState::new("courses.json", Some(vec![lesson("1", "Math", 1, 2, 2)]));
    let first = export_to_csv(&state).unwrap();
    let second = export_to_csv(&state).unwrap();
    assert_eq!(first, second);
    assert_eq!(get_courses(&state), vec![lesson("1", "Math", 1, 2, 2)]);
}

#[test]
fn import_reads_rows_after_the_header() {
    let text = "id,name,teacher,class,day,period,duration,room\n\
                1,Math,Wu,A1,1,2,2,101\n\
                2,Art,Li,B2,7,10,1,202\n";
    let courses = import_from_csv(text.as_bytes()).unwrap();
    assert_eq!(
        courses,
        vec![
            lesson("1", "Math", 1, 2, 2),
            Course::new(
                "2".to_string(),
                "Art".to_string(),
                "Li".to_string(),
                "B2".to_string(),
                7,
                10,
                1,
                "202".to_string()
            ),
        ]
    );
}

#[test]
fn import_never_takes_the_first_row_as_an_entry() {
    let text = "1,Math,Wu,A1,1,2,2,101\n2,Art,Wu,A1,3,4,5,101\n";
    let courses = import_from_csv(text.as_bytes()).unwrap();
    assert_eq!(courses, vec![lesson("2", "Art", 3, 4, 5)]);
}

#[test]
fn import_of_nothing_is_empty() {
    assert_eq!(import_from_csv(b""), Ok(Vec::new()));
    assert_eq!(import_from_csv(HEADER.as_bytes()), Ok(Vec::new()));
}

#[test]
fn import_drops_rows_with_fewer_than_eight_columns() {
    let text = "id,name,teacher,class,day,period,duration,room\n\
                1,Math,Wu,A1,1,1,1,101\n\
                2,Math,Wu,A1,1,2,1,101\n\
                3,Math,Wu,A1,1,3\n\
                4,Math,Wu,A1,1,4,1,101\n\
                5,Math,Wu,A1,1,5,1,101\n\
                6,Math,Wu,A1,1,6,1,101\n\
                7\n\
                8,Math,Wu,A1,1,8,1,101\n\
                9,Math,Wu,A1,1,9,1,101\n\
                10,Math,Wu,A1,1,10,1,101\n";
    let courses = import_from_csv(text.as_bytes()).unwrap();
    assert_eq!(courses.len(), 8);
    let ids: Vec<&str> = courses.iter().map(|c| c.id().as_str()).collect();
    assert_eq!(ids, vec!["1", "2", "4", "5", "6", "8", "9", "10"]);
    let periods: Vec<u8> = courses.iter().map(|c| c.period()).collect();
    assert_eq!(periods, vec![1, 2, 4, 5, 6, 8, 9, 10]);
}

#[test]
fn import_drops_a_row_of_seven_columns_and_keeps_one_of_eight() {
    let text = "h\n1,2,3,4,5,6,7\n1,2,3,4,5,6,7,8\n";
    let courses = import_from_csv(text.as_bytes()).unwrap();
    assert_eq!(
        courses,
        vec![Course::new(
            "1".to_string(),
            "2".to_string(),
            "3".to_string(),
            "4".to_string(),
            5,
            6,
            7,
            "8".to_string()
        )]
    );
}

#[test]
fn import_takes_the_first_eight_columns_of_a_longer_row() {
    let text = "h\n1,Math,Wu,A1,1,2,3,101,extra,more\n";
    let courses = import_from_csv(text.as_bytes()).unwrap();
    assert_eq!(courses, vec![lesson("1", "Math", 1, 2, 3)]);
}

#[test]
fn import_defaults_unreadable_numbers_to_one() {
    let text = "h\n1,Math,Wu,A1,x,,256,101\n2,Math,Wu,A1,-1, 3,1.0,101\n3,Math,Wu,A1,+4,005,0,101\n";
    let courses = import_from_csv(text.as_bytes()).unwrap();
    assert_eq!(
        courses,
        vec![lesson("1", "Math", 1, 1, 1), lesson("2", "Math", 1, 1, 1), lesson("3", "Math", 4, 5, 0)]
    );
}

#[test]
fn import_reads_columns_by_position() {
    let text = "room,duration,period,day,class,teacher,name,id\n101,2,3,1,A1,Wu,Math,77\n";
    let courses = import_from_csv(text.as_bytes()).unwrap();
    assert_eq!(
        courses,
        vec![Course::new(
            "101".to_string(),
            "2".to_string(),
            "3".to_string(),
            "1".to_string(),
            1,
            1,
            1,
            "77".to_string()
        )]
    );
}

#[test]
fn import_understands_quoted_fields() {
    let text = "h\n\"a,b\",\"say \"\"hi\"\"\",\"two\nlines\",,1,1,1, padded \n";
    let courses = import_from_csv(text.as_bytes()).unwrap();
    assert_eq!(
        courses,
        vec![Course::new(
            "a,b".to_string(),
            "say \"hi\"".to_string(),
            "two\nlines".to_string(),
            "".to_string(),
            1,
            1,
            1,
            " padded ".to_string()
        )]
    );
}

#[test]
fn import_fails_on_a_record_that_is_not_text() {
    let mut data = b"h\n1,Math,Wu,A1,1,2,2,101\n2,".to_vec();
    data.extend_from_slice(&[0xff, 0xfe]);
    data.extend_from_slice(b",Wu,A1,1,2,2,101\n3,Art,Wu,A1,1,2,2,101\n");
    match import_from_csv(&data) {
        Err(StoreError::Parse(message)) => {
            assert!(message.starts_with("Failed to parse CSV record: "));
            assert!(message.len() > "Failed to parse CSV record: ".len());
        }
        other => panic!("expected a parse failure, got {:?}", other),
    }
    assert!(matches!(read_records(&data), Err(StoreError::Parse(_))));
}

#[test]
fn read_records_leaves_short_rows_in() {
    let text = "h1,h2\n1,2,3\n\n4\n5,6,7,8,9,10,11,12,13\n";
    let records = read_records(text.as_bytes()).unwrap();
    assert_eq!(
        records,
        vec![
            vec!["1".to_string(), "2".to_string(), "3".to_string()],
            vec!["4".to_string()],
            vec!["5", "6", "7", "8", "9", "10", "11", "12", "13"]
                .into_iter()
                .map(String::from)
                .collect::<Vec<String>>(),
        ]
    );
}

#[test]
fn export_then_import_round_trip() {
    let courses = vec![
        lesson("1", "Math", 1, 2, 2),
        lesson("2", "语文", 7, 255, 0),
        Course::new(
            "a,b".to_string(),
            "say \"hi\"".to_string(),
            "two\r\nlines".to_string(),
            "".to_string(),
            0,
            100,
            9,
            " 体育馆 ".to_string(),
        ),
        lesson("1", "Math", 1, 2, 2),
        Course::new(
            "".to_string(),
            "".to_string(),
            "".to_string(),
            "".to_string(),
            10,
            99,
            101,
            "".to_string(),
        ),
    ];
    let state = AppState::new("courses.json", Some(courses.clone()));
    let bytes = export_to_csv(&state).unwrap();
    assert_eq!(import_from_csv(&bytes), Ok(courses));
}

#[test]
fn export_then_import_of_empty_store_is_empty() {
    let state = AppState::new("courses.json", None);
    let bytes = export_to_csv(&state).unwrap();
    assert_eq!(import_from_csv(&bytes), Ok(Vec::new()));
}

#[test]
fn import_does_not_touch_a_store() {
    let state = AppState::new("courses.json", Some(vec![lesson("1", "Math", 1, 2, 2)]));
    let imported = import_from_csv(b"h\n2,Art,Wu,A1,1,1,1,101\n").unwrap();
    assert_eq!(imported.len(), 1);
    assert_eq!(get_courses(&state), vec![lesson("1", "Math", 1, 2, 2)]);
}

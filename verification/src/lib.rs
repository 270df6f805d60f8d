//! A personal class timetable: schedule entries, the in-memory store that
//! holds them in insertion order, and the CSV interchange format.

pub mod command;
pub mod course;
pub mod csv_io;
pub mod error;
pub mod interchange;
pub mod number;
pub mod record;
pub mod store;

pub use command::{apply, apply_all, Command, CommandView};
pub use course::{Course, CourseView};
pub use error::StoreError;
pub use interchange::{export_to_csv, import_from_csv};
pub use store::{
    add_course, batch_add_courses, delete_course, get_courses, update_course, AppState, StoreView,
};

//! The store: the entries in insertion order, the path of the file that
//! backs them, and the commands that read and change them.
//!
//! A command changes the collection in memory and nothing else. Writing the
//! collection out afterwards, and keeping callers apart while one of them
//! holds the store, is the host's part: every command that changes the store
//! asks for it exclusively.

use vstd::prelude::*;
use crate::course::{Course, CourseView, views};
use crate::error::StoreError;

verus! {

/// What the store is, as a value.
pub struct StoreView {
    /// The entries, oldest first.
    pub courses: Seq<CourseView>,
    /// The path of the backing file.
    pub data_path: Seq<char>,
}

/// The entries of the timetable and the place where they are kept on disk.
/// Identifiers are the caller's to assign: the store never checks that they
/// differ, and a command that names one acts on the first entry that has it.
pub struct AppState {
    courses: Vec<Course>,
    data_path: String,
}

impl View for AppState {
    type V = StoreView;

    closed spec fn view(&self) -> StoreView {
        StoreView { courses: views(self.courses@), data_path: self.data_path@ }
    }
}

/// `i` is the place of the first entry that carries `id`.
pub open spec fn is_first_match(s: Seq<CourseView>, id: Seq<char>, i: int) -> bool {
    &&& 0 <= i < s.len()
    &&& s[i].id == id
    &&& forall|j: int| 0 <= j < i ==> (#[trigger] s[j]).id != id
}

/// Some entry carries `id`.
pub open spec fn contains_id(s: Seq<CourseView>, id: Seq<char>) -> bool {
    exists|i: int| 0 <= i < s.len() && (#[trigger] s[i]).id == id
}

/// The place of the first entry that carries `id`, where there is one.
pub open spec fn first_index(s: Seq<CourseView>, id: Seq<char>) -> int
    recommends
        contains_id(s, id),
{
    choose|i: int| is_first_match(s, id, i)
}

/// The collection after an update: the first entry with the identifier of
/// `c` gives way to `c`, in its place; without such an entry nothing changes.
pub open spec fn with_update(s: Seq<CourseView>, c: CourseView) -> Seq<CourseView> {
    if contains_id(s, c.id) {
        s.update(first_index(s, c.id), c)
    } else {
        s
    }
}

/// The collection after a removal: the first entry that carries `id` is gone
/// and the others keep their order; without such an entry nothing changes.
pub open spec fn without_id(s: Seq<CourseView>, id: Seq<char>) -> Seq<CourseView> {
    if contains_id(s, id) {
        s.remove(first_index(s, id))
    } else {
        s
    }
}

/// There is at most one first match, and `first_index` names it.
pub proof fn lemma_first_match_unique(s: Seq<CourseView>, id: Seq<char>, i: int)
    requires
        is_first_match(s, id, i),
    ensures
        contains_id(s, id),
        first_index(s, id) == i,
{
    let k = first_index(s, id);
    assert(is_first_match(s, id, k));
    if k < i {
        assert(s[k].id != id);
    }
    if i < k {
        assert(s[i].id != id);
    }
}

/// Where some entry carries `id`, `first_index` is the place of the first.
pub proof fn lemma_first_index_is_first(s: Seq<CourseView>, id: Seq<char>)
    requires
        contains_id(s, id),
    ensures
        is_first_match(s, id, first_index(s, id)),
{
    let w = choose|i: int| 0 <= i < s.len() && (#[trigger] s[i]).id == id;
    lemma_least_match(s, id, w);
}

/// Below any match lies a first match.
proof fn lemma_least_match(s: Seq<CourseView>, id: Seq<char>, w: int)
    requires
        0 <= w < s.len(),
        s[w].id == id,
    ensures
        exists|i: int| is_first_match(s, id, i),
        is_first_match(s, id, first_index(s, id)),
    decreases w,
{
    if forall|j: int| 0 <= j < w ==> (#[trigger] s[j]).id != id {
        assert(is_first_match(s, id, w));
    } else {
        let j = choose|j: int| 0 <= j < w && (#[trigger] s[j]).id == id;
        lemma_least_match(s, id, j);
    }
}

/// An update changes one entry and nothing else: the collection keeps its
/// length, the new entry stands where the first match stood, and every other
/// entry stays where it was.
pub proof fn lemma_update_touches_one(s: Seq<CourseView>, c: CourseView)
    requires
        contains_id(s, c.id),
    ensures
        with_update(s, c).len() == s.len(),
        0 <= first_index(s, c.id) < s.len(),
        with_update(s, c)[first_index(s, c.id)] == c,
        forall|i: int|
            0 <= i < s.len() && i != first_index(s, c.id) ==> #[trigger] with_update(s, c)[i]
                == s[i],
{
    lemma_first_index_is_first(s, c.id);
}

/// A removal takes out one entry and keeps the order of the others: those
/// before the first match stay in place, those after it move up by one.
pub proof fn lemma_delete_keeps_order(s: Seq<CourseView>, id: Seq<char>)
    requires
        contains_id(s, id),
    ensures
        without_id(s, id).len() == s.len() - 1,
        0 <= first_index(s, id) < s.len(),
        forall|i: int|
            0 <= i < first_index(s, id) ==> #[trigger] without_id(s, id)[i] == s[i],
        forall|i: int|
            first_index(s, id) <= i < s.len() - 1 ==> #[trigger] without_id(s, id)[i] == s[i + 1],
{
    lemma_first_index_is_first(s, id);
}

/// A change that names an identifier which no entry carries changes nothing.
pub proof fn lemma_missing_id_changes_nothing(s: Seq<CourseView>, c: CourseView)
    requires
        !contains_id(s, c.id),
    ensures
        with_update(s, c) == s,
        without_id(s, c.id) == s,
{
}

impl AppState {
    /// The store at start-up. `loaded` is what the backing file gave: the
    /// entries it held, or `None` where it was absent, unreadable or not a
    /// well-formed document. In that case the store starts empty, and no
    /// error is raised.
    pub fn new(data_path: &str, loaded: Option<Vec<Course>>) -> (state: AppState)
        ensures
            state@.data_path == data_path@,
            state@.courses == match loaded {
                Some(courses) => views(courses@),
                None => Seq::<CourseView>::empty(),
            },
    {
        let courses = match loaded {
            Some(courses) => courses,
            None => Vec::new(),
        };
        let state = AppState { courses, data_path: String::from_str(data_path) };
        proof {
            if loaded is None {
                assert(views(state.courses@) =~= Seq::<CourseView>::empty());
            }
        }
        state
    }

    /// The path of the backing file.
    pub fn data_path(&self) -> (path: &String)
        ensures
            path@ == self@.data_path,
    {
        &self.data_path
    }

    /// The entries, oldest first, for reading.
    pub fn courses(&self) -> (courses: &Vec<Course>)
        ensures
            views(courses@) == self@.courses,
    {
        &self.courses
    }

    /// The number of entries.
    pub fn len(&self) -> (n: usize)
        ensures
            n == self@.courses.len(),
    {
        self.courses.len()
    }

    /// The place of the first entry that carries `id`.
    pub fn position(&self, id: &String) -> (found: Option<usize>)
        ensures
            found is Some <==> contains_id(self@.courses, id@),
            found matches Some(i) ==> is_first_match(self@.courses, id@, i as int) && i
                == first_index(self@.courses, id@),
    {
        let ghost s = views(self.courses@);
        for i in 0..self.courses.len()
            invariant
                s == views(self.courses@),
                forall|j: int| 0 <= j < i ==> (#[trigger] s[j]).id != id@,
        {
            if *self.courses[i].id() == *id {
                proof {
                    assert(s[i as int].id == id@);
                    lemma_first_match_unique(s, id@, i as int);
                }
                return Some(i);
            }
        }
        None
    }
}

/// A copy of the entries as they stand, oldest first.
pub fn get_courses(state: &AppState) -> (snapshot: Vec<Course>)
    ensures
        views(snapshot@) == state@.courses,
{
    let mut snapshot: Vec<Course> = Vec::new();
    for i in 0..state.courses.len()
        invariant
            views(snapshot@) == views(state.courses@).take(i as int),
    {
        let ghost before = views(snapshot@);
        snapshot.push(state.courses[i].clone());
        assert(views(snapshot@) =~= before.push(state.courses@[i as int]@));
    }
    proof {
        assert(views(state.courses@).take(state.courses@.len() as int) == views(state.courses@));
    }
    snapshot
}

/// Appends an entry at the end. Whether another entry already carries its
/// identifier is not looked at.
pub fn add_course(course: Course, state: &mut AppState)
    ensures
        final(state)@.courses == old(state)@.courses.push(course@),
        final(state)@.data_path == old(state)@.data_path,
{
    state.courses.push(course);
    assert(views(state.courses@) =~= views(old(state).courses@).push(course@));
}

/// Puts `course` in the place of the first entry that carries its
/// identifier. Without such an entry the call fails with `NotFound` and the
/// store is as it was.
pub fn update_course(course: Course, state: &mut AppState) -> (r: Result<(), StoreError>)
    ensures
        r is Ok <==> contains_id(old(state)@.courses, course@.id),
        r matches Err(e) ==> e == StoreError::NotFound,
        r is Err ==> final(state)@ == old(state)@,
        final(state)@.courses == with_update(old(state)@.courses, course@),
        final(state)@.data_path == old(state)@.data_path,
{
    match state.position(course.id()) {
        Some(index) => {
            state.courses.set(index, course);
            assert(views(state.courses@) =~= views(old(state).courses@).update(
                index as int,
                course@,
            ));
            Ok(())
        },
        None => Err(StoreError::NotFound),
    }
}

/// Removes the first entry that carries `id`; the others keep their order.
/// Without such an entry the call fails with `NotFound` and the store is as
/// it was.
pub fn delete_course(id: String, state: &mut AppState) -> (r: Result<(), StoreError>)
    ensures
        r is Ok <==> contains_id(old(state)@.courses, id@),
        r matches Err(e) ==> e == StoreError::NotFound,
        r is Err ==> final(state)@ == old(state)@,
        final(state)@.courses == without_id(old(state)@.courses, id@),
        final(state)@.data_path == old(state)@.data_path,
{
    match state.position(&id) {
        Some(index) => {
            state.courses.remove(index);
            assert(views(state.courses@) =~= views(old(state).courses@).remove(index as int));
            Ok(())
        },
        None => Err(StoreError::NotFound),
    }
}

/// Appends all of `courses` at the end, in the order given.
pub fn batch_add_courses(courses: Vec<Course>, state: &mut AppState)
    ensures
        final(state)@.courses == old(state)@.courses + views(courses@),
        final(state)@.data_path == old(state)@.data_path,
{
    let mut incoming = courses;
    state.courses.append(&mut incoming);
    assert(views(state.courses@) =~= views(old(state).courses@) + views(courses@));
}

} // verus!

//! Pending work: which submissions still need attention, what is shown for
//! each, and in which order.

use vstd::prelude::*;
use vstd::seq_lib::*;
use vstd::string::*;
use crate::api::{Course, CourseWork, StudentSubmission};
use crate::due::{due_instant, due_of, CivilInstant, DueDateTime};
use crate::error::Error;
use crate::order::{lemma_sort_keeps_entries, sort_by_due, sort_todos};

verus! {

/// The field selection asked of the service when listing a course's work.
pub const COURSE_WORK_FIELDS: &'static str = "courseWork(id,title,description,dueDate,dueTime)";

/// The field selection asked of the service when listing submissions.
pub const SUBMISSION_FIELDS: &'static str =
    "studentSubmissions(courseWorkId,state,late,id,courseWorkId,assignedGrade)";

/// The field selection asked of the service when listing courses.
pub const COURSE_FIELDS: &'static str = "courses(id,name)";

/// The work-item selector that asks for the submissions of all course work.
pub const ALL_COURSE_WORK: &'static str = "-";

/// The field that holds the listed courses.
pub const COURSES_PATH: &'static str = "courses.list.courses";

/// The field that holds a listed course's identifier.
pub const COURSE_ID_PATH: &'static str = "courses.list.courses[].id";

/// The field that holds a listed course's name.
pub const COURSE_NAME_PATH: &'static str = "courses.list.courses[].name";

/// The field that holds a course's submissions.
pub const SUBMISSIONS_PATH: &'static str = "courses.courseWork.studentSubmissions[]";

/// The field that holds a course's work.
pub const COURSE_WORK_PATH: &'static str = "courses.courseWork[]";

/// The field that names the course work of a submission.
pub const SUBMISSION_WORK_ID_PATH: &'static str = "courses.courseWork.studentSubmissions[].courseWorkId";

/// The field that holds a submission's identifier.
pub const SUBMISSION_ID_PATH: &'static str = "courses.courseWork.studentSubmissions[].id";

/// The course work that a submission names.
pub const SUBMISSION_WORK_PATH: &'static str = "courses.courseWork.studentSubmissions{courses.courseWork[].id}";

/// One entry of the list of pending work.
#[derive(Debug, Clone)]
pub struct Todo {
    pub class_name: String,
    pub class_id: String,
    pub id: String,
    pub description: Option<String>,
    pub name: Option<String>,
    pub late: bool,
    pub due: Option<DueDateTime>,
}

/// What a [`Todo`] says, as mathematical values.
pub struct TodoView {
    pub class_name: Seq<char>,
    pub class_id: Seq<char>,
    pub id: Seq<char>,
    pub description: Option<Seq<char>>,
    pub name: Option<Seq<char>>,
    pub late: bool,
    pub due: Option<CivilInstant>,
}

pub open spec fn text_of(text: Option<String>) -> Option<Seq<char>> {
    match text {
        Some(t) => Some(t@),
        None => None,
    }
}

pub open spec fn instant_of(due: Option<DueDateTime>) -> Option<CivilInstant> {
    match due {
        Some(d) => Some(d@),
        None => None,
    }
}

impl View for Todo {
    type V = TodoView;

    open spec fn view(&self) -> TodoView {
        TodoView {
            class_name: self.class_name@,
            class_id: self.class_id@,
            id: self.id@,
            description: text_of(self.description),
            name: text_of(self.name),
            late: self.late,
            due: instant_of(self.due),
        }
    }
}

/// The views of a list of entries, in the list's order.
pub open spec fn views(list: Seq<Todo>) -> Seq<TodoView> {
    list.map_values(|t: Todo| t@)
}

/// A course that can be queried: both its identifier and its name are known.
#[derive(Debug, Clone)]
pub struct CourseTarget {
    pub id: String,
    pub name: String,
}

/// Whether the service flagged the submission as late. An absent flag counts
/// as not late.
pub open spec fn late_flag(sub: StudentSubmission) -> bool {
    sub.late == Some(true)
}

/// The rule that decides whether a submission still needs attention.
///
/// A late submission always does. Otherwise one without a state does; one
/// that is turned in does not; one that was returned does only while it has
/// no grade; any other state does.
pub open spec fn needs_attention(sub: StudentSubmission) -> bool {
    if late_flag(sub) {
        true
    } else {
        match sub.state {
            None => true,
            Some(state) => {
                if state@ == "TURNED_IN"@ {
                    false
                } else if state@ == "RETURNED"@ {
                    !sub.has_assigned_grade
                } else {
                    true
                }
            },
        }
    }
}

/// Whether the unit of course work carries the identifier `id`.
pub open spec fn carries_id(work: CourseWork, id: Seq<char>) -> bool {
    work.id is Some && work.id->0@ == id
}

/// The unit of course work that carries the identifier `id`. Where several
/// do, the one listed last stands for all.
pub open spec fn find_work(works: Seq<CourseWork>, id: Seq<char>) -> Option<CourseWork>
    decreases works.len(),
{
    if works.len() == 0 {
        None
    } else if carries_id(works.last(), id) {
        Some(works.last())
    } else {
        find_work(works.drop_last(), id)
    }
}

/// What keeps a submission from being joined to its course work: it names
/// none, or it names one that is not listed. Whether the submission needs
/// attention plays no part.
pub open spec fn join_failure(works: Seq<CourseWork>, sub: StudentSubmission) -> Option<Error> {
    if sub.course_work_id is None {
        Some(Error::MissingField(SUBMISSION_WORK_ID_PATH))
    } else if find_work(works, sub.course_work_id->0@) is None {
        Some(Error::MissingField(SUBMISSION_WORK_PATH))
    } else {
        None
    }
}

/// The failure of the first submission, in the submissions' order, that
/// cannot be joined to its course work; nothing where every one can.
pub open spec fn first_join_failure(works: Seq<CourseWork>, subs: Seq<StudentSubmission>)
    -> Option<Error>
    decreases subs.len(),
{
    if subs.len() == 0 {
        None
    } else {
        match first_join_failure(works, subs.drop_last()) {
            Some(e) => Some(e),
            None => join_failure(works, subs.last()),
        }
    }
}

/// The entry shown for one submission: that of the course work it is joined
/// to. A submission that cannot be joined has none, nor has one without an
/// identifier of its own.
pub open spec fn todo_for(target: CourseTarget, works: Seq<CourseWork>, sub: StudentSubmission)
    -> Result<TodoView, Error> {
    match join_failure(works, sub) {
        Some(e) => Err(e),
        None => if sub.id is None {
            Err(Error::MissingField(SUBMISSION_ID_PATH))
        } else {
            let work = find_work(works, sub.course_work_id->0@)->0;
            Ok(
                TodoView {
                    class_name: target.name@,
                    class_id: target.id@,
                    id: sub.id->0@,
                    description: text_of(work.description),
                    name: text_of(work.title),
                    late: late_flag(sub),
                    due: due_of(work),
                },
            )
        },
    }
}

/// The entries of the submissions that need attention, in the submissions'
/// order; or the failure of the first of them that has no entry.
pub open spec fn pending_todos(
    target: CourseTarget,
    works: Seq<CourseWork>,
    subs: Seq<StudentSubmission>,
) -> Result<Seq<TodoView>, Error>
    decreases subs.len(),
{
    if subs.len() == 0 {
        Ok(Seq::empty())
    } else {
        match pending_todos(target, works, subs.drop_last()) {
            Err(e) => Err(e),
            Ok(entries) => if !needs_attention(subs.last()) {
                Ok(entries)
            } else {
                match todo_for(target, works, subs.last()) {
                    Err(e) => Err(e),
                    Ok(entry) => Ok(entries.push(entry)),
                }
            },
        }
    }
}

/// What one course contributes to the list of pending work, given what the
/// service listed for it. Every submission is joined to its course work
/// first; only then are the submissions that need attention picked, made
/// into entries and put in the order they are shown in.
pub open spec fn course_todos(
    target: CourseTarget,
    course_work: Option<Vec<CourseWork>>,
    submissions: Option<Vec<StudentSubmission>>,
) -> Result<Seq<TodoView>, Error> {
    if submissions is None {
        Err(Error::MissingField(SUBMISSIONS_PATH))
    } else if course_work is None {
        Err(Error::MissingField(COURSE_WORK_PATH))
    } else {
        match first_join_failure(course_work->0@, submissions->0@) {
            Some(e) => Err(e),
            None => match pending_todos(target, course_work->0@, submissions->0@) {
                Err(e) => Err(e),
                Ok(entries) => Ok(sort_by_due(entries)),
            },
        }
    }
}

/// Whether `text` reads exactly as `literal`.
fn same_text(text: &String, literal: &str) -> (same: bool)
    ensures
        same == (text@ == literal@),
{
    let owned = String::from_str(literal);
    *text == owned
}

fn clone_text(text: &Option<String>) -> (copy: Option<String>)
    ensures
        copy == *text,
{
    match text {
        Some(t) => Some(t.clone()),
        None => None,
    }
}

/// Whether the submission is marked late.
pub fn is_late(sub: &StudentSubmission) -> (late: bool)
    ensures
        late == late_flag(*sub),
{
    match sub.late {
        Some(flag) => flag,
        None => false,
    }
}

/// Whether the submission is incomplete, by the rule of [`needs_attention`].
pub fn is_incomplete(sub: &StudentSubmission) -> (incomplete: bool)
    ensures
        incomplete == needs_attention(*sub),
{
    if is_late(sub) {
        return true;
    }
    match &sub.state {
        None => true,
        Some(state) => {
            if same_text(state, "TURNED_IN") {
                false
            } else if same_text(state, "RETURNED") {
                !sub.has_assigned_grade
            } else {
                true
            }
        },
    }
}

/// Names the course to query, or the field that the listing lacks.
pub fn course_target(course: Course) -> (target: Result<CourseTarget, Error>)
    ensures
        course.id is None ==> target == Err::<CourseTarget, Error>(
            Error::MissingField(COURSE_ID_PATH),
        ),
        course.id is Some && course.name is None ==> target == Err::<CourseTarget, Error>(
            Error::MissingField(COURSE_NAME_PATH),
        ),
        course.id is Some && course.name is Some ==> target == Ok::<CourseTarget, Error>(
            CourseTarget { id: course.id->0, name: course.name->0 },
        ),
{
    let id = match course.id {
        Some(id) => id,
        None => return Err(Error::MissingField(COURSE_ID_PATH)),
    };
    let name = match course.name {
        Some(name) => name,
        None => return Err(Error::MissingField(COURSE_NAME_PATH)),
    };
    Ok(CourseTarget { id, name })
}

/// Finds the course work that carries `id`, the last listed where several do.
fn lookup_work<'a>(works: &'a Vec<CourseWork>, id: &String) -> (found: Option<&'a CourseWork>)
    ensures
        found is Some <==> find_work(works@, id@) is Some,
        found is Some ==> *found->0 == find_work(works@, id@)->0,
{
    let mut k: usize = works.len();
    assert(works@.subrange(0, k as int) == works@);
    while k > 0
        invariant
            k <= works.len(),
            find_work(works@, id@) == find_work(works@.subrange(0, k as int), id@),
        decreases k,
    {
        let work = &works[k - 1];
        let ghost head = works@.subrange(0, k as int);
        assert(head.last() == works@[k - 1]);
        assert(head.drop_last() == works@.subrange(0, k - 1));
        let hit = match &work.id {
            Some(work_id) => *work_id == *id,
            None => false,
        };
        if hit {
            return Some(work);
        }
        k -= 1;
    }
    assert(works@.subrange(0, 0).len() == 0);
    None
}

/// Joins a submission to the course work that it names.
fn joined_work<'a>(works: &'a Vec<CourseWork>, sub: &StudentSubmission) -> (joined: Result<
    &'a CourseWork,
    Error,
>)
    ensures
        match joined {
            Ok(work) => join_failure(works@, *sub) is None && *work == find_work(
                works@,
                sub.course_work_id->0@,
            )->0,
            Err(e) => join_failure(works@, *sub) == Some(e),
        },
{
    let work_id = match &sub.course_work_id {
        Some(work_id) => work_id,
        None => return Err(Error::MissingField(SUBMISSION_WORK_ID_PATH)),
    };
    match lookup_work(works, work_id) {
        Some(work) => Ok(work),
        None => Err(Error::MissingField(SUBMISSION_WORK_PATH)),
    }
}

/// Builds the entry shown for one submission.
fn make_todo(target: &CourseTarget, works: &Vec<CourseWork>, sub: &StudentSubmission) -> (made:
    Result<Todo, Error>)
    ensures
        match made {
            Ok(entry) => todo_for(*target, works@, *sub) == Ok::<TodoView, Error>(entry@),
            Err(e) => todo_for(*target, works@, *sub) == Err::<TodoView, Error>(e),
        },
{
    let late = is_late(sub);
    let work = match joined_work(works, sub) {
        Ok(work) => work,
        Err(e) => return Err(e),
    };
    let id = match &sub.id {
        Some(id) => id.clone(),
        None => return Err(Error::MissingField(SUBMISSION_ID_PATH)),
    };
    let due = due_instant(work);
    Ok(
        Todo {
            class_name: target.name.clone(),
            class_id: target.id.clone(),
            id,
            description: clone_text(&work.description),
            name: clone_text(&work.title),
            late,
            due,
        },
    )
}

/// What one course contributes to the list of pending work.
///
/// `course_work` and `submissions` are what the service listed for the
/// course. Every submission is first joined to the course work that it
/// names: one that names none, or names course work that is not listed,
/// fails the course, whether or not it needs attention. Each submission that
/// needs attention then becomes one entry, with the title, description and
/// due instant of its course work. The call fails with the missing field
/// where a listing is absent, where a submission cannot be joined, or where
/// one that needs attention lacks an identifier.
pub fn get_course(
    target: &CourseTarget,
    course_work: Option<Vec<CourseWork>>,
    submissions: Option<Vec<StudentSubmission>>,
) -> (todos: Result<Vec<Todo>, Error>)
    ensures
        match todos {
            Ok(list) => course_todos(*target, course_work, submissions) == Ok::<
                Seq<TodoView>,
                Error,
            >(views(list@)),
            Err(e) => course_todos(*target, course_work, submissions) == Err::<
                Seq<TodoView>,
                Error,
            >(e),
        },
{
    let subs = match &submissions {
        Some(subs) => subs,
        None => return Err(Error::MissingField(SUBMISSIONS_PATH)),
    };
    let works = match &course_work {
        Some(works) => works,
        None => return Err(Error::MissingField(COURSE_WORK_PATH)),
    };
    let mut j: usize = 0;
    assert(subs@.subrange(0, 0) == Seq::<StudentSubmission>::empty());
    while j < subs.len()
        invariant
            j <= subs@.len(),
            course_work == Some(*works),
            submissions == Some(*subs),
            first_join_failure(works@, subs@.subrange(0, j as int)) is None,
        decreases subs@.len() - j,
    {
        let ghost head = subs@.subrange(0, j + 1);
        proof {
            assert(head.last() == subs@[j as int]);
            assert(head.drop_last() == subs@.subrange(0, j as int));
        }
        match joined_work(works, &subs[j]) {
            Ok(_) => {},
            Err(e) => {
                proof {
                    assert(first_join_failure(works@, head) == Some(e));
                    lemma_join_fails(works@, subs@, j + 1);
                }
                return Err(e);
            },
        }
        j += 1;
    }
    assert(subs@.subrange(0, j as int) == subs@);
    let mut todos: Vec<Todo> = Vec::new();
    let mut k: usize = 0;
    assert(views(todos@) == Seq::<TodoView>::empty());
    while k < subs.len()
        invariant
            k <= subs@.len(),
            course_work == Some(*works),
            submissions == Some(*subs),
            first_join_failure(works@, subs@) is None,
            pending_todos(*target, works@, subs@.subrange(0, k as int)) == Ok::<
                Seq<TodoView>,
                Error,
            >(views(todos@)),
        decreases subs@.len() - k,
    {
        let sub = &subs[k];
        let ghost head = subs@.subrange(0, k + 1);
        let ghost listed = views(todos@);
        proof {
            assert(head.last() == subs@[k as int]);
            assert(head.drop_last() == subs@.subrange(0, k as int));
        }
        if is_incomplete(sub) {
            match make_todo(target, works, sub) {
                Ok(entry) => {
                    todos.push(entry);
                    assert(views(todos@) == listed.push(entry@));
                },
                Err(e) => {
                    proof {
                        assert(pending_todos(*target, works@, head) == Err::<
                            Seq<TodoView>,
                            Error,
                        >(e));
                        lemma_pending_fails(*target, works@, subs@, k + 1);
                    }
                    return Err(e);
                },
            }
        }
        k += 1;
    }
    assert(subs@.subrange(0, k as int) == subs@);
    Ok(sort_todos(todos))
}

/// Once a head of the submissions cannot be joined, the whole list fails in
/// the same way.
proof fn lemma_join_fails(works: Seq<CourseWork>, subs: Seq<StudentSubmission>, upto: int)
    requires
        0 <= upto <= subs.len(),
        first_join_failure(works, subs.subrange(0, upto)) is Some,
    ensures
        first_join_failure(works, subs) == first_join_failure(works, subs.subrange(0, upto)),
    decreases subs.len() - upto,
{
    if upto == subs.len() {
        assert(subs.subrange(0, upto) == subs);
    } else {
        let next = subs.subrange(0, upto + 1);
        assert(next.drop_last() == subs.subrange(0, upto));
        lemma_join_fails(works, subs, upto + 1);
    }
}

/// Once the entries of a head of the submissions fail, those of the whole
/// list fail in the same way.
proof fn lemma_pending_fails(
    target: CourseTarget,
    works: Seq<CourseWork>,
    subs: Seq<StudentSubmission>,
    upto: int,
)
    requires
        0 <= upto <= subs.len(),
        pending_todos(target, works, subs.subrange(0, upto)) is Err,
    ensures
        pending_todos(target, works, subs) == pending_todos(target, works, subs.subrange(0, upto)),
    decreases subs.len() - upto,
{
    if upto == subs.len() {
        assert(subs.subrange(0, upto) == subs);
    } else {
        let next = subs.subrange(0, upto + 1);
        assert(next.drop_last() == subs.subrange(0, upto));
        lemma_pending_fails(target, works, subs, upto + 1);
    }
}

/// How the task that queried one course ended.
pub enum CourseOutcome {
    /// The course's pending work.
    Listed(Vec<Todo>),
    /// The query or the course's data failed.
    Failed(Error),
    /// The task itself ended abnormally; the text says how.
    Aborted(String),
}

/// The courses to query, or the field that the listing lacks.
pub fn listed_courses(courses: Option<Vec<Course>>) -> (listed: Result<Vec<Course>, Error>)
    ensures
        listed == match courses {
            Some(list) => Ok::<Vec<Course>, Error>(list),
            None => Err::<Vec<Course>, Error>(Error::MissingField(COURSES_PATH)),
        },
{
    match courses {
        Some(list) => Ok(list),
        None => Err(Error::MissingField(COURSES_PATH)),
    }
}

/// The entries of all courses one after the other, in the order of the
/// outcomes; or the failure of the first course that has one.
pub open spec fn gathered(outcomes: Seq<CourseOutcome>) -> Result<Seq<TodoView>, Error>
    decreases outcomes.len(),
{
    if outcomes.len() == 0 {
        Ok(Seq::empty())
    } else {
        match outcomes[0] {
            CourseOutcome::Aborted(text) => Err(Error::Join(text)),
            CourseOutcome::Failed(e) => Err(e),
            CourseOutcome::Listed(list) => match gathered(outcomes.drop_first()) {
                Err(e) => Err(e),
                Ok(entries) => Ok(views(list@) + entries),
            },
        }
    }
}

/// The list of pending work over all courses: every course's entries, put
/// in the order they are shown in. One course that failed fails the list.
pub open spec fn all_todos(outcomes: Seq<CourseOutcome>) -> Result<Seq<TodoView>, Error> {
    match gathered(outcomes) {
        Err(e) => Err(e),
        Ok(entries) => Ok(sort_by_due(entries)),
    }
}

/// Joins what the per-course tasks returned into the list of pending work.
///
/// The outcomes are taken in the order given. If any course failed, or its
/// task ended abnormally, the whole list fails with the first such failure;
/// no partial list is returned.
pub fn todos_all(outcomes: Vec<CourseOutcome>) -> (todos: Result<Vec<Todo>, Error>)
    ensures
        match todos {
            Ok(list) => all_todos(outcomes@) == Ok::<Seq<TodoView>, Error>(views(list@)),
            Err(e) => all_todos(outcomes@) == Err::<Seq<TodoView>, Error>(e),
        },
{
    let ghost input = outcomes@;
    let mut rest = outcomes;
    let mut joined: Result<Vec<Todo>, Error> = Ok(Vec::new());
    assert(input.subrange(input.len() as int, input.len() as int) == Seq::<CourseOutcome>::empty());
    assert(views(Seq::<Todo>::empty()) == Seq::<TodoView>::empty());
    while rest.len() > 0
        invariant
            rest@.len() <= input.len(),
            rest@ == input.subrange(0, rest@.len() as int),
            match joined {
                Ok(list) => gathered(input.subrange(rest@.len() as int, input.len() as int)) == Ok::<
                    Seq<TodoView>,
                    Error,
                >(views(list@)),
                Err(e) => gathered(input.subrange(rest@.len() as int, input.len() as int)) == Err::<
                    Seq<TodoView>,
                    Error,
                >(e),
            },
        decreases rest@.len(),
    {
        let ghost before = rest@;
        let outcome = rest.pop().unwrap();
        let ghost from = rest@.len() as int;
        let ghost tail = input.subrange(from, input.len() as int);
        proof {
            assert(outcome == before[from]);
            assert(tail[0] == outcome);
            assert(tail.drop_first() == input.subrange(from + 1, input.len() as int));
            assert(rest@ == input.subrange(0, from));
        }
        joined = match outcome {
            CourseOutcome::Aborted(text) => Err(Error::Join(text)),
            CourseOutcome::Failed(e) => Err(e),
            CourseOutcome::Listed(mut list) => match joined {
                Err(e) => Err(e),
                Ok(mut entries) => {
                    let ghost first = list@;
                    let ghost second = entries@;
                    list.append(&mut entries);
                    assert(views(list@) == views(first) + views(second));
                    Ok(list)
                },
            },
        };
    }
    assert(input.subrange(0, input.len() as int) == input);
    match joined {
        Ok(list) => Ok(sort_todos(list)),
        Err(e) => Err(e),
    }
}

/// The rule of [`needs_attention`], row by row: lateness decides first, then
/// a missing state, then the two states that end a submission's life, and
/// every other state needs attention.
pub proof fn lemma_attention_rules(sub: StudentSubmission)
    ensures
        sub.late == Some(true) ==> needs_attention(sub),
        sub.late != Some(true) && sub.state is None ==> needs_attention(sub),
        sub.late != Some(true) && sub.state is Some && sub.state->0@ == "TURNED_IN"@
            ==> !needs_attention(sub),
        sub.late != Some(true) && sub.state is Some && sub.state->0@ == "RETURNED"@ ==> (
        needs_attention(sub) <==> !sub.has_assigned_grade),
        sub.late != Some(true) && sub.state is Some && sub.state->0@ != "TURNED_IN"@
            && sub.state->0@ != "RETURNED"@ ==> needs_attention(sub),
{
    reveal_strlit("TURNED_IN");
    reveal_strlit("RETURNED");
    assert("TURNED_IN"@.len() == 9);
    assert("RETURNED"@.len() == 8);
}

/// One course that failed fails the whole list of pending work.
pub proof fn lemma_one_failure_fails_all(outcomes: Seq<CourseOutcome>, at: int)
    requires
        0 <= at < outcomes.len(),
        !(outcomes[at] is Listed),
    ensures
        all_todos(outcomes) is Err,
        gathered(outcomes) is Err,
    decreases outcomes.len(),
{
    if at > 0 {
        let rest = outcomes.drop_first();
        assert(rest[at - 1] == outcomes[at]);
        lemma_one_failure_fails_all(rest, at - 1);
    }
}

/// How many entries the courses that were listed hold together.
pub open spec fn listed_count(outcomes: Seq<CourseOutcome>) -> nat
    decreases outcomes.len(),
{
    if outcomes.len() == 0 {
        0
    } else {
        (match outcomes[0] {
            CourseOutcome::Listed(list) => list@.len(),
            _ => 0,
        }) + listed_count(outcomes.drop_first())
    }
}

/// Where every course was listed, the list of pending work is there, and it
/// holds as many entries as the courses' lists together.
pub proof fn lemma_all_listed_succeeds(outcomes: Seq<CourseOutcome>)
    requires
        forall|k: int| 0 <= k < outcomes.len() ==> #[trigger] outcomes[k] is Listed,
    ensures
        all_todos(outcomes) is Ok,
        gathered(outcomes) is Ok,
        gathered(outcomes)->Ok_0.len() == listed_count(outcomes),
        all_todos(outcomes)->Ok_0.len() == listed_count(outcomes),
    decreases outcomes.len(),
{
    if outcomes.len() > 0 {
        let rest = outcomes.drop_first();
        assert forall|k: int| 0 <= k < rest.len() implies #[trigger] rest[k] is Listed by {
            assert(rest[k] == outcomes[k + 1]);
        }
        lemma_all_listed_succeeds(rest);
    }
    lemma_sort_keeps_entries(gathered(outcomes)->Ok_0);
}

/// The course work found for an identifier carries it, and nothing listed
/// after it does. Nothing is found only where nothing carries it.
pub proof fn lemma_find_work(works: Seq<CourseWork>, id: Seq<char>)
    ensures
        match find_work(works, id) {
            Some(work) => exists|i: int|
                0 <= i < works.len() && works[i] == work && carries_id(work, id) && forall|j: int|
                    i < j < works.len() ==> !carries_id(#[trigger] works[j], id),
            None => forall|j: int| 0 <= j < works.len() ==> !carries_id(#[trigger] works[j], id),
        },
    decreases works.len(),
{
    if works.len() == 0 {
    } else if carries_id(works.last(), id) {
        let i = works.len() - 1;
        assert(works[i] == works.last());
    } else {
        let head = works.drop_last();
        lemma_find_work(head, id);
        match find_work(head, id) {
            Some(work) => {
                let i = choose|i: int|
                    0 <= i < head.len() && head[i] == work && carries_id(work, id) && forall|
                        j: int,
                    |
                        i < j < head.len() ==> !carries_id(#[trigger] head[j], id);
                assert(works[i] == work);
                assert forall|j: int| i < j < works.len() implies !carries_id(
                    #[trigger] works[j],
                    id,
                ) by {
                    if j < head.len() {
                        assert(works[j] == head[j]);
                    }
                }
            },
            None => {
                assert forall|j: int| 0 <= j < works.len() implies !carries_id(
                    #[trigger] works[j],
                    id,
                ) by {
                    if j < head.len() {
                        assert(works[j] == head[j]);
                    }
                }
            },
        }
    }
}

/// A course has its entries exactly when every submission that needs
/// attention has one. They are then the entries of those submissions, in
/// the submissions' order.
pub proof fn lemma_pending_entries(
    target: CourseTarget,
    works: Seq<CourseWork>,
    subs: Seq<StudentSubmission>,
)
    ensures
        pending_todos(target, works, subs) is Ok <==> (forall|i: int|
            0 <= i < subs.len() && needs_attention(#[trigger] subs[i]) ==> todo_for(
                target,
                works,
                subs[i],
            ) is Ok),
        pending_todos(target, works, subs) is Ok ==> pending_todos(target, works, subs)->Ok_0
            == subs.filter(|sub: StudentSubmission| needs_attention(sub)).map_values(
            |sub: StudentSubmission| todo_for(target, works, sub)->Ok_0,
        ),
    decreases subs.len(),
{
    let pending = |sub: StudentSubmission| needs_attention(sub);
    let entry = |sub: StudentSubmission| todo_for(target, works, sub)->Ok_0;
    if subs.len() == 0 {
        assert(subs.filter(pending) == Seq::<StudentSubmission>::empty()) by {
            subs.lemma_filter_len(pending);
        }
        assert(pending_todos(target, works, subs)->Ok_0 == subs.filter(pending).map_values(entry));
    } else {
        let head = subs.drop_last();
        let last = subs.last();
        lemma_pending_entries(target, works, head);
        assert(subs == head.push(last));
        head.lemma_filter_push(last, pending);
        assert forall|i: int| 0 <= i < head.len() implies head[i] == subs[i] by {}
        if pending_todos(target, works, head) is Ok {
            if pending(last) && todo_for(target, works, last) is Ok {
                assert(head.filter(pending).push(last).map_values(entry) == head.filter(
                    pending,
                ).map_values(entry).push(entry(last)));
            }
            if pending(last) && todo_for(target, works, last) is Err {
                assert(subs[subs.len() - 1] == last);
            }
            if pending_todos(target, works, subs) is Ok {
                assert forall|i: int|
                    0 <= i < subs.len() && needs_attention(#[trigger] subs[i]) implies todo_for(
                    target,
                    works,
                    subs[i],
                ) is Ok by {
                    if i < head.len() {
                        assert(head[i] == subs[i]);
                    }
                }
            }
        } else {
            let i = choose|i: int|
                0 <= i < head.len() && needs_attention(#[trigger] head[i]) && !(todo_for(
                    target,
                    works,
                    head[i],
                ) is Ok);
            assert(subs[i] == head[i]);
        }
    }
}

/// Where a course has no entries, the failure is that of the first
/// submission that needs attention and has no entry.
pub proof fn lemma_pending_failure(
    target: CourseTarget,
    works: Seq<CourseWork>,
    subs: Seq<StudentSubmission>,
)
    requires
        pending_todos(target, works, subs) is Err,
    ensures
        exists|i: int|
            0 <= i < subs.len() && needs_attention(#[trigger] subs[i]) && todo_for(
                target,
                works,
                subs[i],
            ) == Err::<TodoView, Error>(pending_todos(target, works, subs)->Err_0) && forall|
                j: int,
            |
                0 <= j < i && needs_attention(#[trigger] subs[j]) ==> todo_for(
                    target,
                    works,
                    subs[j],
                ) is Ok,
    decreases subs.len(),
{
    let head = subs.drop_last();
    let failure = pending_todos(target, works, subs)->Err_0;
    assert forall|k: int| 0 <= k < head.len() implies head[k] == subs[k] by {}
    if pending_todos(target, works, head) is Err {
        lemma_pending_failure(target, works, head);
        let i = choose|i: int|
            0 <= i < head.len() && needs_attention(#[trigger] head[i]) && todo_for(
                target,
                works,
                head[i],
            ) == Err::<TodoView, Error>(failure) && forall|j: int|
                0 <= j < i && needs_attention(#[trigger] head[j]) ==> todo_for(
                    target,
                    works,
                    head[j],
                ) is Ok;
        assert(subs[i] == head[i]);
        assert forall|j: int| 0 <= j < i && needs_attention(#[trigger] subs[j]) implies todo_for(
            target,
            works,
            subs[j],
        ) is Ok by {
            assert(subs[j] == head[j]);
        }
    } else {
        lemma_pending_entries(target, works, head);
        let i = subs.len() - 1;
        assert(subs[i] == subs.last());
        assert forall|j: int| 0 <= j < i && needs_attention(#[trigger] subs[j]) implies todo_for(
            target,
            works,
            subs[j],
        ) is Ok by {
            assert(subs[j] == head[j]);
        }
    }
}

/// Every submission can be joined exactly when none of them fails to; and
/// where one fails, the failure is that of the first one that does.
pub proof fn lemma_first_join_failure(works: Seq<CourseWork>, subs: Seq<StudentSubmission>)
    ensures
        first_join_failure(works, subs) is None <==> (forall|i: int|
            0 <= i < subs.len() ==> join_failure(works, #[trigger] subs[i]) is None),
        first_join_failure(works, subs) is Some ==> exists|i: int|
            0 <= i < subs.len() && join_failure(works, #[trigger] subs[i]) == first_join_failure(
                works,
                subs,
            ) && forall|j: int| 0 <= j < i ==> join_failure(works, #[trigger] subs[j]) is None,
    decreases subs.len(),
{
    if subs.len() > 0 {
        let head = subs.drop_last();
        lemma_first_join_failure(works, head);
        assert forall|k: int| 0 <= k < head.len() implies head[k] == subs[k] by {}
        if first_join_failure(works, head) is Some {
            let i = choose|i: int|
                0 <= i < head.len() && join_failure(works, #[trigger] head[i])
                    == first_join_failure(works, head) && forall|j: int|
                    0 <= j < i ==> join_failure(works, #[trigger] head[j]) is None;
            assert(subs[i] == head[i]);
            assert forall|j: int| 0 <= j < i implies join_failure(works, #[trigger] subs[j])
                is None by {
                assert(subs[j] == head[j]);
            }
        } else {
            let i = subs.len() - 1;
            assert(subs[i] == subs.last());
            assert forall|j: int| 0 <= j < i implies join_failure(works, #[trigger] subs[j])
                is None by {
                assert(subs[j] == head[j]);
            }
            if first_join_failure(works, subs) is None {
                assert forall|k: int| 0 <= k < subs.len() implies join_failure(
                    works,
                    #[trigger] subs[k],
                ) is None by {
                    if k < head.len() {
                        assert(subs[k] == head[k]);
                    }
                }
            }
        }
    }
}

/// A submission that names course work that is not listed fails the course,
/// also where it needs no attention; and so does one that names none.
pub proof fn lemma_orphan_fails_the_course(
    target: CourseTarget,
    course_work: Option<Vec<CourseWork>>,
    submissions: Option<Vec<StudentSubmission>>,
    at: int,
)
    requires
        course_work is Some,
        submissions is Some,
        0 <= at < submissions->0@.len(),
        join_failure(course_work->0@, submissions->0@[at]) is Some,
    ensures
        course_todos(target, course_work, submissions) is Err,
        course_todos(target, course_work, submissions)->Err_0 == first_join_failure(
            course_work->0@,
            submissions->0@,
        )->0,
{
    lemma_first_join_failure(course_work->0@, submissions->0@);
}

/// Once every submission is joined, the only thing that can keep one from
/// its entry is that it lacks an identifier of its own.
pub proof fn lemma_joined_course_fails_only_on_identifier(
    target: CourseTarget,
    works: Seq<CourseWork>,
    subs: Seq<StudentSubmission>,
)
    requires
        first_join_failure(works, subs) is None,
        pending_todos(target, works, subs) is Err,
    ensures
        pending_todos(target, works, subs)->Err_0 == Error::MissingField(SUBMISSION_ID_PATH),
{
    lemma_first_join_failure(works, subs);
    lemma_pending_failure(target, works, subs);
}

} // verus!

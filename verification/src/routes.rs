//! What each page asks of the classroom service.

use vstd::prelude::*;
use crate::api::Course;
use crate::error::Error;
use crate::todo::COURSES_PATH;

verus! {

/// How many units of course work one page of a course shows.
pub const PAGE_SIZE: i32 = 10;

/// The field selection for a page of course work.
pub const WORK_PAGE_FIELDS: &'static str = "nextPageToken,courseWork(id,title)";

/// The field selection for one unit of course work.
pub const WORK_FIELDS: &'static str = "id,title";

/// The field selection for the course that a page is about.
pub const COURSE_NAME_FIELDS: &'static str = "id,name";

/// The page size that lets the service choose.
pub const SERVICE_PAGE_SIZE: i32 = 0;

/// The order in which the flat listing asks for course work.
pub const LATEST_DUE_FIRST: &'static str = "dueDate desc";

/// The field that holds the identifier of a course in the flat listing.
pub const LISTED_COURSE_ID_PATH: &'static str = "courses.list.courses.[list].id";

/// The page of a listing that a visitor asks for.
#[derive(Debug, Clone)]
pub struct PaginationQuery {
    pub page: Option<String>,
}

/// What the page of one course asks for: the course itself, and one page of
/// its course work.
#[derive(Debug, Clone)]
pub struct ClassRequest {
    pub course_id: String,
    pub page_size: i32,
    pub fields: &'static str,
    /// The cursor of the page, if it is not the first.
    pub page_token: Option<String>,
    pub is_first_page: bool,
}

/// What the page of one assignment asks for.
#[derive(Debug, Clone)]
pub struct AssignmentRequest {
    pub course_id: String,
    pub course_work_id: String,
    pub course_fields: &'static str,
    pub course_work_fields: &'static str,
}

/// Plans the page of the course `id`: [`PAGE_SIZE`] units of course work with
/// the fields of [`WORK_PAGE_FIELDS`], from the cursor that the visitor
/// brought, or from the start.
pub fn class(id: String, pages: PaginationQuery) -> (request: ClassRequest)
    ensures
        request.course_id == id,
        request.page_size == PAGE_SIZE,
        request.fields@ == WORK_PAGE_FIELDS@,
        request.page_token == pages.page,
        request.is_first_page == (pages.page is None),
{
    let is_first_page = pages.page.is_none();
    ClassRequest {
        course_id: id,
        page_size: PAGE_SIZE,
        fields: WORK_PAGE_FIELDS,
        page_token: pages.page,
        is_first_page,
    }
}

/// Plans the page of the assignment `id` of the course `course_id`.
pub fn assignment(course_id: String, id: String) -> (request: AssignmentRequest)
    ensures
        request.course_id == course_id,
        request.course_work_id == id,
        request.course_fields@ == COURSE_NAME_FIELDS@,
        request.course_work_fields@ == WORK_FIELDS@,
{
    AssignmentRequest {
        course_id,
        course_work_id: id,
        course_fields: COURSE_NAME_FIELDS,
        course_work_fields: WORK_FIELDS,
    }
}

/// The flat listing of all course work, one course after the other, whatever
/// form a unit of course work is kept in. It is driven from outside: ask for the [`next_course`](Listing::next_course),
/// fetch its course work, [`add`](Listing::add) it, until no course is left.
pub struct Listing<T> {
    courses: Vec<Course>,
    position: usize,
    assignments: Vec<T>,
}

/// What the listing does next.
pub enum ListingStep {
    /// Fetch the course work of the course with this identifier, with
    /// [`SERVICE_PAGE_SIZE`] and [`LATEST_DUE_FIRST`].
    Fetch(String),
    /// Every course was asked.
    Finished,
}

/// Starts the flat listing over the given courses, or names the field that
/// the service's answer lacks.
pub fn todo<T>(courses: Option<Vec<Course>>) -> (listing: Result<Listing<T>, Error>)
    ensures
        match listing {
            Ok(l) => courses is Some && l.courses() == courses->0@ && l.asked() == 0
                && l.gathered() == Seq::<T>::empty(),
            Err(e) => courses is None && e == Error::MissingField(COURSES_PATH),
        },
{
    match courses {
        Some(courses) => Ok(Listing { courses, position: 0, assignments: Vec::new() }),
        None => Err(Error::MissingField(COURSES_PATH)),
    }
}

impl<T> Listing<T> {
    #[verifier::type_invariant]
    spec fn well_formed(&self) -> bool {
        self.position <= self.courses@.len()
    }

    /// The courses to list, in the order they are asked.
    pub closed spec fn courses(&self) -> Seq<Course> {
        self.courses@
    }

    /// How many courses were asked so far.
    pub closed spec fn asked(&self) -> nat {
        self.position as nat
    }

    /// The course work gathered so far.
    pub closed spec fn gathered(&self) -> Seq<T> {
        self.assignments@
    }

    /// Moves on to the next course. A course without an identifier stops the
    /// listing with the missing field.
    pub fn next_course(&mut self) -> (step: Result<ListingStep, Error>)
        ensures
            final(self).courses() == old(self).courses(),
            final(self).gathered() == old(self).gathered(),
            old(self).asked() <= old(self).courses().len(),
            match step {
                Ok(ListingStep::Finished) => old(self).asked() == old(self).courses().len()
                    && final(self).asked() == old(self).asked(),
                Ok(ListingStep::Fetch(id)) => old(self).asked() < old(self).courses().len()
                    && old(self).courses()[old(self).asked() as int].id == Some(id)
                    && final(self).asked() == old(self).asked() + 1,
                Err(e) => old(self).asked() < old(self).courses().len()
                    && old(self).courses()[old(self).asked() as int].id is None
                    && e == Error::MissingField(LISTED_COURSE_ID_PATH)
                    && final(self).asked() == old(self).asked(),
            },
    {
        proof {
            use_type_invariant(&*self);
        }
        if self.position >= self.courses.len() {
            return Ok(ListingStep::Finished);
        }
        match &self.courses[self.position].id {
            Some(id) => {
                let id = id.clone();
                self.position = self.position + 1;
                Ok(ListingStep::Fetch(id))
            },
            None => Err(Error::MissingField(LISTED_COURSE_ID_PATH)),
        }
    }

    /// Takes the course work that was fetched for a course; a course without
    /// any adds nothing.
    pub fn add(&mut self, course_work: Option<Vec<T>>)
        ensures
            final(self).courses() == old(self).courses(),
            final(self).asked() == old(self).asked(),
            final(self).gathered() == match course_work {
                Some(work) => old(self).gathered() + work@,
                None => old(self).gathered(),
            },
    {
        proof {
            use_type_invariant(&*self);
        }
        match course_work {
            Some(mut work) => {
                let mut gathered: Vec<T> = Vec::new();
                core::mem::swap(&mut self.assignments, &mut gathered);
                gathered.append(&mut work);
                core::mem::swap(&mut self.assignments, &mut gathered);
            },
            None => {},
        }
    }

    /// The course work of all courses asked, in the order gathered.
    pub fn into_assignments(self) -> (assignments: Vec<T>)
        ensures
            assignments@ == self.gathered(),
    {
        self.assignments
    }
}

} // verus!

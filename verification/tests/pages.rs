use classroom_dashboard::api::{Course, CourseWork};
use classroom_dashboard::error::{Error, PageOutcome, Reply, ResponsePlan};
use classroom_dashboard::routes::{assignment, class, todo, ListingStep, PaginationQuery};

fn course(id: Option<&str>) -> Course {
    Course { id: id.map(|s| s.to_string()), name: Some("n".to_string()) }
}

fn work(id: &str) -> CourseWork {
    CourseWork {
        id: Some(id.to_string()),
        title: None,
        description: None,
        due_date: None,
        due_time: None,
    }
}

#[test]
fn first_page_of_a_course() {
    let request = class("42".to_string(), PaginationQuery { page: None });
    assert_eq!(request.course_id, "42");
    assert_eq!(request.page_size, 10);
    assert_eq!(request.fields, "nextPageToken,courseWork(id,title)");
    assert!(request.page_token.is_none());
    assert!(request.is_first_page);
}

#[test]
fn later_page_of_a_course() {
    let request = class("42".to_string(), PaginationQuery { page: Some("cursor".to_string()) });
    assert_eq!(request.course_id, "42");
    assert_eq!(request.page_size, 10);
    assert_eq!(request.page_token.as_deref(), Some("cursor"));
    assert!(!request.is_first_page);
}

#[test]
fn assignment_page() {
    let request = assignment("42".to_string(), "7".to_string());
    assert_eq!(request.course_id, "42");
    assert_eq!(request.course_work_id, "7");
    assert_eq!(request.course_fields, "id,name");
    assert_eq!(request.course_work_fields, "id,title");
}

#[test]
fn flat_listing_asks_each_course_in_turn() {
    let mut listing =
        todo(Some(vec![course(Some("a")), course(Some("b")), course(Some("c"))])).ok().unwrap();
    assert!(matches!(listing.next_course(), Ok(ListingStep::Fetch(id)) if id == "a"));
    listing.add(Some(vec![work("a1"), work("a2")]));
    assert!(matches!(listing.next_course(), Ok(ListingStep::Fetch(id)) if id == "b"));
    listing.add(None);
    assert!(matches!(listing.next_course(), Ok(ListingStep::Fetch(id)) if id == "c"));
    listing.add(Some(vec![work("c1")]));
    assert!(matches!(listing.next_course(), Ok(ListingStep::Finished)));
    assert!(matches!(listing.next_course(), Ok(ListingStep::Finished)));
    let ids: Vec<String> =
        listing.into_assignments().into_iter().map(|w| w.id.unwrap()).collect();
    assert_eq!(ids, vec!["a1", "a2", "c1"]);
}

#[test]
fn flat_listing_needs_courses_and_ids() {
    assert!(matches!(
        todo::<CourseWork>(None),
        Err(Error::MissingField("courses.list.courses"))
    ));
    let mut empty = todo::<CourseWork>(Some(Vec::new())).ok().unwrap();
    assert!(matches!(empty.next_course(), Ok(ListingStep::Finished)));
    assert!(empty.into_assignments().is_empty());
    let mut listing = todo(Some(vec![course(Some("a")), course(None)])).ok().unwrap();
    assert!(matches!(listing.next_course(), Ok(ListingStep::Fetch(id)) if id == "a"));
    listing.add(Some(vec![work("a1")]));
    assert!(matches!(
        listing.next_course(),
        Err(Error::MissingField("courses.list.courses.[list].id"))
    ));
}

#[test]
fn missing_credential_redirects_to_sign_in() {
    assert!(matches!(Error::NoToken.response_plan(), ResponsePlan::Redirect("/oauth")));
    assert!(matches!(
        Error::NoToken.into_response(PageOutcome::Rendered("<p>".to_string())),
        Reply::Redirect("/oauth")
    ));
    assert!(matches!(Error::NoToken.into_response(PageOutcome::Unavailable), Reply::Redirect("/oauth")));
    assert!(matches!(
        Error::NoToken.into_response(PageOutcome::Failed("x".to_string())),
        Reply::Redirect("/oauth")
    ));
}

#[test]
fn failures_get_the_failure_page() {
    assert!(matches!(Error::InvalidState.response_plan(), ResponsePlan::RenderPage));
    assert!(matches!(Error::CodeExchangeFailed.response_plan(), ResponsePlan::RenderPage));
    assert!(matches!(Error::MissingField("x").response_plan(), ResponsePlan::RenderPage));
    assert!(matches!(Error::Tera("t".to_string()).response_plan(), ResponsePlan::RenderPage));
    assert!(matches!(
        Error::InvalidState.into_response(PageOutcome::Rendered("<html>".to_string())),
        Reply::Page(html) if html == "<html>"
    ));
}

const PREAMBLE: &str = "There was an error while processing your request.\n\
Additionally, there was an error while trying to use an Error to nicely display the error:\n";

#[test]
fn unrenderable_failure_falls_back_to_plain_text() {
    match Error::InvalidState.into_response(PageOutcome::Unavailable) {
        Reply::Plain { status, body } => {
            assert_eq!(status, 500);
            assert_eq!(
                body,
                format!("{PREAMBLE}Once cell uninitialized, please make an issue")
            );
        }
        _ => panic!("expected the plain fallback"),
    }
    match Error::InvalidState.into_response(PageOutcome::Failed("template broke".to_string())) {
        Reply::Plain { status, body } => {
            assert_eq!(status, 500);
            assert_eq!(body, format!("{PREAMBLE}Tera error: template broke"));
        }
        _ => panic!("expected the plain fallback"),
    }
    match Error::CodeExchangeFailed.to_ugly_response() {
        Reply::Plain { status, body } => {
            assert_eq!(status, 500);
            assert_eq!(body, format!("{PREAMBLE}OAuth Code Exchange Failed"));
        }
        _ => panic!("expected the plain fallback"),
    }
}

#[test]
fn every_failure_has_its_message() {
    assert_eq!(Error::Tera("a".into()).message(), "Tera error: a");
    assert_eq!(Error::GoogleClassroom("b".into()).message(), "Classroom API error: b");
    assert_eq!(Error::SerdeJson("c".into()).message(), "SerdeJson error: c");
    assert_eq!(Error::Join("d".into()).message(), "Tokio task join error: d");
    assert_eq!(
        Error::IntegerConversion.message(),
        "Integer conversion error: TryFromIntError(())"
    );
    assert_eq!(Error::OAuth("e".into()).message(), "OAuth error");
    assert_eq!(Error::Extractor("f").message(), "Extractor error: f");
    assert_eq!(Error::MissingField("g.h").message(), "Missing expected field: g.h");
    assert_eq!(Error::FromUtf8.message(), "Error converting URL-encoded string");
    assert_eq!(
        Error::DurationOutOfRange.message(),
        "Tower-Cookies time error: Source value is out of range for the target type"
    );
    assert_eq!(Error::InvalidState.message(), "Invalid OAuth State");
    assert_eq!(Error::CodeExchangeFailed.message(), "OAuth Code Exchange Failed");
    assert_eq!(Error::NoToken.message(), "No token found - reauthenticating");
    assert_eq!(Error::InvalidDateTime.message(), "Invalid datetime detected");
    assert_eq!(
        Error::UninitializedOnceCell.message(),
        "Once cell uninitialized, please make an issue"
    );
}

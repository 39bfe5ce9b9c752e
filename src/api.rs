use vstd::prelude::*;
use vstd::string::StringExecFns;

use crate::auth::{Auth, AuthView};

verus! {

/// Base address of the timetable API.
pub const SIRIUS_URL: &'static str = "https://sirius.fit.cvut.cz/api/v1";

/// Base address of the course pages API.
pub const COURSES_URL: &'static str = "https://courses.fit.cvut.cz/api/v1";

/// Scope of the tokens for the timetable API.
pub const SIRIUS_SCOPE: &'static str = "cvut:sirius:personal:read";

/// Scope of the tokens for the course pages API.
pub const COURSES_SCOPE: &'static str = "cvut:cpages:common:read";

/// A fresh token cache for the given credentials and scope.
pub open spec fn fresh_cache(client_id: Seq<char>, client_secret: Seq<char>, scope: Seq<char>) -> AuthView {
    AuthView {
        client_id,
        client_secret,
        scope,
        token: None,
        refreshing: false,
        generation: 0,
        last_error: None,
    }
}

/// The address of the events of a course.
pub open spec fn events_url_of(course_code: Seq<char>) -> Seq<char> {
    SIRIUS_URL@ + "/courses/"@ + course_code + "/events"@
}

/// The address of the news of the course pages.
pub open spec fn news_url_of() -> Seq<char> {
    COURSES_URL@ + "/cpages/news.json"@
}

/// Client of the timetable API, with its own token cache.
pub struct Sirius {
    pub auth: Auth,
}

impl Sirius {
    pub fn new(client_id: String, client_secret: String) -> (r: Sirius)
        ensures
            r.auth@ == fresh_cache(client_id@, client_secret@, SIRIUS_SCOPE@),
    {
        Sirius { auth: Auth::new(client_id, client_secret, String::from_str(SIRIUS_SCOPE)) }
    }

    /// The address of the events of `course_code`.
    pub fn events_url(course_code: &str) -> (r: String)
        ensures
            r@ == events_url_of(course_code@),
    {
        String::from_str(SIRIUS_URL).concat("/courses/").concat(course_code).concat("/events")
    }
}

/// Client of the course pages API, with its own token cache.
pub struct Courses {
    pub auth: Auth,
}

impl Courses {
    pub fn new(client_id: String, client_secret: String) -> (r: Courses)
        ensures
            r.auth@ == fresh_cache(client_id@, client_secret@, COURSES_SCOPE@),
    {
        Courses { auth: Auth::new(client_id, client_secret, String::from_str(COURSES_SCOPE)) }
    }

    /// The address of the news.
    pub fn news_url() -> (r: String)
        ensures
            r@ == news_url_of(),
    {
        String::from_str(COURSES_URL).concat("/cpages/news.json")
    }

    /// The value of the authorization header that carries `token`.
    pub fn bearer(token: &str) -> (r: String)
        ensures
            r@ == "Bearer "@ + token@,
    {
        String::from_str("Bearer ").concat(token)
    }
}

/// Both API clients, built from one pair of credentials.
pub struct Api {
    pub sirius: Sirius,
    pub courses: Courses,
}

impl Api {
    pub fn new(client_id: String, client_secret: String) -> (r: Api)
        ensures
            r.sirius.auth@ == fresh_cache(client_id@, client_secret@, SIRIUS_SCOPE@),
            r.courses.auth@ == fresh_cache(client_id@, client_secret@, COURSES_SCOPE@),
    {
        Api {
            sirius: Sirius::new(client_id.clone(), client_secret.clone()),
            courses: Courses::new(client_id, client_secret),
        }
    }
}

} // verus!

//! Errors of the web pages, and the responses they give.
use vstd::prelude::*;

verus! {

/// An error that a page can give as its response.
#[derive(Debug, PartialEq, Eq)]
pub enum ViewError {
    /// 404
    NotFound,
    /// 503
    ServiceUnavailable,
    /// 500
    Internal(&'static str),
}

/// Turning any error into an internal server error.
pub trait ViewResult<T>: Sized {
    fn ise(self) -> (r: Result<T, ViewError>);
}

impl<T, E> ViewResult<T> for Result<T, E> {
    fn ise(self) -> (r: Result<T, ViewError>)
        ensures
            match self {
                Ok(v) => r == Ok::<T, ViewError>(v),
                Err(_) => r == Err::<T, ViewError>(ViewError::Internal("Något gick snett")),
            },
    {
        match self {
            Ok(v) => Ok(v),
            Err(_) => Err(ViewError::Internal("Något gick snett")),
        }
    }
}

/// The http status of each error.
pub open spec fn status_of(e: ViewError) -> u16 {
    match e {
        ViewError::NotFound => 404,
        ViewError::ServiceUnavailable => 503,
        ViewError::Internal(_) => 500,
    }
}

impl ViewError {
    /// The http status code of the response.
    pub fn status(&self) -> (s: u16)
        ensures
            s == status_of(*self),
    {
        match self {
            ViewError::NotFound => 404,
            ViewError::ServiceUnavailable => 503,
            ViewError::Internal(_) => 500,
        }
    }

    /// The message and the explanation (html) of the error page, or `None`
    /// for the page of a page that is not found.
    pub fn page_text(&self) -> (r: Option<(&'static str, &'static str)>)
        ensures
            *self == ViewError::NotFound <==> r is None,
            match *self {
                ViewError::ServiceUnavailable => r == Some::<(&'static str, &'static str)>((
                    "Servern är överlastad",
                    "Fantomen vilar först då fred råder i världen. Den här webbservern verkar dock behöva lite vila just nu. Försök gärna igen om ett litet tag.",
                )),
                ViewError::Internal(msg) => r == Some::<(&'static str, &'static str)>((
                    msg,
                    "Något gick snett. Detta missöde är noterat i webserverns krönika. Du kanske kan försöka igen om en stund? Eller gå tillbaks till <a href='/'>fantomenindexets förstasida</a>? Om det fortfarande verkar trasigt så får du gärna rapportera felet till <a href='mailto:rasmus@krats.se'>rasmus@krats.se</a>.",
                )),
                ViewError::NotFound => true,
            },
    {
        match self {
            ViewError::NotFound => None,
            ViewError::ServiceUnavailable => Some(
                (
                    "Servern är överlastad",
                    "Fantomen vilar först då fred råder i världen. Den här webbservern verkar dock behöva lite vila just nu. Försök gärna igen om ett litet tag.",
                ),
            ),
            ViewError::Internal(msg) => Some(
                (
                    msg,
                    "Något gick snett. Detta missöde är noterat i webserverns krönika. Du kanske kan försöka igen om en stund? Eller gå tillbaks till <a href='/'>fantomenindexets förstasida</a>? Om det fortfarande verkar trasigt så får du gärna rapportera felet till <a href='mailto:rasmus@krats.se'>rasmus@krats.se</a>.",
                ),
            ),
        }
    }

    /// The error for a failure to render a page.
    pub fn rendering() -> (e: ViewError)
        ensures
            e == ViewError::Internal("Renderingsfel"),
    {
        ViewError::Internal("Renderingsfel")
    }

    /// The error for a failing database query.
    pub fn database() -> (e: ViewError)
        ensures
            e == ViewError::Internal("Databasfel"),
    {
        ViewError::Internal("Databasfel")
    }

    /// The error for a failure to get a database connection: a timeout
    /// means the server is overloaded.
    pub fn from_pool(timeout: bool) -> (e: ViewError)
        ensures
            timeout ==> e == ViewError::ServiceUnavailable,
            !timeout ==> e == ViewError::Internal("Databasfel"),
    {
        if timeout {
            ViewError::ServiceUnavailable
        } else {
            ViewError::Internal("Databasfel")
        }
    }
}

} // verus!

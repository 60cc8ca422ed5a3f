//! The error a request handler answers with.
use vstd::prelude::*;

verus! {

/// Why a request failed.
#[derive(Debug, Clone, PartialEq, Eq)]
pub enum AppError {
    /// Something on the server failed; the text says what was being done.
    Internal(&'static str),
    /// The request carries no valid login.
    Unauthorized,
    /// The logged-in user may not do this.
    Forbidden,
    /// The request itself is malformed; the text says how.
    Input(&'static str),
}

/// The HTTP status of an error.
pub open spec fn status_of(e: AppError) -> u16 {
    match e {
        AppError::Internal(_) => 500,
        AppError::Unauthorized => 401,
        AppError::Forbidden => 403,
        AppError::Input(_) => 400,
    }
}

impl AppError {
    /// The HTTP status code the error is answered with.
    pub fn status_code(&self) -> (r: u16)
        ensures
            r == status_of(*self),
    {
        match self {
            AppError::Internal(_) => 500,
            AppError::Unauthorized => 401,
            AppError::Forbidden => 403,
            AppError::Input(_) => 400,
        }
    }

    /// The heading shown on the error page.
    pub fn heading(&self) -> (r: &'static str)
        ensures
            r@ == (match *self {
                AppError::Internal(_) => "INTERNAL_SERVER_ERROR"@,
                AppError::Unauthorized => "UNAUTHORIZED"@,
                AppError::Forbidden => "FORBIDDEN"@,
                AppError::Input(_) => "INPUT_ERROR"@,
            }),
    {
        match self {
            AppError::Internal(_) => "INTERNAL_SERVER_ERROR",
            AppError::Unauthorized => "UNAUTHORIZED",
            AppError::Forbidden => "FORBIDDEN",
            AppError::Input(_) => "INPUT_ERROR",
        }
    }

    /// The text of the error (what `Display` shows for it).
    pub fn message(&self) -> (r: &'static str)
        ensures
            r@ == (match *self {
                AppError::Internal(m) => m@,
                AppError::Unauthorized => "unauthorized"@,
                AppError::Forbidden => "forbidden"@,
                AppError::Input(m) => m@,
            }),
    {
        match self {
            AppError::Internal(m) => m,
            AppError::Unauthorized => "unauthorized",
            AppError::Forbidden => "forbidden",
            AppError::Input(m) => m,
        }
    }
}

/// Turning any failure into an [`AppError`] that names what was being done.
pub trait ResultExt<T>: Sized {
    /// Whether the value is a failure.
    spec fn failed(&self) -> bool;

    /// A failure becomes an internal error with `context`; a success is kept.
    fn reject(self, context: &'static str) -> (r: Result<T, AppError>)
        ensures
            self.failed() ==> r == Err::<T, AppError>(AppError::Internal(context)),
            !self.failed() ==> r is Ok;

    /// A failure becomes an input error with `context`; a success is kept.
    fn reject_input(self, context: &'static str) -> (r: Result<T, AppError>)
        ensures
            self.failed() ==> r == Err::<T, AppError>(AppError::Input(context)),
            !self.failed() ==> r is Ok;
}

impl<T, E> ResultExt<T> for Result<T, E> {
    open spec fn failed(&self) -> bool {
        self is Err
    }

    fn reject(self, context: &'static str) -> (r: Result<T, AppError>)
        ensures
            match self {
                Ok(v) => r == Ok::<T, AppError>(v),
                Err(_) => r == Err::<T, AppError>(AppError::Internal(context)),
            },
    {
        match self {
            Ok(v) => Ok(v),
            Err(_) => Err(AppError::Internal(context)),
        }
    }

    fn reject_input(self, context: &'static str) -> (r: Result<T, AppError>)
        ensures
            match self {
                Ok(v) => r == Ok::<T, AppError>(v),
                Err(_) => r == Err::<T, AppError>(AppError::Input(context)),
            },
    {
        match self {
            Ok(v) => Ok(v),
            Err(_) => Err(AppError::Input(context)),
        }
    }
}

} // verus!

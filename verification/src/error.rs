use vstd::prelude::*;

verus! {

/// Every failure the game library reports.
///
/// `InvalidData` and `InvalidState` carry a message for the server log;
/// `Unexpected` carries the description of the underlying failure
/// (for instance a storage error). None of these details reach the
/// client: see [`AppError::public`].
#[derive(Debug)]
pub enum AppError {
    NotFound,
    AlreadyExists,
    Conflict,
    InvalidData { message: String },
    InvalidState { message: String },
    Unexpected { source: String },
}

/// The HTTP status code and the client-facing message of an error.
pub open spec fn public_of(e: AppError) -> (u16, Seq<char>) {
    match e {
        AppError::NotFound => (404, "game was not found"@),
        AppError::AlreadyExists => (409, "game already exists"@),
        AppError::Conflict => (409, "game was modified concurrently"@),
        AppError::InvalidData { .. } => (400, "internal server error"@),
        AppError::InvalidState { .. } => (500, "internal server error"@),
        AppError::Unexpected { .. } => (500, "internal server error"@),
    }
}

impl AppError {
    /// Persisted data that cannot be turned back into a game.
    pub fn invalid_data(message: String) -> (r: AppError)
        ensures
            r matches AppError::InvalidData { message: m } && m@ == message@,
    {
        AppError::InvalidData { message }
    }

    /// A failure outside the game rules, described by `source`.
    pub fn unexpected(source: String) -> (r: AppError)
        ensures
            r matches AppError::Unexpected { source: s } && s@ == source@,
    {
        AppError::Unexpected { source }
    }

    /// The status code and the message the client is allowed to see.
    /// Invalid stored data is answered with 400 Bad Request, a broken
    /// stored state and any other failure with 500; none of them shows the
    /// client its internal details.
    pub fn public(&self) -> (r: (u16, &'static str))
        ensures
            r.0 == public_of(*self).0,
            r.1@ == public_of(*self).1,
    {
        match self {
            AppError::NotFound => (404, "game was not found"),
            AppError::AlreadyExists => (409, "game already exists"),
            AppError::Conflict => (409, "game was modified concurrently"),
            AppError::InvalidData { .. } => (400, "internal server error"),
            AppError::InvalidState { .. } => (500, "internal server error"),
            AppError::Unexpected { .. } => (500, "internal server error"),
        }
    }

    /// Whether the error is reported with a 5xx status code.
    pub fn is_server_error(&self) -> (r: bool)
        ensures
            r == (500 <= public_of(*self).0 < 600),
    {
        let (status, _) = self.public();
        500 <= status && status < 600
    }
}

} // verus!

use vstd::prelude::*;

verus! {

/// Errors of the application, each mapped to a fixed HTTP status and kind tag.
#[derive(Debug, Clone, PartialEq, Eq)]
pub enum AppError {
    DatabaseError(String),
    ConfigError(String),
    ServerError(String),
    /// All field failures of one validation, in field order.
    ValidationError(Vec<String>),
    AuthError(String),
    IoError(String),
    NotFound(String),
    Conflict(String),
    Forbidden(String),
    TooManyRequests(String),
}

/// The HTTP status that an error maps to.
pub open spec fn status_of(e: AppError) -> u16 {
    match e {
        AppError::DatabaseError(_) => 500,
        AppError::ConfigError(_) => 500,
        AppError::ServerError(_) => 500,
        AppError::IoError(_) => 500,
        AppError::ValidationError(_) => 400,
        AppError::AuthError(_) => 401,
        AppError::NotFound(_) => 404,
        AppError::Conflict(_) => 409,
        AppError::Forbidden(_) => 403,
        AppError::TooManyRequests(_) => 429,
    }
}

/// The machine-readable kind tag of an error.
pub open spec fn kind_of(e: AppError) -> Seq<char> {
    match e {
        AppError::DatabaseError(_) => "database_error"@,
        AppError::ConfigError(_) => "config_error"@,
        AppError::ServerError(_) => "server_error"@,
        AppError::IoError(_) => "io_error"@,
        AppError::ValidationError(_) => "validation_error"@,
        AppError::AuthError(_) => "auth_error"@,
        AppError::NotFound(_) => "not_found"@,
        AppError::Conflict(_) => "conflict"@,
        AppError::Forbidden(_) => "forbidden"@,
        AppError::TooManyRequests(_) => "too_many_requests"@,
    }
}

/// `parts` joined with `sep` between each two.
pub open spec fn joined(parts: Seq<Seq<char>>, sep: Seq<char>) -> Seq<char>
    decreases parts.len(),
{
    if parts.len() == 0 {
        Seq::empty()
    } else if parts.len() == 1 {
        parts[0]
    } else {
        joined(parts.drop_last(), sep) + sep + parts.last()
    }
}

/// The human-readable text of an error.
pub open spec fn description_of(e: AppError) -> Seq<char> {
    match e {
        AppError::DatabaseError(m) => "Database error: "@ + m@,
        AppError::ConfigError(m) => "Configuration error: "@ + m@,
        AppError::ServerError(m) => "Server error: "@ + m@,
        AppError::ValidationError(v) => "Validation errors: "@ + joined(v@.map_values(|s: String| s@), ", "@),
        AppError::AuthError(m) => "Authentication error: "@ + m@,
        AppError::IoError(m) => "IO error: "@ + m@,
        AppError::NotFound(m) => "Not found: "@ + m@,
        AppError::Conflict(m) => "Conflict: "@ + m@,
        AppError::Forbidden(m) => "Forbidden: "@ + m@,
        AppError::TooManyRequests(m) => "Too Many Requests: "@ + m@,
    }
}

fn join_messages(out: &mut String, parts: &Vec<String>)
    ensures
        final(out)@ == old(out)@ + joined(parts@.map_values(|s: String| s@), ", "@),
{
    let ghost texts = parts@.map_values(|s: String| s@);
    let ghost start = out@;
    let mut i: usize = 0;
    proof { assert(texts.take(0) =~= Seq::<Seq<char>>::empty()); }
    while i < parts.len()
        invariant
            texts == parts@.map_values(|s: String| s@),
            i <= parts@.len(),
            out@ == start + joined(texts.take(i as int), ", "@),
        decreases parts@.len() - i,
    {
        if i > 0 {
            out.append(", ");
        }
        out.append(parts[i].as_str());
        proof {
            assert(texts.take(i + 1).drop_last() =~= texts.take(i as int));
            assert(texts.take(i + 1).last() == parts@[i as int]@);
            if i == 0 {
                assert(texts.take(0) =~= Seq::<Seq<char>>::empty());
            }
            assert(out@ =~= start + joined(texts.take(i + 1), ", "@));
        }
        i = i + 1;
    }
    proof { assert(texts.take(parts@.len() as int) =~= texts); }
}

impl AppError {
    pub fn status_code(&self) -> (r: u16)
        ensures
            r == status_of(*self),
    {
        match self {
            AppError::DatabaseError(_) => 500,
            AppError::ConfigError(_) => 500,
            AppError::ServerError(_) => 500,
            AppError::IoError(_) => 500,
            AppError::ValidationError(_) => 400,
            AppError::AuthError(_) => 401,
            AppError::NotFound(_) => 404,
            AppError::Conflict(_) => 409,
            AppError::Forbidden(_) => 403,
            AppError::TooManyRequests(_) => 429,
        }
    }

    /// The human-readable text of the error.
    pub fn describe(&self) -> (r: String)
        ensures
            r@ == description_of(*self),
    {
        match self {
            AppError::DatabaseError(m) => crate::text::join_text("Database error: ", m.as_str()),
            AppError::ConfigError(m) => crate::text::join_text("Configuration error: ", m.as_str()),
            AppError::ServerError(m) => crate::text::join_text("Server error: ", m.as_str()),
            AppError::ValidationError(v) => {
                let mut out = String::from_str("Validation errors: ");
                join_messages(&mut out, v);
                out
            },
            AppError::AuthError(m) => crate::text::join_text("Authentication error: ", m.as_str()),
            AppError::IoError(m) => crate::text::join_text("IO error: ", m.as_str()),
            AppError::NotFound(m) => crate::text::join_text("Not found: ", m.as_str()),
            AppError::Conflict(m) => crate::text::join_text("Conflict: ", m.as_str()),
            AppError::Forbidden(m) => crate::text::join_text("Forbidden: ", m.as_str()),
            AppError::TooManyRequests(m) => crate::text::join_text("Too Many Requests: ", m.as_str()),
        }
    }

    pub fn error_kind(&self) -> (r: String)
        ensures
            r@ == kind_of(*self),
    {
        let tag = match self {
            AppError::DatabaseError(_) => "database_error",
            AppError::ConfigError(_) => "config_error",
            AppError::ServerError(_) => "server_error",
            AppError::IoError(_) => "io_error",
            AppError::ValidationError(_) => "validation_error",
            AppError::AuthError(_) => "auth_error",
            AppError::NotFound(_) => "not_found",
            AppError::Conflict(_) => "conflict",
            AppError::Forbidden(_) => "forbidden",
            AppError::TooManyRequests(_) => "too_many_requests",
        };
        String::from_str(tag)
    }
}

} // verus!

use vstd::prelude::*;

use crate::config::LogLevel;

verus! {

/// A column of a result row that the grouping engine reads strictly.
#[derive(Debug, Clone, Copy, PartialEq, Eq, Structural)]
pub enum RowField {
    Id,
    CreatedAt,
    UpdatedAt,
    ShrTime,
    ShrPrice,
    ShrRoomId,
    ShrRoomName,
    TId,
    TName,
    TLocation,
}

pub open spec fn column_of(field: RowField) -> Seq<char> {
    match field {
        RowField::Id => "id"@,
        RowField::CreatedAt => "created_at"@,
        RowField::UpdatedAt => "updated_at"@,
        RowField::ShrTime => "shr_time"@,
        RowField::ShrPrice => "shr_price"@,
        RowField::ShrRoomId => "shr_room_id"@,
        RowField::ShrRoomName => "shr_room_name"@,
        RowField::TId => "t_id"@,
        RowField::TName => "t_name"@,
        RowField::TLocation => "t_location"@,
    }
}

impl RowField {
    /// The name of the column in a result row.
    pub fn column_name(&self) -> (r: &'static str)
        ensures
            r@ == column_of(*self),
    {
        match self {
            RowField::Id => "id",
            RowField::CreatedAt => "created_at",
            RowField::UpdatedAt => "updated_at",
            RowField::ShrTime => "shr_time",
            RowField::ShrPrice => "shr_price",
            RowField::ShrRoomId => "shr_room_id",
            RowField::ShrRoomName => "shr_room_name",
            RowField::TId => "t_id",
            RowField::TName => "t_name",
            RowField::TLocation => "t_location",
        }
    }
}

/// A column that is missing or cannot be read, and the position in the input
/// of the row that lacks it.
#[derive(Debug, Clone, Copy, PartialEq, Eq, Structural)]
pub struct RowError {
    pub field: RowField,
    pub row: usize,
}

/// A validation failure on one field of a request.
#[derive(Debug, Clone)]
pub struct FieldError {
    pub field: String,
    pub message: String,
}

#[derive(Debug)]
pub enum AppError {
    Validation(Vec<FieldError>),
    Unauthorized(String),
    BadRequest(String),
    /// The row source returned data the grouping engine cannot interpret.
    MalformedRow { field: RowField, row: usize },
    /// An identifier supplied by the caller has the wrong shape.
    InvalidArgument { value: String },
    /// The requested entity does not exist.
    NotFound { entity: String, id: String },
    /// The storage layer failed.
    Storage { cause: String },
}

/// The body of an error response.
#[derive(Debug)]
pub struct AppErrorResponse<'a> {
    pub code: u16,
    pub message: &'a str,
    pub validation_errors: Option<&'a [FieldError]>,
}

impl From<RowError> for AppError {
    fn from(e: RowError) -> (r: AppError)
        ensures
            r == (AppError::MalformedRow { field: e.field, row: e.row }),
    {
        AppError::MalformedRow { field: e.field, row: e.row }
    }
}

impl vstd::std_specs::convert::FromSpecImpl<RowError> for AppError {
    open spec fn obeys_from_spec() -> bool {
        true
    }

    open spec fn from_spec(e: RowError) -> AppError {
        AppError::MalformedRow { field: e.field, row: e.row }
    }
}

impl AppError {
    /// Whether the failure lies with the service rather than with the caller.
    pub open spec fn server_side(&self) -> bool {
        self is MalformedRow || self is Storage
    }

    pub open spec fn status_of(&self) -> u16 {
        match self {
            AppError::Validation(_) => 400,
            AppError::BadRequest(_) => 400,
            AppError::InvalidArgument { .. } => 400,
            AppError::Unauthorized(_) => 401,
            AppError::NotFound { .. } => 404,
            AppError::MalformedRow { .. } => 500,
            AppError::Storage { .. } => 500,
        }
    }

    /// The HTTP status code the error is answered with.
    pub fn status_code(&self) -> (r: u16)
        ensures
            r == self.status_of(),
    {
        match self {
            AppError::Validation(_) => 400,
            AppError::BadRequest(_) => 400,
            AppError::InvalidArgument { .. } => 400,
            AppError::Unauthorized(_) => 401,
            AppError::NotFound { .. } => 404,
            AppError::MalformedRow { .. } => 500,
            AppError::Storage { .. } => 500,
        }
    }

    /// The severity the error is logged at: server-side failures as errors,
    /// the caller's mistakes as information.
    pub fn log_level(&self) -> (r: LogLevel)
        ensures
            self.server_side() ==> r == LogLevel::Error,
            !self.server_side() ==> r == LogLevel::Info,
    {
        match self {
            AppError::MalformedRow { .. } => LogLevel::Error,
            AppError::Storage { .. } => LogLevel::Error,
            _ => LogLevel::Info,
        }
    }

    /// The message shown to the client; server-side failures are not detailed.
    pub open spec fn message_of(&self) -> Seq<char> {
        match self {
            AppError::Validation(_) => "ValidationError"@,
            AppError::Unauthorized(m) => "Unauthorized: "@ + m@,
            AppError::BadRequest(m) => "BadRequest: "@ + m@,
            AppError::InvalidArgument { value } => "InvalidArgument: "@ + value@,
            AppError::NotFound { entity, id } => entity@ + " with id: "@ + id@
                + " does not exist"@,
            AppError::MalformedRow { .. } => "An internal server error occured. Please try again later."@,
            AppError::Storage { .. } => "An internal server error occured. Please try again later."@,
        }
    }

    pub fn get_error_message(&self) -> (r: String)
        ensures
            r@ == self.message_of(),
    {
        match self {
            AppError::Validation(_) => String::from_str("ValidationError"),
            AppError::Unauthorized(m) => String::from_str("Unauthorized: ").concat(m.as_str()),
            AppError::BadRequest(m) => String::from_str("BadRequest: ").concat(m.as_str()),
            AppError::InvalidArgument { value } => String::from_str("InvalidArgument: ").concat(
                value.as_str(),
            ),
            AppError::NotFound { entity, id } => entity.clone().concat(" with id: ").concat(
                id.as_str(),
            ).concat(" does not exist"),
            _ => String::from_str("An internal server error occured. Please try again later."),
        }
    }

    /// The response body for this error, carrying `message` and, for a
    /// validation failure, the failing fields.
    pub fn error_response<'a>(&'a self, message: &'a str) -> (r: AppErrorResponse<'a>)
        ensures
            r.code == self.status_of(),
            r.message@ == message@,
            r.validation_errors is Some <==> self is Validation,
            r.validation_errors matches Some(errs) ==> errs@ == self->Validation_0@,
    {
        let code = self.status_code();
        match self {
            AppError::Validation(errors) => AppErrorResponse {
                code,
                message,
                validation_errors: Some(errors.as_slice()),
            },
            _ => AppErrorResponse { code, message, validation_errors: None },
        }
    }
}

} // verus!

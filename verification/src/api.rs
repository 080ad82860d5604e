//! The envelope in which every request is answered.
use vstd::prelude::*;

verus! {

/// The statuses with which requests are answered.
#[derive(Debug, Clone, Copy, PartialEq, Eq, Structural)]
pub enum Status {
    Succeeded,
    Accepted,
    BadRequest,
    Unauthorized,
    NotFound,
    Conflict,
    InternalServerError,
    BadGateway,
    ServiceUnavailable,
}

impl Status {
    /// The number of a status in HTTP.
    pub open spec fn number(self) -> u16 {
        match self {
            Status::Succeeded => 200,
            Status::Accepted => 202,
            Status::BadRequest => 400,
            Status::Unauthorized => 401,
            Status::NotFound => 404,
            Status::Conflict => 409,
            Status::InternalServerError => 500,
            Status::BadGateway => 502,
            Status::ServiceUnavailable => 503,
        }
    }

    pub fn code(self) -> (r: u16)
        ensures
            r == self.number(),
    {
        match self {
            Status::Succeeded => 200,
            Status::Accepted => 202,
            Status::BadRequest => 400,
            Status::Unauthorized => 401,
            Status::NotFound => 404,
            Status::Conflict => 409,
            Status::InternalServerError => 500,
            Status::BadGateway => 502,
            Status::ServiceUnavailable => 503,
        }
    }
}

/// Whether a request succeeded, a message for people, and what was asked for.
#[derive(Debug)]
pub struct ApiResponse<T> {
    pub success: bool,
    pub message: String,
    pub data: Option<T>,
}

impl<T> ApiResponse<T> {
    /// Whether this says that a request failed, in these words.
    pub open spec fn is_error(self, message: Seq<char>) -> bool {
        !self.success && self.message@ == message && self.data is None
    }

    /// Whether this says that a request succeeded, in these words and with this data.
    pub open spec fn is_success(self, message: Seq<char>, data: Option<T>) -> bool {
        self.success && self.message@ == message && self.data == data
    }

    pub fn success(message: &str, data: Option<T>) -> (r: ApiResponse<T>)
        ensures
            r.is_success(message@, data),
    {
        ApiResponse { success: true, message: message.to_owned(), data }
    }

    pub fn error(message: &str) -> (r: ApiResponse<T>)
        ensures
            r.is_error(message@),
    {
        ApiResponse { success: false, message: message.to_owned(), data: None }
    }
}

/// An answer with its status.
#[derive(Debug)]
pub struct Reply<T> {
    pub status: Status,
    pub body: ApiResponse<T>,
}

impl<T> Reply<T> {
    pub open spec fn is_error(self, status: Status, message: Seq<char>) -> bool {
        self.status == status && self.body.is_error(message)
    }

    pub open spec fn is_success(self, status: Status, message: Seq<char>, data: Option<T>) -> bool {
        self.status == status && self.body.is_success(message, data)
    }

    pub fn success(status: Status, message: &str, data: Option<T>) -> (r: Reply<T>)
        ensures
            r.is_success(status, message@, data),
    {
        Reply { status, body: ApiResponse::success(message, data) }
    }

    pub fn error(status: Status, message: &str) -> (r: Reply<T>)
        ensures
            r.is_error(status, message@),
    {
        Reply { status, body: ApiResponse::error(message) }
    }
}

/// What came of asking the store: there was no room, it answered, or it failed.
#[derive(Debug)]
pub enum StoreOutcome<T> {
    Busy,
    Loaded(T),
    Failed,
}

pub const STORE_BUSY_MESSAGE: &'static str = "订阅存储繁忙，请稍后重试";

/// A refusal, before it is put into the envelope.
pub type Refusal = (Status, String);

/// Whether a refusal has this status and these words.
pub open spec fn refused_with(refusal: Refusal, status: Status, message: Seq<char>) -> bool {
    refusal.0 == status && refusal.1@ == message
}

/// A refusal in the envelope.
pub fn refusal_reply<T>(refusal: Refusal) -> (r: Reply<T>)
    ensures
        r.is_error(refusal.0, refusal.1@),
{
    Reply::error(refusal.0, refusal.1.as_str())
}

/// Each status has its number in HTTP.
pub proof fn law_statuses_have_their_numbers(status: Status, r: u16)
    requires
        call_ensures(Status::code, (status,), r),
    ensures
        r == 200 <==> status == Status::Succeeded,
        r == 202 <==> status == Status::Accepted,
        r == 400 <==> status == Status::BadRequest,
        r == 401 <==> status == Status::Unauthorized,
        r == 404 <==> status == Status::NotFound,
        r == 409 <==> status == Status::Conflict,
        r == 500 <==> status == Status::InternalServerError,
        r == 502 <==> status == Status::BadGateway,
        r == 503 <==> status == Status::ServiceUnavailable,
{
}

/// An answer to a request that succeeded says so and has what was asked for; one to a request that
/// failed says so and has nothing. Both have the status and the words that they were given.
pub proof fn law_answers_say_whether_they_succeeded<T>(
    status: Status,
    message: &str,
    data: Option<T>,
    succeeded: Reply<T>,
    failed: Reply<T>,
)
    requires
        call_ensures(Reply::<T>::success, (status, message, data), succeeded),
        call_ensures(Reply::<T>::error, (status, message), failed),
    ensures
        succeeded.body.success,
        succeeded.body.data == data,
        succeeded.body.message@ == message@,
        succeeded.status == status,
        !failed.body.success,
        failed.body.data is None,
        failed.body.message@ == message@,
        failed.status == status,
{
}

/// The same holds of what an answer holds, and a refusal is answered in its own words.
pub proof fn law_refusals_are_answered_as_failures<T>(
    refusal: Refusal,
    r: Reply<T>,
    message: &str,
    data: Option<T>,
    succeeded: ApiResponse<T>,
    failed: ApiResponse<T>,
)
    requires
        call_ensures(refusal_reply::<T>, (refusal,), r),
        call_ensures(ApiResponse::<T>::success, (message, data), succeeded),
        call_ensures(ApiResponse::<T>::error, (message,), failed),
    ensures
        !r.body.success,
        r.body.data is None,
        r.status == refusal.0,
        r.body.message@ == refusal.1@,
        succeeded.success && succeeded.data == data && succeeded.message@ == message@,
        !failed.success && failed.data is None && failed.message@ == message@,
{
}

} // verus!

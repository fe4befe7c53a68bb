use vstd::prelude::*;

verus! {

/// Everything that can go wrong while answering a request.
///
/// Variants that stand for a failure of some other component carry that
/// failure's own message.
#[derive(Debug, Clone, PartialEq, Eq)]
pub enum ServiceError {
    JoinError(String),
    AddrParseError(String),
    YamlError(String),
    InvalidHeaderName(String),
    AuthUsersError(String),
    Unauthorized,
    InternalServerError,
    BadRequest(String),
    WeatherUtilError(String),
    IoError(String),
    Utf8Error(String),
    SerdeJsonError(String),
    TimeFormatError(String),
    AnyhowError(String),
    PgError(String),
    ParseIntError(String),
    UrlEncodedError(String),
    FmtError(String),
}

/// The message each error displays.
pub open spec fn error_text(e: ServiceError) -> Seq<char> {
    match e {
        ServiceError::JoinError(m) => "JoinError "@ + m@,
        ServiceError::AddrParseError(m) => "AddrParseError "@ + m@,
        ServiceError::YamlError(m) => "YamlError "@ + m@,
        ServiceError::InvalidHeaderName(m) => "InvalidHeaderName "@ + m@,
        ServiceError::AuthUsersError(m) => "AuthUsersError "@ + m@,
        ServiceError::Unauthorized => "Unauthorized"@,
        ServiceError::InternalServerError => "Internal Server Error"@,
        ServiceError::BadRequest(m) => "BadRequest: "@ + m@,
        ServiceError::WeatherUtilError(m) => "Weather-util error "@ + m@,
        ServiceError::IoError(m) => "io Error "@ + m@,
        ServiceError::Utf8Error(_) => "invalid utf8"@,
        ServiceError::SerdeJsonError(m) => "SerdeJsonError "@ + m@,
        ServiceError::TimeFormatError(m) => "TimeFormatError "@ + m@,
        ServiceError::AnyhowError(m) => "AnyhowError "@ + m@,
        ServiceError::PgError(m) => "PgError "@ + m@,
        ServiceError::ParseIntError(m) => "ParseIntError "@ + m@,
        ServiceError::UrlEncodedError(m) => "UrlEncodedError "@ + m@,
        ServiceError::FmtError(m) => "FmtError "@ + m@,
    }
}

/// How an error is answered over HTTP.
#[derive(Debug, Clone, PartialEq, Eq)]
pub enum ErrorReply {
    /// The login page, with status 200 and content type `text/html`.
    LoginPage,
    /// A JSON object `{"message": ..}` with content type `application/json`.
    Json { status: u16, message: String },
}

/// Which reply each error gets: authorization failures show the login page,
/// a bad request answers 400 with its own text, and anything else answers
/// 500 with `Internal Server Error: ` and the error's message.
pub open spec fn spec_reply(e: ServiceError) -> (u16, Option<Seq<char>>) {
    match e {
        ServiceError::Unauthorized | ServiceError::AuthUsersError(_) | ServiceError::InvalidHeaderName(
            _,
        ) => (200, None),
        ServiceError::BadRequest(s) => (400, Some(s@)),
        _ => (500, Some("Internal Server Error: "@ + error_text(e))),
    }
}

fn prefixed(prefix: &str, m: &String) -> (r: String)
    ensures
        r@ == prefix@ + m@,
{
    String::from_str(prefix).concat(m.as_str())
}

impl ServiceError {
    /// The message this error displays.
    pub fn to_message(&self) -> (r: String)
        ensures
            r@ == error_text(*self),
    {
        match self {
            ServiceError::JoinError(m) => prefixed("JoinError ", m),
            ServiceError::AddrParseError(m) => prefixed("AddrParseError ", m),
            ServiceError::YamlError(m) => prefixed("YamlError ", m),
            ServiceError::InvalidHeaderName(m) => prefixed("InvalidHeaderName ", m),
            ServiceError::AuthUsersError(m) => prefixed("AuthUsersError ", m),
            ServiceError::Unauthorized => String::from_str("Unauthorized"),
            ServiceError::InternalServerError => String::from_str("Internal Server Error"),
            ServiceError::BadRequest(m) => prefixed("BadRequest: ", m),
            ServiceError::WeatherUtilError(m) => prefixed("Weather-util error ", m),
            ServiceError::IoError(m) => prefixed("io Error ", m),
            ServiceError::Utf8Error(_) => String::from_str("invalid utf8"),
            ServiceError::SerdeJsonError(m) => prefixed("SerdeJsonError ", m),
            ServiceError::TimeFormatError(m) => prefixed("TimeFormatError ", m),
            ServiceError::AnyhowError(m) => prefixed("AnyhowError ", m),
            ServiceError::PgError(m) => prefixed("PgError ", m),
            ServiceError::ParseIntError(m) => prefixed("ParseIntError ", m),
            ServiceError::UrlEncodedError(m) => prefixed("UrlEncodedError ", m),
            ServiceError::FmtError(m) => prefixed("FmtError ", m),
        }
    }

    /// The HTTP reply for this error.
    pub fn reply(&self) -> (r: ErrorReply)
        ensures
            match r {
                ErrorReply::LoginPage => spec_reply(*self) == (200u16, None::<Seq<char>>),
                ErrorReply::Json { status, message } => spec_reply(*self) == (status, Some(message@)),
            },
    {
        match self {
            ServiceError::Unauthorized | ServiceError::AuthUsersError(_)
            | ServiceError::InvalidHeaderName(_) => ErrorReply::LoginPage,
            ServiceError::BadRequest(s) => ErrorReply::Json { status: 400, message: s.clone() },
            _ => {
                let text = self.to_message();
                ErrorReply::Json {
                    status: 500,
                    message: String::from_str("Internal Server Error: ").concat(text.as_str()),
                }
            },
        }
    }
}

/// How each error is answered: the three authorization failures show the
/// login page; a bad request answers 400 with its own text; every other
/// error answers 500 with `Internal Server Error: ` followed by the text the
/// error displays.
pub proof fn lemma_reply_by_kind(e: ServiceError)
    ensures
        (e is Unauthorized || e is AuthUsersError || e is InvalidHeaderName) ==> spec_reply(e) == (
            200u16,
            None::<Seq<char>>,
        ),
        e matches ServiceError::BadRequest(m) ==> spec_reply(e) == (400u16, Some(m@)),
        !(e is Unauthorized || e is AuthUsersError || e is InvalidHeaderName || e is BadRequest) ==> spec_reply(e)
            == (500u16, Some("Internal Server Error: "@ + error_text(e))),
        e matches ServiceError::ParseIntError(m) ==> spec_reply(e) == (
            500u16,
            Some("Internal Server Error: "@ + "ParseIntError "@ + m@),
        ),
{
    if let ServiceError::ParseIntError(m) = e {
        assert("Internal Server Error: "@ + ("ParseIntError "@ + m@) =~= "Internal Server Error: "@ + "ParseIntError "@ + m@);
    }
}

} // verus!

use weather_api_rust::errors::{ErrorReply, ServiceError};

#[test]
fn test_error_messages() {
    assert_eq!(ServiceError::Unauthorized.to_message(), "Unauthorized");
    assert_eq!(ServiceError::InternalServerError.to_message(), "Internal Server Error");
    assert_eq!(ServiceError::BadRequest("oops".into()).to_message(), "BadRequest: oops");
    assert_eq!(ServiceError::IoError("gone".into()).to_message(), "io Error gone");
    assert_eq!(ServiceError::Utf8Error("x".into()).to_message(), "invalid utf8");
    assert_eq!(
        ServiceError::WeatherUtilError("bad".into()).to_message(),
        "Weather-util error bad"
    );
}

#[test]
fn test_error_replies() {
    assert_eq!(ServiceError::Unauthorized.reply(), ErrorReply::LoginPage);
    assert_eq!(ServiceError::AuthUsersError("a".into()).reply(), ErrorReply::LoginPage);
    assert_eq!(ServiceError::InvalidHeaderName("h".into()).reply(), ErrorReply::LoginPage);
    assert_eq!(
        ServiceError::BadRequest("no option".into()).reply(),
        ErrorReply::Json { status: 400, message: "no option".into() }
    );
    assert_eq!(
        ServiceError::PgError("down".into()).reply(),
        ErrorReply::Json { status: 500, message: "Internal Server Error: PgError down".into() }
    );
    assert_eq!(
        ServiceError::InternalServerError.reply(),
        ErrorReply::Json {
            status: 500,
            message: "Internal Server Error: Internal Server Error".into()
        }
    );
}

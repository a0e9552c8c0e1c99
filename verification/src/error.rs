//! Errors the library reports, each with its message.
use vstd::prelude::*;

verus! {

/// An application error with a human-readable message.
#[derive(Debug, Clone, PartialEq, Eq)]
pub enum AppError {
    BadRequest(String),
    Unauthorized(String),
    InternalError(String),
    RetroUrlInvalid(String),
    RetroAnswersMissing(String),
    RetroAnswerWhitespaceOnly(String),
    RetroAnswerTooLong(String),
    SearchKeywordInvalid(String),
    ValidationError(String),
    AiAnalysisFailed(String),
    AiGeneralError(String),
    AiServiceUnavailable(String),
    AiConnectionFailed(String),
    RetroAlreadySubmitted(String),
    RetroAlreadyAnalyzed(String),
    RetroInsufficientData(String),
    RetrospectNotFound(String),
    TeamAccessDenied(String),
    AiMonthlyLimitExceeded(String),
    InvalidToken(String),
    TeamNotFound(String),
    RetrospectAlreadyStarted(String),
    ParticipantDuplicate(String),
    JsonParseFailed(String),
    MemberNotFound(String),
}

impl AppError {
    /// The message carried by the error.
    pub fn message(&self) -> (r: &str)
        ensures
            r@ == self.message_view(),
    {
        match self {
            AppError::BadRequest(m) => m.as_str(),
            AppError::Unauthorized(m) => m.as_str(),
            AppError::InternalError(m) => m.as_str(),
            AppError::RetroUrlInvalid(m) => m.as_str(),
            AppError::RetroAnswersMissing(m) => m.as_str(),
            AppError::RetroAnswerWhitespaceOnly(m) => m.as_str(),
            AppError::RetroAnswerTooLong(m) => m.as_str(),
            AppError::SearchKeywordInvalid(m) => m.as_str(),
            AppError::ValidationError(m) => m.as_str(),
            AppError::AiAnalysisFailed(m) => m.as_str(),
            AppError::AiGeneralError(m) => m.as_str(),
            AppError::AiServiceUnavailable(m) => m.as_str(),
            AppError::AiConnectionFailed(m) => m.as_str(),
            AppError::RetroAlreadySubmitted(m) => m.as_str(),
            AppError::RetroAlreadyAnalyzed(m) => m.as_str(),
            AppError::RetroInsufficientData(m) => m.as_str(),
            AppError::RetrospectNotFound(m) => m.as_str(),
            AppError::TeamAccessDenied(m) => m.as_str(),
            AppError::AiMonthlyLimitExceeded(m) => m.as_str(),
            AppError::InvalidToken(m) => m.as_str(),
            AppError::TeamNotFound(m) => m.as_str(),
            AppError::RetrospectAlreadyStarted(m) => m.as_str(),
            AppError::ParticipantDuplicate(m) => m.as_str(),
            AppError::JsonParseFailed(m) => m.as_str(),
            AppError::MemberNotFound(m) => m.as_str(),
        }
    }

    pub open spec fn message_view(&self) -> Seq<char> {
        match self {
            AppError::BadRequest(m) => m@,
            AppError::Unauthorized(m) => m@,
            AppError::InternalError(m) => m@,
            AppError::RetroUrlInvalid(m) => m@,
            AppError::RetroAnswersMissing(m) => m@,
            AppError::RetroAnswerWhitespaceOnly(m) => m@,
            AppError::RetroAnswerTooLong(m) => m@,
            AppError::SearchKeywordInvalid(m) => m@,
            AppError::ValidationError(m) => m@,
            AppError::AiAnalysisFailed(m) => m@,
            AppError::AiGeneralError(m) => m@,
            AppError::AiServiceUnavailable(m) => m@,
            AppError::AiConnectionFailed(m) => m@,
            AppError::RetroAlreadySubmitted(m) => m@,
            AppError::RetroAlreadyAnalyzed(m) => m@,
            AppError::RetroInsufficientData(m) => m@,
            AppError::RetrospectNotFound(m) => m@,
            AppError::TeamAccessDenied(m) => m@,
            AppError::AiMonthlyLimitExceeded(m) => m@,
            AppError::InvalidToken(m) => m@,
            AppError::TeamNotFound(m) => m@,
            AppError::RetrospectAlreadyStarted(m) => m@,
            AppError::ParticipantDuplicate(m) => m@,
            AppError::JsonParseFailed(m) => m@,
            AppError::MemberNotFound(m) => m@,
        }
    }
}

/// The kind of an error, without its message.
#[derive(Debug, Clone, Copy, PartialEq, Eq, Structural)]
pub enum ErrorKind {
    BadRequest,
    Unauthorized,
    InternalError,
    RetroUrlInvalid,
    RetroAnswersMissing,
    RetroAnswerWhitespaceOnly,
    RetroAnswerTooLong,
    SearchKeywordInvalid,
    ValidationError,
    AiAnalysisFailed,
    AiGeneralError,
    AiServiceUnavailable,
    AiConnectionFailed,
    RetroAlreadySubmitted,
    RetroAlreadyAnalyzed,
    RetroInsufficientData,
    RetrospectNotFound,
    TeamAccessDenied,
    AiMonthlyLimitExceeded,
    InvalidToken,
    TeamNotFound,
    RetrospectAlreadyStarted,
    ParticipantDuplicate,
    JsonParseFailed,
    MemberNotFound,
}

impl View for AppError {
    type V = (ErrorKind, Seq<char>);

    open spec fn view(&self) -> (ErrorKind, Seq<char>) {
        match self {
            AppError::BadRequest(m) => (ErrorKind::BadRequest, m@),
            AppError::Unauthorized(m) => (ErrorKind::Unauthorized, m@),
            AppError::InternalError(m) => (ErrorKind::InternalError, m@),
            AppError::RetroUrlInvalid(m) => (ErrorKind::RetroUrlInvalid, m@),
            AppError::RetroAnswersMissing(m) => (ErrorKind::RetroAnswersMissing, m@),
            AppError::RetroAnswerWhitespaceOnly(m) => (ErrorKind::RetroAnswerWhitespaceOnly, m@),
            AppError::RetroAnswerTooLong(m) => (ErrorKind::RetroAnswerTooLong, m@),
            AppError::SearchKeywordInvalid(m) => (ErrorKind::SearchKeywordInvalid, m@),
            AppError::ValidationError(m) => (ErrorKind::ValidationError, m@),
            AppError::AiAnalysisFailed(m) => (ErrorKind::AiAnalysisFailed, m@),
            AppError::AiGeneralError(m) => (ErrorKind::AiGeneralError, m@),
            AppError::AiServiceUnavailable(m) => (ErrorKind::AiServiceUnavailable, m@),
            AppError::AiConnectionFailed(m) => (ErrorKind::AiConnectionFailed, m@),
            AppError::RetroAlreadySubmitted(m) => (ErrorKind::RetroAlreadySubmitted, m@),
            AppError::RetroAlreadyAnalyzed(m) => (ErrorKind::RetroAlreadyAnalyzed, m@),
            AppError::RetroInsufficientData(m) => (ErrorKind::RetroInsufficientData, m@),
            AppError::RetrospectNotFound(m) => (ErrorKind::RetrospectNotFound, m@),
            AppError::TeamAccessDenied(m) => (ErrorKind::TeamAccessDenied, m@),
            AppError::AiMonthlyLimitExceeded(m) => (ErrorKind::AiMonthlyLimitExceeded, m@),
            AppError::InvalidToken(m) => (ErrorKind::InvalidToken, m@),
            AppError::TeamNotFound(m) => (ErrorKind::TeamNotFound, m@),
            AppError::RetrospectAlreadyStarted(m) => (ErrorKind::RetrospectAlreadyStarted, m@),
            AppError::ParticipantDuplicate(m) => (ErrorKind::ParticipantDuplicate, m@),
            AppError::JsonParseFailed(m) => (ErrorKind::JsonParseFailed, m@),
            AppError::MemberNotFound(m) => (ErrorKind::MemberNotFound, m@),
        }
    }
}

/// The view of a result that carries an application error.
pub open spec fn result_view<T>(r: Result<T, AppError>) -> Result<(), (ErrorKind, Seq<char>)> {
    match r {
        Ok(_) => Ok(()),
        Err(e) => Err(e@),
    }
}

} // verus!

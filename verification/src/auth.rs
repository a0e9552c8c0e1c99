//! Sign-up and login requests, and the rules their fields are held to.
use vstd::prelude::*;
use validator::{ValidateEmail, ValidateUrl};
use crate::retro_dto::{char_count, note, outcome, ValidationErrors};
use crate::string_set::StringSet;

verus! {

/// Whether `validator` accepts the text as an e-mail address (HTML5 rules,
/// with internationalised domains).
pub uninterp spec fn validator_email_ok(s: Seq<char>) -> bool;

/// Whether `validator` accepts the text as a URL (`url::Url::parse` succeeds).
pub uninterp spec fn validator_url_ok(s: Seq<char>) -> bool;

/// Whether `char::is_alphanumeric` holds (Unicode `Alphabetic` or `Numeric`).
pub uninterp spec fn unicode_alphanumeric(c: char) -> bool;

/// Checks an address with `validator::ValidateEmail::validate_email`; the
/// result is named `validator_email_ok`. Its source refuses an empty text and
/// one without `@` before any other check, which is stated here.
#[verifier::external_body]
fn email_ok(s: &str) -> (b: bool)
    ensures
        b == validator_email_ok(s@),
        (s@.len() == 0 || !s@.contains('@')) ==> !b,
{
    s.validate_email()
}

/// Checks a URL with `validator::ValidateUrl::validate_url`; the result is
/// named `validator_url_ok`.
#[verifier::external_body]
fn url_ok(s: &str) -> (b: bool)
    ensures
        b == validator_url_ok(s@),
{
    s.validate_url()
}

/// `char::is_alphanumeric`; the result is named `unicode_alphanumeric`. The
/// standard library documents ASCII letters and digits as alphanumeric, which
/// is stated here.
#[verifier::external_body]
fn is_alphanumeric(c: char) -> (b: bool)
    ensures
        b == unicode_alphanumeric(c),
        ('a' <= c <= 'z' || 'A' <= c <= 'Z' || '0' <= c <= '9') ==> b,
{
    c.is_alphanumeric()
}

/// Whether a character is Hangul: a syllable, a consonant or a vowel jamo.
pub open spec fn is_korean_char(c: char) -> bool {
    ('\u{AC00}' <= c <= '\u{D7A3}') || ('\u{3131}' <= c <= '\u{314E}') || ('\u{314F}' <= c <= '\u{3163}')
}

/// Whether a nickname uses only letters, digits and Hangul.
pub open spec fn nickname_chars_ok(s: Seq<char>) -> bool {
    forall|i: int| 0 <= i < s.len() ==> unicode_alphanumeric(#[trigger] s[i]) || is_korean_char(s[i])
}

/// Whether a character is Hangul.
pub fn is_korean(c: char) -> (b: bool)
    ensures
        b == is_korean_char(c),
{
    ('\u{AC00}' <= c && c <= '\u{D7A3}') || ('\u{3131}' <= c && c <= '\u{314E}') || ('\u{314F}' <= c && c <= '\u{3163}')
}

/// Whether every character of a nickname is a letter, a digit or Hangul.
pub fn validate_nickname(nickname: &str) -> (b: bool)
    ensures
        b == nickname_chars_ok(nickname@),
{
    let n = nickname.unicode_len();
    let mut i: usize = 0;
    while i < n
        invariant
            n == nickname@.len(),
            i <= n,
            forall|j: int| 0 <= j < i ==> unicode_alphanumeric(#[trigger] nickname@[j]) || is_korean_char(nickname@[j]),
        decreases n - i,
    {
        let c = nickname.get_char(i);
        if !is_alphanumeric(c) && !is_korean(c) {
            return false;
        }
        i = i + 1;
    }
    true
}

/// The social accounts a member can log in with.
#[derive(Debug, Clone, Copy, PartialEq, Eq, Structural)]
pub enum SocialType {
    Kakao,
    Google,
}

/// A login with a social account's access token.
#[derive(Debug)]
pub struct SocialLoginRequest {
    pub provider: SocialType,
    pub access_token: String,
}

impl SocialLoginRequest {
    /// The access token must not be empty.
    pub fn validate(&self) -> (r: Result<(), ValidationErrors>)
        ensures
            r is Ok <==> self.access_token@.len() >= 1,
            r matches Err(e) ==> e.failed() == set!["access_token"@],
    {
        single_rule(char_count(self.access_token.as_str()) < 1, "access_token")
    }
}

/// The outcome of a request with one rule on one field.
pub(crate) fn single_rule(bad: bool, name: &str) -> (r: Result<(), ValidationErrors>)
    ensures
        r is Ok <==> !bad,
        r matches Err(e) ==> e.failed() == set![name@],
{
    let mut fields = StringSet::new();
    note(&mut fields, bad, name);
    proof {
        if bad {
            assert(fields@ =~= set![name@]);
            assert(fields@.contains(name@));
        } else {
            assert(fields@ =~= Set::<Seq<char>>::empty());
        }
    }
    outcome(fields)
}

#[derive(Debug, Clone)]
pub struct SocialLoginResponse {
    pub is_new_member: bool,
    pub access_token: Option<String>,
    pub refresh_token: Option<String>,
    pub email: Option<String>,
    pub signup_token: Option<String>,
}

/// Completion of a sign-up.
#[derive(Debug)]
pub struct SignupRequest {
    pub email: String,
    pub nickname: String,
}

/// The fields of a sign-up that break their rules: a valid e-mail, and a
/// nickname of 1 to 20 characters made of letters, digits and Hangul.
pub open spec fn signup_failures(email: Seq<char>, nickname: Seq<char>) -> Set<Seq<char>> {
    Set::new(|f: Seq<char>|
        (f == "email"@ && !validator_email_ok(email))
        || (f == "nickname"@ && (!(1 <= nickname.len() <= 20) || !nickname_chars_ok(nickname))))
}

impl SignupRequest {
    /// Checks the e-mail and the nickname.
    pub fn validate(&self) -> (r: Result<(), ValidationErrors>)
        ensures
            r is Ok <==> signup_failures(self.email@, self.nickname@) == Set::<Seq<char>>::empty(),
            r matches Err(e) ==> e.failed() == signup_failures(self.email@, self.nickname@),
    {
        let mut fields = StringSet::new();
        note(&mut fields, !email_ok(self.email.as_str()), "email");
        let n = char_count(self.nickname.as_str());
        let bad_nick = n < 1 || n > 20 || !validate_nickname(self.nickname.as_str());
        note(&mut fields, bad_nick, "nickname");
        proof {
            reveal_strlit("email");
            reveal_strlit("nickname");
            assert(fields@ =~= signup_failures(self.email@, self.nickname@));
        }
        outcome(fields)
    }
}

#[derive(Debug)]
pub struct SignupResponse {
    pub member_id: i64,
    pub nickname: String,
}

/// A request for new tokens.
#[derive(Debug)]
pub struct TokenRefreshRequest {
    pub refresh_token: String,
}

impl TokenRefreshRequest {
    /// The refresh token must not be empty.
    pub fn validate(&self) -> (r: Result<(), ValidationErrors>)
        ensures
            r is Ok <==> self.refresh_token@.len() >= 1,
            r matches Err(e) ==> e.failed() == set!["refresh_token"@],
    {
        single_rule(char_count(self.refresh_token.as_str()) < 1, "refresh_token")
    }
}

/// The body of a token refresh; the tokens travel in cookies.
#[derive(Debug)]
pub struct TokenRefreshResponse {}

/// A logout.
#[derive(Debug)]
pub struct LogoutRequest {
    pub refresh_token: String,
}

impl LogoutRequest {
    /// The refresh token must not be empty.
    pub fn validate(&self) -> (r: Result<(), ValidationErrors>)
        ensures
            r is Ok <==> self.refresh_token@.len() >= 1,
            r matches Err(e) ==> e.failed() == set!["refresh_token"@],
    {
        single_rule(char_count(self.refresh_token.as_str()) < 1, "refresh_token")
    }
}

/// A login by e-mail alone (for testing).
#[derive(Debug)]
pub struct EmailLoginRequest {
    pub email: String,
}

impl EmailLoginRequest {
    /// The e-mail must be valid.
    pub fn validate(&self) -> (r: Result<(), ValidationErrors>)
        ensures
            r is Ok <==> validator_email_ok(self.email@),
            r matches Err(e) ==> e.failed() == set!["email"@],
    {
        single_rule(!email_ok(self.email.as_str()), "email")
    }
}

#[derive(Debug, Clone)]
pub struct EmailLoginResponse {
    pub is_new_member: bool,
}

#[derive(Debug)]
pub struct SuccessSocialLoginResponse {
    pub is_success: bool,
    pub code: String,
    pub message: String,
    pub result: SocialLoginResponse,
}

#[derive(Debug)]
pub struct SuccessSignupResponse {
    pub is_success: bool,
    pub code: String,
    pub message: String,
    pub result: SignupResponse,
}

#[derive(Debug)]
pub struct SuccessEmailLoginResponse {
    pub is_success: bool,
    pub code: String,
    pub message: String,
    pub result: EmailLoginResponse,
}

#[derive(Debug)]
pub struct SuccessTokenRefreshResponse {
    pub is_success: bool,
    pub code: String,
    pub message: String,
    pub result: TokenRefreshResponse,
}

#[derive(Debug)]
pub struct SuccessLogoutResponse {
    pub is_success: bool,
    pub code: String,
    pub message: String,
    pub result: Option<()>,
}

/// The outcome of a member's withdrawal.
#[derive(Debug)]
pub struct SuccessWithdrawResponse {
    pub is_success: bool,
    pub code: String,
    pub message: String,
    pub result: Option<()>,
}

/// The rule on an invite link: `validator` must accept it as a URL.
pub fn invite_url_ok(invite_url: &str) -> (b: bool)
    ensures
        b == validator_url_ok(invite_url@),
{
    url_ok(invite_url)
}

/// Logins, token refreshes and logouts.
pub struct AuthService;

/// The address the profile of a social account is read from.
pub open spec fn user_info_url(t: SocialType) -> Seq<char> {
    match t {
        SocialType::Kakao => "https://kapi.kakao.com/v2/user/me"@,
        SocialType::Google => "https://www.googleapis.com/oauth2/v2/userinfo"@,
    }
}

/// The e-mail address a provider's profile reply carries: Kakao's under
/// `kakao_account.email`, Google's under `email`.
pub open spec fn profile_email(t: SocialType, body: Seq<char>) -> Option<Seq<char>> {
    match t {
        SocialType::Kakao => match crate::json::json_member(body, "kakao_account"@) {
            Some(account) => crate::json::json_str_member(account, "email"@),
            None => None,
        },
        SocialType::Google => crate::json::json_str_member(body, "email"@),
    }
}

/// The message of a provider's profile without an address.
pub open spec fn missing_email_message(t: SocialType) -> Seq<char> {
    match t {
        SocialType::Kakao => "Kakao 이메일 정보 없음"@,
        SocialType::Google => "Google 이메일 정보 없음"@,
    }
}

/// The message of a provider that refused the token.
pub open spec fn rejected_login_message(t: SocialType) -> Seq<char> {
    match t {
        SocialType::Kakao => "Kakao 로그인 실패"@,
        SocialType::Google => "Google 로그인 실패"@,
    }
}

impl AuthService {
    /// Where the profile of a social account is read from.
    pub fn user_info_url(t: SocialType) -> (r: String)
        ensures
            r@ == user_info_url(t),
    {
        match t {
            SocialType::Kakao => crate::text::owned("https://kapi.kakao.com/v2/user/me"),
            SocialType::Google => crate::text::owned("https://www.googleapis.com/oauth2/v2/userinfo"),
        }
    }

    /// What a provider's refusal of the token is reported as.
    pub fn rejected_login(t: SocialType) -> (r: crate::error::AppError)
        ensures
            r@ == (crate::error::ErrorKind::Unauthorized, rejected_login_message(t)),
    {
        match t {
            SocialType::Kakao => crate::error::AppError::Unauthorized(crate::text::owned("Kakao 로그인 실패")),
            SocialType::Google => crate::error::AppError::Unauthorized(crate::text::owned("Google 로그인 실패")),
        }
    }

    /// Reads the e-mail address out of a provider's profile reply: a reply
    /// that is not JSON is a decoding failure, one without the address a
    /// validation error.
    pub fn social_email(t: SocialType, body: &str) -> (r: Result<String, crate::error::AppError>)
        ensures
            !crate::json::serde_json_parses(body@) ==> (r matches Err(e)
                && e@ == (crate::error::ErrorKind::JsonParseFailed, "error decoding response body"@)),
            crate::json::serde_json_parses(body@) ==> match r {
                Ok(m) => profile_email(t, body@) == Some(m@),
                Err(e) => profile_email(t, body@) is None
                    && e@ == (crate::error::ErrorKind::ValidationError, missing_email_message(t)),
            },
    {
        if !crate::json::json_parses(body) {
            return Err(crate::error::AppError::JsonParseFailed(crate::text::owned("error decoding response body")));
        }
        let found = match t {
            SocialType::Kakao => match crate::json::json_get_member(body, "kakao_account") {
                Some(account) => crate::json::json_get_str(account.as_str(), "email"),
                None => None,
            },
            SocialType::Google => crate::json::json_get_str(body, "email"),
        };
        match found {
            Some(m) => Ok(m),
            None => match t {
                SocialType::Kakao => Err(crate::error::AppError::ValidationError(crate::text::owned("Kakao 이메일 정보 없음"))),
                SocialType::Google => Err(crate::error::AppError::ValidationError(crate::text::owned("Google 이메일 정보 없음"))),
            },
        }
    }

    /// An e-mail login finds its member or is refused.
    pub fn check_login_member(found: bool) -> (r: Result<(), crate::error::AppError>)
        ensures
            r is Ok <==> found,
            r matches Err(e) ==> e@ == (crate::error::ErrorKind::Unauthorized, "존재하지 않는 사용자입니다."@),
    {
        if found {
            Ok(())
        } else {
            Err(crate::error::AppError::Unauthorized(crate::text::owned("존재하지 않는 사용자입니다.")))
        }
    }

    /// A refresh needs its token on record (`expires_at`, `None` where it is
    /// not) and not yet expired at `now` (both seconds of the same reckoning).
    pub fn check_stored_refresh(expires_at: Option<i64>, now: i64) -> (r: Result<(), crate::error::AppError>)
        ensures
            expires_at is None ==> (r matches Err(e)
                && e@ == (crate::error::ErrorKind::Unauthorized, "유효하지 않은 리프레시 토큰입니다."@)),
            expires_at matches Some(t) && t < now ==> (r matches Err(e)
                && e@ == (crate::error::ErrorKind::Unauthorized, "리프레시 토큰이 만료되었습니다."@)),
            r is Ok <==> (expires_at matches Some(t) && t >= now),
    {
        match expires_at {
            None => Err(crate::error::AppError::Unauthorized(crate::text::owned("유효하지 않은 리프레시 토큰입니다."))),
            Some(t) => if t < now {
                Err(crate::error::AppError::Unauthorized(crate::text::owned("리프레시 토큰이 만료되었습니다.")))
            } else {
                Ok(())
            },
        }
    }

    /// A logout must have removed its token.
    pub fn check_logout(rows_deleted: u64) -> (r: Result<(), crate::error::AppError>)
        ensures
            r is Ok <==> rows_deleted > 0,
            r matches Err(e) ==> e@ == (crate::error::ErrorKind::Unauthorized, "유효하지 않은 리프레시 토큰입니다."@),
    {
        if rows_deleted == 0 {
            Err(crate::error::AppError::Unauthorized(crate::text::owned("유효하지 않은 리프레시 토큰입니다.")))
        } else {
            Ok(())
        }
    }

    /// The member id a token's subject names, as `parse::<i64>()` reads it.
    pub fn member_id_from_subject(sub: &str) -> (r: Result<i64, crate::error::AppError>)
        ensures
            match crate::parse::parse_i64_spec(sub@) {
                Some(v) => r == Ok::<i64, crate::error::AppError>(v),
                None => r matches Err(e) && e@ == (crate::error::ErrorKind::Unauthorized, "잘못된 인증 정보입니다."@),
            },
    {
        match crate::parse::parse_i64(sub) {
            Some(v) => Ok(v),
            None => Err(crate::error::AppError::Unauthorized(crate::text::owned("잘못된 인증 정보입니다."))),
        }
    }
}

/// How a social login is answered: the response code and message, the body
/// (which never carries tokens), and the cookies to set.
#[derive(Debug)]
pub struct SocialLoginReply {
    pub code: String,
    pub message: String,
    pub body: SocialLoginResponse,
    /// The sign-up token to set as a cookie (new members).
    pub signup_cookie: Option<String>,
    /// The access and refresh tokens to set as cookies (known members).
    pub token_cookies: Option<(String, String)>,
}

/// Answers a social login: a new member gets `AUTH2001`, their address in
/// the body and the sign-up token as a cookie; a known member gets
/// `COMMON200`, an empty body and both tokens as cookies (where both exist).
pub fn social_login_reply(result: SocialLoginResponse) -> (r: SocialLoginReply)
    ensures
        result.is_new_member ==> {
            &&& r.code@ == "AUTH2001"@
            &&& r.message@ == "신규 회원입니다. 가입 절차를 진행해 주세요."@
            &&& r.body.is_new_member
            &&& r.body.email == result.email
            &&& r.signup_cookie == result.signup_token
            &&& r.token_cookies is None
        },
        !result.is_new_member ==> {
            &&& r.code@ == "COMMON200"@
            &&& r.message@ == "로그인에 성공하였습니다."@
            &&& !r.body.is_new_member
            &&& r.body.email is None
            &&& r.signup_cookie is None
            &&& r.token_cookies == match (result.access_token, result.refresh_token) {
                (Some(a), Some(f)) => Some((a, f)),
                _ => None,
            }
        },
        r.body.access_token is None,
        r.body.refresh_token is None,
        r.body.signup_token is None,
{
    if result.is_new_member {
        SocialLoginReply {
            code: crate::text::owned("AUTH2001"),
            message: crate::text::owned("신규 회원입니다. 가입 절차를 진행해 주세요."),
            body: SocialLoginResponse {
                is_new_member: true,
                access_token: None,
                refresh_token: None,
                email: result.email,
                signup_token: None,
            },
            signup_cookie: result.signup_token,
            token_cookies: None,
        }
    } else {
        let cookies = match (result.access_token, result.refresh_token) {
            (Some(a), Some(f)) => Some((a, f)),
            _ => None,
        };
        SocialLoginReply {
            code: crate::text::owned("COMMON200"),
            message: crate::text::owned("로그인에 성공하였습니다."),
            body: SocialLoginResponse {
                is_new_member: false,
                access_token: None,
                refresh_token: None,
                email: None,
                signup_token: None,
            },
            signup_cookie: None,
            token_cookies: cookies,
        }
    }
}

/// Member profiles and withdrawal.
pub struct MemberService;

impl MemberService {
    /// A profile lookup or a withdrawal needs the member to exist.
    pub fn require_member(found: bool) -> (r: Result<(), crate::error::AppError>)
        ensures
            r is Ok <==> found,
            r matches Err(e) ==> e@ == (crate::error::ErrorKind::MemberNotFound, "존재하지 않는 사용자입니다."@),
    {
        if found {
            Ok(())
        } else {
            Err(crate::error::AppError::MemberNotFound(crate::text::owned("존재하지 않는 사용자입니다.")))
        }
    }

    /// The answer to a completed withdrawal.
    pub fn withdraw_reply() -> (r: SuccessWithdrawResponse)
        ensures
            r.is_success,
            r.code@ == "COMMON200"@,
            r.message@ == "회원 탈퇴가 성공적으로 완료되었습니다."@,
            r.result is None,
    {
        SuccessWithdrawResponse {
            is_success: true,
            code: crate::text::owned("COMMON200"),
            message: crate::text::owned("회원 탈퇴가 성공적으로 완료되었습니다."),
            result: None,
        }
    }
}

} // verus!

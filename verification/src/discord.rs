//! Discord interactions: payloads, command parsing, request signatures and the
//! events and replies an interaction leads to.
use vstd::prelude::*;
use vstd::string::*;
use crate::crypto::{ed25519_key_decodes, ed25519_signature_valid, hex_decode};
use crate::error::{AppError, ErrorKind};
use crate::event::{utc_now_unix_secs, Event, Priority};
use crate::json::{json_object, json_opt_str, json_str};
use crate::parse::parse_i64;
use crate::text::{
    chars_of, contains_chars, find_chars, owned, slice_chars, string_from_chars, to_lower,
    trim_chars,
};

verus! {

/// An interaction Discord posts to the webhook.
#[derive(Debug, Clone)]
pub struct DiscordWebhookPayload {
    /// 1 = ping, 2 = application command, ...
    pub interaction_type: i32,
    pub token: String,
    pub channel_id: String,
    pub guild_id: Option<String>,
    pub data: Option<DiscordMessageData>,
}

#[derive(Debug, Clone)]
pub struct DiscordMessageData {
    pub content: String,
    pub author: DiscordAuthor,
    pub timestamp: String,
}

#[derive(Debug, Clone)]
pub struct DiscordAuthor {
    pub id: String,
    pub username: String,
}

/// The reply to an interaction.
#[derive(Debug, Clone)]
pub struct DiscordWebhookResponse {
    /// 1 = pong, 4 = channel message.
    pub response_type: i32,
    pub data: Option<DiscordResponseData>,
}

#[derive(Debug, Clone)]
pub struct DiscordResponseData {
    pub content: String,
}

impl DiscordWebhookResponse {
    /// The reply to a ping.
    pub fn pong() -> (r: Self)
        ensures
            r.response_type == 1,
            r.data is None,
    {
        DiscordWebhookResponse { response_type: 1, data: None }
    }

    /// A channel message with the given text.
    pub fn message(content: &str) -> (r: Self)
        ensures
            r.response_type == 4,
            r.data matches Some(d) && d.content@ == content@,
    {
        DiscordWebhookResponse {
            response_type: 4,
            data: Some(DiscordResponseData { content: owned(content) }),
        }
    }
}

/// A command addressed to the bot.
#[derive(Debug, Clone, PartialEq)]
pub enum DiscordCommand {
    Analyze { args: String },
    Fix { args: String },
    Review { args: String },
    Status,
    Unknown { content: String },
}

pub ghost enum CommandView {
    Analyze(Seq<char>),
    Fix(Seq<char>),
    Review(Seq<char>),
    Status,
    Unknown(Seq<char>),
}

impl View for DiscordCommand {
    type V = CommandView;

    open spec fn view(&self) -> CommandView {
        match self {
            DiscordCommand::Analyze { args } => CommandView::Analyze(args@),
            DiscordCommand::Fix { args } => CommandView::Fix(args@),
            DiscordCommand::Review { args } => CommandView::Review(args@),
            DiscordCommand::Status => CommandView::Status,
            DiscordCommand::Unknown { content } => CommandView::Unknown(content@),
        }
    }
}

/// The text after the first keyword (tried in order) that occurs in the
/// lower-cased content and leaves something after it, trimmed; empty when none does.
/// Positions are counted in characters.
pub open spec fn args_after(content: Seq<char>, keywords: Seq<Seq<char>>) -> Seq<char>
    decreases keywords.len(),
{
    if keywords.len() == 0 {
        Seq::empty()
    } else {
        let lower = crate::text::lowercase(content);
        let kw = keywords[0];
        if crate::text::contains(lower, kw) && crate::text::first_index(lower, kw) + kw.len()
            < content.len() {
            crate::text::trim(content.skip(crate::text::first_index(lower, kw) + kw.len()))
        } else {
            args_after(content, keywords.drop_first())
        }
    }
}

pub open spec fn either(l: Seq<char>, a: Seq<char>, b: Seq<char>) -> bool {
    crate::text::contains(l, a) || crate::text::contains(l, b)
}

/// A message to the bot that asks "분석해줘" is an analysis request whose
/// arguments are the trimmed text after the first "분석해줘" (when any text
/// follows it): the full keyword is tried before its shorter forms, so no
/// part of it ends up in the arguments.
pub proof fn law_analysis_args_follow_full_keyword(content: Seq<char>)
    requires
        crate::text::contains(crate::text::lowercase(content), "@ai"@),
        crate::text::contains(crate::text::lowercase(content), "분석해줘"@),
        crate::text::first_index(crate::text::lowercase(content), "분석해줘"@) + 4 < content.len(),
    ensures
        parse_command(content) == CommandView::Analyze(crate::text::trim(
            content.skip(crate::text::first_index(crate::text::lowercase(content), "분석해줘"@) + 4),
        )),
{
    reveal_strlit("분석해줘");
    reveal_strlit("분석");
    let l = crate::text::lowercase(content);
    let p = choose|i: int| crate::text::occurs_at(l, "분석해줘"@, i);
    assert(crate::text::occurs_at(l, "분석해줘"@, p));
    assert(l.subrange(p, p + 2) =~= l.subrange(p, p + 4).subrange(0, 2));
    assert("분석해줘"@.subrange(0, 2) =~= "분석"@);
    assert(crate::text::occurs_at(l, "분석"@, p));
    assert(either(l, "분석"@, "analyze"@));
    let kws = seq!["분석해줘"@, "analyze"@, "분석"@];
    assert(kws[0] == "분석해줘"@);
    assert("분석해줘"@.len() == 4);
}

/// The command a message asks for.
pub open spec fn parse_command(content: Seq<char>) -> CommandView {
    let l = crate::text::lowercase(content);
    if crate::text::contains(l, "@ai"@) {
        if either(l, "분석"@, "analyze"@) {
            CommandView::Analyze(args_after(content, seq!["분석해줘"@, "analyze"@, "분석"@]))
        } else if either(l, "수정"@, "fix"@) {
            CommandView::Fix(args_after(content, seq!["수정해줘"@, "fix"@, "수정"@]))
        } else if either(l, "리뷰"@, "review"@) {
            CommandView::Review(args_after(content, seq!["리뷰해줘"@, "review"@, "리뷰"@]))
        } else if either(l, "상태"@, "status"@) {
            CommandView::Status
        } else {
            CommandView::Unknown(content)
        }
    } else {
        CommandView::Unknown(content)
    }
}

/// The text after the first matching keyword, trimmed (see `args_after`).
pub fn extract_args_after(content: &str, keywords: &Vec<&str>) -> (r: String)
    ensures
        r@ == args_after(content@, keywords@.map_values(|k: &str| k@)),
{
    let ghost kws = keywords@.map_values(|k: &str| k@);
    let lower = to_lower(content);
    let lv = chars_of(lower.as_str());
    let cv = chars_of(content);
    let mut i: usize = 0;
    assert(kws.skip(0) =~= kws);
    while i < keywords.len()
        invariant
            i <= keywords@.len(),
            kws == keywords@.map_values(|k: &str| k@),
            lv@ == crate::text::lowercase(content@),
            cv@ == content@,
            args_after(content@, kws) == args_after(content@, kws.skip(i as int)),
        decreases keywords.len() - i,
    {
        let ghost rest = kws.skip(i as int);
        proof {
            assert(rest[0] == keywords@[i as int]@);
            assert(rest.drop_first() =~= kws.skip(i + 1));
        }
        let kv = chars_of(keywords[i]);
        match find_chars(&lv, &kv) {
            Some(pos) => {
                proof {
                    crate::text::lemma_first_index(lv@, kv@, pos as int);
                }
                if kv.len() < cv.len() && pos < cv.len() - kv.len() {
                    let tail = slice_chars(&cv, pos + kv.len(), cv.len());
                    assert(tail@ =~= content@.skip(pos + kv.len()));
                    let t = trim_chars(&tail);
                    return string_from_chars(t.as_slice());
                }
            },
            None => {},
        }
        i = i + 1;
    }
    proof {
        assert(kws.skip(i as int).len() == 0);
    }
    String::new()
}

impl DiscordCommand {
    /// Reads a command from a message: the message must mention "@ai" (any case),
    /// and the first of analyze, fix, review and status whose Korean or English
    /// keyword occurs decides; anything else is unknown.
    pub fn parse(content: &str) -> (r: Self)
        ensures
            r@ == parse_command(content@),
    {
        let lower = to_lower(content);
        let l = chars_of(lower.as_str());
        let ai = chars_of("@ai");
        if contains_chars(&l, &ai) {
            if contains_chars(&l, &chars_of("분석")) || contains_chars(&l, &chars_of("analyze")) {
                let kws: Vec<&str> = vec!["분석해줘", "analyze", "분석"];
                proof {
                    assert(kws@.map_values(|k: &str| k@) =~= seq!["분석해줘"@, "analyze"@, "분석"@]);
                }
                return DiscordCommand::Analyze { args: extract_args_after(content, &kws) };
            }
            if contains_chars(&l, &chars_of("수정")) || contains_chars(&l, &chars_of("fix")) {
                let kws: Vec<&str> = vec!["수정해줘", "fix", "수정"];
                proof {
                    assert(kws@.map_values(|k: &str| k@) =~= seq!["수정해줘"@, "fix"@, "수정"@]);
                }
                return DiscordCommand::Fix { args: extract_args_after(content, &kws) };
            }
            if contains_chars(&l, &chars_of("리뷰")) || contains_chars(&l, &chars_of("review")) {
                let kws: Vec<&str> = vec!["리뷰해줘", "review", "리뷰"];
                proof {
                    assert(kws@.map_values(|k: &str| k@) =~= seq!["리뷰해줘"@, "review"@, "리뷰"@]);
                }
                return DiscordCommand::Review { args: extract_args_after(content, &kws) };
            }
            if contains_chars(&l, &chars_of("상태")) || contains_chars(&l, &chars_of("status")) {
                return DiscordCommand::Status;
            }
        }
        DiscordCommand::Unknown { content: owned(content) }
    }

    /// The command's name.
    pub fn command_type(&self) -> (r: &'static str)
        ensures
            r@ == command_name(self@),
    {
        match self {
            DiscordCommand::Analyze { .. } => "analyze",
            DiscordCommand::Fix { .. } => "fix",
            DiscordCommand::Review { .. } => "review",
            DiscordCommand::Status => "status",
            DiscordCommand::Unknown { .. } => "unknown",
        }
    }

    /// The acknowledgement sent back for the command.
    pub fn reply_text(&self) -> (r: &'static str)
        ensures
            r@ == reply_for(self@),
    {
        match self {
            DiscordCommand::Analyze { .. } => "분석 요청을 접수했습니다. 처리 중...",
            DiscordCommand::Fix { .. } => "수정 요청을 접수했습니다. 처리 중...",
            DiscordCommand::Review { .. } => "리뷰 요청을 접수했습니다. 처리 중...",
            DiscordCommand::Status => "시스템 상태를 확인 중입니다...",
            DiscordCommand::Unknown { .. } => "알 수 없는 명령입니다. @AI 분석해줘, @AI 수정해줘, @AI 리뷰해줘, @AI 상태 중 하나를 사용해주세요.",
        }
    }
}

pub open spec fn command_name(c: CommandView) -> Seq<char> {
    match c {
        CommandView::Analyze(_) => "analyze"@,
        CommandView::Fix(_) => "fix"@,
        CommandView::Review(_) => "review"@,
        CommandView::Status => "status"@,
        CommandView::Unknown(_) => "unknown"@,
    }
}

pub open spec fn reply_for(c: CommandView) -> Seq<char> {
    match c {
        CommandView::Analyze(_) => "분석 요청을 접수했습니다. 처리 중..."@,
        CommandView::Fix(_) => "수정 요청을 접수했습니다. 처리 중..."@,
        CommandView::Review(_) => "리뷰 요청을 접수했습니다. 처리 중..."@,
        CommandView::Status => "시스템 상태를 확인 중입니다..."@,
        CommandView::Unknown(_) => "알 수 없는 명령입니다. @AI 분석해줘, @AI 수정해줘, @AI 리뷰해줘, @AI 상태 중 하나를 사용해주세요."@,
    }
}

/// The event type a command leads to.
pub open spec fn command_event_type(c: CommandView) -> Seq<char> {
    match c {
        CommandView::Analyze(_) => "discord.command.analyze"@,
        CommandView::Fix(_) => "discord.command.fix"@,
        CommandView::Review(_) => "discord.command.review"@,
        CommandView::Status => "discord.command.status"@,
        CommandView::Unknown(_) => "discord.command.unknown"@,
    }
}

pub open spec fn opt_text(o: Option<String>) -> Option<Seq<char>> {
    match o {
        Some(s) => Some(s@),
        None => None,
    }
}

pub open spec fn json_opt(o: Option<Seq<char>>) -> Seq<char> {
    match o {
        Some(s) => crate::json::json_string(s),
        None => "null"@,
    }
}

/// The payload of a command event: the command, its argument or message text,
/// and where it was posted.
pub open spec fn command_members(c: CommandView, channel: Seq<char>, guild: Option<Seq<char>>) -> Seq<
    (Seq<char>, Seq<char>),
> {
    let place = seq![
        ("channel_id"@, crate::json::json_string(channel)),
        ("guild_id"@, json_opt(guild)),
    ];
    match c {
        CommandView::Analyze(a) => seq![
            ("args"@, crate::json::json_string(a)),
            ("command"@, crate::json::json_string("analyze"@)),
        ] + place,
        CommandView::Fix(a) => seq![
            ("args"@, crate::json::json_string(a)),
            ("command"@, crate::json::json_string("fix"@)),
        ] + place,
        CommandView::Review(a) => seq![
            ("args"@, crate::json::json_string(a)),
            ("command"@, crate::json::json_string("review"@)),
        ] + place,
        CommandView::Status => place + seq![("command"@, crate::json::json_string("status"@))],
        CommandView::Unknown(t) => place + seq![
            ("command"@, crate::json::json_string("unknown"@)),
            ("content"@, crate::json::json_string(t)),
        ],
    }
}

fn member(key: &str, value: String) -> (r: (String, String))
    ensures
        r.0@ == key@,
        r.1@ == value@,
{
    (owned(key), value)
}

/// The pipeline event for a command posted in an interaction, attributed to the
/// message's author when the interaction carries a message.
pub fn create_discord_event(payload: &DiscordWebhookPayload, command: &DiscordCommand) -> (r:
    Event)
    ensures
        r.event_type@ == command_event_type(command@),
        r.source@ == "discord"@,
        r.priority == Priority::P1,
        r.data@ == crate::json::object_text(
            command_members(command@, payload.channel_id@, opt_text(payload.guild_id)),
        ),
        match payload.data {
            Some(d) => r.metadata.user matches Some(u) && u@ == d.author.username@,
            None => r.metadata.user is None,
        },
{
    let guild: Option<&str> = match &payload.guild_id {
        Some(g) => Some(g.as_str()),
        None => None,
    };
    let mut place: Vec<(String, String)> = Vec::new();
    place.push(member("channel_id", json_str(payload.channel_id.as_str())));
    place.push(member("guild_id", json_opt_str(guild)));
    let mut ms: Vec<(String, String)> = Vec::new();
    let event_type: &str;
    match command {
        DiscordCommand::Analyze { args } => {
            event_type = "discord.command.analyze";
            ms.push(member("args", json_str(args.as_str())));
            ms.push(member("command", json_str("analyze")));
            ms.append(&mut place);
        },
        DiscordCommand::Fix { args } => {
            event_type = "discord.command.fix";
            ms.push(member("args", json_str(args.as_str())));
            ms.push(member("command", json_str("fix")));
            ms.append(&mut place);
        },
        DiscordCommand::Review { args } => {
            event_type = "discord.command.review";
            ms.push(member("args", json_str(args.as_str())));
            ms.push(member("command", json_str("review")));
            ms.append(&mut place);
        },
        DiscordCommand::Status => {
            event_type = "discord.command.status";
            ms.append(&mut place);
            ms.push(member("command", json_str("status")));
        },
        DiscordCommand::Unknown { content } => {
            event_type = "discord.command.unknown";
            ms.append(&mut place);
            ms.push(member("command", json_str("unknown")));
            ms.push(member("content", json_str(content.as_str())));
        },
    }
    proof {
        assert(crate::json::member_views(ms@) =~= command_members(
            command@,
            payload.channel_id@,
            opt_text(payload.guild_id),
        ));
    }
    let data = json_object(&ms);
    let event = Event::new(event_type, "discord", Priority::P1, data.as_str());
    match &payload.data {
        Some(d) => event.with_user(d.author.username.as_str()),
        None => event,
    }
}

/// The outcome of an interaction whose signature was accepted: a ping gets a
/// pong; a message gets its command's acknowledgement and a pipeline event;
/// anything else gets a notice that it cannot be handled.
pub fn handle_interaction(payload: &DiscordWebhookPayload) -> (r: (
    DiscordWebhookResponse,
    Option<Event>,
))
    ensures
        payload.interaction_type == 1 ==> r.0.response_type == 1 && r.1 is None,
        payload.interaction_type != 1 ==> match payload.data {
            Some(d) => {
                &&& r.0.response_type == 4
                &&& r.0.data matches Some(t) && t.content@ == reply_for(parse_command(d.content@))
                &&& r.1 matches Some(e) && e.event_type@ == command_event_type(
                    parse_command(d.content@),
                )
            },
            None => {
                &&& r.0.response_type == 4
                &&& r.0.data matches Some(t) && t.content@ == "요청을 처리할 수 없습니다."@
                &&& r.1 is None
            },
        },
{
    if payload.interaction_type == 1 {
        return (DiscordWebhookResponse::pong(), None);
    }
    match &payload.data {
        Some(d) => {
            let command = DiscordCommand::parse(d.content.as_str());
            let event = create_discord_event(payload, &command);
            (DiscordWebhookResponse::message(command.reply_text()), Some(event))
        },
        None => (DiscordWebhookResponse::message("요청을 처리할 수 없습니다."), None),
    }
}

/// Largest accepted distance between a request's timestamp and now, in seconds.
pub const MAX_TIMESTAMP_DIFF_SECS: i64 = 300;

/// Whether a request timestamp is acceptable at time `now`: it must be a
/// decimal integer within five minutes of `now`.
pub open spec fn timestamp_ok(timestamp: Seq<char>, now: i64) -> bool {
    match crate::parse::parse_i64_spec(timestamp) {
        Some(t) => -300 <= now - t <= 300,
        None => false,
    }
}

/// Checks a request timestamp against the time `now` (seconds since the epoch).
pub fn validate_timestamp_at(timestamp: &str, now: i64) -> (r: Result<(), AppError>)
    ensures
        r is Ok <==> timestamp_ok(timestamp@, now),
        r matches Err(e) ==> e is Unauthorized,
{
    match parse_i64(timestamp) {
        Some(t) => {
            let diff: i128 = now as i128 - t as i128;
            if diff > 300 || diff < -300 {
                Err(AppError::Unauthorized(owned("Request timestamp is too old or invalid")))
            } else {
                Ok(())
            }
        },
        None => Err(AppError::Unauthorized(owned("Invalid timestamp format"))),
    }
}

/// Checks a request timestamp against the current time.
pub fn validate_timestamp(timestamp: &str) -> (r: Result<(), AppError>)
    ensures
        crate::parse::parse_i64_spec(timestamp@) is None ==> r is Err,
        r matches Err(e) ==> e is Unauthorized,
{
    let now = utc_now_unix_secs();
    validate_timestamp_at(timestamp, now)
}

/// The outcome of checking a Discord request signature at time `now`: the
/// timestamp first, then the public key (hex, 32 bytes, a valid key), then the
/// signature (hex, 64 bytes) over the timestamp's bytes followed by the body.
pub open spec fn discord_signature_check(
    public_key: Seq<u8>,
    signature: Seq<u8>,
    timestamp: Seq<char>,
    body: Seq<u8>,
    now: i64,
) -> Result<(), (ErrorKind, Seq<char>)> {
    if !timestamp_ok(timestamp, now) {
        Err(
            (
                ErrorKind::Unauthorized,
                if crate::parse::parse_i64_spec(timestamp) is None {
                    "Invalid timestamp format"@
                } else {
                    "Request timestamp is too old or invalid"@
                },
            ),
        )
    } else {
        match crate::crypto::hex_decoded(public_key) {
            None => Err((ErrorKind::InternalError, "Invalid public key format"@)),
            Some(pk) => { if pk.len() != 32 {
                Err((ErrorKind::InternalError, "Invalid public key length"@))
            } else if !crate::crypto::ed25519_key_valid(pk) {
                Err((ErrorKind::InternalError, "Invalid public key"@))
            } else {
                match crate::crypto::hex_decoded(signature) {
                    None => Err((ErrorKind::Unauthorized, "Invalid signature format"@)),
                    Some(sig) => { if sig.len() != 64 {
                        Err((ErrorKind::Unauthorized, "Invalid signature length"@))
                    } else if !crate::crypto::ed25519_verifies(
                        pk,
                        vstd::utf8::encode_utf8(timestamp) + body,
                        sig,
                    ) {
                        Err((ErrorKind::Unauthorized, "Signature verification failed"@))
                    } else {
                        Ok(())
                    } },
                }
            } },
        }
    }
}

/// Checks a Discord request signature (Ed25519 over the timestamp followed by the
/// body) at time `now`.
pub fn verify_discord_signature_at(
    public_key: &str,
    signature: &str,
    timestamp: &str,
    body: &[u8],
    now: i64,
) -> (r: Result<(), AppError>)
    ensures
        crate::error::result_view(r) == discord_signature_check(
            public_key.spec_bytes(),
            signature.spec_bytes(),
            timestamp@,
            body@,
            now,
        ),
{
    match parse_i64(timestamp) {
        Some(t) => {
            let diff: i128 = now as i128 - t as i128;
            if diff > 300 || diff < -300 {
                return Err(
                    AppError::Unauthorized(owned("Request timestamp is too old or invalid")),
                );
            }
        },
        None => {
            return Err(AppError::Unauthorized(owned("Invalid timestamp format")));
        },
    }
    let pk = match hex_decode(public_key) {
        Some(v) => v,
        None => {
            return Err(AppError::InternalError(owned("Invalid public key format")));
        },
    };
    if pk.len() != 32 {
        return Err(AppError::InternalError(owned("Invalid public key length")));
    }
    if !ed25519_key_decodes(pk.as_slice()) {
        return Err(AppError::InternalError(owned("Invalid public key")));
    }
    let sig = match hex_decode(signature) {
        Some(v) => v,
        None => {
            return Err(AppError::Unauthorized(owned("Invalid signature format")));
        },
    };
    if sig.len() != 64 {
        return Err(AppError::Unauthorized(owned("Invalid signature length")));
    }
    let ts = timestamp.as_bytes();
    let mut message: Vec<u8> = Vec::new();
    let mut i: usize = 0;
    while i < ts.len()
        invariant
            i <= ts@.len(),
            message@ == ts@.take(i as int),
        decreases ts.len() - i,
    {
        message.push(ts[i]);
        i = i + 1;
        assert(message@ == ts@.take(i as int));
    }
    assert(ts@.take(ts@.len() as int) == ts@);
    let mut j: usize = 0;
    while j < body.len()
        invariant
            j <= body@.len(),
            message@ == ts@ + body@.take(j as int),
        decreases body.len() - j,
    {
        message.push(body[j]);
        j = j + 1;
        assert(message@ == ts@ + body@.take(j as int));
    }
    assert(body@.take(body@.len() as int) == body@);
    if !ed25519_signature_valid(pk.as_slice(), message.as_slice(), sig.as_slice()) {
        return Err(AppError::Unauthorized(owned("Signature verification failed")));
    }
    Ok(())
}

/// Checks a Discord request signature against the current time; with
/// `skip_verification` (a development setting) every request is accepted.
pub fn verify_discord_signature(
    public_key: &str,
    signature: &str,
    timestamp: &str,
    body: &[u8],
    skip_verification: bool,
) -> (r: Result<(), AppError>)
    ensures
        skip_verification ==> r is Ok,
        !skip_verification ==> exists|now: i64| crate::error::result_view(r) == #[trigger] discord_signature_check(
            public_key.spec_bytes(),
            signature.spec_bytes(),
            timestamp@,
            body@,
            now,
        ),
{
    if skip_verification {
        return Ok(());
    }
    let now = utc_now_unix_secs();
    verify_discord_signature_at(public_key, signature, timestamp, body, now)
}

/// Whether the `DISCORD_SKIP_VERIFICATION` setting turns checking off: only
/// the exact text `true` does.
pub fn skip_verification_setting(value: Option<&str>) -> (b: bool)
    ensures
        b <==> (value matches Some(v) && v@ == "true"@),
{
    match value {
        Some(v) => crate::text::str_eq(v, "true"),
        None => false,
    }
}

/// Checks a delivery as the webhook endpoint does: nothing when checking is
/// off; otherwise the signature and timestamp headers must be present
/// (`Unauthorized`), the public key configured (`InternalError`), and the
/// signature valid now.
pub fn verify_discord_request(
    skip_verification: bool,
    signature: Option<&str>,
    timestamp: Option<&str>,
    public_key: Option<&str>,
    body: &[u8],
) -> (r: Result<(), AppError>)
    ensures
        skip_verification ==> r is Ok,
        !skip_verification && signature is None ==> (r matches Err(e)
            && e@ == (ErrorKind::Unauthorized, "Missing X-Signature-Ed25519 header"@)),
        !skip_verification && signature is Some && timestamp is None ==> (r matches Err(e)
            && e@ == (ErrorKind::Unauthorized, "Missing X-Signature-Timestamp header"@)),
        !skip_verification && signature is Some && timestamp is Some && public_key is None ==> (r matches Err(e)
            && e@ == (ErrorKind::InternalError, "DISCORD_PUBLIC_KEY not configured"@)),
        !skip_verification ==> match (signature, timestamp, public_key) {
            (Some(s), Some(t), Some(k)) => exists|now: i64| crate::error::result_view(r)
                == #[trigger] discord_signature_check(k.spec_bytes(), s.spec_bytes(), t@, body@, now),
            _ => r is Err,
        },
{
    if skip_verification {
        return Ok(());
    }
    let s = match signature {
        Some(s) => s,
        None => {
            return Err(AppError::Unauthorized(owned("Missing X-Signature-Ed25519 header")));
        },
    };
    let t = match timestamp {
        Some(t) => t,
        None => {
            return Err(AppError::Unauthorized(owned("Missing X-Signature-Timestamp header")));
        },
    };
    let k = match public_key {
        Some(k) => k,
        None => {
            return Err(AppError::InternalError(owned("DISCORD_PUBLIC_KEY not configured")));
        },
    };
    verify_discord_signature(k, s, t, body, false)
}

} // verus!

//! Alerts posted to the Discord channel: the embed payloads and the settings
//! that say whether an alert is sent at all.
use vstd::prelude::*;
use crate::event::{Event, Severity};
use crate::json::json_get_str;
use crate::text::{append_chars, chars_of, owned, str_eq, string_from_chars, to_lower, to_upper};

verus! {

/// A message posted through the webhook.
#[derive(Debug)]
pub struct DiscordMessage {
    pub content: Option<String>,
    pub embeds: Option<Vec<DiscordEmbed>>,
}

/// A rich block of a message.
#[derive(Debug, Clone)]
pub struct DiscordEmbed {
    pub title: String,
    pub description: String,
    pub color: u32,
    pub fields: Option<Vec<DiscordEmbedField>>,
    pub timestamp: Option<String>,
}

/// A named value shown in an embed.
#[derive(Debug, Clone)]
pub struct DiscordEmbedField {
    pub name: String,
    pub value: String,
    pub inline: bool,
}

/// The footer of an embed.
#[derive(Debug, Clone)]
pub struct DiscordFooter {
    pub text: String,
}

/// The colour of a severity.
pub open spec fn severity_color(s: Severity) -> u32 {
    match s {
        Severity::Critical => crate::colors::CRITICAL,
        Severity::Warning => crate::colors::WARNING,
        Severity::Info => crate::colors::INFO,
    }
}

/// The colour of a severity name, ignoring case; unknown names are info.
pub open spec fn severity_name_color(s: Seq<char>) -> u32 {
    let l = crate::text::lowercase(s);
    if l == "critical"@ {
        crate::colors::CRITICAL
    } else if l == "warning"@ {
        crate::colors::WARNING
    } else {
        crate::colors::INFO
    }
}

/// The sign put before the title of an event alert.
pub open spec fn severity_name_emoji(s: Seq<char>) -> Seq<char> {
    let l = crate::text::lowercase(s);
    if l == "critical"@ {
        "🚨"@
    } else if l == "warning"@ {
        "⚠️"@
    } else {
        "ℹ️"@
    }
}

/// The sign put before the title of an error alert.
pub open spec fn severity_emoji_code(s: Severity) -> Seq<char> {
    match s {
        Severity::Critical => ":red_circle:"@,
        Severity::Warning => ":orange_circle:"@,
        Severity::Info => ":blue_circle:"@,
    }
}

/// The title of an event alert: sign, upper-cased severity in brackets, code.
pub open spec fn event_alert_title_text(severity: Seq<char>, error_code: Seq<char>) -> Seq<char> {
    severity_name_emoji(severity) + " ["@ + crate::text::uppercase(severity) + "] "@ + error_code
}

/// A string member of an event payload, or a default.
pub open spec fn member_or(data: Seq<char>, key: Seq<char>, default: Seq<char>) -> Seq<char> {
    match crate::json::json_str_member(data, key) {
        Some(v) => v,
        None => default,
    }
}

/// `"`x`"`: the text in back-quotes.
pub open spec fn code_span(x: Seq<char>) -> Seq<char> {
    seq!['`'] + x + seq!['`']
}

/// `m` is the alert message of `event` (see `DiscordAlert::event_alert_message`).
pub open spec fn is_event_alert_for(event: Event, m: DiscordMessage) -> bool {
    &&& m.content is None
    &&& m.embeds matches Some(es) && es@.len() == 1 && ({
        let d = event.data@;
        let sev = member_or(d, "severity"@, "info"@);
        let code = member_or(d, "error_code"@, "UNKNOWN"@);
        &&& es@[0].title@ == event_alert_title_text(sev, code)
        &&& es@[0].description@ == member_or(d, "message"@, "No message provided"@)
        &&& es@[0].color == severity_name_color(sev)
        &&& es@[0].timestamp matches Some(t) && t@ == event.timestamp@
        &&& es@[0].fields matches Some(fs) && fs@.len() == 6
            && fs@[0].name@ == "Error Code"@ && fs@[0].value@ == code_span(code)
            && fs@[1].name@ == "Severity"@ && fs@[1].value@ == crate::text::uppercase(sev)
            && fs@[2].name@ == "Target"@ && fs@[2].value@ == code_span(member_or(d, "target"@, "unknown"@))
            && fs@[3].name@ == "Request ID"@ && fs@[3].value@ == code_span(member_or(d, "request_id"@, "-"@))
            && fs@[4].name@ == "Source"@ && fs@[4].value@ == event.source@
            && fs@[5].name@ == "Event ID"@ && fs@[5].value@ == code_span(event.id@)
            && forall|i: int| 0 <= i < 6 ==> (#[trigger] fs@[i]).inline
    })
}

/// Settings of the alert channel.
#[derive(Debug, Clone)]
pub struct DiscordAlert {
    webhook_url: String,
    enabled: bool,
}

impl DiscordAlert {
    pub closed spec fn url(&self) -> Seq<char> {
        self.webhook_url@
    }

    pub closed spec fn switched_on(&self) -> bool {
        self.enabled
    }

    /// Alerts sent to the given webhook.
    pub fn new(webhook_url: &str) -> (r: Self)
        ensures
            r.url() == webhook_url@,
            r.switched_on(),
    {
        DiscordAlert { webhook_url: owned(webhook_url), enabled: true }
    }

    /// Alerts sent to the webhook of the `DISCORD_WEBHOOK_URL` setting, which
    /// must be set.
    pub fn from_setting(webhook_url: Option<&str>) -> (r: Result<Self, crate::error::AppError>)
        ensures
            match webhook_url {
                Some(u) => r matches Ok(a) && a.url() == u@ && a.switched_on(),
                None => r matches Err(e) && e@ == (crate::error::ErrorKind::InternalError,
                    "DISCORD_WEBHOOK_URL not configured"@),
            },
    {
        match webhook_url {
            Some(u) => Ok(DiscordAlert::new(u)),
            None => Err(crate::error::AppError::InternalError(owned("DISCORD_WEBHOOK_URL not configured"))),
        }
    }

    /// Alerts that are never sent.
    pub fn disabled() -> (r: Self)
        ensures
            r.url() == Seq::<char>::empty(),
            !r.switched_on(),
    {
        DiscordAlert { webhook_url: String::new(), enabled: false }
    }

    /// Whether alerts are sent: switched on and with a webhook.
    pub fn is_enabled(&self) -> (b: bool)
        ensures
            b == (self.switched_on() && self.url().len() > 0),
    {
        self.enabled && self.webhook_url.as_str().unicode_len() > 0
    }

    /// The message to post: the given one, or nothing while alerts are not
    /// enabled.
    pub fn to_send(&self, message: DiscordMessage) -> (r: Option<DiscordMessage>)
        ensures
            r is Some <==> (self.switched_on() && self.url().len() > 0),
            r matches Some(m) ==> m == message,
    {
        if self.is_enabled() {
            Some(message)
        } else {
            None
        }
    }

    /// The alert to post for an event: its `event_alert_message`, or nothing
    /// while alerts are not enabled.
    pub fn event_alert_to_send(&self, event: &Event) -> (r: Option<DiscordMessage>)
        ensures
            r is Some <==> (self.switched_on() && self.url().len() > 0),
            r matches Some(m) ==> is_event_alert_for(*event, m),
    {
        if self.is_enabled() {
            Some(DiscordAlert::event_alert_message(event))
        } else {
            None
        }
    }

    /// The webhook alerts are posted to.
    pub fn webhook_url(&self) -> (r: &str)
        ensures
            r@ == self.url(),
    {
        self.webhook_url.as_str()
    }

    /// The colour of a severity name: red for critical, yellow for warning,
    /// green for anything else; case is ignored.
    pub fn severity_to_color(severity: &str) -> (r: u32)
        ensures
            r == severity_name_color(severity@),
    {
        let l = to_lower(severity);
        if str_eq(l.as_str(), "critical") {
            crate::colors::CRITICAL
        } else if str_eq(l.as_str(), "warning") {
            crate::colors::WARNING
        } else {
            crate::colors::INFO
        }
    }

    /// The colour of a severity.
    pub fn color_of(severity: Severity) -> (r: u32)
        ensures
            r == severity_color(severity),
    {
        match severity {
            Severity::Critical => crate::colors::CRITICAL,
            Severity::Warning => crate::colors::WARNING,
            Severity::Info => crate::colors::INFO,
        }
    }

    /// The message of a plain alert, stamped with `timestamp`.
    pub fn alert_message(title: &str, message: &str, severity: Severity, timestamp: String) -> (r: DiscordMessage)
        ensures
            r.content is None,
            r.embeds matches Some(es) && es@.len() == 1 && es@[0].title@ == title@
                && es@[0].description@ == message@ && es@[0].color == severity_color(severity)
                && es@[0].fields is None && es@[0].timestamp == Some(timestamp),
    {
        let embed = DiscordEmbed {
            title: owned(title),
            description: owned(message),
            color: DiscordAlert::color_of(severity),
            fields: None,
            timestamp: Some(timestamp),
        };
        DiscordMessage { content: None, embeds: Some(vec![embed]) }
    }

    /// The title of an error alert: the severity's sign, then `Error: ` and the code.
    pub fn error_alert_title(error_code: &str, severity: Severity) -> (r: String)
        ensures
            r@ == severity_emoji_code(severity) + " Error: "@ + error_code@,
    {
        let sign = match severity {
            Severity::Critical => ":red_circle:",
            Severity::Warning => ":orange_circle:",
            Severity::Info => ":blue_circle:",
        };
        let mut out = chars_of(sign);
        append_chars(&mut out, &chars_of(" Error: "));
        append_chars(&mut out, &chars_of(error_code));
        string_from_chars(out.as_slice())
    }

    /// The message of an error alert; each detail becomes an inline field.
    pub fn error_alert_message(
        error_code: &str,
        message: &str,
        severity: Severity,
        details: Option<Vec<(String, String)>>,
        timestamp: String,
    ) -> (r: DiscordMessage)
        ensures
            r.content is None,
            r.embeds matches Some(es) && es@.len() == 1
                && es@[0].title@ == severity_emoji_code(severity) + " Error: "@ + error_code@
                && es@[0].description@ == message@ && es@[0].color == severity_color(severity)
                && es@[0].timestamp == Some(timestamp)
                && match details {
                    None => es@[0].fields is None,
                    Some(d) => es@[0].fields matches Some(fs) && fs@.len() == d@.len()
                        && forall|i: int| 0 <= i < d@.len() ==> (#[trigger] fs@[i]).name == d@[i].0
                            && fs@[i].value == d@[i].1 && fs@[i].inline,
                },
    {
        let fields = match details {
            None => None,
            Some(d) => {
                let mut fs: Vec<DiscordEmbedField> = Vec::new();
                let mut i: usize = 0;
                while i < d.len()
                    invariant
                        i <= d@.len(),
                        fs@.len() == i,
                        forall|k: int| 0 <= k < i ==> (#[trigger] fs@[k]).name == d@[k].0
                            && fs@[k].value == d@[k].1 && fs@[k].inline,
                    decreases d.len() - i,
                {
                    let pair = &d[i];
                    fs.push(DiscordEmbedField { name: pair.0.clone(), value: pair.1.clone(), inline: true });
                    i = i + 1;
                }
                Some(fs)
            },
        };
        let embed = DiscordEmbed {
            title: DiscordAlert::error_alert_title(error_code, severity),
            description: owned(message),
            color: DiscordAlert::color_of(severity),
            fields,
            timestamp: Some(timestamp),
        };
        DiscordMessage { content: None, embeds: Some(vec![embed]) }
    }

    /// The title of an event alert, e.g. `🚨 [CRITICAL] AI5001`.
    pub fn event_alert_title(severity: &str, error_code: &str) -> (r: String)
        ensures
            r@ == event_alert_title_text(severity@, error_code@),
    {
        let l = to_lower(severity);
        let sign = if str_eq(l.as_str(), "critical") {
            "🚨"
        } else if str_eq(l.as_str(), "warning") {
            "⚠️"
        } else {
            "ℹ️"
        };
        let mut out = chars_of(sign);
        append_chars(&mut out, &chars_of(" ["));
        append_chars(&mut out, &chars_of(to_upper(severity).as_str()));
        append_chars(&mut out, &chars_of("] "));
        append_chars(&mut out, &chars_of(error_code));
        string_from_chars(out.as_slice())
    }

    /// The message of an event alert, read from the event's payload; missing
    /// members fall back to `info`, `UNKNOWN`, `No message provided`,
    /// `unknown` and `-`.
    pub fn event_alert_message(event: &Event) -> (r: DiscordMessage)
        ensures
            is_event_alert_for(*event, r),
    {
        let data = event.data.as_str();
        let severity = or_default(json_get_str(data, "severity"), "info");
        let error_code = or_default(json_get_str(data, "error_code"), "UNKNOWN");
        let message = or_default(json_get_str(data, "message"), "No message provided");
        let target = or_default(json_get_str(data, "target"), "unknown");
        let request_id = or_default(json_get_str(data, "request_id"), "-");
        let fields = vec![
            DiscordEmbedField { name: owned("Error Code"), value: quoted(error_code.as_str()), inline: true },
            DiscordEmbedField { name: owned("Severity"), value: to_upper(severity.as_str()), inline: true },
            DiscordEmbedField { name: owned("Target"), value: quoted(target.as_str()), inline: true },
            DiscordEmbedField { name: owned("Request ID"), value: quoted(request_id.as_str()), inline: true },
            DiscordEmbedField { name: owned("Source"), value: event.source.clone(), inline: true },
            DiscordEmbedField { name: owned("Event ID"), value: quoted(event.id.as_str()), inline: true },
        ];
        let embed = DiscordEmbed {
            title: DiscordAlert::event_alert_title(severity.as_str(), error_code.as_str()),
            description: message,
            color: DiscordAlert::severity_to_color(severity.as_str()),
            fields: Some(fields),
            timestamp: Some(event.timestamp.clone()),
        };
        DiscordMessage { content: None, embeds: Some(vec![embed]) }
    }
}

/// The text, or a default when there is none.
fn or_default(v: Option<String>, default: &str) -> (r: String)
    ensures
        r@ == (match v {
            Some(s) => s@,
            None => default@,
        }),
{
    match v {
        Some(s) => s,
        None => owned(default),
    }
}

/// The text in back-quotes.
fn quoted(x: &str) -> (r: String)
    ensures
        r@ == code_span(x@),
{
    let mut out: Vec<char> = Vec::new();
    out.push('`');
    append_chars(&mut out, &chars_of(x));
    out.push('`');
    string_from_chars(out.as_slice())
}

} // verus!

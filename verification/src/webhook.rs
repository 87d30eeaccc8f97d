//! Discord webhooks: which one speaks for a game, whether it is switched
//! on, and what an embed holds.

use vstd::prelude::*;
use vstd::string::*;
use crate::config::Config;
use crate::numbers::{all_digits, digit, digit_of, parse_unsigned, unsigned_in_radix};
use crate::text::{is_blank, same_text, to_chars, trim, trim_bounds, trimmed};

verus! {

/// The text that `str::to_lowercase` gives for a text.
pub uninterp spec fn lowercase_text(text: Seq<char>) -> Seq<char>;

/// `str::to_lowercase`: the outcome depends on the text alone.
#[verifier::external_body]
pub(crate) fn lowercase(text: &str) -> (lowered: String)
    ensures
        lowered@ == lowercase_text(text@),
{
    text.to_lowercase()
}

/// The webhook identity for a game whose name is already in lower case.
pub open spec fn identity_of_lowered(game: Seq<char>) -> Seq<char> {
    if game == "minecraft"@ {
        "mineotter"@
    } else if game == "palworld"@ {
        "multiloutre"@
    } else {
        "otternel"@
    }
}

/// The webhook identity for a game whose name is already in lower case:
/// `mineotter` for `minecraft`, `multiloutre` for `palworld`, `otternel` for
/// every other game.
pub fn webhook_identity_of_lowered(game: &str) -> (identity: &'static str)
    ensures
        identity@ == identity_of_lowered(game@),
{
    if same_text(game, "minecraft") {
        "mineotter"
    } else if same_text(game, "palworld") {
        "multiloutre"
    } else {
        "otternel"
    }
}

/// The webhook identity that speaks for a game, whatever the case of its
/// name.
pub fn get_webhook_identity_by_server_id(game: String) -> (identity: &'static str)
    ensures
        identity@ == identity_of_lowered(lowercase_text(game@)),
{
    let lowered = lowercase(game.as_str());
    webhook_identity_of_lowered(lowered.as_str())
}

/// The lower case form of an ASCII capital; any other character is itself.
pub open spec fn ascii_lower(c: char) -> char {
    if 65 <= (c as u32) <= 90 {
        ((c as u32) + 32) as char
    } else {
        c
    }
}

/// A text with its ASCII capitals in lower case.
pub open spec fn ascii_lowered(text: Seq<char>) -> Seq<char> {
    Seq::new(text.len(), |i: int| ascii_lower(text[i]))
}

/// `str::to_ascii_lowercase`: the ASCII capitals become lower case letters,
/// every other character stays.
#[verifier::external_body]
fn to_ascii_lowercase(text: &str) -> (lowered: String)
    ensures
        lowered@ == ascii_lowered(text@),
{
    text.to_ascii_lowercase()
}

/// `str::eq_ignore_ascii_case`: the two texts are equal once their ASCII
/// capitals are in lower case.
#[verifier::external_body]
fn eq_ignore_ascii_case(a: &str, b: &str) -> (same: bool)
    ensures
        same == (ascii_lowered(a@) == ascii_lowered(b@)),
{
    a.eq_ignore_ascii_case(b)
}

/// A text without the hash sign that may lead it.
pub open spec fn without_hash(text: Seq<char>) -> Seq<char> {
    if text.len() > 0 && text[0] == '#' {
        text.drop_first()
    } else {
        text
    }
}

/// A text without the `0x` or `0X` that may lead it.
pub open spec fn without_hex_mark(text: Seq<char>) -> Seq<char> {
    if text.len() >= 2 && text[0] == '0' && (text[1] == 'x' || text[1] == 'X') {
        text.skip(2)
    } else {
        text
    }
}

/// The colour that a text denotes. White space around it is ignored. A text
/// of decimal digits alone is a decimal number; any other is read as
/// hexadecimal digits, after an optional `#` and an optional `0x`.
pub open spec fn discord_color_of(text: Seq<char>) -> Option<u32> {
    let inner = trimmed(text);
    if all_digits(inner, 10) {
        unsigned_in_radix(inner, 10)
    } else {
        unsigned_in_radix(without_hex_mark(without_hash(inner)), 16)
    }
}

/// Reads a colour as Discord takes it: `#RRGGBB`, `0xRRGGBB`, `RRGGBB` or a
/// decimal number.
pub fn parse_discord_color(s: &str) -> (color: Option<u32>)
    ensures
        color == discord_color_of(s@),
{
    let chars = to_chars(s);
    let (start, end) = trim_bounds(&chars);
    let ghost inner = trimmed(s@);
    let mut i: usize = start;
    let mut decimal: bool = true;
    while i < end
        invariant
            start <= i <= end <= chars@.len(),
            inner == chars@.subrange(start as int, end as int),
            decimal ==> forall|k: int| 0 <= k < i - start ==> digit_of(#[trigger] inner[k], 10) is Some,
            !decimal ==> !all_digits(inner, 10),
        decreases end - i,
    {
        if digit(chars[i], 10).is_none() {
            proof {
                assert(inner[i - start] == chars@[i as int]);
            }
            decimal = false;
        }
        i += 1;
    }
    if decimal {
        return parse_unsigned(&chars, start, end, 10);
    }
    let mut from: usize = start;
    if from < end && chars[from] == '#' {
        from += 1;
    }
    proof {
        assert(without_hash(inner) =~= chars@.subrange(from as int, end as int));
    }
    let ghost bare = without_hash(inner);
    let ghost before = from;
    if end - from >= 2 && chars[from] == '0' && (chars[from + 1] == 'x' || chars[from + 1] == 'X') {
        from += 2;
    }
    proof {
        assert(bare.len() >= 2 ==> bare[0] == chars@[before as int] && bare[1] == chars@[before + 1]);
        assert(without_hex_mark(bare) =~= chars@.subrange(from as int, end as int));
    }
    parse_unsigned(&chars, from, end, 16)
}

/// Whether a text holds nothing but white space.
pub fn is_blank_text(text: &str) -> (blank: bool)
    ensures
        blank == is_blank(text@),
{
    let chars = to_chars(text);
    let (start, end) = trim_bounds(&chars);
    start == end
}

/// A webhook as the settings describe it.
pub struct WebhookConfig {
    pub identity: &'static str,
    pub activated: String,
    pub url: String,
}

/// The name by which an identity is looked up: trimmed, in lower case.
pub open spec fn identity_key(webhook_identity: Seq<char>) -> Seq<char> {
    ascii_lowered(trimmed(webhook_identity))
}

/// The settings know a webhook of this identity.
pub open spec fn is_known_identity(webhook_identity: Seq<char>) -> bool {
    let key = identity_key(webhook_identity);
    key == "otternel"@ || key == "mineotter"@ || key == "multiloutre"@
}

impl WebhookConfig {
    /// This is the webhook that the settings hold for the identity.
    pub open spec fn is_taken_from(self, cfg: Config, webhook_identity: Seq<char>) -> bool {
        let key = identity_key(webhook_identity);
        if key == "otternel"@ {
            &&& self.identity@ == "otternel"@
            &&& self.activated == cfg.otternel_webhook_activated
            &&& self.url == cfg.otternel_webhook_url
        } else if key == "mineotter"@ {
            &&& self.identity@ == "mineotter"@
            &&& self.activated == cfg.mineotter_bot_webhook_activated
            &&& self.url == cfg.mineotter_bot_webhook_url
        } else {
            &&& key == "multiloutre"@
            &&& self.identity@ == "multiloutre"@
            &&& self.activated == cfg.multiloutre_bot_webhook_activated
            &&& self.url == cfg.multiloutre_bot_webhook_url
        }
    }

    /// The webhook is switched on: its flag reads `true` in any case of
    /// letters, and it has a URL.
    pub open spec fn is_enabled(self) -> bool {
        ascii_lowered(self.activated@) == ascii_lowered("true"@) && self.url@.len() > 0
    }

    /// Whether messages are to be sent to this webhook.
    pub fn enabled(&self) -> (yes: bool)
        ensures
            yes == self.is_enabled(),
    {
        eq_ignore_ascii_case(self.activated.as_str(), "true") && !self.url.as_str().is_empty()
    }
}

/// Looks up the webhook of an identity in the settings: `otternel`,
/// `mineotter` or `multiloutre`, in any case of letters and with white space
/// around it. Any other identity is refused, and the refusal names it.
pub fn get_webhook_config(cfg: &Config, webhook_identity: &str) -> (found: Result<
    WebhookConfig,
    String,
>)
    ensures
        found is Ok <==> is_known_identity(webhook_identity@),
        found matches Ok(webhook) ==> webhook.is_taken_from(*cfg, webhook_identity@),
        found matches Err(message) ==> message@ == "unknown webhook identity: "@ + identity_key(
            webhook_identity@,
        ),
{
    let key = to_ascii_lowercase(trim(webhook_identity));
    if same_text(key.as_str(), "otternel") {
        Ok(
            WebhookConfig {
                identity: "otternel",
                activated: cfg.otternel_webhook_activated.clone(),
                url: cfg.otternel_webhook_url.clone(),
            },
        )
    } else if same_text(key.as_str(), "mineotter") {
        Ok(
            WebhookConfig {
                identity: "mineotter",
                activated: cfg.mineotter_bot_webhook_activated.clone(),
                url: cfg.mineotter_bot_webhook_url.clone(),
            },
        )
    } else if same_text(key.as_str(), "multiloutre") {
        Ok(
            WebhookConfig {
                identity: "multiloutre",
                activated: cfg.multiloutre_bot_webhook_activated.clone(),
                url: cfg.multiloutre_bot_webhook_url.clone(),
            },
        )
    } else {
        Err(String::from_str("unknown webhook identity: ").concat(key.as_str()))
    }
}

/// What the caller wants an embed to show. A text that is blank stands for
/// "nothing".
pub struct EmbedFields {
    pub content: String,
    pub title: String,
    pub title_hyperlink: String,
    pub supertext: String,
    pub color_rgb: Option<String>,
    pub thumbnail_url: String,
    pub image_url: String,
    pub footer_image_url: String,
    pub footer_text: String,
    pub timestamp_iso8601: Option<String>,
}

/// The footer of an embed.
pub struct Footer {
    pub text: String,
    pub icon_url: Option<String>,
}

/// What is sent to the webhook: one embed, and a message beside it if there
/// is one.
pub struct Payload {
    pub content: Option<String>,
    pub title: String,
    pub description: String,
    pub url: Option<String>,
    pub color: Option<u32>,
    pub thumbnail: Option<String>,
    pub image: Option<String>,
    pub footer: Option<Footer>,
    pub timestamp: Option<String>,
}

/// A text, unless it is blank.
pub open spec fn unless_blank(text: String) -> Option<String> {
    if is_blank(text@) {
        None
    } else {
        Some(text)
    }
}

/// The colour of an embed: none where no colour is given, where it is empty
/// or `0`, or where it cannot be read.
pub open spec fn color_of(color_rgb: Option<String>) -> Option<u32> {
    match color_rgb {
        Some(text) => if text@ == "0"@ || text@.len() == 0 {
            None
        } else {
            discord_color_of(text@)
        },
        None => None,
    }
}

/// The footer of an embed: there is one where its text or its icon is not
/// blank, and the icon is named only where it is not blank.
pub open spec fn footer_of(footer_text: String, footer_image_url: String) -> Option<Footer> {
    if is_blank(footer_text@) && is_blank(footer_image_url@) {
        None
    } else {
        Some((Footer { text: footer_text, icon_url: unless_blank(footer_image_url) }))
    }
}

/// The payload for these fields.
pub open spec fn payload_of(fields: EmbedFields) -> Payload {
    Payload {
        content: unless_blank(fields.content),
        title: fields.title,
        description: fields.supertext,
        url: unless_blank(fields.title_hyperlink),
        color: color_of(fields.color_rgb),
        thumbnail: unless_blank(fields.thumbnail_url),
        image: unless_blank(fields.image_url),
        footer: footer_of(fields.footer_text, fields.footer_image_url),
        timestamp: match fields.timestamp_iso8601 {
            Some(text) => unless_blank(text),
            None => None,
        },
    }
}

/// A text, unless it is blank.
pub fn keep_unless_blank(text: String) -> (kept: Option<String>)
    ensures
        kept == unless_blank(text),
{
    if is_blank_text(text.as_str()) {
        None
    } else {
        Some(text)
    }
}

/// Decides what an embed holds: title and description always, everything
/// else only where the caller gave something to show.
pub fn plan_payload(fields: EmbedFields) -> (payload: Payload)
    ensures
        payload == payload_of(fields),
{
    let color = match &fields.color_rgb {
        Some(text) => {
            if same_text(text.as_str(), "0") || text.as_str().is_empty() {
                None
            } else {
                parse_discord_color(text.as_str())
            }
        },
        None => None,
    };
    let footer = if is_blank_text(fields.footer_text.as_str()) && is_blank_text(
        fields.footer_image_url.as_str(),
    ) {
        None
    } else {
        Some(Footer { text: fields.footer_text, icon_url: keep_unless_blank(fields.footer_image_url) })
    };
    let timestamp = match fields.timestamp_iso8601 {
        Some(text) => keep_unless_blank(text),
        None => None,
    };
    Payload {
        content: keep_unless_blank(fields.content),
        title: fields.title,
        description: fields.supertext,
        url: keep_unless_blank(fields.title_hyperlink),
        color,
        thumbnail: keep_unless_blank(fields.thumbnail_url),
        image: keep_unless_blank(fields.image_url),
        footer,
        timestamp,
    }
}

} // verus!

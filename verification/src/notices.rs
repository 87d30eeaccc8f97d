//! What the actions tell Discord: who a log line is about, and the embed
//! that reports it.

use vstd::prelude::*;
use vstd::string::*;
use regex::Regex;
use crate::patterns::{capture_groups, group_texts, regex_groups, regex_source};
use crate::text::{
    ends_with, find_first, first_occurrence, has_suffix, to_chars, trim_bounds, trimmed,
};
use crate::webhook::{lowercase, lowercase_text, EmbedFields};

verus! {

/// The part of a log line behind its first `]: `, up to the next one.
pub open spec fn message_part(line: Seq<char>) -> Option<Seq<char>> {
    let first = first_occurrence(line, "]: "@, 0);
    if first < 0 {
        None
    } else {
        let start = first + "]: "@.len();
        let next = first_occurrence(line, "]: "@, start);
        if next < 0 {
            Some(line.skip(start))
        } else {
            Some(line.subrange(start, next))
        }
    }
}

/// What stands before ` left the game` or ` joined the game` at the end of
/// a message.
pub open spec fn subject_of(message: Seq<char>) -> Option<Seq<char>> {
    if has_suffix(message, " left the game"@) {
        Some(message.take(message.len() - " left the game"@.len()))
    } else if has_suffix(message, " joined the game"@) {
        Some(message.take(message.len() - " joined the game"@.len()))
    } else {
        None
    }
}

/// The player that a connection line is about: the trimmed subject of its
/// message, or `Joueur` where the line names nobody.
pub open spec fn player_of_connection_line(line: Seq<char>) -> Seq<char> {
    match message_part(line) {
        Some(message) => match subject_of(message) {
            Some(subject) => if trimmed(subject).len() > 0 {
                trimmed(subject)
            } else {
                "Joueur"@
            },
            None => "Joueur"@,
        },
        None => "Joueur"@,
    }
}

/// Finds the player that a connection line is about.
pub fn connection_player(line: &str) -> (player: String)
    ensures
        player@ == player_of_connection_line(line@),
{
    let chars = to_chars(line);
    let n: usize = chars.len();
    let separator = to_chars("]: ");
    proof {
        assert(chars@.take(n as int) =~= chars@);
    }
    let first = match find_first(&chars, n, &separator, 0) {
        Some(at) => at,
        None => {
            return String::from_str("Joueur");
        },
    };
    let start: usize = first + separator.len();
    let end: usize = match find_first(&chars, n, &separator, start) {
        Some(at) => at,
        None => n,
    };
    let ghost message = chars@.subrange(start as int, end as int);
    proof {
        assert(chars@.skip(start as int) =~= chars@.subrange(start as int, n as int));
        assert(message_part(line@) == Some(message));
    }
    let left = to_chars(" left the game");
    let joined = to_chars(" joined the game");
    let stop: usize = if ends_with(&chars, start, end, &left) {
        end - left.len()
    } else if ends_with(&chars, start, end, &joined) {
        end - joined.len()
    } else {
        return String::from_str("Joueur");
    };
    let ghost subject = chars@.subrange(start as int, stop as int);
    proof {
        assert(message.take(stop - start) =~= subject);
        assert(subject_of(message) == Some(subject));
    }
    let inner = line.substring_char(start, stop);
    let inner_chars = to_chars(inner);
    let (a, b) = trim_bounds(&inner_chars);
    if a == b {
        String::from_str("Joueur")
    } else {
        String::from_str(inner.substring_char(a, b))
    }
}

/// The page of a player on the community's site.
pub open spec fn player_page(player: Seq<char>) -> Seq<char> {
    "https://antredesloutres.fr/joueurs/minecraft/"@ + lowercase_text(player)
}

/// What a connection is called in the notice.
pub open spec fn connection_verb(joined: bool) -> Seq<char> {
    if joined {
        "rejoint"@
    } else {
        "quitté"@
    }
}

/// The notice of a connection: the player as title, linked to the player's
/// page, and a sentence that says which server was joined or left.
pub open spec fn connection_notice_of(
    player: Seq<char>,
    joined: bool,
    server_name: Seq<char>,
    fields: EmbedFields,
) -> bool {
    &&& fields.content@ == " "@
    &&& fields.title@ == player
    &&& fields.title_hyperlink@ == player_page(player)
    &&& fields.supertext@ == player + " a "@ + connection_verb(joined) + " "@ + server_name
    &&& fields.thumbnail_url@ == " "@
    &&& fields.image_url@ == " "@
    &&& fields.footer_image_url@ == " "@
    &&& fields.footer_text@ == "Message de "@ + server_name
}

/// Builds the notice of a connection.
pub fn connection_notice(
    line: &str,
    joined: bool,
    server_name: &str,
    embed_color: Option<String>,
    timestamp: Option<String>,
) -> (fields: EmbedFields)
    ensures
        connection_notice_of(player_of_connection_line(line@), joined, server_name@, fields),
        fields.color_rgb == embed_color,
        fields.timestamp_iso8601 == timestamp,
{
    let player = connection_player(line);
    let verb = if joined {
        "rejoint"
    } else {
        "quitté"
    };
    let page = String::from_str("https://antredesloutres.fr/joueurs/minecraft/").concat(
        lowercase(player.as_str()).as_str(),
    );
    let sentence = player.clone().concat(" a ").concat(verb).concat(" ").concat(server_name);
    EmbedFields {
        content: String::from_str(" "),
        title: player,
        title_hyperlink: page,
        supertext: sentence,
        color_rgb: embed_color,
        thumbnail_url: String::from_str(" "),
        image_url: String::from_str(" "),
        footer_image_url: String::from_str(" "),
        footer_text: String::from_str("Message de ").concat(server_name),
        timestamp_iso8601: timestamp,
    }
}

/// The pattern of a chat line: the player between angle brackets, white
/// space, the message.
pub const CHAT_PATTERN: &'static str = "<([^>]+)>\\s(.+)";

/// The pattern of an advancement line: the player, one of the three ways an
/// advancement is announced, and its name in square brackets.
pub const ADVANCEMENT_PATTERN: &'static str =
    "^(?:\\[[^\\]]+\\]\\s*:?\\s*)*([^ ]+)\\s+(?:has made the advancement|completed the challenge|reached the goal)\\s+\\[?(.+?)\\]$";

/// The pattern of a death line: behind a colon, the player and what
/// happened to them.
pub const DEATH_PATTERN: &'static str = ": ([^ ]+) (.+)$";

/// Some expression compiled from the pattern finds these groups in the
/// line.
pub open spec fn is_capture_of(
    pattern: Seq<char>,
    line: Seq<char>,
    groups: Seq<Option<Seq<char>>>,
) -> bool {
    exists|re: Regex| regex_source(re) == pattern && regex_groups(re, line) == Some(groups)
}

/// What applying the pattern to the line may give: groups that an
/// expression compiled from the pattern finds, or nothing.
pub open spec fn may_capture(
    pattern: Seq<char>,
    line: Seq<char>,
    found: Option<Seq<Option<Seq<char>>>>,
) -> bool {
    found matches Some(groups) ==> is_capture_of(pattern, line, groups)
}

/// The texts of the groups that were found, if any were.
pub open spec fn found_texts(found: Option<Vec<Option<String>>>) -> Option<Seq<Option<Seq<char>>>> {
    match found {
        Some(groups) => Some(group_texts(groups@)),
        None => None,
    }
}

/// The text of group `i`, or the fallback where there is no such group or
/// it took no part in the match.
pub open spec fn group_or(groups: Seq<Option<Seq<char>>>, i: int, fallback: Seq<char>) -> Seq<char> {
    if 0 <= i < groups.len() && groups[i] is Some {
        groups[i]->Some_0
    } else {
        fallback
    }
}

/// Compiles the pattern and looks for its leftmost match in the line.
/// `None` where the pattern does not compile or the line has no match.
pub fn line_groups(pattern: &str, line: &str) -> (found: Option<Vec<Option<String>>>)
    ensures
        may_capture(pattern@, line@, found_texts(found)),
{
    // Whether the pattern compiles is for `Regex::new` to say; what is made
    // of its answer is said in full by `groups_of_compiled`.
    let compiled = Regex::new(pattern);
    groups_of_compiled(compiled, line)
}

/// The text of group `i`, or the fallback.
pub fn group_text(groups: &Vec<Option<String>>, i: usize, fallback: &str) -> (text: String)
    ensures
        text@ == group_or(group_texts(groups@), i as int, fallback@),
{
    if i < groups.len() {
        match &groups[i] {
            Some(text) => text.clone(),
            None => String::from_str(fallback),
        }
    } else {
        String::from_str(fallback)
    }
}

/// The head of a player on the avatar service.
pub open spec fn player_head(player: Seq<char>) -> Seq<char> {
    "https://mc-heads.net/avatar/"@ + lowercase_text(player) + "/50"@
}

/// The notice of a chat message: the player as title, linked to the
/// player's page, the message as text and the player's head beside it.
pub open spec fn chat_notice_of(
    player: Seq<char>,
    message: Seq<char>,
    server_name: Seq<char>,
    fields: EmbedFields,
) -> bool {
    &&& fields.content@ == " "@
    &&& fields.title@ == player
    &&& fields.title_hyperlink@ == player_page(player)
    &&& fields.supertext@ == message
    &&& fields.thumbnail_url@ == player_head(player)
    &&& fields.image_url@ == " "@
    &&& fields.footer_image_url@ == " "@
    &&& fields.footer_text@ == "Message de "@ + server_name
}

/// The groups hold a chat message: a player and what they said.
pub open spec fn is_chat(found: Option<Seq<Option<Seq<char>>>>) -> bool {
    found matches Some(groups) && groups.len() > 2 && groups[1] is Some && groups[2] is Some
}

/// Builds the notice of a chat message from the groups of a chat line.
/// There is none where the line held no chat message.
pub fn chat_notice_from(
    found: Option<Vec<Option<String>>>,
    server_name: &str,
    embed_color: Option<String>,
    timestamp: Option<String>,
) -> (notice: Option<EmbedFields>)
    ensures
        notice is Some <==> is_chat(found_texts(found)),
        notice matches Some(fields) ==> {
            &&& chat_notice_of(
                found_texts(found)->Some_0[1]->Some_0,
                found_texts(found)->Some_0[2]->Some_0,
                server_name@,
                fields,
            )
            &&& fields.color_rgb == embed_color
            &&& fields.timestamp_iso8601 == timestamp
        },
{
    let groups = match found {
        Some(groups) => groups,
        None => {
            return None;
        },
    };
    if groups.len() <= 2 {
        return None;
    }
    let player = match &groups[1] {
        Some(text) => text.clone(),
        None => {
            return None;
        },
    };
    let message = match &groups[2] {
        Some(text) => text.clone(),
        None => {
            return None;
        },
    };
    let lowered = lowercase(player.as_str());
    Some(
        EmbedFields {
            content: String::from_str(" "),
            title: player,
            title_hyperlink: String::from_str(
                "https://antredesloutres.fr/joueurs/minecraft/",
            ).concat(lowered.as_str()),
            supertext: message,
            color_rgb: embed_color,
            thumbnail_url: String::from_str("https://mc-heads.net/avatar/").concat(
                lowered.as_str(),
            ).concat("/50"),
            image_url: String::from_str(" "),
            footer_image_url: String::from_str(" "),
            footer_text: String::from_str("Message de ").concat(server_name),
            timestamp_iso8601: timestamp,
        },
    )
}

/// Builds the notice of a chat line, if the line holds a chat message.
pub fn chat_notice(
    line: &str,
    server_name: &str,
    embed_color: Option<String>,
    timestamp: Option<String>,
) -> (notice: Option<EmbedFields>)
    ensures
        notice matches Some(fields) ==> exists|groups: Seq<Option<Seq<char>>>|
            {
                &&& is_capture_of(CHAT_PATTERN@, line@, groups)
                &&& is_chat(Some(groups))
                &&& #[trigger] chat_notice_of(
                    groups[1]->Some_0,
                    groups[2]->Some_0,
                    server_name@,
                    fields,
                )
            },
        notice matches Some(fields) ==> fields.color_rgb == embed_color && fields.timestamp_iso8601
            == timestamp,
{
    let found = line_groups(CHAT_PATTERN, line);
    let ghost texts = found_texts(found);
    let notice = chat_notice_from(found, server_name, embed_color, timestamp);
    proof {
        if notice is Some {
            let groups = texts->Some_0;
            assert(is_capture_of(CHAT_PATTERN@, line@, groups));
            assert(chat_notice_of(
                groups[1]->Some_0,
                groups[2]->Some_0,
                server_name@,
                notice->Some_0,
            ));
        }
    }
    notice
}

/// The notice of an advancement: the player as title, linked to the
/// player's page, and a sentence that names the advancement and the server.
pub open spec fn advancement_notice_of(
    player: Seq<char>,
    advancement: Seq<char>,
    server_name: Seq<char>,
    fields: EmbedFields,
) -> bool {
    &&& fields.content@ == " "@
    &&& fields.title@ == player
    &&& fields.title_hyperlink@ == player_page(player)
    &&& fields.supertext@ == player + " a obtenu l'avancement "@ + advancement + " sur "@
        + server_name + " !"@
    &&& fields.thumbnail_url@ == " "@
    &&& fields.image_url@ == " "@
    &&& fields.footer_image_url@ == " "@
    &&& fields.footer_text@ == "Message de "@ + server_name
}

/// Builds the notice of an advancement from the groups of an advancement
/// line: the player is the first group, or `Joueur`; the advancement is the
/// second, or nothing. There is no notice where the line did not match.
pub fn advancement_notice_from(
    found: Option<Vec<Option<String>>>,
    server_name: &str,
    embed_color: Option<String>,
    timestamp: Option<String>,
) -> (notice: Option<EmbedFields>)
    ensures
        notice is Some <==> found is Some,
        notice matches Some(fields) ==> {
            &&& advancement_notice_of(
                group_or(found_texts(found)->Some_0, 1, "Joueur"@),
                group_or(found_texts(found)->Some_0, 2, ""@),
                server_name@,
                fields,
            )
            &&& fields.color_rgb == embed_color
            &&& fields.timestamp_iso8601 == timestamp
        },
{
    let groups = match found {
        Some(groups) => groups,
        None => {
            return None;
        },
    };
    let player = group_text(&groups, 1, "Joueur");
    let advancement = group_text(&groups, 2, "");
    let page = String::from_str("https://antredesloutres.fr/joueurs/minecraft/").concat(
        lowercase(player.as_str()).as_str(),
    );
    let sentence = player.clone().concat(" a obtenu l'avancement ").concat(
        advancement.as_str(),
    ).concat(" sur ").concat(server_name).concat(" !");
    Some(
        EmbedFields {
            content: String::from_str(" "),
            title: player,
            title_hyperlink: page,
            supertext: sentence,
            color_rgb: embed_color,
            thumbnail_url: String::from_str(" "),
            image_url: String::from_str(" "),
            footer_image_url: String::from_str(" "),
            footer_text: String::from_str("Message de ").concat(server_name),
            timestamp_iso8601: timestamp,
        },
    )
}

/// Builds the notice of an advancement line, if the line announces one.
pub fn advancement_notice(
    line: &str,
    server_name: &str,
    embed_color: Option<String>,
    timestamp: Option<String>,
) -> (notice: Option<EmbedFields>)
    ensures
        notice matches Some(fields) ==> exists|groups: Seq<Option<Seq<char>>>|
            {
                &&& is_capture_of(ADVANCEMENT_PATTERN@, line@, groups)
                &&& #[trigger] advancement_notice_of(
                    group_or(groups, 1, "Joueur"@),
                    group_or(groups, 2, ""@),
                    server_name@,
                    fields,
                )
            },
        notice matches Some(fields) ==> fields.color_rgb == embed_color && fields.timestamp_iso8601
            == timestamp,
{
    let found = line_groups(ADVANCEMENT_PATTERN, line);
    let ghost texts = found_texts(found);
    let notice = advancement_notice_from(found, server_name, embed_color, timestamp);
    proof {
        if notice is Some {
            let groups = texts->Some_0;
            assert(is_capture_of(ADVANCEMENT_PATTERN@, line@, groups));
            assert(advancement_notice_of(
                group_or(groups, 1, "Joueur"@),
                group_or(groups, 2, ""@),
                server_name@,
                notice->Some_0,
            ));
        }
    }
    notice
}

/// Who died, by the groups of a death line: the first group, or `Joueur`.
pub open spec fn dead_player(found: Option<Seq<Option<Seq<char>>>>) -> Seq<char> {
    match found {
        Some(groups) => group_or(groups, 1, "Joueur"@),
        None => "Joueur"@,
    }
}

/// How they died, by the groups of a death line: the second group, or
/// `est mort.`.
pub open spec fn death_message(found: Option<Seq<Option<Seq<char>>>>) -> Seq<char> {
    match found {
        Some(groups) => group_or(groups, 2, "est mort."@),
        None => "est mort."@,
    }
}

/// The notice of a death: a title that names the player and the server,
/// linked to the player's page, and the player with what happened as text.
pub open spec fn death_notice_of(
    player: Seq<char>,
    message: Seq<char>,
    server_name: Seq<char>,
    fields: EmbedFields,
) -> bool {
    &&& fields.content@ == " "@
    &&& fields.title@ == player + " est mort sur "@ + server_name + " !"@
    &&& fields.title_hyperlink@ == player_page(player)
    &&& fields.supertext@ == player + " "@ + message
    &&& fields.thumbnail_url@ == " "@
    &&& fields.image_url@ == " "@
    &&& fields.footer_image_url@ == " "@
    &&& fields.footer_text@ == "Message de "@ + server_name
}

/// Builds the notice of a death from the groups of a death line. A line
/// that did not match is reported all the same, about `Joueur`.
pub fn death_notice_from(
    found: Option<Vec<Option<String>>>,
    server_name: &str,
    embed_color: Option<String>,
    timestamp: Option<String>,
) -> (fields: EmbedFields)
    ensures
        death_notice_of(
            dead_player(found_texts(found)),
            death_message(found_texts(found)),
            server_name@,
            fields,
        ),
        fields.color_rgb == embed_color,
        fields.timestamp_iso8601 == timestamp,
{
    let (player, message) = match &found {
        Some(groups) => (group_text(groups, 1, "Joueur"), group_text(groups, 2, "est mort.")),
        None => (String::from_str("Joueur"), String::from_str("est mort.")),
    };
    let page = String::from_str("https://antredesloutres.fr/joueurs/minecraft/").concat(
        lowercase(player.as_str()).as_str(),
    );
    EmbedFields {
        content: String::from_str(" "),
        title: player.clone().concat(" est mort sur ").concat(server_name).concat(" !"),
        title_hyperlink: page,
        supertext: player.concat(" ").concat(message.as_str()),
        color_rgb: embed_color,
        thumbnail_url: String::from_str(" "),
        image_url: String::from_str(" "),
        footer_image_url: String::from_str(" "),
        footer_text: String::from_str("Message de ").concat(server_name),
        timestamp_iso8601: timestamp,
    }
}

/// Builds the notice of a death line.
pub fn death_notice(
    line: &str,
    server_name: &str,
    embed_color: Option<String>,
    timestamp: Option<String>,
) -> (fields: EmbedFields)
    ensures
        exists|found: Option<Seq<Option<Seq<char>>>>|
            {
                &&& may_capture(DEATH_PATTERN@, line@, found)
                &&& #[trigger] death_notice_of(
                    dead_player(found),
                    death_message(found),
                    server_name@,
                    fields,
                )
            },
        fields.color_rgb == embed_color,
        fields.timestamp_iso8601 == timestamp,
{
    let found = line_groups(DEATH_PATTERN, line);
    let ghost texts = found_texts(found);
    let fields = death_notice_from(found, server_name, embed_color, timestamp);
    proof {
        assert(may_capture(DEATH_PATTERN@, line@, texts));
        assert(death_notice_of(dead_player(texts), death_message(texts), server_name@, fields));
    }
    fields
}

/// What the outcome of compiling a pattern finds in a line: the groups
/// that the compiled expression finds, or nothing where the pattern was
/// refused.
pub open spec fn groups_found(
    compiled: Result<Regex, regex::Error>,
    line: Seq<char>,
) -> Option<Seq<Option<Seq<char>>>> {
    match compiled {
        Ok(re) => regex_groups(re, line),
        Err(_) => None,
    }
}

/// Looks for the leftmost match in the line, given the outcome of compiling
/// a pattern: the groups of the match where the pattern compiled and the
/// line matches, `None` where it was refused or the line has no match.
pub fn groups_of_compiled(compiled: Result<Regex, regex::Error>, line: &str) -> (found: Option<
    Vec<Option<String>>,
>)
    ensures
        found_texts(found) == groups_found(compiled, line@),
{
    match compiled {
        Ok(re) => capture_groups(&re, line),
        Err(_) => None,
    }
}

} // verus!

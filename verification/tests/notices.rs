use otternel::notices::{
    advancement_notice, advancement_notice_from, chat_notice, chat_notice_from, connection_notice,
    connection_player, death_notice, death_notice_from, group_text, groups_of_compiled,
    line_groups, ADVANCEMENT_PATTERN, CHAT_PATTERN, DEATH_PATTERN,
};
use regex::Regex;

#[test]
fn player_is_named_before_the_connection_words() {
    assert_eq!(connection_player("[12:00:00] [Server thread/INFO]: Bob joined the game"), "Bob");
    assert_eq!(connection_player("[00:00:01] [Server thread/INFO]: Steve left the game"), "Steve");
    assert_eq!(connection_player("[x]:   Ann Lee   joined the game"), "Ann Lee");
}

#[test]
fn line_that_names_nobody_gives_the_stand_in() {
    assert_eq!(connection_player("Bob joined the game"), "Joueur");
    assert_eq!(connection_player("[x]: Bob joined the game!"), "Joueur");
    assert_eq!(connection_player("[x]:  joined the game"), "Joueur");
    assert_eq!(connection_player("[x]:  left the game"), "Joueur");
    assert_eq!(connection_player("[x]: "), "Joueur");
    assert_eq!(connection_player(""), "Joueur");
}

#[test]
fn only_the_second_part_of_the_line_counts() {
    assert_eq!(connection_player("[a]: Bob left the game]: Ann joined the game"), "Bob");
    assert_eq!(connection_player("[a]: Bob]: Ann joined the game"), "Joueur");
    assert_eq!(connection_player("[a]: Bob left the game joined the game"), "Bob left the game");
}

#[test]
fn agrees_with_the_standard_string_functions() {
    let lines = [
        "[12:00:00] [Server thread/INFO]: Bob joined the game",
        "]: ]: x left the game",
        "]: x left the game]: ",
        "a]: b]:  c joined the game",
        "]:]: x left the game",
        "[t]: Zoé left the game",
        "[t]: left the game",
        "[t]:\u{00A0}Bob\u{3000} left the game",
    ];
    for line in lines {
        let expected = line
            .split("]: ")
            .nth(1)
            .and_then(|s| s.strip_suffix(" left the game").or_else(|| s.strip_suffix(" joined the game")))
            .map(|s| s.trim())
            .filter(|s| !s.is_empty())
            .unwrap_or("Joueur");
        assert_eq!(connection_player(line), expected, "line {:?}", line);
    }
}

#[test]
fn connection_notice_says_who_went_where() {
    let fields = connection_notice(
        "[12:00:00] [Server thread/INFO]: Bob joined the game",
        true,
        "Survie",
        Some("#00FF00".to_string()),
        Some("2024-05-01T12:00:00+00:00".to_string()),
    );
    assert_eq!(fields.content, " ");
    assert_eq!(fields.title, "Bob");
    assert_eq!(fields.title_hyperlink, "https://antredesloutres.fr/joueurs/minecraft/bob");
    assert_eq!(fields.supertext, "Bob a rejoint Survie");
    assert_eq!(fields.color_rgb, Some("#00FF00".to_string()));
    assert_eq!(fields.thumbnail_url, " ");
    assert_eq!(fields.image_url, " ");
    assert_eq!(fields.footer_image_url, " ");
    assert_eq!(fields.footer_text, "Message de Survie");
    assert_eq!(fields.timestamp_iso8601, Some("2024-05-01T12:00:00+00:00".to_string()));
    let fields = connection_notice("[t]: Ann left the game", false, "Créatif", None, None);
    assert_eq!(fields.supertext, "Ann a quitté Créatif");
    assert_eq!(fields.title_hyperlink, "https://antredesloutres.fr/joueurs/minecraft/ann");
    assert_eq!(fields.color_rgb, None);
    assert_eq!(fields.timestamp_iso8601, None);
}

#[test]
fn chat_line_gives_player_and_message() {
    let fields = chat_notice(
        "[12:00:00] [Server thread/INFO]: <Bob> hello there",
        "Survie",
        Some("126020".to_string()),
        None,
    )
    .expect("the line holds a chat message");
    assert_eq!(fields.content, " ");
    assert_eq!(fields.title, "Bob");
    assert_eq!(fields.title_hyperlink, "https://antredesloutres.fr/joueurs/minecraft/bob");
    assert_eq!(fields.supertext, "hello there");
    assert_eq!(fields.color_rgb, Some("126020".to_string()));
    assert_eq!(fields.thumbnail_url, "https://mc-heads.net/avatar/bob/50");
    assert_eq!(fields.image_url, " ");
    assert_eq!(fields.footer_image_url, " ");
    assert_eq!(fields.footer_text, "Message de Survie");
    assert_eq!(fields.timestamp_iso8601, None);
}

#[test]
fn line_without_chat_gives_no_notice() {
    assert!(chat_notice("[12:00:00] [Server thread/INFO]: Bob joined the game", "S", None, None).is_none());
    assert!(chat_notice("<> hello", "S", None, None).is_none());
    assert!(chat_notice("<Bob>hello", "S", None, None).is_none());
    assert!(chat_notice("", "S", None, None).is_none());
}

#[test]
fn chat_notice_needs_both_groups() {
    assert!(chat_notice_from(None, "S", None, None).is_none());
    assert!(chat_notice_from(Some(vec![]), "S", None, None).is_none());
    assert!(chat_notice_from(Some(vec![Some("<a> b".to_string()), Some("a".to_string())]), "S", None, None).is_none());
    assert!(chat_notice_from(
        Some(vec![Some("x".to_string()), None, Some("b".to_string())]),
        "S",
        None,
        None
    )
    .is_none());
    assert!(chat_notice_from(
        Some(vec![Some("x".to_string()), Some("a".to_string()), None]),
        "S",
        None,
        None
    )
    .is_none());
    let fields = chat_notice_from(
        Some(vec![Some("<Ann> hi".to_string()), Some("Ann".to_string()), Some("hi".to_string())]),
        "Créatif",
        None,
        Some("t".to_string()),
    )
    .expect("both groups are there");
    assert_eq!(fields.title, "Ann");
    assert_eq!(fields.supertext, "hi");
    assert_eq!(fields.thumbnail_url, "https://mc-heads.net/avatar/ann/50");
    assert_eq!(fields.footer_text, "Message de Créatif");
    assert_eq!(fields.timestamp_iso8601, Some("t".to_string()));
}

#[test]
fn advancement_line_names_player_and_advancement() {
    for (line, advancement) in [
        ("[12:00:00] [Server thread/INFO]: Bob has made the advancement [Stone Age]", "Stone Age"),
        ("[12:00:00] [Server thread/INFO]: Bob completed the challenge [Uneasy Alliance]", "Uneasy Alliance"),
        ("Bob reached the goal [Sky's the Limit]", "Sky's the Limit"),
    ] {
        let fields = advancement_notice(line, "Survie", None, None).expect("an advancement line");
        assert_eq!(fields.title, "Bob");
        assert_eq!(fields.title_hyperlink, "https://antredesloutres.fr/joueurs/minecraft/bob");
        assert_eq!(fields.supertext, format!("Bob a obtenu l'avancement {} sur Survie !", advancement));
        assert_eq!(fields.thumbnail_url, " ");
        assert_eq!(fields.footer_text, "Message de Survie");
    }
    assert!(advancement_notice("[12:00:00] [Server thread/INFO]: Bob joined the game", "S", None, None).is_none());
    assert!(advancement_notice("Bob has made the advancement Stone Age", "S", None, None).is_none());
}

#[test]
fn advancement_notice_falls_back_on_missing_groups() {
    assert!(advancement_notice_from(None, "S", None, None).is_none());
    let fields = advancement_notice_from(Some(vec![Some("whole".to_string())]), "S", None, None)
        .expect("the line matched");
    assert_eq!(fields.title, "Joueur");
    assert_eq!(fields.supertext, "Joueur a obtenu l'avancement  sur S !");
    let fields = advancement_notice_from(
        Some(vec![Some("whole".to_string()), None, Some("Stone Age".to_string())]),
        "S",
        Some("#fff".to_string()),
        None,
    )
    .expect("the line matched");
    assert_eq!(fields.title, "Joueur");
    assert_eq!(fields.supertext, "Joueur a obtenu l'avancement Stone Age sur S !");
    assert_eq!(fields.color_rgb, Some("#fff".to_string()));
}

#[test]
fn death_line_names_player_and_cause() {
    let fields = death_notice(
        "[17:58:38] [Server thread/INFO]: TheAzertor fell from a high place",
        "Survie",
        None,
        Some("now".to_string()),
    );
    assert_eq!(fields.content, " ");
    assert_eq!(fields.title, "TheAzertor est mort sur Survie !");
    assert_eq!(fields.title_hyperlink, "https://antredesloutres.fr/joueurs/minecraft/theazertor");
    assert_eq!(fields.supertext, "TheAzertor fell from a high place");
    assert_eq!(fields.footer_text, "Message de Survie");
    assert_eq!(fields.timestamp_iso8601, Some("now".to_string()));
}

#[test]
fn death_line_that_does_not_match_is_reported_about_the_stand_in() {
    let fields = death_notice("nothing to see", "Survie", None, None);
    assert_eq!(fields.title, "Joueur est mort sur Survie !");
    assert_eq!(fields.title_hyperlink, "https://antredesloutres.fr/joueurs/minecraft/joueur");
    assert_eq!(fields.supertext, "Joueur est mort.");
    let fields = death_notice_from(Some(vec![Some("w".to_string()), Some("Ann".to_string())]), "S", None, None);
    assert_eq!(fields.supertext, "Ann est mort.");
    let fields = death_notice_from(Some(vec![Some("w".to_string()), None, Some("burned".to_string())]), "S", None, None);
    assert_eq!(fields.supertext, "Joueur burned");
}

#[test]
fn groups_are_copied_out_in_order() {
    assert_eq!(
        line_groups("(a)|(b)", "xb"),
        Some(vec![Some("b".to_string()), None, Some("b".to_string())])
    );
    assert_eq!(
        line_groups(r"(\w+)@(\w+)", "mail bob@example now"),
        Some(vec![Some("bob@example".to_string()), Some("bob".to_string()), Some("example".to_string())])
    );
    assert_eq!(line_groups("a", "b"), None);
    assert_eq!(line_groups("(", "("), None);
    assert_eq!(line_groups("", "abc"), Some(vec![Some(String::new())]));
}

#[test]
fn group_or_fallback() {
    let groups = vec![Some("w".to_string()), None, Some("x".to_string())];
    assert_eq!(group_text(&groups, 0, "f"), "w");
    assert_eq!(group_text(&groups, 1, "f"), "f");
    assert_eq!(group_text(&groups, 2, "f"), "x");
    assert_eq!(group_text(&groups, 3, "f"), "f");
}

#[test]
fn patterns_are_the_documented_ones() {
    assert_eq!(CHAT_PATTERN, r"<([^>]+)>\s(.+)");
    assert_eq!(
        ADVANCEMENT_PATTERN,
        r"^(?:\[[^\]]+\]\s*:?\s*)*([^ ]+)\s+(?:has made the advancement|completed the challenge|reached the goal)\s+\[?(.+?)\]$"
    );
    assert_eq!(DEATH_PATTERN, r": ([^ ]+) (.+)$");
}

#[test]
fn groups_follow_the_outcome_of_compiling() {
    assert_eq!(
        groups_of_compiled(Regex::new("(b)(c)?"), "abd"),
        Some(vec![Some("b".to_string()), Some("b".to_string()), None])
    );
    assert_eq!(groups_of_compiled(Regex::new("x"), "abd"), None);
    assert_eq!(groups_of_compiled(Regex::new("(b"), "(b"), None);
    assert_eq!(groups_of_compiled(Regex::new("b+"), "abbbd"), Some(vec![Some("bbb".to_string())]));
}

use otternel::actions::{dispatch, dispatch_line, handler_for, Handler};
use otternel::models::{server_or_default, Serveur};

#[test]
fn every_known_identifier_names_its_handler() {
    assert_eq!(handler_for("on_test"), Handler::Test);
    assert_eq!(handler_for("on_player_message"), Handler::PlayerMessage);
    assert_eq!(handler_for("on_player_joined"), Handler::PlayerJoined);
    assert_eq!(handler_for("on_player_left"), Handler::PlayerLeft);
    assert_eq!(handler_for("on_minecraft_player_advancement"), Handler::PlayerAdvancement);
    assert_eq!(handler_for("on_player_death"), Handler::PlayerDeath);
}

#[test]
fn unknown_identifier_is_reported_not_failed() {
    assert_eq!(handler_for("on_player_quit"), Handler::Unknown);
    assert_eq!(handler_for(""), Handler::Unknown);
    assert_eq!(handler_for("ON_TEST"), Handler::Unknown);
    assert_eq!(handler_for("on_test "), Handler::Unknown);
}

#[test]
fn dispatch_hands_line_and_source_through() {
    let call = dispatch("on_player_left", "[00:00:01] [Server thread/INFO]: Steve left the game", 5);
    assert_eq!(call.handler, Handler::PlayerLeft);
    assert_eq!(call.line, "[00:00:01] [Server thread/INFO]: Steve left the game");
    assert_eq!(call.serverlog_id, 5);
    let call = dispatch("nothing", "x", 9);
    assert_eq!(call.handler, Handler::Unknown);
    assert_eq!(call.line, "x");
    assert_eq!(call.serverlog_id, 9);
}

#[test]
fn line_is_routed_with_or_without_a_source() {
    let call = dispatch_line("on_player_death", "Bob fell", Some(3));
    assert_eq!(call.handler, Handler::PlayerDeath);
    assert_eq!(call.line, "Bob fell");
    assert_eq!(call.source, Some(3));
    let call = dispatch_line("on_test", "x", None);
    assert_eq!(call.handler, Handler::Test);
    assert_eq!(call.line, "x");
    assert_eq!(call.source, None);
    let call = dispatch_line("unknown", "x", Some(0));
    assert_eq!(call.handler, Handler::Unknown);
    assert_eq!(call.source, Some(0));
}

#[test]
fn blank_server_stands_in_where_none_is_found() {
    let blank = server_or_default(None);
    assert_eq!(blank.id, 0);
    assert_eq!(blank.nom, "");
    assert_eq!(blank.jeu, "");
    assert_eq!(blank.version, "");
    assert_eq!(blank.description, "");
    assert!(blank.modpack.is_none() && blank.modpack_url.is_none() && blank.nom_monde.is_none());
    assert!(blank.embed_color.is_none() && blank.contenaire.is_none());
    assert!(blank.type_.is_none() && blank.image.is_none());
    assert!(!blank.actif && !blank.global);
    let mut known = Serveur::default();
    known.id = 4;
    known.nom = "Survie".to_string();
    known.jeu = "minecraft".to_string();
    known.embed_color = Some("#00ff00".to_string());
    known.actif = true;
    let server = server_or_default(Some(known));
    assert_eq!(server.id, 4);
    assert_eq!(server.nom, "Survie");
    assert_eq!(server.jeu, "minecraft");
    assert_eq!(server.embed_color, Some("#00ff00".to_string()));
    assert!(server.actif);
}

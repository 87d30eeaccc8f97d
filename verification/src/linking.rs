//! Linking a game account to a Discord account: the one-time code that the
//! player is given, and the command that tells it to them.

use vstd::prelude::*;
use vstd::string::*;
use rand::Rng;
use crate::webhook::{lowercase, lowercase_text};

verus! {

/// The characters of a code: capitals and digits, without those that are
/// easily mistaken for one another.
pub const CHARSET: &'static str = "ABCDEFGHJKLMNPQRSTUVWXYZ23456789";

/// The number of characters of a code, dashes not counted.
pub const CODE_LENGTH: usize = 9;

/// `Rng::gen_range` on the generator of the thread: some number below the
/// bound. Nothing is said of which.
#[verifier::external_body]
fn random_below(bound: usize) -> (index: usize)
    requires
        bound > 0,
    ensures
        index < bound,
{
    rand::thread_rng().gen_range(0..bound)
}

/// The characters are picks for a code: nine positions in the character set.
pub open spec fn are_picks(picks: Seq<usize>) -> bool {
    picks.len() == CODE_LENGTH && forall|k: int| 0 <= k < picks.len() ==> picks[k] < CHARSET@.len()
}

/// The character of a pick, as a text.
pub open spec fn letter(pick: usize) -> Seq<char> {
    CHARSET@.subrange(pick as int, pick + 1)
}

/// The code of nine picks: their characters in groups of three, with a
/// dash between the groups.
pub open spec fn code_of(picks: Seq<usize>) -> Seq<char> {
    letter(picks[0]) + letter(picks[1]) + letter(picks[2]) + "-"@ + letter(picks[3]) + letter(
        picks[4],
    ) + letter(picks[5]) + "-"@ + letter(picks[6]) + letter(picks[7]) + letter(picks[8])
}

/// Writes the code of nine picks. `None` where the picks are not nine
/// positions in the character set.
pub fn code_from_picks(picks: &Vec<usize>) -> (code: Option<String>)
    ensures
        code is Some <==> are_picks(picks@),
        code matches Some(text) ==> text@ == code_of(picks@),
{
    proof {
        reveal_strlit("ABCDEFGHJKLMNPQRSTUVWXYZ23456789");
    }
    if picks.len() != CODE_LENGTH {
        return None;
    }
    let mut k: usize = 0;
    while k < CODE_LENGTH
        invariant
            k <= CODE_LENGTH == picks@.len(),
            CHARSET@.len() == 32,
            forall|j: int| 0 <= j < k ==> picks@[j] < CHARSET@.len(),
        decreases CODE_LENGTH - k,
    {
        if picks[k] >= 32 {
            return None;
        }
        k += 1;
    }
    let code = String::from_str(CHARSET.substring_char(picks[0], picks[0] + 1)).concat(
        CHARSET.substring_char(picks[1], picks[1] + 1),
    ).concat(CHARSET.substring_char(picks[2], picks[2] + 1)).concat("-").concat(
        CHARSET.substring_char(picks[3], picks[3] + 1),
    ).concat(CHARSET.substring_char(picks[4], picks[4] + 1)).concat(
        CHARSET.substring_char(picks[5], picks[5] + 1),
    ).concat("-").concat(CHARSET.substring_char(picks[6], picks[6] + 1)).concat(
        CHARSET.substring_char(picks[7], picks[7] + 1),
    ).concat(CHARSET.substring_char(picks[8], picks[8] + 1));
    Some(code)
}

/// Draws a fresh code: nine characters of the character set in the form
/// `XXX-XXX-XXX`.
pub fn generer_code_unique() -> (code: String)
    ensures
        exists|picks: Seq<usize>| are_picks(picks) && code@ == #[trigger] code_of(picks),
{
    proof {
        reveal_strlit("ABCDEFGHJKLMNPQRSTUVWXYZ23456789");
    }
    let mut picks: Vec<usize> = Vec::new();
    while picks.len() < CODE_LENGTH
        invariant
            picks@.len() <= CODE_LENGTH,
            CHARSET@.len() == 32,
            forall|j: int| 0 <= j < picks@.len() ==> picks@[j] < CHARSET@.len(),
        decreases CODE_LENGTH - picks@.len(),
    {
        let pick = random_below(32);
        picks.push(pick);
    }
    code_from_picks(&picks).unwrap()
}

/// Whether a player who joins is to be given a code: only one whose account
/// is not linked and who holds no code that is still valid.
pub fn needs_linking_code(is_linked: bool, is_code_active: bool) -> (needed: bool)
    ensures
        needed == (!is_linked && !is_code_active),
{
    !is_linked && !is_code_active
}

/// The command that tells a player their code, with a link to their page.
pub open spec fn link_command_of(player: Seq<char>, code: Seq<char>) -> Seq<char> {
    "/tellraw "@ + player
        + " [\"\", {\"text\":\"[Antre des Loutres]\",\"color\":\"gold\"}, {\"text\":\" Voici un code pour lié ton compte Minecraft à ton compte Discord : \"}, {\"text\":\""@
        + code
        + "\",\"color\":\"gold\"}, {\"text\":\". Tu peux l'utiliser sur la page de ton profil \"}, {\"text\":\"(https://antredesloutres.fr)\",\"italic\":true,\"underlined\":true,\"color\":\"dark_aqua\",\"clickEvent\":{\"action\":\"open_url\",\"value\":\"https://antredesloutres.fr/joueurs/minecraft/"@
        + lowercase_text(player) + "/\"}}, {\"text\":\".\"}]"@
}

/// Writes the command that tells a player their code.
pub fn link_command(player: &str, code: &str) -> (command: String)
    ensures
        command@ == link_command_of(player@, code@),
{
    let lowered = lowercase(player);
    String::from_str("/tellraw ").concat(player).concat(
        " [\"\", {\"text\":\"[Antre des Loutres]\",\"color\":\"gold\"}, {\"text\":\" Voici un code pour lié ton compte Minecraft à ton compte Discord : \"}, {\"text\":\"",
    ).concat(code).concat(
        "\",\"color\":\"gold\"}, {\"text\":\". Tu peux l'utiliser sur la page de ton profil \"}, {\"text\":\"(https://antredesloutres.fr)\",\"italic\":true,\"underlined\":true,\"color\":\"dark_aqua\",\"clickEvent\":{\"action\":\"open_url\",\"value\":\"https://antredesloutres.fr/joueurs/minecraft/",
    ).concat(lowered.as_str()).concat("/\"}}, {\"text\":\".\"}]")
}

} // verus!

//! Rows of the service's database that the actions read.

use vstd::prelude::*;

verus! {

/// A game server as the database describes it.
pub struct Serveur {
    pub id: u64,
    pub nom: String,
    pub jeu: String,
    pub version: String,
    pub modpack: Option<String>,
    pub modpack_url: Option<String>,
    pub nom_monde: Option<String>,
    pub embed_color: Option<String>,
    pub contenaire: Option<String>,
    pub description: String,
    pub actif: bool,
    pub global: bool,
    pub type_: Option<String>,
    pub image: Option<String>,
}

impl Serveur {
    /// Every text is empty, every optional field absent, every number zero
    /// and every flag off.
    pub open spec fn is_blank(self) -> bool {
        &&& self.id == 0
        &&& self.nom@.len() == 0
        &&& self.jeu@.len() == 0
        &&& self.version@.len() == 0
        &&& self.modpack is None
        &&& self.modpack_url is None
        &&& self.nom_monde is None
        &&& self.embed_color is None
        &&& self.contenaire is None
        &&& self.description@.len() == 0
        &&& !self.actif
        &&& !self.global
        &&& self.type_ is None
        &&& self.image is None
    }
}

impl Default for Serveur {
    /// The server that stands in where none could be resolved.
    fn default() -> (server: Serveur)
        ensures
            server.is_blank(),
    {
        Serveur {
            id: 0,
            nom: String::new(),
            jeu: String::new(),
            version: String::new(),
            modpack: None,
            modpack_url: None,
            nom_monde: None,
            embed_color: None,
            contenaire: None,
            description: String::new(),
            actif: false,
            global: false,
            type_: None,
            image: None,
        }
    }
}

/// The server that an action speaks for: the one that was found for its
/// source, or the blank server where none was found.
pub fn server_or_default(found: Option<Serveur>) -> (server: Serveur)
    ensures
        match found {
            Some(known) => server == known,
            None => server.is_blank(),
        },
{
    match found {
        Some(known) => known,
        None => Serveur::default(),
    }
}

} // verus!

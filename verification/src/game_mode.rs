//! The records that the feed reports, and the identity by which two of them
//! count as the same game mode.

use vstd::prelude::*;
use vstd::string::StringExecFns;

verus! {

/// A reference to the picture that illustrates a game mode.
#[derive(Debug)]
pub struct GameImage {
    pub url: String,
}

impl Clone for GameImage {
    fn clone(&self) -> (copy: GameImage)
        ensures
            copy == *self,
    {
        GameImage { url: self.url.clone() }
    }
}

/// One game mode, as the feed reports it.
///
/// Two records are the same mode when their `name` and `players` agree; the
/// other fields are carried along and take no part in the comparison.
#[derive(Debug)]
pub struct GameMode {
    pub name: String,
    pub players: String,
    pub image: Option<GameImage>,
    pub description: Option<String>,
    pub label: Option<String>,
}

impl Clone for GameMode {
    fn clone(&self) -> (copy: GameMode)
        ensures
            copy == *self,
    {
        GameMode {
            name: self.name.clone(),
            players: self.players.clone(),
            image: match &self.image {
                Some(img) => Some(img.clone()),
                None => None,
            },
            description: match &self.description {
                Some(text) => Some(text.clone()),
                None => None,
            },
            label: match &self.label {
                Some(text) => Some(text.clone()),
                None => None,
            },
        }
    }
}

impl PartialEq for GameMode {
    fn eq(&self, other: &GameMode) -> (same: bool) {
        self.same_mode(other)
    }
}

impl Eq for GameMode {

}

impl vstd::std_specs::cmp::PartialEqSpecImpl for GameMode {
    open spec fn obeys_eq_spec() -> bool {
        true
    }

    open spec fn eq_spec(&self, other: &GameMode) -> bool {
        self.name@ == other.name@ && self.players@ == other.players@
    }
}

impl GameMode {
    /// The identity of a mode: its display name and its player-count label.
    pub open spec fn id(&self) -> (Seq<char>, Seq<char>) {
        (self.name@, self.players@)
    }

    /// The text of the one-line rendering of a mode: the player-count label,
    /// the name and, where there is a picture, its address, with a single
    /// space between neighbours.
    pub open spec fn line(&self) -> Seq<char> {
        let head = self.players@ + seq![' '] + self.name@;
        match self.image {
            Some(img) => head + seq![' '] + img.url@,
            None => head,
        }
    }

    /// A mode with the given name and player-count label and nothing else.
    pub fn new(name: String, players: String) -> (mode: GameMode)
        ensures
            mode.name == name,
            mode.players == players,
            mode.image is None,
            mode.description is None,
            mode.label is None,
    {
        GameMode { name, players, image: None, description: None, label: None }
    }

    /// Whether `self` and `other` are the same mode.
    pub fn same_mode(&self, other: &GameMode) -> (same: bool)
        ensures
            same == (self.id() == other.id()),
    {
        self.name == other.name && self.players == other.players
    }

    /// Renders the mode on one line.
    pub fn to_line(&self) -> (text: String)
        ensures
            text@ == self.line(),
    {
        proof {
            reveal_strlit(" ");
        }
        let mut text = self.players.clone();
        text.append(" ");
        text.append(self.name.as_str());
        match &self.image {
            Some(img) => {
                text.append(" ");
                text.append(img.url.as_str());
            },
            None => {},
        }
        assert(" "@ =~= seq![' ']);
        text
    }
}

} // verus!

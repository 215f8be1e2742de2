//! The games this manager knows how to handle.

use vstd::prelude::*;
use crate::text::str_eq;

verus! {

/// The id of the game selected when none is chosen.
pub const DEFAULT_GAME_ID: &'static str = "1142710";

/// Static configuration of a supported game.
#[derive(Clone, Debug)]
pub struct DefaultGameInfo {
    pub game_id: String,
    pub executable_name: String,
    /// Relative to the game's install directory.
    pub mods_path: String,
    /// Relative to the user's roaming data directory.
    pub saves_path: String,
}

/// `g` is the preset of the one supported game.
pub open spec fn is_warhammer3_preset(g: DefaultGameInfo) -> bool {
    &&& g.game_id@ == "1142710"@
    &&& g.executable_name@ == "Warhammer3.exe"@
    &&& g.mods_path@ == "data/"@
    &&& g.saves_path@ == "/The Creative Assembly/save_games/"@
}

fn warhammer3() -> (r: DefaultGameInfo)
    ensures
        is_warhammer3_preset(r),
{
    DefaultGameInfo {
        game_id: String::from_str("1142710"),
        executable_name: String::from_str("Warhammer3.exe"),
        mods_path: String::from_str("data/"),
        saves_path: String::from_str("/The Creative Assembly/save_games/"),
    }
}

/// The presets of all supported games.
pub fn supported_games() -> (r: Vec<DefaultGameInfo>)
    ensures
        r.len() == 1,
        is_warhammer3_preset(r[0]),
{
    let mut r: Vec<DefaultGameInfo> = Vec::new();
    r.push(warhammer3());
    r
}

impl DefaultGameInfo {
    /// The preset of the game with id `game_id`, if it is supported.
    pub fn find_by_id(game_id: &str) -> (r: Option<DefaultGameInfo>)
        ensures
            match r {
                Some(g) => game_id@ == "1142710"@ && is_warhammer3_preset(g),
                None => game_id@ != "1142710"@,
            },
    {
        let games = supported_games();
        let mut i: usize = 0;
        while i < games.len()
            invariant
                i <= games.len(),
                games.len() == 1,
                is_warhammer3_preset(games[0]),
                forall|j: int| 0 <= j < i ==> games[j].game_id@ != game_id@,
            decreases games.len() - i,
        {
            if str_eq(games[i].game_id.as_str(), game_id) {
                return Some(warhammer3());
            }
            i = i + 1;
        }
        None
    }
}

} // verus!

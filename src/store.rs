//! Profiles and the per-game store, as the settings layer hands them over.

use vstd::prelude::*;
use crate::dto::{ModRequestDto, ProfileRequestDto};
use crate::pack::Pack;
use crate::paths::{join_of, join_path};
use crate::presets::{is_warhammer3_preset, DefaultGameInfo};

verus! {

/// A reference to a pack by name, held in a profile.
#[derive(Clone, Debug)]
pub struct ModInfo {
    pub name: String,
    pub enabled: bool,
    pub order: u32,
}

/// A named selection of mods with an activation order.
#[derive(Clone, Debug)]
pub struct Profile {
    pub name: String,
    pub default: bool,
    pub mods: Vec<ModInfo>,
    pub manual_mode: bool,
}

/// What is stored for one game.
#[derive(Clone, Debug)]
pub struct GameStore {
    pub game_id: String,
    pub game_path: String,
    pub saves_path: Option<String>,
    pub mods_path: String,
    pub profiles: Vec<Profile>,
    pub default_profile: Option<String>,
}

/// `m` carries the fields of the request entry `d`.
pub open spec fn mod_info_from(m: ModInfo, d: ModRequestDto) -> bool {
    m.name == d.name && m.enabled == d.enabled && m.order == d.order
}

impl ModInfo {
    /// A field-by-field copy.
    pub fn copied(&self) -> (r: ModInfo)
        ensures
            r == *self,
    {
        ModInfo { name: self.name.clone(), enabled: self.enabled, order: self.order }
    }
}

impl Profile {
    /// A copy of the profile.
    pub fn copied(&self) -> (r: Profile)
        ensures
            r.name == self.name,
            r.default == self.default,
            r.manual_mode == self.manual_mode,
            r.mods@ == self.mods@,
    {
        let mut mods: Vec<ModInfo> = Vec::new();
        let mut i: usize = 0;
        while i < self.mods.len()
            invariant
                i <= self.mods.len(),
                mods@ == self.mods@.subrange(0, i as int),
            decreases self.mods.len() - i,
        {
            mods.push(self.mods[i].copied());
            i = i + 1;
        }
        assert(mods@ == self.mods@);
        Profile { name: self.name.clone(), default: self.default, mods, manual_mode: self.manual_mode }
    }

    /// A profile from a request: absent flags are false, entries keep their
    /// order and fields.
    pub fn from_dto(dto: ProfileRequestDto) -> (r: Profile)
        ensures
            r.name == dto.name,
            r.default == match dto.default {
                Some(b) => b,
                None => false,
            },
            r.manual_mode == match dto.manual_mode {
                Some(b) => b,
                None => false,
            },
            r.mods.len() == dto.mods.len(),
            forall|i: int| 0 <= i < r.mods.len() ==> mod_info_from(#[trigger] r.mods[i], dto.mods[i]),
    {
        let mut mods: Vec<ModInfo> = Vec::new();
        let mut i: usize = 0;
        while i < dto.mods.len()
            invariant
                i <= dto.mods.len(),
                mods.len() == i,
                forall|j: int| 0 <= j < i ==> mod_info_from(#[trigger] mods[j], dto.mods[j]),
            decreases dto.mods.len() - i,
        {
            let m = &dto.mods[i];
            mods.push(ModInfo { name: m.name.clone(), enabled: m.enabled, order: m.order });
            i = i + 1;
        }
        let default = match dto.default {
            Some(b) => b,
            None => false,
        };
        let manual_mode = match dto.manual_mode {
            Some(b) => b,
            None => false,
        };
        Profile { name: dto.name, default, mods, manual_mode }
    }
}

/// `p` is the profile a new game starts with: named "Default", the default,
/// not in manual mode, listing every pack disabled at order zero.
pub open spec fn is_initial_profile(p: Profile, packs: Seq<Pack>) -> bool {
    &&& p.name@ == "Default"@
    &&& p.default
    &&& !p.manual_mode
    &&& p.mods.len() == packs.len()
    &&& forall|i: int| 0 <= i < packs.len() ==> (#[trigger] p.mods[i]).name == packs[i].name && !p.mods[i].enabled
        && p.mods[i].order == 0
}

impl GameStore {
    /// The store of a newly added game, installed at `game_path`, with the
    /// packs found for it. `None` when the game is not supported.
    pub fn new_game(game_id: &str, game_path: String, saves_path: Option<String>, packs: &Vec<Pack>) -> (r: Option<GameStore>)
        ensures
            match r {
                Some(g) => {
                    &&& game_id@ == "1142710"@
                    &&& g.game_id@ == game_id@
                    &&& g.game_path == game_path
                    &&& g.saves_path == saves_path
                    &&& g.mods_path@ == join_of(game_path@, "data/"@)
                    &&& g.profiles.len() == 1
                    &&& is_initial_profile(g.profiles[0], packs@)
                    &&& g.default_profile is None
                },
                None => game_id@ != "1142710"@,
            },
    {
        let preset = match DefaultGameInfo::find_by_id(game_id) {
            Some(g) => g,
            None => return None,
        };
        let mods_path = join_path(game_path.as_str(), preset.mods_path.as_str());
        let mut mods: Vec<ModRequestDto> = Vec::new();
        let mut i: usize = 0;
        while i < packs.len()
            invariant
                i <= packs.len(),
                mods.len() == i,
                forall|j: int| 0 <= j < i ==> (#[trigger] mods[j]).name == packs[j].name && !mods[j].enabled && mods[j].order == 0,
            decreases packs.len() - i,
        {
            mods.push(ModRequestDto { order: 0, enabled: false, name: packs[i].name.clone() });
            i = i + 1;
        }
        let default_profile = Profile::from_dto(ProfileRequestDto {
            game_id: preset.game_id.clone(),
            name: String::from_str("Default"),
            default: Some(true),
            manual_mode: Some(false),
            mods,
        });
        let mut profiles: Vec<Profile> = Vec::new();
        profiles.push(default_profile);
        Some(GameStore {
            game_id: preset.game_id,
            game_path,
            saves_path,
            mods_path,
            profiles,
            default_profile: None,
        })
    }
}

} // verus!

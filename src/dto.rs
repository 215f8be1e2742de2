//! The shapes in which games, profiles, mods and packs are handed to callers.

use vstd::prelude::*;
use crate::load_order::{find_pack, first_pack_named};
use crate::pack::Pack;
use crate::sort::{sort_mods, sorted_by_name};
use crate::store::{GameStore, ModInfo, Profile};
use crate::text::copy_opt;

verus! {

/// A profile entry as a caller sends it.
#[derive(Clone, Debug)]
pub struct ModRequestDto {
    pub name: String,
    pub enabled: bool,
    pub order: u32,
}

/// A profile as a caller sends it.
#[derive(Clone, Debug)]
pub struct ProfileRequestDto {
    pub game_id: String,
    pub name: String,
    pub default: Option<bool>,
    pub manual_mode: Option<bool>,
    pub mods: Vec<ModRequestDto>,
}

/// A profile entry joined with the pack it names, if one was found.
#[derive(Clone, Debug)]
pub struct ModResponseDto {
    pub name: String,
    pub path: Option<String>,
    pub enabled: bool,
    pub order: u32,
    pub can_enable: bool,
    pub last_updated: Option<String>,
    pub from_steam_workshop: bool,
    pub image: Option<String>,
}

/// A discovered pack.
#[derive(Clone, Debug)]
pub struct PackResponseDto {
    pub name: String,
    pub path: String,
    pub image: Option<String>,
    pub last_updated: Option<String>,
    pub from_steam_workshop: bool,
}

/// A profile with its entries joined to packs.
#[derive(Clone, Debug)]
pub struct ProfileResponseDto {
    pub name: String,
    pub mods: Vec<ModResponseDto>,
    pub default: bool,
    pub manual_mode: bool,
}

/// A game with its packs and profiles.
#[derive(Clone, Debug)]
pub struct GameResponseDto {
    pub mods: Vec<PackResponseDto>,
    pub profiles: Vec<ProfileResponseDto>,
    pub default_profile: Option<String>,
    pub game_id: String,
    pub game_path: String,
    pub saves_path: Option<String>,
    pub mods_path: String,
    pub workshop_path: Option<String>,
}

/// The response entry for a profile entry and the pack it names: an entry
/// whose pack is missing cannot be enabled.
pub open spec fn response_for(name: String, enabled: bool, order: u32, pack: Option<Pack>) -> ModResponseDto {
    match pack {
        Some(p) => ModResponseDto {
            name: name,
            path: Some(p.path),
            enabled: enabled,
            order: order,
            can_enable: true,
            last_updated: p.last_updated,
            from_steam_workshop: p.from_steam_workshop,
            image: p.image,
        },
        None => ModResponseDto {
            name: name,
            path: None,
            enabled: false,
            order: order,
            can_enable: false,
            last_updated: None,
            from_steam_workshop: false,
            image: None,
        },
    }
}

/// The first pack named `name`, as an option.
pub open spec fn pack_named(packs: Seq<Pack>, name: Seq<char>) -> Option<Pack> {
    match first_pack_named(packs, name) {
        Some(k) => Some(packs[k]),
        None => None,
    }
}

/// The order an entry at position `i` gets: its stored order in manual mode,
/// its position counted from one otherwise.
pub open spec fn effective_order(manual_mode: bool, m: ModInfo, i: int) -> u32 {
    if manual_mode {
        m.order
    } else {
        (i + 1) as u32
    }
}

/// `r` lists the entries `s` joined with `packs`, orders as `manual_mode` says.
pub open spec fn responses_for(s: Seq<ModInfo>, packs: Seq<Pack>, manual_mode: bool, r: Seq<ModResponseDto>) -> bool {
    &&& r.len() == s.len()
    &&& forall|i: int| 0 <= i < s.len() ==> #[trigger] r[i] == response_for(
        s[i].name,
        s[i].enabled,
        effective_order(manual_mode, s[i], i),
        pack_named(packs, s[i].name@),
    )
}

/// The entries of a profile response: the profile's entries in name order,
/// joined with their packs.
pub open spec fn profile_response_of(profile: Profile, packs: Seq<Pack>, r: ProfileResponseDto, s: Seq<ModInfo>) -> bool {
    &&& s.to_multiset() == profile.mods@.to_multiset()
    &&& sorted_by_name(s)
    &&& responses_for(s, packs, profile.manual_mode, r.mods@)
}

impl ModResponseDto {
    /// Joins a profile entry with its pack, if one was found.
    pub fn new(mod_info: &ModRequestDto, mod_pack: Option<Pack>) -> (r: ModResponseDto)
        ensures
            r == response_for(mod_info.name, mod_info.enabled, mod_info.order, mod_pack),
    {
        let can_enable = mod_pack.is_some();
        match mod_pack {
            Some(pack) => ModResponseDto {
                order: mod_info.order,
                name: mod_info.name.clone(),
                path: Some(pack.path),
                enabled: can_enable && mod_info.enabled,
                can_enable,
                last_updated: pack.last_updated,
                from_steam_workshop: pack.from_steam_workshop,
                image: pack.image,
            },
            None => ModResponseDto {
                order: mod_info.order,
                name: mod_info.name.clone(),
                path: None,
                enabled: false,
                can_enable,
                last_updated: None,
                from_steam_workshop: false,
                image: None,
            },
        }
    }
}

impl ProfileResponseDto {
    /// The response for a profile: its entries sorted by name and joined with
    /// the discovered packs. Outside manual mode the orders are renumbered
    /// from one in name order.
    pub fn new(mut profile: Profile, game_mods: &Vec<Pack>) -> (r: ProfileResponseDto)
        requires
            profile.mods.len() < 0xFFFF_FFFF,
        ensures
            r.name == profile.name,
            r.default == profile.default,
            r.manual_mode == profile.manual_mode,
            exists|s: Seq<ModInfo>| #[trigger] profile_response_of(profile, game_mods@, r, s),
    {
        let ghost given = profile;
        sort_mods(&mut profile.mods);
        let ghost sorted = profile.mods@;
        proof {
            vstd::seq_lib::to_multiset_len(sorted);
            vstd::seq_lib::to_multiset_len(given.mods@);
        }
        let mapped_mods = Self::map_mods_to_dto(&mut profile, game_mods);
        let r = ProfileResponseDto {
            mods: mapped_mods,
            name: profile.name,
            default: profile.default,
            manual_mode: profile.manual_mode,
        };
        assert(profile_response_of(given, game_mods@, r, sorted));
        r
    }

    /// Renumbers the entries outside manual mode and joins each with the
    /// first pack of its name.
    fn map_mods_to_dto(profile: &mut Profile, mods: &Vec<Pack>) -> (r: Vec<ModResponseDto>)
        requires
            old(profile).mods.len() < 0xFFFF_FFFF,
        ensures
            final(profile).name == old(profile).name,
            final(profile).default == old(profile).default,
            final(profile).manual_mode == old(profile).manual_mode,
            responses_for(old(profile).mods@, mods@, old(profile).manual_mode, r@),
    {
        let ghost m0 = profile.mods@;
        if !profile.manual_mode {
            let mut i: usize = 0;
            while i < profile.mods.len()
                invariant
                    i <= profile.mods.len(),
                    profile.mods.len() == m0.len(),
                    m0.len() < 0xFFFF_FFFF,
                    profile.manual_mode == old(profile).manual_mode,
                    profile.name == old(profile).name,
                    profile.default == old(profile).default,
                    forall|j: int| 0 <= j < m0.len() ==> (#[trigger] profile.mods[j]).name == m0[j].name && profile.mods[j].enabled == m0[j].enabled,
                    forall|j: int| 0 <= j < i ==> (#[trigger] profile.mods[j]).order == (j + 1) as u32,
                decreases m0.len() - i,
            {
                let mut m = profile.mods[i].copied();
                m.order = (i + 1) as u32;
                profile.mods.set(i, m);
                i = i + 1;
            }
        }
        let mut r: Vec<ModResponseDto> = Vec::new();
        let mut i: usize = 0;
        while i < profile.mods.len()
            invariant
                i <= profile.mods.len(),
                profile.mods.len() == m0.len(),
                forall|j: int| 0 <= j < m0.len() ==> (#[trigger] profile.mods[j]).name == m0[j].name && profile.mods[j].enabled == m0[j].enabled
                    && profile.mods[j].order == effective_order(profile.manual_mode, m0[j], j),
                r.len() == i,
                forall|j: int| 0 <= j < i ==> #[trigger] r[j] == response_for(
                    m0[j].name,
                    m0[j].enabled,
                    effective_order(profile.manual_mode, m0[j], j),
                    pack_named(mods@, m0[j].name@),
                ),
            decreases m0.len() - i,
        {
            let m = &profile.mods[i];
            let req = ModRequestDto { name: m.name.clone(), enabled: m.enabled, order: m.order };
            let pack = match find_pack(mods, m.name.as_str()) {
                Some(k) => Some(mods[k].copied()),
                None => None,
            };
            r.push(ModResponseDto::new(&req, pack));
            i = i + 1;
        }
        r
    }
}

impl PackResponseDto {
    /// The response for a discovered pack.
    pub fn from_pack(pack: &Pack) -> (r: PackResponseDto)
        ensures
            r.name == pack.name,
            r.path == pack.path,
            r.image == pack.image,
            r.last_updated == pack.last_updated,
            r.from_steam_workshop == pack.from_steam_workshop,
    {
        let p = pack.copied();
        PackResponseDto {
            name: p.name,
            path: p.path,
            image: p.image,
            last_updated: p.last_updated,
            from_steam_workshop: p.from_steam_workshop,
        }
    }
}

/// `r` holds the response for each pack of `packs`, in order.
pub open spec fn pack_responses(packs: Seq<Pack>, r: Seq<PackResponseDto>) -> bool {
    &&& r.len() == packs.len()
    &&& forall|i: int| 0 <= i < packs.len() ==> {
        &&& (#[trigger] r[i]).name == packs[i].name
        &&& r[i].path == packs[i].path
        &&& r[i].image == packs[i].image
        &&& r[i].last_updated == packs[i].last_updated
        &&& r[i].from_steam_workshop == packs[i].from_steam_workshop
    }
}

impl GameResponseDto {
    /// The response for a stored game, given the packs discovered for it and
    /// its workshop directory. The default profile is the stored one, or else
    /// the first profile.
    pub fn from_store(store: GameStore, packs: &Vec<Pack>, workshop_path: Option<String>) -> (r: GameResponseDto)
        requires
            forall|i: int| 0 <= i < store.profiles.len() ==> (#[trigger] store.profiles[i]).mods.len() < 0xFFFF_FFFF,
        ensures
            r.game_id == store.game_id,
            r.game_path == store.game_path,
            r.saves_path == store.saves_path,
            r.mods_path == store.mods_path,
            r.workshop_path == workshop_path,
            pack_responses(packs@, r.mods@),
            r.profiles.len() == store.profiles.len(),
            forall|i: int| 0 <= i < store.profiles.len() ==> {
                &&& (#[trigger] r.profiles[i]).name == store.profiles[i].name
                &&& r.profiles[i].default == store.profiles[i].default
                &&& r.profiles[i].manual_mode == store.profiles[i].manual_mode
                &&& exists|s: Seq<ModInfo>| #[trigger] profile_response_of(store.profiles[i], packs@, r.profiles[i], s)
            },
            r.default_profile == match store.default_profile {
                Some(d) => Some(d),
                None => if store.profiles.len() > 0 {
                    Some(store.profiles[0].name)
                } else {
                    None
                },
            },
    {
        let ghost sp = store.profiles@;
        let mut profiles: Vec<ProfileResponseDto> = Vec::new();
        let mut i: usize = 0;
        while i < store.profiles.len()
            invariant
                i <= store.profiles.len(),
                sp == store.profiles@,
                forall|j: int| 0 <= j < sp.len() ==> (#[trigger] sp[j]).mods.len() < 0xFFFF_FFFF,
                profiles.len() == i,
                forall|j: int| 0 <= j < i ==> {
                    &&& (#[trigger] profiles[j]).name == sp[j].name
                    &&& profiles[j].default == sp[j].default
                    &&& profiles[j].manual_mode == sp[j].manual_mode
                    &&& exists|s: Seq<ModInfo>| #[trigger] profile_response_of(sp[j], packs@, profiles[j], s)
                },
            decreases sp.len() - i,
        {
            let p = store.profiles[i].copied();
            let ghost pg = p;
            let pr = ProfileResponseDto::new(p, packs);
            proof {
                let s = choose|s: Seq<ModInfo>| #[trigger] profile_response_of(pg, packs@, pr, s);
                assert(profile_response_of(sp[i as int], packs@, pr, s));
            }
            let ghost before = profiles@;
            profiles.push(pr);
            proof {
                assert forall|j: int| 0 <= j < i + 1 implies {
                    &&& (#[trigger] profiles[j]).name == sp[j].name
                    &&& profiles[j].default == sp[j].default
                    &&& profiles[j].manual_mode == sp[j].manual_mode
                    &&& exists|s: Seq<ModInfo>| #[trigger] profile_response_of(sp[j], packs@, profiles[j], s)
                } by {
                    if j < i {
                        assert(profiles[j] == before[j]);
                    }
                }
            }
            i = i + 1;
        }
        let default_profile = match store.default_profile {
            Some(d) => Some(d),
            None => if profiles.len() > 0 {
                Some(profiles[0].name.clone())
            } else {
                None
            },
        };
        GameResponseDto {
            game_id: store.game_id,
            game_path: store.game_path,
            saves_path: store.saves_path,
            mods_path: store.mods_path,
            workshop_path,
            mods: Self::mods_to_dto(packs),
            default_profile,
            profiles,
        }
    }

    /// The responses for the discovered packs.
    fn mods_to_dto(mods: &Vec<Pack>) -> (r: Vec<PackResponseDto>)
        ensures
            pack_responses(mods@, r@),
    {
        let mut r: Vec<PackResponseDto> = Vec::new();
        let mut i: usize = 0;
        while i < mods.len()
            invariant
                i <= mods.len(),
                pack_responses(mods@.subrange(0, i as int), r@),
            decreases mods.len() - i,
        {
            r.push(PackResponseDto::from_pack(&mods[i]));
            i = i + 1;
        }
        assert(mods@.subrange(0, mods.len() as int) == mods@);
        r
    }
}

} // verus!

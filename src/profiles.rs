//! Creating, renaming, replacing and deleting the profiles of a game.

use vstd::prelude::*;
use crate::dto::ProfileRequestDto;
use crate::error::ErrorCode;
use crate::store::{mod_info_from, GameStore, Profile};
use crate::search::{first_match, lemma_first_match, lemma_first_match_at};
use crate::text::str_eq;

verus! {

/// Whether some profile is named `name`.
pub open spec fn has_profile(profiles: Seq<Profile>, name: Seq<char>) -> bool {
    exists|j: int| 0 <= j < profiles.len() && #[trigger] profiles[j].name@ == name
}

/// The profile is named `name`.
pub open spec fn profile_is_named(name: Seq<char>) -> spec_fn(Profile) -> bool {
    |p: Profile| p.name@ == name
}

/// The index of the first profile named `name`.
pub open spec fn first_named(profiles: Seq<Profile>, name: Seq<char>) -> Option<int> {
    first_match(profiles, profile_is_named(name))
}

/// Two stores agree on everything but their profiles.
pub open spec fn same_game(a: GameStore, b: GameStore) -> bool {
    &&& a.game_id == b.game_id
    &&& a.game_path == b.game_path
    &&& a.saves_path == b.saves_path
    &&& a.mods_path == b.mods_path
    &&& a.default_profile == b.default_profile
}

/// `p` is the profile that `dto` describes.
pub open spec fn profile_from(p: Profile, dto: ProfileRequestDto) -> bool {
    &&& p.name == dto.name
    &&& p.default == match dto.default {
        Some(b) => b,
        None => false,
    }
    &&& p.manual_mode == match dto.manual_mode {
        Some(b) => b,
        None => false,
    }
    &&& p.mods.len() == dto.mods.len()
    &&& forall|i: int| 0 <= i < p.mods.len() ==> mod_info_from(#[trigger] p.mods[i], dto.mods[i])
}

/// The index of the first profile named `name`.
pub fn find_profile(profiles: &Vec<Profile>, name: &str) -> (r: Option<usize>)
    ensures
        match r {
            Some(k) => k < profiles.len() && first_named(profiles@, name@) == Some(k as int) && profiles@[k as int].name@
                == name@ && has_profile(profiles@, name@),
            None => first_named(profiles@, name@) is None && !has_profile(profiles@, name@),
        },
{
    let mut k: usize = 0;
    while k < profiles.len()
        invariant
            k <= profiles.len(),
            forall|j: int| 0 <= j < k ==> profiles[j].name@ != name@,
        decreases profiles.len() - k,
    {
        if str_eq(profiles[k].name.as_str(), name) {
            proof {
                lemma_first_match_at(profiles@, profile_is_named(name@), k as int);
                assert(profiles@[k as int].name@ == name@);
            }
            return Some(k);
        }
        k = k + 1;
    }
    proof {
        lemma_first_match(profiles@, profile_is_named(name@));
        if first_named(profiles@, name@) is Some {
            let fk = first_named(profiles@, name@)->0;
            assert(profiles@[fk].name@ != name@);
        }
    }
    None
}

/// Adds the profile that `payload` describes. Fails with `Conflict`, changing
/// nothing, when a profile of that name exists.
pub fn create_profile(store: &mut GameStore, payload: ProfileRequestDto) -> (r: Result<(), ErrorCode>)
    ensures
        same_game(*final(store), *old(store)),
        has_profile(old(store).profiles@, payload.name@) ==> r == Err::<(), ErrorCode>(ErrorCode::Conflict)
            && final(store).profiles@ == old(store).profiles@,
        !has_profile(old(store).profiles@, payload.name@) ==> r is Ok && final(store).profiles.len() == old(
            store,
        ).profiles.len() + 1 && final(store).profiles@.drop_last() == old(store).profiles@ && profile_from(
            final(store).profiles@.last(),
            payload,
        ),
{
    if find_profile(&store.profiles, payload.name.as_str()).is_some() {
        return Err(ErrorCode::Conflict);
    }
    let ghost dto = payload;
    let p = Profile::from_dto(payload);
    store.profiles.push(p);
    assert(store.profiles@.drop_last() == old(store).profiles@);
    Ok(())
}

/// Replaces the first profile named as in `payload` by the profile it
/// describes. Fails with `NotFound`, changing nothing, when there is none.
pub fn update_profile(store: &mut GameStore, payload: ProfileRequestDto) -> (r: Result<(), ErrorCode>)
    ensures
        same_game(*final(store), *old(store)),
        match first_named(old(store).profiles@, payload.name@) {
            None => r == Err::<(), ErrorCode>(ErrorCode::NotFound) && final(store).profiles@ == old(store).profiles@,
            Some(k) => r is Ok && final(store).profiles.len() == old(store).profiles.len() && (forall|j: int|
                0 <= j < old(store).profiles.len() && j != k ==> #[trigger] final(store).profiles[j] == old(
                    store,
                ).profiles[j]) && profile_from(final(store).profiles[k], payload),
        },
{
    let k = match find_profile(&store.profiles, payload.name.as_str()) {
        Some(k) => k,
        None => return Err(ErrorCode::NotFound),
    };
    let p = Profile::from_dto(payload);
    store.profiles.set(k, p);
    Ok(())
}

/// Renames the first profile named `old_name`. Fails with `Conflict` when a
/// profile is already named `new_name`, then with `NotFound` when none is
/// named `old_name`, changing nothing in either case.
pub fn rename_profile(store: &mut GameStore, old_name: &str, new_name: &str) -> (r: Result<(), ErrorCode>)
    ensures
        same_game(*final(store), *old(store)),
        has_profile(old(store).profiles@, new_name@) ==> r == Err::<(), ErrorCode>(ErrorCode::Conflict)
            && final(store).profiles@ == old(store).profiles@,
        !has_profile(old(store).profiles@, new_name@) ==> match first_named(old(store).profiles@, old_name@) {
            None => r == Err::<(), ErrorCode>(ErrorCode::NotFound) && final(store).profiles@ == old(store).profiles@,
            Some(k) => {
                &&& r is Ok
                &&& final(store).profiles.len() == old(store).profiles.len()
                &&& forall|j: int| 0 <= j < old(store).profiles.len() && j != k ==> #[trigger] final(store).profiles[j]
                    == old(store).profiles[j]
                &&& final(store).profiles[k].name@ == new_name@
                &&& final(store).profiles[k].mods@ == old(store).profiles[k].mods@
                &&& final(store).profiles[k].default == old(store).profiles[k].default
                &&& final(store).profiles[k].manual_mode == old(store).profiles[k].manual_mode
            },
        },
{
    if find_profile(&store.profiles, new_name).is_some() {
        return Err(ErrorCode::Conflict);
    }
    let k = match find_profile(&store.profiles, old_name) {
        Some(k) => k,
        None => return Err(ErrorCode::NotFound),
    };
    let mut p = store.profiles[k].copied();
    p.name = String::from_str(new_name);
    store.profiles.set(k, p);
    Ok(())
}

/// Makes the profile named `profile_name` the default. Nothing changes when
/// it already is; fails with `NotFound` when no profile has that name.
pub fn set_default_profile(store: &mut GameStore, profile_name: &str) -> (r: Result<(), ErrorCode>)
    ensures
        final(store).profiles@ == old(store).profiles@,
        final(store).game_id == old(store).game_id,
        final(store).game_path == old(store).game_path,
        final(store).saves_path == old(store).saves_path,
        final(store).mods_path == old(store).mods_path,
        (old(store).default_profile matches Some(d) && d@ == profile_name@) ==> r is Ok && final(store).default_profile
            == old(store).default_profile,
        !(old(store).default_profile matches Some(d) && d@ == profile_name@) ==> {
            if has_profile(old(store).profiles@, profile_name@) {
                r is Ok && (final(store).default_profile matches Some(d) && d@ == profile_name@)
            } else {
                r == Err::<(), ErrorCode>(ErrorCode::NotFound) && final(store).default_profile == old(store).default_profile
            }
        },
{
    let already = match &store.default_profile {
        Some(d) => str_eq(d.as_str(), profile_name),
        None => false,
    };
    if already {
        return Ok(());
    }
    match find_profile(&store.profiles, profile_name) {
        Some(k) => {
            proof {
                assert(store.profiles@[k as int].name@ == profile_name@);
            }
            store.default_profile = Some(String::from_str(profile_name));
            Ok(())
        },
        None => Err(ErrorCode::NotFound),
    }
}

/// Deletes the first profile named `profile_name`. Fails with `NotFound`,
/// changing nothing, when there is none.
pub fn delete_profile(store: &mut GameStore, profile_name: &str) -> (r: Result<(), ErrorCode>)
    ensures
        same_game(*final(store), *old(store)),
        match first_named(old(store).profiles@, profile_name@) {
            None => r == Err::<(), ErrorCode>(ErrorCode::NotFound) && final(store).profiles@ == old(store).profiles@,
            Some(k) => r is Ok && final(store).profiles@ == old(store).profiles@.remove(k),
        },
{
    match find_profile(&store.profiles, profile_name) {
        Some(k) => {
            store.profiles.remove(k);
            Ok(())
        },
        None => Err(ErrorCode::NotFound),
    }
}

} // verus!

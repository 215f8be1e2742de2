//! Resolution of a profile's entries into the ordered load list, and the
//! load-order artifact that the game reads.

use vstd::prelude::*;
use crate::dto::{GameResponseDto, ModResponseDto, ProfileResponseDto};
use crate::error::ErrorCode;
use crate::pack::Pack;
use crate::paths::{parent, parent_of};
use crate::search::{first_match, lemma_first_match, lemma_first_match_at};
use crate::text::{chars_of, ends_with, ends_with_seq, push_char, starts_with, starts_with_seq, str_eq};

verus! {

broadcast use vstd::seq_lib::to_multiset_insert;

/// A pack to load, at its position in the order.
#[derive(Clone, Debug)]
pub struct Mod {
    pub name: String,
    pub path: String,
    pub order: u32,
    pub from_steam_workshop: bool,
}

/// The pack is named `name`.
pub open spec fn pack_is_named(name: Seq<char>) -> spec_fn(Pack) -> bool {
    |p: Pack| p.name@ == name
}

/// The index of the first pack named `name`, if any.
pub open spec fn first_pack_named(packs: Seq<Pack>, name: Seq<char>) -> Option<int> {
    first_match(packs, pack_is_named(name))
}

/// The load entry for a profile entry and the pack it names.
pub open spec fn mod_for(entry: ModResponseDto, pack: Pack) -> Mod {
    Mod { name: pack.name, path: pack.path, order: entry.order, from_steam_workshop: pack.from_steam_workshop }
}

/// The enabled entries that name a pack, in profile order, as load entries.
pub open spec fn selected_mods(entries: Seq<ModResponseDto>, packs: Seq<Pack>) -> Seq<Mod>
    decreases entries.len(),
{
    if entries.len() == 0 {
        Seq::empty()
    } else {
        let rest = selected_mods(entries.drop_last(), packs);
        let e = entries.last();
        if !e.enabled {
            rest
        } else {
            match first_pack_named(packs, e.name@) {
                Some(k) => rest.push(mod_for(e, packs[k])),
                None => rest,
            }
        }
    }
}

/// The load list is in ascending order.
pub open spec fn sorted_by_order(s: Seq<Mod>) -> bool {
    forall|a: int, b: int| 0 <= a < b < s.len() ==> s[a].order <= s[b].order
}

/// The first pack named `name`.
pub fn find_pack(packs: &Vec<Pack>, name: &str) -> (r: Option<usize>)
    ensures
        match r {
            Some(k) => k < packs.len() && first_pack_named(packs@, name@) == Some(k as int),
            None => first_pack_named(packs@, name@) is None,
        },
{
    let mut k: usize = 0;
    while k < packs.len()
        invariant
            k <= packs.len(),
            forall|j: int| 0 <= j < k ==> packs[j].name@ != name@,
        decreases packs.len() - k,
    {
        if str_eq(packs[k].name.as_str(), name) {
            proof {
                lemma_first_match_at(packs@, pack_is_named(name@), k as int);
            }
            return Some(k);
        }
        k = k + 1;
    }
    proof {
        lemma_first_match(packs@, pack_is_named(name@));
        if first_pack_named(packs@, name@) is Some {
            let f = first_pack_named(packs@, name@)->0;
            assert(packs@[f].name@ != name@);
        }
    }
    None
}

/// Resolves a profile's entries against the discovered packs: enabled
/// entries that name a pack, sorted ascending by their order. Entries whose
/// pack is gone are left out.
pub fn resolve_load_order(entries: &Vec<ModResponseDto>, packs: &Vec<Pack>) -> (r: Vec<Mod>)
    ensures
        sorted_by_order(r@),
        r@.to_multiset() == selected_mods(entries@, packs@).to_multiset(),
{
    let mut out: Vec<Mod> = Vec::new();
    let mut i: usize = 0;
    while i < entries.len()
        invariant
            i <= entries.len(),
            sorted_by_order(out@),
            out@.to_multiset() == selected_mods(entries@.subrange(0, i as int), packs@).to_multiset(),
        decreases entries.len() - i,
    {
        let ghost pre = entries@.subrange(0, i as int);
        let ghost post = entries@.subrange(0, i + 1);
        assert(post.drop_last() == pre);
        assert(post.last() == entries[i as int]);
        let e = &entries[i];
        if e.enabled {
            match find_pack(packs, e.name.as_str()) {
                Some(k) => {
                    let pk = &packs[k];
                    let m = Mod {
                        name: pk.name.clone(),
                        path: pk.path.clone(),
                        order: e.order,
                        from_steam_workshop: pk.from_steam_workshop,
                    };
                    assert(m == mod_for(entries[i as int], packs[k as int]));
                    let mut p: usize = 0;
                    while p < out.len() && out[p].order <= m.order
                        invariant
                            p <= out.len(),
                            forall|a: int| 0 <= a < p ==> out[a].order <= m.order,
                        decreases out.len() - p,
                    {
                        p = p + 1;
                    }
                    let ghost o0 = out@;
                    out.insert(p, m);
                    proof {
                        assert(out@ == o0.insert(p as int, m));
                        assert forall|a: int, b: int| 0 <= a < b < out.len() implies out[a].order <= out[b].order by {
                            if p < o0.len() {
                                assert(o0[p as int].order > m.order);
                            }
                            if b < p {
                                assert(out[a] == o0[a] && out[b] == o0[b]);
                            } else if b == p {
                                assert(out[a] == o0[a]);
                            } else if a < p {
                                assert(out[a] == o0[a] && out[b] == o0[b - 1]);
                            } else if a == p {
                                assert(out[b] == o0[b - 1]);
                                assert(o0[p as int].order <= o0[b - 1].order);
                            } else {
                                assert(out[a] == o0[a - 1] && out[b] == o0[b - 1]);
                            }
                        }
                        assert(selected_mods(post, packs@) == selected_mods(pre, packs@).push(m));
                        vstd::seq_lib::to_multiset_build(selected_mods(pre, packs@), m);
                    }
                },
                None => {},
            }
        }
        i = i + 1;
    }
    assert(entries@.subrange(0, entries.len() as int) == entries@);
    out
}

/// `/` turned into `\\`, the separator the game expects.
pub open spec fn backslashed(s: Seq<char>) -> Seq<char> {
    s.map_values(|c: char| if c == '/' { '\\' } else { c })
}

/// The file name under which a pack is loaded: its name, with the package
/// extension appended unless the name already ends with it.
pub open spec fn pack_file_name(name: Seq<char>) -> Seq<char> {
    if ends_with_seq(name, ".pack"@) {
        name
    } else {
        name + ".pack"@
    }
}

/// The line that adds a workshop pack's directory to the search locations.
pub open spec fn workshop_line(prefix: Seq<char>, m: Mod) -> Seq<char> {
    "add_working_directory \""@ + prefix + backslashed(parent_of(m.path@)) + "\";"@
}

/// The line that loads a pack.
pub open spec fn mod_line(m: Mod) -> Seq<char> {
    "mod \""@ + pack_file_name(m.name@) + "\";"@
}

/// The directory lines of the workshop packs, in load order.
pub open spec fn workshop_lines(prefix: Seq<char>, mods: Seq<Mod>) -> Seq<Seq<char>>
    decreases mods.len(),
{
    if mods.len() == 0 {
        Seq::empty()
    } else {
        let r = workshop_lines(prefix, mods.drop_last());
        if mods.last().from_steam_workshop {
            r.push(workshop_line(prefix, mods.last()))
        } else {
            r
        }
    }
}

/// The lines of the load-order artifact: all directory lines, then one line
/// per pack, in load order.
pub open spec fn artifact_lines(prefix: Seq<char>, mods: Seq<Mod>) -> Seq<Seq<char>> {
    workshop_lines(prefix, mods) + mods.map_values(|m: Mod| mod_line(m))
}

/// The pack file that a line of the artifact loads, if it is a load line.
pub open spec fn entry_of_line(line: Seq<char>) -> Option<Seq<char>> {
    if line.len() >= 7 && starts_with_seq(line, "mod \""@) && ends_with_seq(line, "\";"@) {
        Some(line.subrange(5, line.len() - 2))
    } else {
        None
    }
}

/// The pack files that an artifact loads, in order.
pub open spec fn read_entries(lines: Seq<Seq<char>>) -> Seq<Seq<char>>
    decreases lines.len(),
{
    if lines.len() == 0 {
        Seq::empty()
    } else {
        let r = read_entries(lines.drop_last());
        match entry_of_line(lines.last()) {
            Some(e) => r.push(e),
            None => r,
        }
    }
}

/// The views of a sequence of strings.
pub open spec fn views(s: Seq<String>) -> Seq<Seq<char>> {
    s.map_values(|x: String| x@)
}

/// The resolved load list of a profile, ready to be written out.
pub struct ModWriter {
    pub mods: Vec<Mod>,
}

impl ModWriter {
    /// Resolves `entries` against `packs` into the load list.
    pub fn new(entries: &Vec<ModResponseDto>, packs: &Vec<Pack>) -> (r: ModWriter)
        ensures
            sorted_by_order(r.mods@),
            r.mods@.to_multiset() == selected_mods(entries@, packs@).to_multiset(),
    {
        ModWriter { mods: resolve_load_order(entries, packs) }
    }

    /// The lines of the load-order artifact; `folder_prefix` is put before
    /// each workshop directory (a drive letter where the game runs under a
    /// compatibility layer).
    pub fn lines(&self, folder_prefix: &str) -> (r: Vec<String>)
        ensures
            views(r@) == artifact_lines(folder_prefix@, self.mods@),
    {
        render_load_order(&self.mods, folder_prefix)
    }
}

/// A string with every `/` turned into `\\`.
pub fn to_backslashes(s: &str) -> (r: String)
    ensures
        r@ == backslashed(s@),
{
    let cs = chars_of(s);
    let mut r = String::new();
    let mut i: usize = 0;
    while i < cs.len()
        invariant
            i <= cs.len(),
            cs@ == s@,
            r@ == backslashed(s@.subrange(0, i as int)),
        decreases cs.len() - i,
    {
        let c = cs[i];
        if c == '/' {
            push_char(&mut r, '\\');
        } else {
            push_char(&mut r, c);
        }
        assert(backslashed(s@.subrange(0, i + 1)) == backslashed(s@.subrange(0, i as int)).push(if c == '/' { '\\' } else { c }));
        i = i + 1;
    }
    assert(s@.subrange(0, cs.len() as int) == s@);
    r
}

/// The lines of the load-order artifact for `mods`.
pub fn render_load_order(mods: &Vec<Mod>, folder_prefix: &str) -> (r: Vec<String>)
    ensures
        views(r@) == artifact_lines(folder_prefix@, mods@),
{
    let mut r: Vec<String> = Vec::new();
    let mut i: usize = 0;
    while i < mods.len()
        invariant
            i <= mods.len(),
            views(r@) == workshop_lines(folder_prefix@, mods@.subrange(0, i as int)),
        decreases mods.len() - i,
    {
        let m = &mods[i];
        assert(mods@.subrange(0, i + 1).drop_last() == mods@.subrange(0, i as int));
        if m.from_steam_workshop {
            let mut line = String::from_str("add_working_directory \"");
            line.append(folder_prefix);
            let dir = to_backslashes(parent(m.path.as_str()).as_str());
            line.append(dir.as_str());
            line.append("\";");
            assert(line@ == workshop_line(folder_prefix@, mods[i as int]));
            r.push(line);
        }
        assert(views(r@) == workshop_lines(folder_prefix@, mods@.subrange(0, i + 1)));
        i = i + 1;
    }
    assert(mods@.subrange(0, mods.len() as int) == mods@);
    let ghost n = r.len();
    let mut j: usize = 0;
    while j < mods.len()
        invariant
            j <= mods.len(),
            n <= r.len(),
            views(r@) == workshop_lines(folder_prefix@, mods@) + mods@.subrange(0, j as int).map_values(|m: Mod| mod_line(m)),
        decreases mods.len() - j,
    {
        let m = &mods[j];
        let mut line = String::from_str("mod \"");
        if ends_with(m.name.as_str(), ".pack") {
            line.append(m.name.as_str());
        } else {
            line.append(m.name.as_str());
            line.append(".pack");
        }
        line.append("\";");
        assert(line@ == mod_line(mods[j as int]));
        let ghost r0 = r@;
        r.push(line);
        assert(views(r@) == views(r0).push(line@));
        assert(mods@.subrange(0, j + 1).map_values(|m: Mod| mod_line(m)) == mods@.subrange(0, j as int).map_values(|m: Mod| mod_line(m)).push(mod_line(mods[j as int])));
        j = j + 1;
    }
    r
}

/// The profile response is named `name`.
pub open spec fn response_is_named(name: Seq<char>) -> spec_fn(ProfileResponseDto) -> bool {
    |p: ProfileResponseDto| p.name@ == name
}

/// The index of the first profile named `name`.
pub open spec fn first_profile_named(profiles: Seq<ProfileResponseDto>, name: Seq<char>) -> Option<int> {
    first_match(profiles, response_is_named(name))
}

/// The load list of the profile named `profile_name` of a game, resolved
/// against the packs found on disk. Fails with `NotFound` when the game has
/// no such profile.
pub fn resolve_profile(game: &GameResponseDto, profile_name: &str, packs: &Vec<Pack>) -> (r: Result<ModWriter, ErrorCode>)
    ensures
        match first_profile_named(game.profiles@, profile_name@) {
            None => r == Err::<ModWriter, ErrorCode>(ErrorCode::NotFound),
            Some(k) => r matches Ok(w) && sorted_by_order(w.mods@) && w.mods@.to_multiset() == selected_mods(
                game.profiles[k].mods@,
                packs@,
            ).to_multiset(),
        },
{
    let mut k: usize = 0;
    while k < game.profiles.len()
        invariant
            k <= game.profiles.len(),
            forall|j: int| 0 <= j < k ==> game.profiles[j].name@ != profile_name@,
        decreases game.profiles.len() - k,
    {
        if str_eq(game.profiles[k].name.as_str(), profile_name) {
            proof {
                lemma_first_match_at(game.profiles@, response_is_named(profile_name@), k as int);
            }
            return Ok(ModWriter::new(&game.profiles[k].mods, packs));
        }
        k = k + 1;
    }
    proof {
        lemma_first_match(game.profiles@, response_is_named(profile_name@));
        if first_profile_named(game.profiles@, profile_name@) is Some {
            let f = first_profile_named(game.profiles@, profile_name@)->0;
            assert(game.profiles@[f].name@ != profile_name@);
        }
    }
    Err(ErrorCode::NotFound)
}

/// The pack files that the lines of an artifact load, in order.
pub fn read_load_order(lines: &Vec<String>) -> (r: Vec<String>)
    ensures
        views(r@) == read_entries(views(lines@)),
{
    let mut r: Vec<String> = Vec::new();
    let mut i: usize = 0;
    while i < lines.len()
        invariant
            i <= lines.len(),
            views(r@) == read_entries(views(lines@.subrange(0, i as int))),
        decreases lines.len() - i,
    {
        let l = lines[i].as_str();
        assert(views(lines@.subrange(0, i + 1)).drop_last() == views(lines@.subrange(0, i as int)));
        assert(views(lines@.subrange(0, i + 1)).last() == l@);
        let n = l.unicode_len();
        if n >= 7 && starts_with(l, "mod \"") && ends_with(l, "\";") {
            proof {
                reveal_strlit("mod \"");
                reveal_strlit("\";");
            }
            let e = String::from_str(l.substring_char(5, n - 2));
            let ghost r0 = r@;
            r.push(e);
            assert(views(r@) == views(r0).push(e@));
        } else {
            proof {
                reveal_strlit("mod \"");
                reveal_strlit("\";");
            }
        }
        i = i + 1;
    }
    assert(lines@.subrange(0, lines.len() as int) == lines@);
    r
}

proof fn lemma_read_entries_append(a: Seq<Seq<char>>, b: Seq<Seq<char>>)
    ensures
        read_entries(a + b) == read_entries(a) + read_entries(b),
    decreases b.len(),
{
    if b.len() == 0 {
        assert(a + b == a);
        assert(read_entries(a) + read_entries(b) == read_entries(a));
    } else {
        lemma_read_entries_append(a, b.drop_last());
        assert((a + b).drop_last() == a + b.drop_last());
        assert((a + b).last() == b.last());
    }
}

proof fn lemma_workshop_lines_read_nothing(prefix: Seq<char>, mods: Seq<Mod>)
    ensures
        read_entries(workshop_lines(prefix, mods)) == Seq::<Seq<char>>::empty(),
    decreases mods.len(),
{
    reveal_strlit("mod \"");
    reveal_strlit("add_working_directory \"");
    if mods.len() > 0 {
        lemma_workshop_lines_read_nothing(prefix, mods.drop_last());
        if mods.last().from_steam_workshop {
            let w = workshop_line(prefix, mods.last());
            let ws = workshop_lines(prefix, mods.drop_last());
            assert(ws.push(w).drop_last() == ws);
            assert(w[0] == 'a');
            assert(!starts_with_seq(w, "mod \""@)) by {
                if starts_with_seq(w, "mod \""@) {
                    assert(w.subrange(0, 5)[0] == w[0]);
                }
            }
        }
    }
}

proof fn lemma_mod_lines_read_back(mods: Seq<Mod>)
    ensures
        read_entries(mods.map_values(|m: Mod| mod_line(m))) == mods.map_values(|m: Mod| pack_file_name(m.name@)),
    decreases mods.len(),
{
    reveal_strlit("mod \"");
    reveal_strlit("\";");
    if mods.len() > 0 {
        lemma_mod_lines_read_back(mods.drop_last());
        let lines = mods.map_values(|m: Mod| mod_line(m));
        assert(lines.drop_last() == mods.drop_last().map_values(|m: Mod| mod_line(m)));
        assert(mods.map_values(|m: Mod| pack_file_name(m.name@)) == mods.drop_last().map_values(|m: Mod| pack_file_name(m.name@)).push(pack_file_name(mods.last().name@)));
        let l = mod_line(mods.last());
        let f = pack_file_name(mods.last().name@);
        assert(lines.last() == l);
        assert(l.len() == f.len() + 7);
        assert(l.subrange(0, 5) == "mod \""@);
        assert(l.subrange(l.len() - 2, l.len() as int) == "\";"@);
        assert(l.subrange(5, l.len() - 2) == f);
    }
}

/// Writing a load list and reading the artifact back gives the pack file
/// names of the list, in load order: directory lines are skipped and each
/// load line gives back the file name it was written with.
pub proof fn lemma_artifact_round_trip(prefix: Seq<char>, mods: Seq<Mod>)
    ensures
        read_entries(artifact_lines(prefix, mods)) == mods.map_values(|m: Mod| pack_file_name(m.name@)),
{
    lemma_read_entries_append(workshop_lines(prefix, mods), mods.map_values(|m: Mod| mod_line(m)));
    lemma_workshop_lines_read_nothing(prefix, mods);
    lemma_mod_lines_read_back(mods);
    assert(Seq::<Seq<char>>::empty() + mods.map_values(|m: Mod| pack_file_name(m.name@)) == mods.map_values(|m: Mod| pack_file_name(m.name@)));
}

/// For packs whose names do not already end with the package extension,
/// reading the artifact back and dropping the extension from each entry
/// gives the pack names of the load list, in load order.
pub proof fn lemma_artifact_round_trip_names(prefix: Seq<char>, mods: Seq<Mod>)
    requires
        forall|i: int| 0 <= i < mods.len() ==> !ends_with_seq(#[trigger] mods[i].name@, ".pack"@),
    ensures
        read_entries(artifact_lines(prefix, mods)).map_values(|f: Seq<char>| f.subrange(0, f.len() - 5))
            == mods.map_values(|m: Mod| m.name@),
{
    reveal_strlit(".pack");
    lemma_artifact_round_trip(prefix, mods);
    let files = mods.map_values(|m: Mod| pack_file_name(m.name@));
    assert forall|i: int| 0 <= i < mods.len() implies #[trigger] files[i].subrange(0, files[i].len() - 5)
        == mods[i].name@ by {
        assert(files[i] == mods[i].name@ + ".pack"@);
        assert(files[i].subrange(0, files[i].len() - 5) =~= mods[i].name@);
    }
    assert(files.map_values(|f: Seq<char>| f.subrange(0, f.len() - 5)) =~= mods.map_values(|m: Mod| m.name@));
}

} // verus!

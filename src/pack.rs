//! Discovery of content packs from the loose mods directory and the workshop
//! directory.

use vstd::prelude::*;
use crate::paths::{extension, extension_of, file_stem, join_path, join_of, stem_of};
use crate::text::{contains_string, copy_opt, opt_view, str_eq};

verus! {

/// A file found on disk, with its modification time as an RFC 3339 string
/// when the file system reported one.
#[derive(Clone, Debug)]
pub struct DiskFile {
    pub path: String,
    pub last_updated: Option<String>,
}

/// A discoverable content package.
#[derive(Clone, Debug)]
pub struct Pack {
    pub name: String,
    pub path: String,
    pub image: Option<String>,
    pub last_updated: Option<String>,
    pub from_steam_workshop: bool,
}

/// The package file extension.
pub open spec fn pack_ext() -> Seq<char> {
    seq!['p', 'a', 'c', 'k']
}

/// Whether a path names a package file.
pub open spec fn is_package_file(p: Seq<char>) -> bool {
    extension_of(p) == Some(pack_ext())
}

/// Whether a path names a preview image.
pub open spec fn is_image_file(p: Seq<char>) -> bool {
    extension_of(p) == Some(seq!['p', 'n', 'g']) || extension_of(p) == Some(seq!['j', 'p', 'g'])
        || extension_of(p) == Some(seq!['j', 'p', 'e', 'g'])
}

/// `pk` is the pack made from `file`, with the given image and source.
pub open spec fn pack_from(pk: Pack, file: DiskFile, image: Option<Seq<char>>, workshop: bool) -> bool {
    &&& pk.name@ == stem_of(file.path@)
    &&& pk.path == file.path
    &&& opt_view(pk.image) == image
    &&& pk.last_updated == file.last_updated
    &&& pk.from_steam_workshop == workshop
}

/// `pk` is the loose pack made from one of `files`.
pub open spec fn loose_pack_of(files: Seq<DiskFile>, pk: Pack) -> bool {
    exists|t: int| 0 <= t < files.len() && pack_from(pk, files[t], None, false)
}

/// The set of paths that a sequence of packs holds.
pub open spec fn path_set(s: Seq<Pack>) -> Set<Seq<char>> {
    Set::new(|p: Seq<char>| exists|k: int| 0 <= k < s.len() && s[k].path@ == p)
}

/// The set of paths of the files found.
pub open spec fn file_paths(files: Seq<DiskFile>) -> Set<Seq<char>> {
    Set::new(|p: Seq<char>| exists|i: int| 0 <= i < files.len() && files[i].path@ == p)
}

/// The set of package-file paths among the files found.
pub open spec fn package_paths(files: Seq<DiskFile>) -> Set<Seq<char>> {
    Set::new(|p: Seq<char>| file_paths(files).contains(p) && is_package_file(p))
}

/// The paths of the base-game packages listed in the manifest.
pub open spec fn vanilla_paths(mods_dir: Seq<char>, vanilla: Seq<String>) -> Set<Seq<char>> {
    Set::new(|p: Seq<char>| exists|j: int| 0 <= j < vanilla.len() && p == join_of(mods_dir, vanilla[j]@))
}

impl Pack {
    /// A pack for the file at `path`, named after the file's stem.
    pub fn new(path: &String, image: Option<&String>, from_steam_workshop: bool, last_updated: Option<String>) -> (r: Pack)
        ensures
            r.name@ == stem_of(path@),
            r.path == *path,
            opt_view(r.image) == match image {
                Some(i) => Some(i@),
                None => None::<Seq<char>>,
            },
            r.last_updated == last_updated,
            r.from_steam_workshop == from_steam_workshop,
    {
        let image = match image {
            Some(i) => Some(i.clone()),
            None => None,
        };
        Pack { name: file_stem(path.as_str()), path: path.clone(), image, last_updated, from_steam_workshop }
    }

    /// A field-by-field copy.
    pub fn copied(&self) -> (r: Pack)
        ensures
            r == *self,
    {
        Pack {
            name: self.name.clone(),
            path: self.path.clone(),
            image: copy_opt(&self.image),
            last_updated: copy_opt(&self.last_updated),
            from_steam_workshop: self.from_steam_workshop,
        }
    }
}

/// Whether the file at `path` is a package file.
pub fn is_package(path: &str) -> (r: bool)
    ensures
        r == is_package_file(path@),
{
    match extension(path) {
        Some(e) => {
            let r = str_eq(e.as_str(), "pack");
            proof {
                reveal_strlit("pack");
                assert("pack"@ == pack_ext());
            }
            r
        },
        None => false,
    }
}

/// Whether the file at `path` is a preview image.
pub fn is_image(path: &str) -> (r: bool)
    ensures
        r == is_image_file(path@),
{
    match extension(path) {
        Some(e) => {
            let png = str_eq(e.as_str(), "png");
            let jpg = str_eq(e.as_str(), "jpg");
            let jpeg = str_eq(e.as_str(), "jpeg");
            proof {
                reveal_strlit("png");
                reveal_strlit("jpg");
                reveal_strlit("jpeg");
                assert("png"@ == seq!['p', 'n', 'g']);
                assert("jpg"@ == seq!['j', 'p', 'g']);
                assert("jpeg"@ == seq!['j', 'p', 'e', 'g']);
            }
            png || jpg || jpeg
        },
        None => false,
    }
}

/// Packs of the loose mods directory: every package file found there that
/// the base-game manifest does not list, each once.
pub fn retrieve_loose_mods(mods_dir: &str, files: &Vec<DiskFile>, vanilla: &Vec<String>) -> (r: Vec<Pack>)
    ensures
        is_loose_result(mods_dir@, files@, vanilla@, r@),
{
    let mut excluded: Vec<String> = Vec::new();
    let mut j: usize = 0;
    while j < vanilla.len()
        invariant
            j <= vanilla.len(),
            excluded.len() == j,
            forall|t: int| 0 <= t < j ==> #[trigger] excluded[t]@ == join_of(mods_dir@, vanilla[t]@),
        decreases vanilla.len() - j,
    {
        excluded.push(join_path(mods_dir, vanilla[j].as_str()));
        j = j + 1;
    }
    let ghost vp = vanilla_paths(mods_dir@, vanilla@);
    let ghost target = package_paths(files@).difference(vp);
    let mut r: Vec<Pack> = Vec::new();
    let mut seen: Vec<String> = Vec::new();
    let mut i: usize = 0;
    while i < files.len()
        invariant
            i <= files.len(),
            excluded.len() == vanilla.len(),
            forall|t: int| 0 <= t < excluded.len() ==> #[trigger] excluded[t]@ == join_of(mods_dir@, vanilla[t]@),
            vp == vanilla_paths(mods_dir@, vanilla@),
            target == package_paths(files@).difference(vp),
            seen.len() == r.len(),
            forall|k: int| 0 <= k < r.len() ==> #[trigger] seen[k]@ == r[k].path@,
            forall|k: int| 0 <= k < r.len() ==> target.contains(#[trigger] r[k].path@),
            forall|k: int| 0 <= k < r.len() ==> loose_pack_of(files@, #[trigger] r[k]),
            forall|k1: int, k2: int| 0 <= k1 < k2 < r.len() ==> r[k1].path@ != r[k2].path@,
            forall|t: int| 0 <= t < i && target.contains(#[trigger] files[t].path@) ==> exists|k: int| 0 <= k < r.len() && r[k].path@ == files[t].path@,
        decreases files.len() - i,
    {
        let f = &files[i];
        let p = f.path.as_str();
        let pk = is_package(p);
        let vanilla_listed = contains_string(&excluded, p);
        let dup = contains_string(&seen, p);
        proof {
            if vanilla_listed {
                let t = choose|t: int| 0 <= t < excluded.len() && excluded[t]@ == p@;
                assert(vp.contains(p@));
            }
            if !vanilla_listed {
                assert forall|t: int| 0 <= t < vanilla.len() implies p@ != join_of(mods_dir@, vanilla[t]@) by {
                    assert(excluded[t]@ == join_of(mods_dir@, vanilla[t]@));
                }
                assert(!vp.contains(p@));
            }
            assert(file_paths(files@).contains(p@));
            assert(package_paths(files@).contains(p@) == pk);
        }
        let ghost r0 = r@;
        if pk && !vanilla_listed && !dup {
            let np = Pack::new(&f.path, None, false, copy_opt(&f.last_updated));
            assert(pack_from(np, files[i as int], None, false));
            r.push(np);
            seen.push(f.path.clone());
            proof {
                let n = r.len() - 1;
                assert(r[n] == np);
                assert forall|k: int| 0 <= k < n implies r[k].path@ != np.path@ by {
                    assert(seen[k]@ == r0[k].path@);
                }
                assert(target.contains(np.path@));
                assert forall|k: int| 0 <= k < r.len() implies loose_pack_of(files@, #[trigger] r[k]) by {
                    if k < n {
                        assert(r[k] == r0[k]);
                    } else {
                        assert(pack_from(r[k], files[i as int], None, false));
                    }
                }
            }
        }
        proof {
            if dup {
                let k = choose|k: int| 0 <= k < seen.len() && seen[k]@ == p@;
                assert(r[k].path@ == files[i as int].path@);
            }
            assert forall|t: int| 0 <= t < i + 1 && target.contains(#[trigger] files[t].path@) implies exists|k: int| 0 <= k < r.len() && r[k].path@ == files[t].path@ by {
                if t < i {
                    let k = choose|k: int| 0 <= k < r0.len() && r0[k].path@ == files[t].path@;
                    assert(r[k] == r0[k]);
                } else if !dup {
                    assert(r[r.len() - 1].path@ == files[t].path@);
                }
            }
        }
        i = i + 1;
    }
    proof {
        assert forall|p: Seq<char>| path_set(r@).contains(p) <==> target.contains(p) by {
            if path_set(r@).contains(p) {
                let k = choose|k: int| 0 <= k < r.len() && r[k].path@ == p;
                assert(target.contains(r[k].path@));
            }
            if target.contains(p) {
                assert(file_paths(files@).contains(p));
                let t = choose|t: int| 0 <= t < files.len() && files[t].path@ == p;
                assert(target.contains(files[t].path@));
            }
        }
        assert(path_set(r@) =~= target);
    }
    r
}

/// `r` is the loose contribution for `files`: exactly the package files not
/// listed by the manifest, each path once, each a loose pack of its file.
pub open spec fn is_loose_result(mods_dir: Seq<char>, files: Seq<DiskFile>, vanilla: Seq<String>, r: Seq<Pack>) -> bool {
    &&& path_set(r) == package_paths(files).difference(vanilla_paths(mods_dir, vanilla))
    &&& forall|k: int| 0 <= k < r.len() ==> loose_pack_of(files, #[trigger] r[k])
    &&& forall|k1: int, k2: int| 0 <= k1 < k2 < r.len() ==> r[k1].path@ != r[k2].path@
}

/// `r` is the workshop contribution for `files`: one pack for each stem that
/// has a package file, and nothing else.
pub open spec fn is_workshop_result(files: Seq<DiskFile>, r: Seq<Pack>) -> bool {
    &&& forall|k: int| 0 <= k < r.len() ==> workshop_pack_of(files, r[k].name@, #[trigger] r[k])
    &&& forall|i: int| 0 <= i < files.len() && is_package_file(#[trigger] files[i].path@)
            ==> exists|k: int| 0 <= k < r.len() && r[k].name@ == stem_of(files[i].path@)
    &&& forall|k1: int, k2: int| 0 <= k1 < k2 < r.len() ==> r[k1].name@ != r[k2].name@
}

/// The last package file of `files` whose stem is `stem`.
pub open spec fn last_pack_file(files: Seq<DiskFile>, stem: Seq<char>) -> Option<DiskFile>
    decreases files.len(),
{
    if files.len() == 0 {
        None
    } else if stem_of(files.last().path@) == stem && is_package_file(files.last().path@) {
        Some(files.last())
    } else {
        last_pack_file(files.drop_last(), stem)
    }
}

/// The last image file of `files` whose stem is `stem`.
pub open spec fn last_image_file(files: Seq<DiskFile>, stem: Seq<char>) -> Option<DiskFile>
    decreases files.len(),
{
    if files.len() == 0 {
        None
    } else if stem_of(files.last().path@) == stem && is_image_file(files.last().path@) {
        Some(files.last())
    } else {
        last_image_file(files.drop_last(), stem)
    }
}

/// The path of an optional file.
pub open spec fn path_of(f: Option<DiskFile>) -> Option<Seq<char>> {
    match f {
        Some(d) => Some(d.path@),
        None => None,
    }
}

/// `pk` is the workshop pack of the group of `files` with stem `stem`: made
/// from the group's last package file, with the group's last image.
pub open spec fn workshop_pack_of(files: Seq<DiskFile>, stem: Seq<char>, pk: Pack) -> bool {
    match last_pack_file(files, stem) {
        Some(f) => pack_from(pk, f, path_of(last_image_file(files, stem)), true),
        None => false,
    }
}

proof fn lemma_last_pack_file(files: Seq<DiskFile>, stem: Seq<char>)
    ensures
        match last_pack_file(files, stem) {
            Some(f) => stem_of(f.path@) == stem && is_package_file(f.path@),
            None => forall|i: int| 0 <= i < files.len() ==> !(stem_of(#[trigger] files[i].path@) == stem
                && is_package_file(files[i].path@)),
        },
    decreases files.len(),
{
    if files.len() > 0 {
        lemma_last_pack_file(files.drop_last(), stem);
        if last_pack_file(files, stem) is None {
            assert forall|i: int| 0 <= i < files.len() implies !(stem_of(#[trigger] files[i].path@) == stem
                && is_package_file(files[i].path@)) by {
                if i < files.len() - 1 {
                    assert(files[i] == files.drop_last()[i]);
                }
            }
        }
    }
}

fn find_group(groups: &Vec<Group>, stem: &String) -> (r: Option<usize>)
    ensures
        match r {
            Some(h) => h < groups.len() && groups[h as int].stem@ == stem@,
            None => forall|h: int| 0 <= h < groups.len() ==> (#[trigger] groups[h]).stem@ != stem@,
        },
{
    let mut g: usize = 0;
    while g < groups.len()
        invariant
            g <= groups.len(),
            forall|h: int| 0 <= h < g ==> (#[trigger] groups[h]).stem@ != stem@,
        decreases groups.len() - g,
    {
        if str_eq(groups[g].stem.as_str(), stem.as_str()) {
            return Some(g);
        }
        g = g + 1;
    }
    None
}

struct Group {
    stem: String,
    pack: Option<usize>,
    image: Option<usize>,
}

spec fn index_matches(files: Seq<DiskFile>, idx: Option<usize>, f: Option<DiskFile>) -> bool {
    match idx {
        Some(j) => j < files.len() && f == Some(files[j as int]),
        None => f is None,
    }
}

/// Packs of the workshop directory. Files are grouped by stem; each group
/// that holds a package file gives one pack, made from its last package file
/// and carrying its last image, if any. A group of images alone gives none.
pub fn retrieve_workshop_mods(files: &Vec<DiskFile>) -> (r: Vec<Pack>)
    ensures
        is_workshop_result(files@, r@),
        forall|i: int| 0 <= i < files.len() && is_package_file(#[trigger] files[i].path@)
            && last_image_file(files@, stem_of(files[i].path@)) is None
            ==> exists|k: int| 0 <= k < r.len() && r[k].name@ == stem_of(files[i].path@) && r[k].image is None && r[k].from_steam_workshop,
        forall|st: Seq<char>| last_pack_file(files@, st) is None
            ==> forall|k: int| 0 <= k < r.len() ==> (#[trigger] r[k]).name@ != st,
{
    let mut groups: Vec<Group> = Vec::new();
    let mut i: usize = 0;
    while i < files.len()
        invariant
            i <= files.len(),
            forall|g: int| 0 <= g < groups.len() ==> index_matches(files@, (#[trigger] groups[g]).pack, last_pack_file(files@.subrange(0, i as int), groups[g].stem@)),
            forall|g: int| 0 <= g < groups.len() ==> index_matches(files@, (#[trigger] groups[g]).image, last_image_file(files@.subrange(0, i as int), groups[g].stem@)),
            forall|g1: int, g2: int| 0 <= g1 < g2 < groups.len() ==> groups[g1].stem@ != groups[g2].stem@,
            forall|t: int| 0 <= t < i && is_package_file(#[trigger] files[t].path@) ==> exists|g: int| 0 <= g < groups.len() && groups[g].stem@ == stem_of(files[t].path@),
            forall|st: Seq<char>| (forall|g: int| 0 <= g < groups.len() ==> (#[trigger] groups[g]).stem@ != st) ==> last_pack_file(files@.subrange(0, i as int), st) is None && last_image_file(files@.subrange(0, i as int), st) is None,
        decreases files.len() - i,
    {
        let ghost pre = files@.subrange(0, i as int);
        let ghost post = files@.subrange(0, i + 1);
        assert(post.drop_last() == pre);
        assert(post.last() == files[i as int]);
        let p = files[i].path.as_str();
        let is_pk = is_package(p);
        let is_img = is_image(p);
        let ghost gs0 = groups@;
        let ghost mut hidx: int = -1;
        proof {
            assert forall|st: Seq<char>| st != stem_of(p@) || !(is_pk || is_img) implies
                last_pack_file(post, st) == last_pack_file(pre, st) && last_image_file(post, st) == last_image_file(pre, st) by {}
        }
        if is_pk || is_img {
            let stem = file_stem(p);
            proof {
                assert(is_pk ==> !is_img);
                assert(is_pk ==> last_pack_file(post, stem@) == Some(files[i as int]) && last_image_file(post, stem@) == last_image_file(pre, stem@));
                assert(is_img ==> last_image_file(post, stem@) == Some(files[i as int]) && last_pack_file(post, stem@) == last_pack_file(pre, stem@));
            }
            match find_group(&groups, &stem) {
                Some(h) => {
                    let old_pack = groups[h].pack;
                    let old_image = groups[h].image;
                    let ng = Group {
                        stem: stem,
                        pack: if is_pk { Some(i) } else { old_pack },
                        image: if is_img { Some(i) } else { old_image },
                    };
                    groups.set(h, ng);
                    proof {
                        assert forall|q: int| 0 <= q < groups.len() && q != h implies groups[q] == gs0[q] by {}
                        hidx = h as int;
                    }
                },
                None => {
                    let ng = Group {
                        stem: stem,
                        pack: if is_pk { Some(i) } else { None },
                        image: if is_img { Some(i) } else { None },
                    };
                    groups.push(ng);
                    proof {
                        assert forall|q: int| 0 <= q < groups.len() - 1 implies groups[q] == gs0[q] by {}
                        assert(last_pack_file(pre, stem@) is None && last_image_file(pre, stem@) is None);
                        hidx = groups.len() - 1;
                    }
                },
            }
        }
        proof {
            assert(groups.len() >= gs0.len());
            assert(forall|q: int| 0 <= q < gs0.len() ==> (#[trigger] groups[q]).stem@ == gs0[q].stem@);
            assert((is_pk || is_img) ==> 0 <= hidx < groups.len() && groups[hidx].stem@ == stem_of(p@));
            assert(forall|q: int| gs0.len() <= q < groups.len() ==> (#[trigger] groups[q]).stem@ == stem_of(p@));
            assert forall|st: Seq<char>| (forall|g: int| 0 <= g < groups.len() ==> (#[trigger] groups[g]).stem@ != st)
                implies last_pack_file(post, st) is None && last_image_file(post, st) is None by {
                assert forall|g: int| 0 <= g < gs0.len() implies (#[trigger] gs0[g]).stem@ != st by {
                    assert(groups[g].stem@ == gs0[g].stem@);
                }
                if is_pk || is_img {
                    assert(groups[hidx].stem@ != st);
                }
            }
            assert forall|t: int| 0 <= t < i + 1 && is_package_file(#[trigger] files[t].path@) implies exists|g: int| 0 <= g < groups.len() && groups[g].stem@ == stem_of(files[t].path@) by {
                if t == i {
                    assert(is_pk);
                    assert(groups[hidx].stem@ == stem_of(files[t].path@));
                } else {
                    let g = choose|g: int| 0 <= g < gs0.len() && gs0[g].stem@ == stem_of(files[t].path@);
                    assert(groups[g].stem@ == gs0[g].stem@ || groups[g].stem@ == stem_of(p@));
                }
            }
        }
        i = i + 1;
    }
    assert(files@.subrange(0, files.len() as int) == files@);
    let mut r: Vec<Pack> = Vec::new();
    let mut g: usize = 0;
    while g < groups.len()
        invariant
            g <= groups.len(),
            files@.subrange(0, files.len() as int) == files@,
            forall|q: int| 0 <= q < groups.len() ==> index_matches(files@, (#[trigger] groups[q]).pack, last_pack_file(files@, groups[q].stem@)),
            forall|q: int| 0 <= q < groups.len() ==> index_matches(files@, (#[trigger] groups[q]).image, last_image_file(files@, groups[q].stem@)),
            forall|g1: int, g2: int| 0 <= g1 < g2 < groups.len() ==> groups[g1].stem@ != groups[g2].stem@,
            forall|k: int| 0 <= k < r.len() ==> workshop_pack_of(files@, r[k].name@, #[trigger] r[k]),
            forall|k: int| 0 <= k < r.len() ==> exists|q: int| 0 <= q < g && groups[q].stem@ == (#[trigger] r[k]).name@,
            forall|q: int| 0 <= q < g && (#[trigger] groups[q]).pack is Some ==> exists|k: int| 0 <= k < r.len() && r[k].name@ == groups[q].stem@,
            forall|k1: int, k2: int| 0 <= k1 < k2 < r.len() ==> r[k1].name@ != r[k2].name@,
        decreases groups.len() - g,
    {
        let ghost r0 = r@;
        match groups[g].pack {
            Some(j) => {
                let image = match groups[g].image {
                    Some(m) => Some(&files[m].path),
                    None => None,
                };
                proof {
                    lemma_last_pack_file(files@, groups[g as int].stem@);
                }
                let np = Pack::new(&files[j].path, image, true, copy_opt(&files[j].last_updated));
                r.push(np);
                proof {
                    assert(r[r.len() - 1] == np);
                    assert forall|k: int| 0 <= k < r.len() - 1 implies r[k].name@ != np.name@ by {
                        assert(r[k] == r0[k]);
                        let q = choose|q: int| 0 <= q < g && groups[q].stem@ == r0[k].name@;
                    }
                    assert forall|k: int| 0 <= k < r.len() implies workshop_pack_of(files@, r[k].name@, #[trigger] r[k]) by {
                        if k < r.len() - 1 {
                            assert(r[k] == r0[k]);
                        }
                    }
                    assert forall|k: int| 0 <= k < r.len() implies exists|q: int| 0 <= q < g + 1 && groups[q].stem@ == (#[trigger] r[k]).name@ by {
                        if k < r.len() - 1 {
                            assert(r[k] == r0[k]);
                            let q = choose|q: int| 0 <= q < g && groups[q].stem@ == r0[k].name@;
                        } else {
                            assert(groups[g as int].stem@ == r[k].name@);
                        }
                    }
                    assert forall|q: int| 0 <= q < g + 1 && (#[trigger] groups[q]).pack is Some implies exists|k: int| 0 <= k < r.len() && r[k].name@ == groups[q].stem@ by {
                        if q < g {
                            let k = choose|k: int| 0 <= k < r0.len() && r0[k].name@ == groups[q].stem@;
                            assert(r[k] == r0[k]);
                        } else {
                            assert(r[r.len() - 1].name@ == groups[q].stem@);
                        }
                    }
                }
            },
            None => {},
        }
        g = g + 1;
    }
    proof {
        assert forall|i: int| 0 <= i < files.len() && is_package_file(#[trigger] files[i].path@)
            implies exists|k: int| 0 <= k < r.len() && r[k].name@ == stem_of(files[i].path@) by {
            let q = choose|q: int| 0 <= q < groups.len() && groups[q].stem@ == stem_of(files[i].path@);
            lemma_last_pack_file(files@, groups[q].stem@);
        }
        assert forall|i: int| 0 <= i < files.len() && is_package_file(#[trigger] files[i].path@)
            && last_image_file(files@, stem_of(files[i].path@)) is None
            implies exists|k: int| 0 <= k < r.len() && r[k].name@ == stem_of(files[i].path@) && r[k].image is None by {
            let q = choose|q: int| 0 <= q < groups.len() && groups[q].stem@ == stem_of(files[i].path@);
            lemma_last_pack_file(files@, groups[q].stem@);
            let k = choose|k: int| 0 <= k < r.len() && r[k].name@ == groups[q].stem@;
            assert(workshop_pack_of(files@, r[k].name@, r[k]));
            assert(r[k].from_steam_workshop);
        }
        assert forall|st: Seq<char>| last_pack_file(files@, st) is None
            implies forall|k: int| 0 <= k < r.len() ==> (#[trigger] r[k]).name@ != st by {
            assert forall|k: int| 0 <= k < r.len() implies (#[trigger] r[k]).name@ != st by {
                assert(workshop_pack_of(files@, r[k].name@, r[k]));
            }
        }
    }
    r
}

/// The loose contribution depends on the files found only as a set: two
/// listings of the same paths, in any order, give packs with the same paths,
/// namely the package files found less those the manifest lists.
pub proof fn lemma_loose_order_independent(
    mods_dir: Seq<char>,
    files1: Seq<DiskFile>,
    files2: Seq<DiskFile>,
    vanilla: Seq<String>,
    r1: Seq<Pack>,
    r2: Seq<Pack>,
)
    requires
        is_loose_result(mods_dir, files1, vanilla, r1),
        is_loose_result(mods_dir, files2, vanilla, r2),
        file_paths(files1) == file_paths(files2),
    ensures
        path_set(r1) == path_set(r2),
        path_set(r1) == package_paths(files1).difference(vanilla_paths(mods_dir, vanilla)),
{
    assert forall|p: Seq<char>| package_paths(files1).contains(p) <==> package_paths(files2).contains(p) by {
        assert(file_paths(files1).contains(p) <==> file_paths(files2).contains(p));
    }
    assert(package_paths(files1) =~= package_paths(files2));
}

/// `r` is the loose contribution in its first `n` packs, and the workshop
/// contribution after them.
pub open spec fn merged_at(
    mods_dir: Seq<char>,
    loose_files: Seq<DiskFile>,
    manifest: Option<Vec<String>>,
    workshop_files: Option<Vec<DiskFile>>,
    r: Seq<Pack>,
    n: int,
) -> bool {
    &&& 0 <= n <= r.len()
    &&& match manifest {
        Some(v) => is_loose_result(mods_dir, loose_files, v@, r.subrange(0, n)),
        None => n == 0,
    }
    &&& match workshop_files {
        Some(w) => is_workshop_result(w@, r.subrange(n, r.len() as int)),
        None => n == r.len(),
    }
}

/// All packs that discovery yields: the loose contribution, when the manifest
/// could be read, followed by the workshop contribution, when the workshop
/// directory could be listed. Names are not deduplicated across the two.
pub fn retrieve_mods(
    mods_dir: &str,
    loose_files: &Vec<DiskFile>,
    manifest: &Option<Vec<String>>,
    workshop_files: &Option<Vec<DiskFile>>,
) -> (r: Vec<Pack>)
    ensures
        exists|n: int| #[trigger] merged_at(mods_dir@, loose_files@, *manifest, *workshop_files, r@, n),
{
    let mut mods: Vec<Pack> = match manifest {
        Some(v) => retrieve_loose_mods(mods_dir, loose_files, v),
        None => Vec::new(),
    };
    let ghost n = mods.len() as int;
    let ghost m0 = mods@;
    match workshop_files {
        Some(w) => {
            let mut ws = retrieve_workshop_mods(w);
            let ghost ws0 = ws@;
            mods.append(&mut ws);
            assert(mods@.subrange(0, n) == m0);
            assert(mods@.subrange(n, mods.len() as int) == ws0);
        },
        None => {
            assert(mods@.subrange(0, n) == m0);
        },
    }
    assert(merged_at(mods_dir@, loose_files@, *manifest, *workshop_files, mods@, n));
    mods
}

} // verus!

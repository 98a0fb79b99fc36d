//! Building the outdated-package set.
//!
//! Package versions are opaque strings whose ordering the package manager
//! supplies; nothing here compares versions itself.  [`pair_versions`]
//! joins the installed mapping against the remote one by name, and
//! [`outdated_from`] keeps the pairs whose remote version the caller has
//! found strictly newer, keyed by name and valued by the remote version.

use vstd::prelude::*;

verus! {

use vstd::string::*;

/// A package name with a version string.
#[derive(Debug, PartialEq, Eq)]
pub struct PackageVersion {
    pub name: String,
    pub version: String,
}

/// The mathematical content of a [`PackageVersion`].
pub ghost struct PkgModel {
    pub name: Seq<char>,
    pub version: Seq<char>,
}

impl PackageVersion {
    pub open spec fn model(self) -> PkgModel {
        PkgModel { name: self.name@, version: self.version@ }
    }
}

/// An installed package matched with the remote entry of the same name.
#[derive(Debug, PartialEq, Eq)]
pub struct VersionPair {
    pub name: String,
    pub installed: String,
    pub remote: String,
}

/// The mathematical content of a [`VersionPair`].
pub ghost struct PairModel {
    pub name: Seq<char>,
    pub installed: Seq<char>,
    pub remote: Seq<char>,
}

impl VersionPair {
    pub open spec fn model(self) -> PairModel {
        PairModel { name: self.name@, installed: self.installed@, remote: self.remote@ }
    }
}

pub open spec fn pkg_models(s: Seq<PackageVersion>) -> Seq<PkgModel> {
    s.map_values(|p: PackageVersion| p.model())
}

pub open spec fn pair_models(s: Seq<VersionPair>) -> Seq<PairModel> {
    s.map_values(|p: VersionPair| p.model())
}

/// The version mapped to `name`, the last entry of that name winning, as
/// collecting entries into a name-keyed map would have it.
pub open spec fn lookup(entries: Seq<PkgModel>, name: Seq<char>) -> Option<Seq<char>>
    decreases entries.len(),
{
    if entries.len() == 0 {
        None
    } else if entries.last().name == name {
        Some(entries.last().version)
    } else {
        lookup(entries.drop_last(), name)
    }
}

/// Each installed entry that has a remote entry of the same name, in
/// installed order, with both versions attached.
pub open spec fn paired(installed: Seq<PkgModel>, remote: Seq<PkgModel>) -> Seq<PairModel>
    decreases installed.len(),
{
    if installed.len() == 0 {
        Seq::empty()
    } else {
        let rest = paired(installed.drop_last(), remote);
        match lookup(remote, installed.last().name) {
            Some(rv) => rest.push(
                PairModel {
                    name: installed.last().name,
                    installed: installed.last().version,
                    remote: rv,
                },
            ),
            None => rest,
        }
    }
}

/// The pairs whose flag is set, as outdated packages: name with remote version.
pub open spec fn selected(pairs: Seq<PairModel>, newer: Seq<bool>) -> Seq<PkgModel>
    decreases pairs.len(),
{
    if pairs.len() == 0 {
        Seq::empty()
    } else {
        let rest = selected(pairs.drop_last(), newer.drop_last());
        if newer.last() {
            rest.push(PkgModel { name: pairs.last().name, version: pairs.last().remote })
        } else {
            rest
        }
    }
}

/// Looks `name` up among the entries, the last entry of that name winning.
pub fn lookup_version(entries: &Vec<PackageVersion>, name: &String) -> (r: Option<String>)
    ensures
        match r {
            Some(v) => lookup(pkg_models(entries@), name@) == Some(v@),
            None => lookup(pkg_models(entries@), name@) is None,
        },
{
    let ghost m = pkg_models(entries@);
    let mut i: usize = entries.len();
    proof {
        assert(m.take(entries.len() as int) =~= m);
    }
    while i > 0
        invariant
            i <= entries.len(),
            m == pkg_models(entries@),
            m.len() == entries.len(),
            lookup(m, name@) == lookup(m.take(i as int), name@),
        decreases i,
    {
        proof {
            assert(m.take(i as int).last() == m[i - 1]);
            assert(m.take(i as int).drop_last() =~= m.take(i - 1));
        }
        if entries[i - 1].name == *name {
            return Some(entries[i - 1].version.clone());
        }
        i -= 1;
    }
    proof {
        assert(m.take(0) =~= Seq::<PkgModel>::empty());
    }
    None
}

/// Joins the installed mapping against the remote one by name: one pair
/// for each installed entry whose name the remote mapping also carries.
/// Packages present only locally yield no pair.
pub fn pair_versions(installed: &Vec<PackageVersion>, remote: &Vec<PackageVersion>) -> (r: Vec<
    VersionPair,
>)
    ensures
        pair_models(r@) == paired(pkg_models(installed@), pkg_models(remote@)),
{
    let ghost im = pkg_models(installed@);
    let ghost rm = pkg_models(remote@);
    let mut r: Vec<VersionPair> = Vec::new();
    let mut i: usize = 0;
    proof {
        assert(im.take(0) =~= Seq::<PkgModel>::empty());
        assert(pair_models(r@) =~= paired(im.take(0), rm));
    }
    while i < installed.len()
        invariant
            i <= installed.len(),
            im == pkg_models(installed@),
            rm == pkg_models(remote@),
            im.len() == installed.len(),
            pair_models(r@) == paired(im.take(i as int), rm),
        decreases installed.len() - i,
    {
        proof {
            assert(im.take(i + 1).last() == im[i as int]);
            assert(im.take(i + 1).drop_last() =~= im.take(i as int));
        }
        match lookup_version(remote, &installed[i].name) {
            Some(v) => {
                let p = VersionPair {
                    name: installed[i].name.clone(),
                    installed: installed[i].version.clone(),
                    remote: v,
                };
                r.push(p);
                proof {
                    assert(pair_models(r@) =~= paired(im.take(i + 1), rm));
                }
            },
            None => {
                proof {
                    assert(pair_models(r@) =~= paired(im.take(i + 1), rm));
                }
            },
        }
        i += 1;
    }
    proof {
        assert(im.take(installed.len() as int) =~= im);
    }
    r
}

/// Keeps the pairs the caller has flagged as strictly newer remotely.
/// `newer[i]` answers, for `pairs[i]`, whether the remote version is
/// strictly greater than the installed one under the package manager's
/// version ordering.
pub fn outdated_from(pairs: &Vec<VersionPair>, newer: &Vec<bool>) -> (r: Vec<PackageVersion>)
    requires
        newer@.len() == pairs@.len(),
    ensures
        pkg_models(r@) == selected(pair_models(pairs@), newer@),
{
    let ghost pm = pair_models(pairs@);
    let mut r: Vec<PackageVersion> = Vec::new();
    let mut i: usize = 0;
    proof {
        assert(pm.take(0) =~= Seq::<PairModel>::empty());
        assert(pkg_models(r@) =~= selected(pm.take(0), newer@.take(0)));
    }
    while i < pairs.len()
        invariant
            i <= pairs.len(),
            pm == pair_models(pairs@),
            pm.len() == pairs.len(),
            newer@.len() == pairs@.len(),
            pkg_models(r@) == selected(pm.take(i as int), newer@.take(i as int)),
        decreases pairs.len() - i,
    {
        proof {
            assert(pm.take(i + 1).last() == pm[i as int]);
            assert(pm.take(i + 1).drop_last() =~= pm.take(i as int));
            assert(newer@.take(i + 1).last() == newer@[i as int]);
            assert(newer@.take(i + 1).drop_last() =~= newer@.take(i as int));
        }
        if newer[i] {
            let p = PackageVersion {
                name: pairs[i].name.clone(),
                version: pairs[i].remote.clone(),
            };
            r.push(p);
            proof {
                assert(pkg_models(r@) =~= selected(pm.take(i + 1), newer@.take(i + 1)));
            }
        } else {
            proof {
                assert(pkg_models(r@) =~= selected(pm.take(i + 1), newer@.take(i + 1)));
            }
        }
        i += 1;
    }
    proof {
        assert(pm.take(pairs.len() as int) =~= pm);
        assert(newer@.take(pairs.len() as int) =~= newer@);
    }
    r
}

/// The flags that a version ordering `rel` assigns to the pairs:
/// `rel(remote, installed)` for each.
pub open spec fn newer_flags(
    pairs: Seq<PairModel>,
    rel: spec_fn(Seq<char>, Seq<char>) -> bool,
) -> Seq<bool> {
    pairs.map_values(|p: PairModel| rel(p.remote, p.installed))
}

/// The outdated set that the pipeline computes for a version ordering
/// `rel`: pair by name, then keep the pairs whose remote version is newer.
pub open spec fn outdated_model(
    installed: Seq<PkgModel>,
    remote: Seq<PkgModel>,
    rel: spec_fn(Seq<char>, Seq<char>) -> bool,
) -> Seq<PkgModel> {
    selected(paired(installed, remote), newer_flags(paired(installed, remote), rel))
}

pub open spec fn has_name(s: Seq<PkgModel>, name: Seq<char>) -> bool {
    exists|i: int| 0 <= i < s.len() && s[i].name == name
}

/// A package appears in the outdated set if and only if it is installed,
/// the remote mapping carries its name, and the remote version is strictly
/// newer under the given ordering.  In particular a package absent from
/// the remote mapping never appears.
pub proof fn lemma_outdated_membership(
    installed: Seq<PkgModel>,
    remote: Seq<PkgModel>,
    rel: spec_fn(Seq<char>, Seq<char>) -> bool,
    name: Seq<char>,
)
    ensures
        has_name(outdated_model(installed, remote, rel), name) <==> (exists|i: int|
            0 <= i < installed.len() && installed[i].name == name && (lookup(remote, name)
                matches Some(rv) && rel(rv, installed[i].version))),
        lookup(remote, name) is None ==> !has_name(outdated_model(installed, remote, rel), name),
    decreases installed.len(),
{
    if installed.len() == 0 {
    } else {
        let front = installed.drop_last();
        lemma_outdated_membership(front, remote, rel, name);
        let pf = paired(front, remote);
        let pa = paired(installed, remote);
        match lookup(remote, installed.last().name) {
            Some(rv) => {
                assert(pa == pf.push(
                    PairModel {
                        name: installed.last().name,
                        installed: installed.last().version,
                        remote: rv,
                    },
                ));
                assert(newer_flags(pa, rel) =~= newer_flags(pf, rel).push(
                    rel(rv, installed.last().version),
                ));
                assert(pa.drop_last() =~= pf);
                assert(newer_flags(pa, rel).drop_last() =~= newer_flags(pf, rel));
                lemma_selected_push(
                    pf,
                    newer_flags(pf, rel),
                    pa.last(),
                    rel(rv, installed.last().version),
                );
                let x = PkgModel { name: installed.last().name, version: rv };
                if rel(rv, installed.last().version) {
                    assert(outdated_model(installed, remote, rel) == outdated_model(
                        front,
                        remote,
                        rel,
                    ).push(x));
                    lemma_has_name_push(outdated_model(front, remote, rel), x, name);
                } else {
                    assert(outdated_model(installed, remote, rel) == outdated_model(
                        front,
                        remote,
                        rel,
                    ));
                }
            },
            None => {
                assert(pa =~= pf);
                assert(newer_flags(pa, rel) =~= newer_flags(pf, rel));
            },
        }
        lemma_exists_split(installed, remote, rel, name);
    }
}

/// A name occurs in a pushed sequence exactly when it occurs in the front
/// or is the pushed entry's name.
proof fn lemma_has_name_push(s: Seq<PkgModel>, x: PkgModel, name: Seq<char>)
    ensures
        has_name(s.push(x), name) <==> (has_name(s, name) || x.name == name),
{
    if has_name(s.push(x), name) {
        let i = choose|i: int| 0 <= i < s.push(x).len() && s.push(x)[i].name == name;
        if i < s.len() {
            assert(s[i].name == name);
        }
    }
    if has_name(s, name) {
        let i = choose|i: int| 0 <= i < s.len() && s[i].name == name;
        assert(s.push(x)[i].name == name);
    }
    if x.name == name {
        assert(s.push(x)[s.len() as int].name == name);
    }
}

/// `selected` over a push appends the pushed pair exactly when its flag is set.
proof fn lemma_selected_push(pairs: Seq<PairModel>, newer: Seq<bool>, p: PairModel, b: bool)
    requires
        newer.len() == pairs.len(),
    ensures
        selected(pairs.push(p), newer.push(b)) == if b {
            selected(pairs, newer).push(PkgModel { name: p.name, version: p.remote })
        } else {
            selected(pairs, newer)
        },
{
    assert(pairs.push(p).drop_last() =~= pairs);
    assert(newer.push(b).drop_last() =~= newer);
}

/// Splits the membership witness over the last installed entry.
proof fn lemma_exists_split(
    installed: Seq<PkgModel>,
    remote: Seq<PkgModel>,
    rel: spec_fn(Seq<char>, Seq<char>) -> bool,
    name: Seq<char>,
)
    requires
        installed.len() > 0,
    ensures
        (exists|i: int|
            0 <= i < installed.len() && installed[i].name == name && (lookup(remote, name)
                matches Some(rv) && rel(rv, installed[i].version))) <==> ((exists|i: int|
            0 <= i < installed.len() - 1 && installed.drop_last()[i].name == name && (lookup(
                remote,
                name,
            ) matches Some(rv) && rel(rv, installed.drop_last()[i].version))) || (
        installed.last().name == name && (lookup(remote, name) matches Some(rv) && rel(
            rv,
            installed.last().version,
        )))),
{
    let front = installed.drop_last();
    assert(forall|i: int| 0 <= i < front.len() ==> front[i] == installed[i]);
    if exists|i: int|
        0 <= i < installed.len() && installed[i].name == name && (lookup(remote, name)
            matches Some(rv) && rel(rv, installed[i].version)) {
        let i = choose|i: int|
            0 <= i < installed.len() && installed[i].name == name && (lookup(remote, name)
                matches Some(rv) && rel(rv, installed[i].version));
        if i < installed.len() - 1 {
            assert(front[i].name == name && (lookup(remote, name) matches Some(rv) && rel(
                rv,
                front[i].version,
            )));
        }
    }
}

} // verus!

//! The asset index builder: flattens the manifest's path lists into a
//! deduplicated sequence (first occurrence kept, in manifest order), keys
//! each path by the id derived from its filename, and resolves one id to
//! its path. On id collision the last-processed path wins; that tie-break
//! is part of this module's contract.

use vstd::prelude::*;

use crate::errors::Error;
use crate::text::str_eq;

verus! {

/// The index of the last occurrence of `c` in `s`.
pub open spec fn last_index_of(s: Seq<char>, c: char) -> Option<int>
    decreases s.len(),
{
    if s.len() == 0 {
        None
    } else if s[s.len() - 1] == c {
        Some(s.len() - 1)
    } else {
        last_index_of(s.take(s.len() - 1), c)
    }
}

/// A found index lies within the text and holds the character.
pub proof fn lemma_last_index_bounds(s: Seq<char>, c: char)
    requires
        last_index_of(s, c) is Some,
    ensures
        0 <= last_index_of(s, c)->Some_0 < s.len(),
        s[last_index_of(s, c)->Some_0] == c,
    decreases s.len(),
{
    if s.len() == 0 {
    } else if s[s.len() - 1] == c {
    } else {
        lemma_last_index_bounds(s.take(s.len() - 1), c);
        assert(s.take(s.len() - 1)[last_index_of(s, c)->Some_0] == s[last_index_of(
            s,
            c,
        )->Some_0]);
    }
}

/// The id a path derives: the text of its final segment (after the last
/// `/`) up to the last `-`. A path without a `/`, or whose final segment
/// has no `-`, is malformed and derives no id.
pub open spec fn asset_id_of(path: Seq<char>) -> Option<Seq<char>> {
    match last_index_of(path, '/') {
        None => None,
        Some(si) => {
            let seg = path.skip(si + 1);
            match last_index_of(seg, '-') {
                None => None,
                Some(di) => Some(seg.take(di)),
            }
        },
    }
}

/// Last occurrence of `c` in `s`.
fn rfind_char(s: &str, c: char) -> (r: Option<usize>)
    ensures
        match r {
            Some(i) => last_index_of(s@, c) == Some(i as int),
            None => last_index_of(s@, c) is None,
        },
{
    let n = s.unicode_len();
    let mut j: usize = n;
    proof {
        assert(s@.take(n as int) =~= s@);
    }
    while j > 0
        invariant
            j <= n,
            n == s@.len(),
            last_index_of(s@, c) == last_index_of(s@.take(j as int), c),
        decreases j,
    {
        proof {
            assert(s@.take(j as int)[j - 1] == s@[j - 1]);
            assert(s@.take(j as int).take(j - 1) =~= s@.take(j - 1));
        }
        if s.get_char(j - 1) == c {
            return Some(j - 1);
        }
        j -= 1;
    }
    proof {
        assert(s@.take(0) =~= Seq::<char>::empty());
    }
    None
}

/// Derives the id of one asset path.
pub fn asset_id(path: &str) -> (r: Option<String>)
    ensures
        match r {
            Some(id) => asset_id_of(path@) == Some(id@),
            None => asset_id_of(path@) is None,
        },
{
    let si = match rfind_char(path, '/') {
        Some(i) => i,
        None => {
            return None;
        },
    };
    proof {
        lemma_last_index_bounds(path@, '/');
    }
    let n = path.unicode_len();
    let seg = path.substring_char(si + 1, n);
    proof {
        assert(seg@ =~= path@.skip(si + 1));
    }
    let di = match rfind_char(seg, '-') {
        Some(i) => i,
        None => {
            return None;
        },
    };
    proof {
        lemma_last_index_bounds(seg@, '-');
        assert(seg@.subrange(0, di as int) =~= path@.skip(si + 1).take(di as int));
    }
    Some(seg.substring_char(0, di).to_owned())
}

/// Appends the not-yet-seen elements of `vals` to `acc`, in order.
pub open spec fn dedup_append(acc: Seq<Seq<char>>, vals: Seq<Seq<char>>) -> Seq<Seq<char>>
    decreases vals.len(),
{
    if vals.len() == 0 {
        acc
    } else {
        dedup_append(
            if acc.contains(vals[0]) {
                acc
            } else {
                acc.push(vals[0])
            },
            vals.skip(1),
        )
    }
}

/// Flattens the manifest's path lists, entry by entry, deduplicating.
pub open spec fn flatten_dedup_from(
    entries: Seq<(Seq<char>, Seq<Seq<char>>)>,
    acc: Seq<Seq<char>>,
) -> Seq<Seq<char>>
    decreases entries.len(),
{
    if entries.len() == 0 {
        acc
    } else {
        flatten_dedup_from(entries.skip(1), dedup_append(acc, entries[0].1))
    }
}

/// The deduplicated flattening of the whole manifest: each path once, at
/// its first occurrence, in manifest order.
pub open spec fn flatten_dedup(m: Seq<(Seq<char>, Seq<Seq<char>>)>) -> Seq<Seq<char>> {
    flatten_dedup_from(m, Seq::empty())
}

/// Whether some element of `v` reads `x`.
fn vec_contains(v: &Vec<String>, x: &str) -> (r: bool)
    ensures
        r == v.deep_view().contains(x@),
{
    let mut i: usize = 0;
    while i < v.len()
        invariant
            i <= v@.len(),
            v.deep_view().len() == v@.len(),
            forall|k: int| 0 <= k < i ==> v.deep_view()[k] != x@,
        decreases v@.len() - i,
    {
        if str_eq(v[i].as_str(), x) {
            proof {
                assert(v.deep_view()[i as int] == x@);
            }
            return true;
        }
        i += 1;
    }
    proof {
        assert(forall|k: int| 0 <= k < v.deep_view().len() ==> v.deep_view()[k] != x@);
    }
    false
}

/// Flattens a manifest into its deduplicated paths.
#[verifier::loop_isolation(false)]
pub fn flatten_paths(manifest: &Vec<(String, Vec<String>)>) -> (r: Vec<String>)
    ensures
        r.deep_view() == flatten_dedup(manifest.deep_view()),
{
    let ghost mv = manifest.deep_view();
    let mut paths: Vec<String> = Vec::new();
    let mut i: usize = 0;
    proof {
        assert(mv.skip(0) =~= mv);
        assert(paths.deep_view() =~= Seq::<Seq<char>>::empty());
    }
    while i < manifest.len()
        invariant
            i <= manifest@.len(),
            flatten_dedup(mv) == flatten_dedup_from(mv.skip(i as int), paths.deep_view()),
        decreases manifest@.len() - i,
    {
        let vals = &manifest[i].1;
        proof {
            assert(mv.skip(i as int)[0] == mv[i as int]);
            assert(mv.skip(i as int).skip(1) =~= mv.skip(i + 1));
            assert(mv[i as int].1 == vals.deep_view());
            assert(vals.deep_view().skip(0) =~= vals.deep_view());
        }
        let mut j: usize = 0;
        let ghost dv0 = paths.deep_view();
        while j < vals.len()
            invariant
                j <= vals@.len(),
                dedup_append(dv0, vals.deep_view()) == dedup_append(
                    paths.deep_view(),
                    vals.deep_view().skip(j as int),
                ),
            decreases vals@.len() - j,
        {
            proof {
                assert(vals.deep_view().skip(j as int)[0] == vals.deep_view()[j as int]);
                assert(vals.deep_view().skip(j as int).skip(1) =~= vals.deep_view().skip(j + 1));
                assert(vals.deep_view()[j as int] == vals@[j as int]@);
            }
            let ghost before = paths.deep_view();
            if !vec_contains(&paths, vals[j].as_str()) {
                paths.push(vals[j].clone());
                proof {
                    assert(paths.deep_view() =~= before.push(vals@[j as int]@));
                }
            }
            j += 1;
        }
        proof {
            assert(vals.deep_view().skip(vals@.len() as int) =~= Seq::<Seq<char>>::empty());
        }
        i += 1;
    }
    proof {
        assert(mv.skip(manifest@.len() as int) =~= Seq::<(Seq<char>, Seq<Seq<char>>)>::empty());
    }
    paths
}

/// Binds `id` to `path`: replaces the binding already in place, keeping
/// its position, or appends a new one.
pub open spec fn index_insert(
    acc: Seq<(Seq<char>, Seq<char>)>,
    id: Seq<char>,
    path: Seq<char>,
) -> Seq<(Seq<char>, Seq<char>)>
    decreases acc.len(),
{
    if acc.len() == 0 {
        seq![(id, path)]
    } else if acc[0].0 == id {
        seq![(id, path)] + acc.skip(1)
    } else {
        seq![acc[0]] + index_insert(acc.skip(1), id, path)
    }
}

/// Builds the index from the remaining paths, deriving each id; a path
/// that derives no id makes the whole index malformed.
pub open spec fn build_index_from(
    paths: Seq<Seq<char>>,
    acc: Seq<(Seq<char>, Seq<char>)>,
) -> Option<Seq<(Seq<char>, Seq<char>)>>
    decreases paths.len(),
{
    if paths.len() == 0 {
        Some(acc)
    } else {
        match asset_id_of(paths[0]) {
            None => None,
            Some(id) => build_index_from(paths.skip(1), index_insert(acc, id, paths[0])),
        }
    }
}

/// The asset index of a manifest: its deduplicated paths, keyed by
/// derived id, later paths overriding earlier ones on collision.
pub open spec fn spec_asset_index(m: Seq<(Seq<char>, Seq<Seq<char>>)>) -> Result<
    Seq<(Seq<char>, Seq<char>)>,
    Error,
> {
    match build_index_from(flatten_dedup(m), Seq::empty()) {
        None => Err(Error::UnexpectedShape),
        Some(ix) => Ok(ix),
    }
}

proof fn lemma_index_insert_found(
    acc: Seq<(Seq<char>, Seq<char>)>,
    id: Seq<char>,
    path: Seq<char>,
    k: int,
)
    requires
        0 <= k < acc.len(),
        acc[k].0 == id,
        forall|j: int| 0 <= j < k ==> acc[j].0 != id,
    ensures
        index_insert(acc, id, path) == acc.update(k, (id, path)),
    decreases acc.len(),
{
    if k == 0 {
        assert(seq![(id, path)] + acc.skip(1) =~= acc.update(0, (id, path)));
    } else {
        assert(acc.skip(1)[k - 1].0 == id);
        assert forall|j: int| 0 <= j < k - 1 implies acc.skip(1)[j].0 != id by {
            assert(acc.skip(1)[j] == acc[j + 1]);
        }
        lemma_index_insert_found(acc.skip(1), id, path, k - 1);
        assert(seq![acc[0]] + acc.skip(1).update(k - 1, (id, path)) =~= acc.update(
            k,
            (id, path),
        ));
    }
}

proof fn lemma_index_insert_absent(acc: Seq<(Seq<char>, Seq<char>)>, id: Seq<char>, path: Seq<char>)
    requires
        forall|j: int| 0 <= j < acc.len() ==> (#[trigger] acc[j]).0 != id,
    ensures
        index_insert(acc, id, path) == acc.push((id, path)),
    decreases acc.len(),
{
    if acc.len() == 0 {
        assert(seq![(id, path)] =~= acc.push((id, path)));
    } else {
        assert forall|j: int| 0 <= j < acc.skip(1).len() implies (#[trigger] acc.skip(1)[j]).0
            != id by {
            assert(acc.skip(1)[j] == acc[j + 1]);
        }
        lemma_index_insert_absent(acc.skip(1), id, path);
        assert(seq![acc[0]] + acc.skip(1).push((id, path)) =~= acc.push((id, path)));
    }
}

/// Binds `id` to `path` in the index, replacing in place or appending.
#[verifier::loop_isolation(false)]
fn index_insert_exec(ix: &mut Vec<(String, String)>, id: String, path: String)
    ensures
        final(ix).deep_view() == index_insert(old(ix).deep_view(), id@, path@),
{
    let mut k: usize = 0;
    while k < ix.len()
        invariant
            k <= ix@.len(),
            *ix == *old(ix),
            forall|j: int| 0 <= j < k ==> (#[trigger] ix.deep_view()[j]).0 != id@,
        decreases ix@.len() - k,
    {
        proof {
            assert(ix.deep_view()[k as int] == (ix@[k as int].0@, ix@[k as int].1@));
        }
        if str_eq(ix[k].0.as_str(), id.as_str()) {
            let ghost before = ix.deep_view();
            ix.remove(k);
            ix.insert(k, (id, path));
            proof {
                lemma_index_insert_found(before, before[k as int].0, path@, k as int);
                assert(ix.deep_view() =~= before.update(k as int, (before[k as int].0, path@)));
            }
            return ;
        }
        k += 1;
    }
    let ghost before = ix.deep_view();
    ix.push((id, path));
    proof {
        lemma_index_insert_absent(before, id@, path@);
        assert(ix.deep_view() =~= before.push((id@, path@)));
    }
}

/// Builds the asset index from a manifest: each deduplicated path keyed by
/// its derived id. On key collision the last-processed path wins; a path
/// that derives no id is malformed.
#[verifier::loop_isolation(false)]
pub fn build_asset_index(manifest: &Vec<(String, Vec<String>)>) -> (r: Result<
    Vec<(String, String)>,
    Error,
>)
    ensures
        match r {
            Ok(ix) => spec_asset_index(manifest.deep_view()) == Ok::<
                Seq<(Seq<char>, Seq<char>)>,
                Error,
            >(ix.deep_view()),
            Err(e) => spec_asset_index(manifest.deep_view()) == Err::<
                Seq<(Seq<char>, Seq<char>)>,
                Error,
            >(e),
        },
{
    let paths = flatten_paths(manifest);
    let ghost pv = paths.deep_view();
    let mut ix: Vec<(String, String)> = Vec::new();
    let mut i: usize = 0;
    proof {
        assert(pv.skip(0) =~= pv);
    }
    while i < paths.len()
        invariant
            i <= paths@.len(),
            build_index_from(pv, Seq::empty()) == build_index_from(
                pv.skip(i as int),
                ix.deep_view(),
            ),
        decreases paths@.len() - i,
    {
        proof {
            assert(pv.skip(i as int)[0] == pv[i as int]);
            assert(pv.skip(i as int).skip(1) =~= pv.skip(i + 1));
            assert(pv[i as int] == paths@[i as int]@);
        }
        let id = match asset_id(paths[i].as_str()) {
            Some(id) => id,
            None => {
                return Err(Error::UnexpectedShape);
            },
        };
        index_insert_exec(&mut ix, id, paths[i].clone());
        i += 1;
    }
    proof {
        assert(pv.skip(paths@.len() as int) =~= Seq::<Seq<char>>::empty());
    }
    Ok(ix)
}

/// The path the index binds `id` to, when any.
pub open spec fn index_lookup(ix: Seq<(Seq<char>, Seq<char>)>, id: Seq<char>) -> Option<Seq<char>>
    decreases ix.len(),
{
    if ix.len() == 0 {
        None
    } else if ix[0].0 == id {
        Some(ix[0].1)
    } else {
        index_lookup(ix.skip(1), id)
    }
}

/// Resolves one target id to its asset path; an absent id is `NotFound`.
pub fn lookup_asset<'a>(index: &'a Vec<(String, String)>, id: &str) -> (r: Result<
    &'a String,
    Error,
>)
    ensures
        match r {
            Ok(p) => index_lookup(index.deep_view(), id@) == Some(p@),
            Err(e) => index_lookup(index.deep_view(), id@) is None && e == Error::NotFound,
        },
{
    let mut i: usize = 0;
    proof {
        assert(index.deep_view().skip(0) =~= index.deep_view());
    }
    while i < index.len()
        invariant
            i <= index@.len(),
            index.deep_view().len() == index@.len(),
            index_lookup(index.deep_view(), id@) == index_lookup(
                index.deep_view().skip(i as int),
                id@,
            ),
        decreases index@.len() - i,
    {
        proof {
            assert(index.deep_view().skip(i as int)[0] == index.deep_view()[i as int]);
            assert(index.deep_view().skip(i as int).skip(1) =~= index.deep_view().skip(i + 1));
            assert(index.deep_view()[i as int] == (index@[i as int].0@, index@[i as int].1@));
        }
        if str_eq(index[i].0.as_str(), id) {
            return Ok(&index[i].1);
        }
        i += 1;
    }
    Err(Error::NotFound)
}

/// No id occurs twice among the index's bindings.
pub open spec fn unique_ids(ix: Seq<(Seq<char>, Seq<char>)>) -> bool {
    forall|i: int, j: int| 0 <= i < j < ix.len() ==> (#[trigger] ix[i]).0 != (#[trigger] ix[j]).0
}

proof fn lemma_index_insert_unique(
    acc: Seq<(Seq<char>, Seq<char>)>,
    id: Seq<char>,
    path: Seq<char>,
)
    requires
        unique_ids(acc),
    ensures
        unique_ids(index_insert(acc, id, path)),
        forall|k: int|
            0 <= k < index_insert(acc, id, path).len() ==> (#[trigger] index_insert(
                acc,
                id,
                path,
            )[k]).0 == id || exists|j: int|
                0 <= j < acc.len() && (#[trigger] acc[j]).0 == index_insert(acc, id, path)[k].0,
    decreases acc.len(),
{
    let res = index_insert(acc, id, path);
    if acc.len() == 0 {
        assert(res[0].0 == id);
    } else if acc[0].0 == id {
        assert forall|i: int, j: int| 0 <= i < j < res.len() implies res[i].0 != res[j].0 by {
            if i == 0 {
                assert(res[j] == acc.skip(1)[j - 1]);
                assert(acc.skip(1)[j - 1] == acc[j]);
            } else {
                assert(res[i] == acc[i]);
                assert(res[j] == acc[j]);
            }
        }
        assert forall|k: int| 0 <= k < res.len() implies res[k].0 == id || exists|j: int|
            0 <= j < acc.len() && (#[trigger] acc[j]).0 == res[k].0 by {
            if k > 0 {
                assert(res[k] == acc[k]);
                assert(acc[k].0 == res[k].0);
            }
        }
    } else {
        lemma_index_insert_unique(acc.skip(1), id, path);
        let rest = index_insert(acc.skip(1), id, path);
        assert forall|k: int| 0 <= k < res.len() implies res[k].0 == id || exists|j: int|
            0 <= j < acc.len() && (#[trigger] acc[j]).0 == res[k].0 by {
            if k == 0 {
                assert(acc[0].0 == res[0].0);
            } else {
                assert(res[k] == rest[k - 1]);
                if rest[k - 1].0 != id {
                    let w = choose|j: int|
                        0 <= j < acc.skip(1).len() && (#[trigger] acc.skip(1)[j]).0 == rest[k
                            - 1].0;
                    assert(acc[w + 1].0 == res[k].0);
                }
            }
        }
        assert forall|i: int, j: int| 0 <= i < j < res.len() implies res[i].0 != res[j].0 by {
            if i == 0 {
                assert(res[j] == rest[j - 1]);
                if rest[j - 1].0 == id {
                    assert(acc[0].0 != id);
                } else {
                    let w = choose|q: int|
                        0 <= q < acc.skip(1).len() && (#[trigger] acc.skip(1)[q]).0 == rest[j
                            - 1].0;
                    assert(acc.skip(1)[w] == acc[w + 1]);
                    assert(acc[0].0 != acc[w + 1].0);
                }
            } else {
                assert(res[i] == rest[i - 1]);
                assert(res[j] == rest[j - 1]);
            }
        }
    }
}

proof fn lemma_build_index_unique(paths: Seq<Seq<char>>, acc: Seq<(Seq<char>, Seq<char>)>)
    requires
        unique_ids(acc),
        build_index_from(paths, acc) is Some,
    ensures
        unique_ids(build_index_from(paths, acc)->Some_0),
    decreases paths.len(),
{
    if paths.len() == 0 {
    } else {
        match asset_id_of(paths[0]) {
            Some(id) => {
                lemma_index_insert_unique(acc, id, paths[0]);
                lemma_build_index_unique(paths.skip(1), index_insert(acc, id, paths[0]));
            },
            None => {},
        }
    }
}

/// The index invariant: a built asset index never binds one id twice —
/// on collision one binding replaces the other in place.
pub proof fn lemma_asset_index_ids_unique(
    m: Seq<(Seq<char>, Seq<Seq<char>>)>,
    ix: Seq<(Seq<char>, Seq<char>)>,
)
    requires
        spec_asset_index(m) == Ok::<Seq<(Seq<char>, Seq<char>)>, Error>(ix),
    ensures
        unique_ids(ix),
{
    assert(unique_ids(Seq::<(Seq<char>, Seq<char>)>::empty()));
    lemma_build_index_unique(flatten_dedup(m), Seq::empty());
}

/// The documented tie-break: when two paths derive the same id, the later
/// one wins — the index built from exactly those two paths binds the id
/// to the second path.
pub proof fn lemma_collision_last_wins(p1: Seq<char>, p2: Seq<char>, id: Seq<char>)
    requires
        asset_id_of(p1) == Some(id),
        asset_id_of(p2) == Some(id),
    ensures
        build_index_from(seq![p1, p2], Seq::empty()) == Some(seq![(id, p2)]),
{
    let two = seq![p1, p2];
    assert(two.skip(1) =~= seq![p2]);
    assert(index_insert(Seq::empty(), id, p1) == seq![(id, p1)]);
    assert(seq![p2].skip(1) =~= Seq::<Seq<char>>::empty());
    assert(index_insert(seq![(id, p1)], id, p2) == seq![(id, p2)] + seq![(id, p1)].skip(1));
    assert(seq![(id, p2)] + seq![(id, p1)].skip(1) =~= seq![(id, p2)]);
    assert(build_index_from(Seq::<Seq<char>>::empty(), seq![(id, p2)]) == Some(seq![(id, p2)]));
    assert(seq![p2][0] == p2);
    assert(build_index_from(seq![p2], seq![(id, p1)]) == Some(seq![(id, p2)]));
}

} // verus!

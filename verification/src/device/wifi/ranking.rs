//! Ordering and deduplication of lists of access points.
use crate::device::wifi::access_point::NetworkDisplayInfo;
use vstd::prelude::*;

verus! {

/// Whether the list runs from the strongest signal to the weakest.
pub open spec fn sorted_by_strength(s: Seq<NetworkDisplayInfo>) -> bool {
    forall|i: int, j: int|
        #![trigger s[i].strength, s[j].strength]
        0 <= i < j < s.len() ==> s[i].strength >= s[j].strength
}

/// Some position of `perm` holds `k`.
pub open spec fn hits(perm: Seq<int>, k: int) -> bool {
    exists|i: int| 0 <= i < perm.len() && #[trigger] perm[i] == k
}

/// `perm` maps each position of `r` to the position in `s` of the same
/// entry, one to one and onto, and entries of equal strength keep the order
/// they had in `s`.
pub open spec fn is_stable_permutation(
    r: Seq<NetworkDisplayInfo>,
    s: Seq<NetworkDisplayInfo>,
    perm: Seq<int>,
) -> bool {
    &&& perm.len() == r.len()
    &&& r.len() == s.len()
    &&& forall|i: int| 0 <= i < perm.len() ==> 0 <= #[trigger] perm[i] < s.len()
    &&& forall|i: int| 0 <= i < perm.len() ==> #[trigger] r[i] == s[perm[i]]
    &&& forall|i: int, j: int|
        #![trigger perm[i], perm[j]]
        0 <= i < j < perm.len() ==> perm[i] != perm[j]
    &&& forall|k: int| 0 <= k < s.len() ==> #[trigger] hits(perm, k)
    &&& forall|i: int, j: int|
        #![trigger r[i], r[j]]
        0 <= i < j < perm.len() && r[i].strength == r[j].strength ==> perm[i] < perm[j]
}

/// `r` is `s` sorted from the strongest signal to the weakest, entries of
/// equal strength in the order they had in `s`.
pub open spec fn stably_sorted_from(r: Seq<NetworkDisplayInfo>, s: Seq<NetworkDisplayInfo>) -> bool {
    &&& sorted_by_strength(r)
    &&& exists|perm: Seq<int>| is_stable_permutation(r, s, perm)
}

/// No two entries of the list share an SSID.
pub open spec fn unique_ssids(s: Seq<NetworkDisplayInfo>) -> bool {
    forall|i: int, j: int|
        #![trigger s[i].ssid, s[j].ssid]
        0 <= i < j < s.len() ==> s[i].ssid@ != s[j].ssid@
}

/// `i` is the first position in `s` of an entry with this SSID.
pub open spec fn is_first_ssid(s: Seq<NetworkDisplayInfo>, i: int, ssid: Seq<char>) -> bool {
    &&& 0 <= i < s.len()
    &&& s[i].ssid@ == ssid
    &&& forall|j: int| 0 <= j < i ==> #[trigger] s[j].ssid@ != ssid
}

/// `i` is the first position in `s` of an entry with this object path.
pub open spec fn is_first_path(s: Seq<NetworkDisplayInfo>, i: int, path: Seq<char>) -> bool {
    &&& 0 <= i < s.len()
    &&& s[i].path@ == path
    &&& forall|j: int| 0 <= j < i ==> #[trigger] s[j].path@ != path
}

/// Adds an access point to a list that keeps one entry per SSID: a network
/// already listed takes the new entry only when its signal is strictly
/// stronger; a new network goes to the end.
pub open spec fn merge_network(s: Seq<NetworkDisplayInfo>, x: NetworkDisplayInfo) -> Seq<
    NetworkDisplayInfo,
> {
    if exists|i: int| is_first_ssid(s, i, x.ssid@) {
        let i = choose|i: int| is_first_ssid(s, i, x.ssid@);
        if x.strength > s[i].strength {
            s.update(i, x)
        } else {
            s
        }
    } else {
        s.push(x)
    }
}

/// The access points of `s` added one by one with `merge_network`.
pub open spec fn keep_strongest(s: Seq<NetworkDisplayInfo>) -> Seq<NetworkDisplayInfo>
    decreases s.len(),
{
    if s.len() == 0 {
        Seq::empty()
    } else {
        merge_network(keep_strongest(s.drop_last()), s.last())
    }
}

pub proof fn lemma_first_ssid_unique(s: Seq<NetworkDisplayInfo>, ssid: Seq<char>, i: int, k: int)
    requires
        is_first_ssid(s, i, ssid),
        is_first_ssid(s, k, ssid),
    ensures
        i == k,
{
    if i < k {
        assert(s[i].ssid@ != ssid);
    } else if k < i {
        assert(s[k].ssid@ != ssid);
    }
}

pub proof fn lemma_first_path_unique(s: Seq<NetworkDisplayInfo>, path: Seq<char>, i: int, k: int)
    requires
        is_first_path(s, i, path),
        is_first_path(s, k, path),
    ensures
        i == k,
{
    if i < k {
        assert(s[i].path@ != path);
    } else if k < i {
        assert(s[k].path@ != path);
    }
}

/// The position of the first entry with this SSID, if any.
pub fn position_of_ssid(list: &Vec<NetworkDisplayInfo>, ssid: &String) -> (r: Option<usize>)
    ensures
        match r {
            Some(i) => is_first_ssid(list@, i as int, ssid@),
            None => forall|j: int| 0 <= j < list@.len() ==> #[trigger] list@[j].ssid@ != ssid@,
        },
{
    let mut i: usize = 0;
    while i < list.len()
        invariant
            i <= list@.len(),
            forall|j: int| 0 <= j < i ==> #[trigger] list@[j].ssid@ != ssid@,
        decreases list@.len() - i,
    {
        if list[i].ssid == *ssid {
            return Some(i);
        }
        i = i + 1;
    }
    None
}

/// The position of the first entry with this object path, if any.
pub fn position_of_path(list: &Vec<NetworkDisplayInfo>, path: &String) -> (r: Option<usize>)
    ensures
        match r {
            Some(i) => is_first_path(list@, i as int, path@),
            None => forall|j: int| 0 <= j < list@.len() ==> #[trigger] list@[j].path@ != path@,
        },
{
    let mut i: usize = 0;
    while i < list.len()
        invariant
            i <= list@.len(),
            forall|j: int| 0 <= j < i ==> #[trigger] list@[j].path@ != path@,
        decreases list@.len() - i,
    {
        if list[i].path == *path {
            return Some(i);
        }
        i = i + 1;
    }
    None
}

/// Adds an access point to a list that keeps one entry per SSID (see `merge_network`).
pub fn merge_into(list: &mut Vec<NetworkDisplayInfo>, x: NetworkDisplayInfo)
    ensures
        final(list)@ == merge_network(old(list)@, x),
{
    match position_of_ssid(list, &x.ssid) {
        Some(i) => {
            proof {
                let c = choose|k: int| is_first_ssid(old(list)@, k, x.ssid@);
                lemma_first_ssid_unique(old(list)@, x.ssid@, i as int, c);
            }
            if x.strength > list[i].strength {
                list[i] = x;
            }
        },
        None => {
            list.push(x);
        },
    }
}

/// One entry per SSID: the access points of `v` merged in order (see `keep_strongest`).
pub fn strongest_per_ssid(v: Vec<NetworkDisplayInfo>) -> (r: Vec<NetworkDisplayInfo>)
    ensures
        r@ == keep_strongest(v@),
{
    let ghost orig = v@;
    let mut rest = v;
    let mut r: Vec<NetworkDisplayInfo> = Vec::new();
    let n = rest.len();
    let mut i: usize = 0;
    assert(orig.take(0) =~= Seq::<NetworkDisplayInfo>::empty());
    while i < n
        invariant
            n == orig.len(),
            i <= n,
            rest@ == orig.skip(i as int),
            r@ == keep_strongest(orig.take(i as int)),
        decreases n - i,
    {
        let x = rest.remove(0);
        assert(orig.take(i + 1).drop_last() =~= orig.take(i as int));
        assert(x == orig[i as int]);
        merge_into(&mut r, x);
        assert(rest@ =~= orig.skip(i + 1));
        i = i + 1;
    }
    assert(orig.take(n as int) =~= orig);
    r
}

/// Sorts the list from the strongest signal to the weakest; entries of
/// equal strength keep their order.
pub fn sort_by_strength(v: Vec<NetworkDisplayInfo>) -> (r: Vec<NetworkDisplayInfo>)
    ensures
        stably_sorted_from(r@, v@),
{
    let ghost orig = v@;
    let mut rest = v;
    let mut r: Vec<NetworkDisplayInfo> = Vec::new();
    let ghost mut perm: Seq<int> = Seq::empty();
    let n = rest.len();
    let mut i: usize = 0;
    assert(is_stable_permutation(r@, orig.take(0), perm));
    while i < n
        invariant
            n == orig.len(),
            i <= n,
            rest@ == orig.skip(i as int),
            sorted_by_strength(r@),
            is_stable_permutation(r@, orig.take(i as int), perm),
        decreases n - i,
    {
        let x = rest.remove(0);
        assert(x == orig[i as int]);
        let mut p: usize = 0;
        while p < r.len() && r[p].strength >= x.strength
            invariant
                p <= r@.len(),
                forall|q: int| 0 <= q < p ==> #[trigger] r@[q].strength >= x.strength,
            decreases r@.len() - p,
        {
            p = p + 1;
        }
        let ghost old_r = r@;
        let ghost old_perm = perm;
        r.insert(p, x);
        proof {
            perm = old_perm.insert(p as int, i as int);
            let s_old = orig.take(i as int);
            let s_new = orig.take(i + 1);
            assert forall|q: int| p <= q < old_r.len() implies #[trigger] old_r[q].strength
                < x.strength by {
                assert(old_r[p as int].strength < x.strength);
                if q > p {
                    assert(old_r[p as int].strength >= old_r[q].strength);
                }
            }
            assert(r@ =~= old_r.insert(p as int, x));
            // position maps
            assert forall|q: int| 0 <= q < perm.len() implies 0 <= #[trigger] perm[q] < s_new.len()
                && r@[q] == s_new[perm[q]] by {
                if q < p {
                    assert(perm[q] == old_perm[q]);
                    assert(r@[q] == old_r[q]);
                } else if q == p {
                } else {
                    assert(perm[q] == old_perm[q - 1]);
                    assert(r@[q] == old_r[q - 1]);
                }
            }
            assert forall|a: int, b: int| 0 <= a < b < perm.len() implies #[trigger] perm[a]
                != #[trigger] perm[b] by {
                if a != p && b != p {
                    let a0 = if a < p { a } else { a - 1 };
                    let b0 = if b < p { b } else { b - 1 };
                    assert(old_perm[a0] != old_perm[b0]);
                } else if a == p {
                    let b0 = b - 1;
                    assert(0 <= old_perm[b0] < s_old.len());
                } else {
                    assert(0 <= old_perm[a] < s_old.len());
                }
            }
            assert forall|k: int| 0 <= k < s_new.len() implies #[trigger] hits(perm, k) by {
                if k == i {
                    assert(perm[p as int] == k);
                } else {
                    assert(hits(old_perm, k));
                    let q0 = choose|q: int| 0 <= q < old_perm.len() && #[trigger] old_perm[q] == k;
                    if q0 < p {
                        assert(perm[q0] == k);
                    } else {
                        assert(perm[q0 + 1] == k);
                    }
                }
            }
            assert forall|a: int, b: int|
                0 <= a < b < perm.len() && #[trigger] r@[a].strength == #[trigger] r@[b].strength
                implies perm[a] < perm[b] by {
                if a != p && b != p {
                    let a0 = if a < p { a } else { a - 1 };
                    let b0 = if b < p { b } else { b - 1 };
                    assert(r@[a] == old_r[a0]);
                    assert(r@[b] == old_r[b0]);
                    assert(old_perm[a0] < old_perm[b0]);
                } else if a == p {
                    assert(r@[b] == old_r[b - 1]);
                    assert(old_r[b - 1].strength < x.strength);
                } else {
                    assert(0 <= old_perm[a] < s_old.len());
                }
            }
            assert(is_stable_permutation(r@, s_new, perm));
            assert forall|a: int, b: int| 0 <= a < b < r@.len() implies #[trigger] r@[a].strength
                >= #[trigger] r@[b].strength by {
                if a != p && b != p {
                    let a0 = if a < p { a } else { a - 1 };
                    let b0 = if b < p { b } else { b - 1 };
                    assert(r@[a] == old_r[a0]);
                    assert(r@[b] == old_r[b0]);
                } else if a == p {
                    assert(r@[b] == old_r[b - 1]);
                } else {
                    assert(r@[a] == old_r[a]);
                }
            }
        }
        assert(rest@ =~= orig.skip(i + 1));
        i = i + 1;
    }
    assert(orig.take(n as int) =~= orig);
    r
}


/// Some entry of `s` has the SSID of `x` and a signal at least as strong.
pub open spec fn represented(s: Seq<NetworkDisplayInfo>, x: NetworkDisplayInfo) -> bool {
    exists|i: int| 0 <= i < s.len() && #[trigger] s[i].ssid@ == x.ssid@ && s[i].strength >= x.strength
}

proof fn lemma_first_ssid_exists(s: Seq<NetworkDisplayInfo>, ssid: Seq<char>, j: int)
    requires
        0 <= j < s.len(),
        s[j].ssid@ == ssid,
    ensures
        exists|i: int| is_first_ssid(s, i, ssid),
    decreases j,
{
    if forall|l: int| 0 <= l < j ==> #[trigger] s[l].ssid@ != ssid {
        assert(is_first_ssid(s, j, ssid));
    } else {
        let l = choose|l: int| 0 <= l < j && #[trigger] s[l].ssid@ == ssid;
        lemma_first_ssid_exists(s, ssid, l);
    }
}

/// Merging keeps one entry per SSID, takes its entries from the list and the
/// new access point, keeps every listed network at least as strong, and
/// lists the new network at least as strong as the new access point.
proof fn lemma_merge_network(b: Seq<NetworkDisplayInfo>, x: NetworkDisplayInfo)
    requires
        unique_ssids(b),
    ensures
        unique_ssids(merge_network(b, x)),
        forall|i: int|
            0 <= i < merge_network(b, x).len() ==> #[trigger] merge_network(b, x)[i] == x
                || b.contains(merge_network(b, x)[i]),
        forall|k: int| 0 <= k < b.len() ==> represented(merge_network(b, x), #[trigger] b[k]),
        represented(merge_network(b, x), x),
{
    let m = merge_network(b, x);
    if exists|i: int| is_first_ssid(b, i, x.ssid@) {
        let i = choose|i: int| is_first_ssid(b, i, x.ssid@);
        if x.strength > b[i].strength {
            assert(m == b.update(i, x));
            assert forall|a: int, c: int| 0 <= a < c < m.len() implies #[trigger] m[a].ssid@
                != #[trigger] m[c].ssid@ by {
                assert(b[a].ssid@ != b[c].ssid@);
            }
            assert forall|a: int| 0 <= a < m.len() implies #[trigger] m[a] == x || b.contains(m[a]) by {
                if a != i {
                    assert(m[a] == b[a]);
                }
            }
            assert forall|k: int| 0 <= k < b.len() implies represented(m, #[trigger] b[k]) by {
                if k == i {
                    assert(m[i].ssid@ == b[k].ssid@);
                } else {
                    assert(m[k] == b[k]);
                }
            }
            assert(m[i].ssid@ == x.ssid@);
        } else {
            assert forall|a: int| 0 <= a < m.len() implies #[trigger] m[a] == x || b.contains(m[a]) by {
                assert(m[a] == b[a]);
            }
            assert forall|k: int| 0 <= k < b.len() implies represented(m, #[trigger] b[k]) by {
                assert(m[k] == b[k]);
            }
            assert(m[i].ssid@ == x.ssid@);
        }
    } else {
        assert(m == b.push(x));
        assert forall|j: int| 0 <= j < b.len() implies #[trigger] b[j].ssid@ != x.ssid@ by {
            if b[j].ssid@ == x.ssid@ {
                lemma_first_ssid_exists(b, x.ssid@, j);
            }
        }
        assert forall|a: int, c: int| 0 <= a < c < m.len() implies #[trigger] m[a].ssid@
            != #[trigger] m[c].ssid@ by {
            if c == b.len() {
                assert(b[a].ssid@ != x.ssid@);
            } else {
                assert(b[a].ssid@ != b[c].ssid@);
            }
        }
        assert forall|a: int| 0 <= a < m.len() implies #[trigger] m[a] == x || b.contains(m[a]) by {
            if a < b.len() {
                assert(m[a] == b[a]);
            }
        }
        assert forall|k: int| 0 <= k < b.len() implies represented(m, #[trigger] b[k]) by {
            assert(m[k] == b[k]);
        }
        assert(m[b.len() as int] == x);
    }
}

/// Merging the access points one by one leaves one entry per SSID, each
/// entry one of the access points, and each access point's network listed
/// at least as strong as it.
pub proof fn lemma_keep_strongest(s: Seq<NetworkDisplayInfo>)
    ensures
        unique_ssids(keep_strongest(s)),
        forall|i: int|
            0 <= i < keep_strongest(s).len() ==> s.contains(#[trigger] keep_strongest(s)[i]),
        forall|k: int| 0 <= k < s.len() ==> represented(keep_strongest(s), #[trigger] s[k]),
    decreases s.len(),
{
    if s.len() > 0 {
        let d = s.drop_last();
        let x = s.last();
        lemma_keep_strongest(d);
        let b = keep_strongest(d);
        let m = keep_strongest(s);
        assert(m == merge_network(b, x));
        lemma_merge_network(b, x);
        assert forall|i: int| 0 <= i < m.len() implies s.contains(#[trigger] m[i]) by {
            if m[i] == x {
                assert(s[s.len() - 1] == x);
            } else {
                assert(b.contains(m[i]));
                let k = choose|k: int| 0 <= k < b.len() && b[k] == m[i];
                assert(d.contains(b[k]));
                let l = choose|l: int| 0 <= l < d.len() && d[l] == b[k];
                assert(s[l] == d[l]);
            }
        }
        assert forall|k: int| 0 <= k < s.len() implies represented(m, #[trigger] s[k]) by {
            if k == s.len() - 1 {
            } else {
                assert(s[k] == d[k]);
                assert(represented(b, d[k]));
                let j = choose|j: int| 0 <= j < b.len() && #[trigger] b[j].ssid@ == d[k].ssid@
                    && b[j].strength >= d[k].strength;
                assert(represented(m, b[j]));
                let q = choose|q: int| 0 <= q < m.len() && #[trigger] m[q].ssid@ == b[j].ssid@
                    && m[q].strength >= b[j].strength;
                assert(m[q].ssid@ == s[k].ssid@);
            }
        }
    }
}

/// A stable sort moves entries without adding, losing or changing any: the
/// sorted list has one entry per SSID when the list had, holds exactly the
/// entries of the list, and lists every network the list listed at least
/// as strong.
pub proof fn lemma_stable_sort_keeps_entries(r: Seq<NetworkDisplayInfo>, s: Seq<NetworkDisplayInfo>)
    requires
        stably_sorted_from(r, s),
    ensures
        unique_ssids(s) ==> unique_ssids(r),
        forall|i: int| 0 <= i < r.len() ==> s.contains(#[trigger] r[i]),
        forall|k: int| 0 <= k < s.len() ==> r.contains(#[trigger] s[k]),
        forall|x: NetworkDisplayInfo| represented(s, x) ==> #[trigger] represented(r, x),
{
    let perm = choose|perm: Seq<int>| is_stable_permutation(r, s, perm);
    assert forall|i: int| 0 <= i < r.len() implies s.contains(#[trigger] r[i]) by {
        assert(r[i] == s[perm[i]]);
    }
    assert forall|k: int| 0 <= k < s.len() implies r.contains(#[trigger] s[k]) by {
        assert(hits(perm, k));
        let i = choose|i: int| 0 <= i < perm.len() && #[trigger] perm[i] == k;
        assert(r[i] == s[k]);
    }
    if unique_ssids(s) {
        assert forall|a: int, c: int| 0 <= a < c < r.len() implies #[trigger] r[a].ssid@
            != #[trigger] r[c].ssid@ by {
            assert(r[a] == s[perm[a]]);
            assert(r[c] == s[perm[c]]);
            assert(perm[a] != perm[c]);
            if perm[a] < perm[c] {
                assert(s[perm[a]].ssid@ != s[perm[c]].ssid@);
            } else {
                assert(s[perm[c]].ssid@ != s[perm[a]].ssid@);
            }
        }
    }
    assert forall|x: NetworkDisplayInfo| represented(s, x) implies #[trigger] represented(r, x) by {
        let k = choose|k: int| 0 <= k < s.len() && #[trigger] s[k].ssid@ == x.ssid@ && s[k].strength
            >= x.strength;
        assert(hits(perm, k));
        let i = choose|i: int| 0 <= i < perm.len() && #[trigger] perm[i] == k;
        assert(r[i] == s[k]);
        assert(r[i].ssid@ == x.ssid@);
    }
}

/// After a stable sort by strength the first entry is at least as strong as
/// every entry of the list that was sorted, and the last at most as strong.
pub proof fn lemma_sorted_strongest_first(r: Seq<NetworkDisplayInfo>, s: Seq<NetworkDisplayInfo>)
    requires
        stably_sorted_from(r, s),
        r.len() > 0,
    ensures
        forall|k: int| 0 <= k < s.len() ==> r[0].strength >= #[trigger] s[k].strength,
        forall|k: int| 0 <= k < s.len() ==> r[r.len() - 1].strength <= #[trigger] s[k].strength,
{
    lemma_stable_sort_keeps_entries(r, s);
    assert forall|k: int| 0 <= k < s.len() implies r[0].strength >= #[trigger] s[k].strength
        && r[r.len() - 1].strength <= s[k].strength by {
        assert(r.contains(s[k]));
        let i = choose|i: int| 0 <= i < r.len() && r[i] == s[k];
        if i > 0 {
            assert(r[0].strength >= r[i].strength);
        }
        if i < r.len() - 1 {
            assert(r[i].strength >= r[r.len() - 1].strength);
        }
    }
}

/// A list of access points reduced to one entry per SSID, the entry with the
/// strongest signal (the first seen among equally strong ones), sorted from
/// the strongest signal to the weakest.
pub fn select_best_networks(infos: Vec<NetworkDisplayInfo>) -> (r: Vec<NetworkDisplayInfo>)
    ensures
        stably_sorted_from(r@, keep_strongest(infos@)),
        sorted_by_strength(r@),
        unique_ssids(r@),
        forall|i: int| 0 <= i < r@.len() ==> infos@.contains(#[trigger] r@[i]),
        forall|k: int| 0 <= k < infos@.len() ==> represented(r@, #[trigger] infos@[k]),
{
    let ghost s = infos@;
    let best = strongest_per_ssid(infos);
    let r = sort_by_strength(best);
    proof {
        lemma_keep_strongest(s);
        lemma_stable_sort_keeps_entries(r@, keep_strongest(s));
        assert forall|k: int| 0 <= k < s.len() implies represented(r@, #[trigger] s[k]) by {
            assert(represented(keep_strongest(s), s[k]));
        }
        assert forall|i: int| 0 <= i < r@.len() implies s.contains(#[trigger] r@[i]) by {
            assert(keep_strongest(s).contains(r@[i]));
            let j = choose|j: int| 0 <= j < keep_strongest(s).len() && keep_strongest(s)[j] == r@[i];
            assert(s.contains(keep_strongest(s)[j]));
        }
    }
    r
}

/// Adding an access point to a list with one entry per SSID, then sorting,
/// leaves one entry per SSID; the new access point's network, and every
/// network listed before, is listed at least as strong as it was; and every
/// entry is the new access point or an entry listed before.
pub proof fn lemma_added_keeps_one_entry_per_ssid(
    before: Seq<NetworkDisplayInfo>,
    x: NetworkDisplayInfo,
    after: Seq<NetworkDisplayInfo>,
)
    requires
        unique_ssids(before),
        stably_sorted_from(after, merge_network(before, x)),
    ensures
        unique_ssids(after),
        represented(after, x),
        forall|k: int| 0 <= k < before.len() ==> represented(after, #[trigger] before[k]),
        forall|i: int| 0 <= i < after.len() ==> #[trigger] after[i] == x || before.contains(after[i]),
{
    let m = merge_network(before, x);
    lemma_merge_network(before, x);
    lemma_stable_sort_keeps_entries(after, m);
    assert forall|k: int| 0 <= k < before.len() implies represented(after, #[trigger] before[k]) by {
        assert(represented(m, before[k]));
    }
    assert forall|i: int| 0 <= i < after.len() implies #[trigger] after[i] == x || before.contains(
        after[i],
    ) by {
        assert(m.contains(after[i]));
        let j = choose|j: int| 0 <= j < m.len() && m[j] == after[i];
        assert(m[j] == x || before.contains(m[j]));
    }
}

} // verus!

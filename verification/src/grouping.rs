//! Grouping positions by a text key, in key order: the ordered maps of the
//! report and of the budget tree.
use vstd::prelude::*;

use crate::text::chars_of;

verus! {

/// `a` sorts before `b`: the order of `String` (by characters, which is
/// the order of their UTF-8 bytes).
pub open spec fn text_lt(a: Seq<char>, b: Seq<char>) -> bool {
    exists|k: int|
        0 <= k <= a.len() && k <= b.len() && a.take(k) == b.take(k) && (#[trigger] prefix_split(
            a,
            b,
            k,
        ))
}

/// At `k` the texts part: `a` ends there and `b` goes on, or `a` has the
/// smaller character there.
pub open spec fn prefix_split(a: Seq<char>, b: Seq<char>, k: int) -> bool {
    (k == a.len() && k < b.len()) || (k < a.len() && k < b.len() && a[k] < b[k])
}

/// One group: a key and the positions that carry it, in increasing order.
pub struct KeyGroup {
    pub key: String,
    pub members: Vec<usize>,
}

/// The groups partition `0..keys.len()` by key: keys strictly increase,
/// each group is non-empty with strictly increasing members that carry its
/// key, and every position is in a group.
pub open spec fn grouped(keys: Seq<Seq<char>>, groups: Seq<KeyGroup>) -> bool {
    &&& forall|a: int, b: int|
        0 <= a < b < groups.len() ==> text_lt(#[trigger] groups[a].key@, #[trigger] groups[b].key@)
    &&& forall|g: int|
        0 <= g < groups.len() ==> (#[trigger] groups[g]).members@.len() > 0
    &&& forall|g: int, x: int, y: int|
        0 <= g < groups.len() && 0 <= x < y < groups[g].members@.len() ==> (#[trigger] groups[g].members@[x])
            < #[trigger] groups[g].members@[y]
    &&& forall|g: int, x: int|
        0 <= g < groups.len() && 0 <= x < groups[g].members@.len() ==> {
            let m = #[trigger] groups[g].members@[x];
            0 <= m < keys.len() && keys[m as int] == groups[g].key@
        }
    &&& forall|i: int| 0 <= i < keys.len() ==> #[trigger] in_some_group(groups, i)
}

/// Position `i` is a member of some group.
pub open spec fn in_some_group(groups: Seq<KeyGroup>, i: int) -> bool {
    exists|g: int, x: int|
        0 <= g < groups.len() && 0 <= x < groups[g].members@.len() && #[trigger] groups[g].members@[x]
            == i as usize
}

/// The texts of the keys.
pub open spec fn key_texts(keys: Seq<String>) -> Seq<Seq<char>> {
    keys.map_values(|k: String| k@)
}

proof fn lemma_lt_irreflexive(a: Seq<char>)
    ensures
        !text_lt(a, a),
{
    if text_lt(a, a) {
        let k = choose|k: int|
            0 <= k <= a.len() && k <= a.len() && a.take(k) == a.take(k) && (#[trigger] prefix_split(
                a,
                a,
                k,
            ));
    }
}

proof fn lemma_lt_transitive(a: Seq<char>, b: Seq<char>, c: Seq<char>)
    requires
        text_lt(a, b),
        text_lt(b, c),
    ensures
        text_lt(a, c),
{
    let k1 = choose|k: int|
        0 <= k <= a.len() && k <= b.len() && a.take(k) == b.take(k) && (#[trigger] prefix_split(
            a,
            b,
            k,
        ));
    let k2 = choose|k: int|
        0 <= k <= b.len() && k <= c.len() && b.take(k) == c.take(k) && (#[trigger] prefix_split(
            b,
            c,
            k,
        ));
    let k = if k1 < k2 {
        k1
    } else {
        k2
    };
    assert(a.take(k) =~= c.take(k)) by {
        assert forall|j: int| 0 <= j < k implies a.take(k)[j] == c.take(k)[j] by {
            assert(a.take(k1)[j] == b.take(k1)[j]);
            assert(b.take(k2)[j] == c.take(k2)[j]);
        }
    }
    if k1 < k2 {
        if k1 < a.len() {
            assert(b.take(k2)[k1] == c.take(k2)[k1]);
        }
        assert(prefix_split(a, c, k));
    } else if k2 < k1 {
        assert(a.take(k1)[k2] == b.take(k1)[k2]);
        assert(prefix_split(a, c, k));
    } else {
        assert(prefix_split(a, c, k));
    }
}

/// Compares two texts in `String` order: -1, 0 or 1.
pub fn text_order(a: &[char], b: &[char]) -> (r: i8)
    ensures
        r == -1 <==> text_lt(a@, b@),
        r == 0 <==> a@ == b@,
        r == 1 <==> text_lt(b@, a@),
        r == -1 || r == 0 || r == 1,
{
    let mut k: usize = 0;
    while k < a.len() && k < b.len() && a[k] == b[k]
        invariant
            k <= a.len(),
            k <= b.len(),
            a@.take(k as int) == b@.take(k as int),
        decreases a.len() - k,
    {
        assert(a@.take(k + 1) =~= a@.take(k as int).push(a@[k as int]));
        assert(b@.take(k + 1) =~= b@.take(k as int).push(b@[k as int]));
        k += 1;
    }
    proof {
        lemma_lt_irreflexive(a@);
        lemma_lt_irreflexive(b@);
    }
    if k < a.len() && k < b.len() {
        if a[k] < b[k] {
            assert(prefix_split(a@, b@, k as int));
            proof {
                if text_lt(b@, a@) {
                    lemma_lt_transitive(a@, b@, a@);
                }
            }
            -1
        } else {
            assert(a@[k as int] != b@[k as int]);
            assert(prefix_split(b@, a@, k as int));
            proof {
                if text_lt(a@, b@) {
                    lemma_lt_transitive(a@, b@, a@);
                }
                if a@ == b@ {
                    assert(a@[k as int] == b@[k as int]);
                }
            }
            1
        }
    } else if k == a.len() && k == b.len() {
        assert(a@ =~= a@.take(k as int));
        assert(b@ =~= b@.take(k as int));
        0
    } else if k == a.len() {
        assert(a@.take(k as int) =~= a@);
        assert(prefix_split(a@, b@, k as int));
        proof {
            if text_lt(b@, a@) {
                lemma_lt_transitive(a@, b@, a@);
            }
        }
        -1
    } else {
        assert(b@.take(k as int) =~= b@);
        assert(prefix_split(b@, a@, k as int));
        proof {
            if text_lt(a@, b@) {
                lemma_lt_transitive(a@, b@, a@);
            }
        }
        1
    }
}

/// Groups the positions `0..keys.len()` by key, in increasing key order.
pub fn group_by_keys(keys: &[String]) -> (r: Vec<KeyGroup>)
    ensures
        grouped(key_texts(keys@), r@),
{
    let ghost ks = key_texts(keys@);
    let mut groups: Vec<KeyGroup> = Vec::new();
    let mut i: usize = 0;
    while i < keys.len()
        invariant
            i <= keys.len(),
            ks == key_texts(keys@),
            grouped(ks.take(i as int), groups@),
            forall|g: int, x: int|
                0 <= g < groups@.len() && 0 <= x < groups@[g].members@.len() ==> (#[trigger] groups@[g].members@[x])
                    < i,
        decreases keys.len() - i,
    {
        let key = chars_of(keys[i].as_str());
        assert(ks[i as int] == key@);
        let mut j: usize = 0;
        let mut c: i8 = -1;
        while j < groups.len()
            invariant
                j <= groups@.len(),
                forall|g: int| 0 <= g < j ==> text_lt(#[trigger] groups@[g].key@, key@),
            ensures
                j <= groups@.len(),
                forall|g: int| 0 <= g < j ==> text_lt(#[trigger] groups@[g].key@, key@),
                j < groups@.len() ==> !text_lt(groups@[j as int].key@, key@),
            decreases groups@.len() - j,
        {
            let gk = chars_of(groups[j].key.as_str());
            c = text_order(gk.as_slice(), key.as_slice());
            if c == -1 {
                j += 1;
            } else {
                break;
            }
        }
        let mut found = false;
        if j < groups.len() {
            let gk = chars_of(groups[j].key.as_str());
            let c2 = text_order(gk.as_slice(), key.as_slice());
            found = c2 == 0;
            assert(!found ==> text_lt(key@, groups@[j as int].key@));
            assert(found ==> groups@[j as int].key@ == key@);
        }
        let ghost before = groups@;
        let ghost prev_keys = ks.take(i as int);
        assert(ks.take(i + 1) =~= prev_keys.push(key@));
        if found {
            let mut g = groups.remove(j);
            let ghost old_members = g.members@;
            g.members.push(i);
            groups.insert(j, g);
            assert(groups@ =~= before.update(j as int, g));
            proof {
                assert(g.key@ == before[j as int].key@);
                assert forall|a: int, b: int| 0 <= a < b < groups@.len() implies text_lt(
                    #[trigger] groups@[a].key@,
                    #[trigger] groups@[b].key@,
                ) by {
                    assert(groups@[a].key@ == before[a].key@);
                    assert(groups@[b].key@ == before[b].key@);
                }
                assert forall|gg: int, x: int, y: int|
                    0 <= gg < groups@.len() && 0 <= x < y < groups@[gg].members@.len() implies (#[trigger] groups@[gg].members@[x])
                        < #[trigger] groups@[gg].members@[y] by {
                    if gg == j {
                        if y < old_members.len() {
                            assert(groups@[gg].members@[x] == before[gg].members@[x]);
                            assert(groups@[gg].members@[y] == before[gg].members@[y]);
                        } else {
                            assert(groups@[gg].members@[x] == before[gg].members@[x]);
                        }
                    }
                }
                assert forall|gg: int, x: int|
                    0 <= gg < groups@.len() && 0 <= x < groups@[gg].members@.len() implies {
                        let m = #[trigger] groups@[gg].members@[x];
                        0 <= m < ks.take(i + 1).len() && ks.take(i + 1)[m as int] == groups@[gg].key@
                    } by {
                    if gg == j && x == old_members.len() {
                        assert(groups@[gg].members@[x] == i);
                        assert(ks.take(i + 1)[i as int] == ks[i as int]);
                    } else {
                        assert(groups@[gg].members@[x] == before[gg].members@[x]);
                        let m = before[gg].members@[x];
                        assert(prev_keys[m as int] == before[gg].key@);
                    }
                }
                assert forall|p: int| 0 <= p < ks.take(i + 1).len() implies #[trigger] in_some_group(groups@, p) by {
                    if p == i {
                        assert(groups@[j as int].members@[old_members.len() as int] == i);
                    } else {
                        assert(in_some_group(before, p));
                        let (gg, x) = choose|gg: int, x: int|
                            0 <= gg < before.len() && 0 <= x < before[gg].members@.len()
                                && #[trigger] before[gg].members@[x] == p as usize;
                        assert(groups@[gg].members@[x] == before[gg].members@[x]);
                    }
                }
            }
        } else {
            let mut members: Vec<usize> = Vec::new();
            members.push(i);
            let g = KeyGroup { key: keys[i].clone(), members };
            groups.insert(j, g);
            assert(groups@ =~= before.insert(j as int, g));
            proof {
                assert forall|b: int| j <= b < before.len() implies text_lt(
                    key@,
                    #[trigger] before[b].key@,
                ) by {
                    if b == j {
                    } else {
                        lemma_lt_transitive(key@, before[j as int].key@, before[b].key@);
                    }
                }
                assert forall|a: int, b: int| 0 <= a < b < groups@.len() implies text_lt(
                    #[trigger] groups@[a].key@,
                    #[trigger] groups@[b].key@,
                ) by {
                    if a < j && b < j {
                        assert(groups@[a] == before[a]);
                        assert(groups@[b] == before[b]);
                    } else if a < j && b == j {
                        assert(groups@[a] == before[a]);
                    } else if a < j {
                        assert(groups@[a] == before[a]);
                        assert(groups@[b] == before[b - 1]);
                    } else if a == j {
                        assert(groups@[b] == before[b - 1]);
                    } else {
                        assert(groups@[a] == before[a - 1]);
                        assert(groups@[b] == before[b - 1]);
                    }
                }
                assert forall|gg: int, x: int, y: int|
                    0 <= gg < groups@.len() && 0 <= x < y < groups@[gg].members@.len() implies (#[trigger] groups@[gg].members@[x])
                        < #[trigger] groups@[gg].members@[y] by {
                    if gg < j {
                        assert(groups@[gg] == before[gg]);
                    } else if gg > j {
                        assert(groups@[gg] == before[gg - 1]);
                    }
                }
                assert forall|gg: int, x: int|
                    0 <= gg < groups@.len() && 0 <= x < groups@[gg].members@.len() implies {
                        let m = #[trigger] groups@[gg].members@[x];
                        0 <= m < ks.take(i + 1).len() && ks.take(i + 1)[m as int] == groups@[gg].key@
                    } by {
                    if gg < j {
                        assert(groups@[gg] == before[gg]);
                        let m = before[gg].members@[x];
                        assert(prev_keys[m as int] == before[gg].key@);
                    } else if gg > j {
                        assert(groups@[gg] == before[gg - 1]);
                        let m = before[gg - 1].members@[x];
                        assert(prev_keys[m as int] == before[gg - 1].key@);
                    } else {
                        assert(groups@[gg].key@ == keys@[i as int]@);
                    }
                }
                assert forall|p: int| 0 <= p < ks.take(i + 1).len() implies #[trigger] in_some_group(groups@, p) by {
                    if p == i {
                        assert(groups@[j as int].members@[0] == i);
                    } else {
                        assert(in_some_group(before, p));
                        let (gg, x) = choose|gg: int, x: int|
                            0 <= gg < before.len() && 0 <= x < before[gg].members@.len()
                                && #[trigger] before[gg].members@[x] == p as usize;
                        if gg < j {
                            assert(groups@[gg] == before[gg]);
                            assert(groups@[gg].members@[x] == p as usize);
                        } else {
                            assert(groups@[gg + 1] == before[gg]);
                            assert(groups@[gg + 1].members@[x] == p as usize);
                        }
                    }
                }
                assert forall|gg: int| 0 <= gg < groups@.len() implies (#[trigger] groups@[gg]).members@.len() > 0 by {
                    if gg < j {
                        assert(groups@[gg] == before[gg]);
                    } else if gg > j {
                        assert(groups@[gg] == before[gg - 1]);
                    }
                }
            }
        }
        proof {
            assert forall|gg: int, x: int|
                0 <= gg < groups@.len() && 0 <= x < groups@[gg].members@.len() implies (#[trigger] groups@[gg].members@[x])
                    < i + 1 by {
                let m = groups@[gg].members@[x];
                assert(0 <= m < ks.take(i + 1).len());
            }
        }
        i += 1;
    }
    assert(ks.take(keys.len() as int) =~= ks);
    groups
}


/// Two group lists with the same keys and members.
pub open spec fn same_groups(a: Seq<KeyGroup>, b: Seq<KeyGroup>) -> bool {
    &&& a.len() == b.len()
    &&& forall|g: int| 0 <= g < a.len() ==> (#[trigger] a[g]).key@ == b[g].key@ && a[g].members@ == b[g].members@
}

/// Grouping depends on keys and members only.
pub proof fn lemma_same_groups(keys: Seq<Seq<char>>, a: Seq<KeyGroup>, b: Seq<KeyGroup>)
    requires
        grouped(keys, a),
        same_groups(a, b),
    ensures
        grouped(keys, b),
{
    assert forall|x: int, y: int| 0 <= x < y < b.len() implies text_lt(
        #[trigger] b[x].key@,
        #[trigger] b[y].key@,
    ) by {
        assert(a[x].key@ == b[x].key@);
        assert(a[y].key@ == b[y].key@);
    }
    assert forall|g: int| 0 <= g < b.len() implies (#[trigger] b[g]).members@.len() > 0 by {
        assert(a[g].members@ == b[g].members@);
    }
    assert forall|g: int, x: int, y: int|
        0 <= g < b.len() && 0 <= x < y < b[g].members@.len() implies (#[trigger] b[g].members@[x])
            < #[trigger] b[g].members@[y] by {
        assert(a[g].members@ == b[g].members@);
        assert(a[g].members@[x] < a[g].members@[y]);
    }
    assert forall|g: int, x: int| 0 <= g < b.len() && 0 <= x < b[g].members@.len() implies {
        let m = #[trigger] b[g].members@[x];
        0 <= m < keys.len() && keys[m as int] == b[g].key@
    } by {
        assert(a[g].members@ == b[g].members@);
        assert(a[g].key@ == b[g].key@);
        let m = a[g].members@[x];
        assert(0 <= m < keys.len() && keys[m as int] == a[g].key@);
    }
    assert forall|i: int| 0 <= i < keys.len() implies #[trigger] in_some_group(b, i) by {
        assert(in_some_group(a, i));
        let (g, x) = choose|g: int, x: int|
            0 <= g < a.len() && 0 <= x < a[g].members@.len() && #[trigger] a[g].members@[x] == i as usize;
        assert(a[g].members@ == b[g].members@);
        assert(b[g].members@[x] == i as usize);
    }
}


/// In a grouping every position sits in exactly one group, once.
pub proof fn lemma_grouped_unique(
    keys: Seq<Seq<char>>,
    groups: Seq<KeyGroup>,
    g1: int,
    x1: int,
    g2: int,
    x2: int,
)
    requires
        grouped(keys, groups),
        0 <= g1 < groups.len(),
        0 <= g2 < groups.len(),
        0 <= x1 < groups[g1].members@.len(),
        0 <= x2 < groups[g2].members@.len(),
        groups[g1].members@[x1] == groups[g2].members@[x2],
    ensures
        g1 == g2,
        x1 == x2,
{
    let m = groups[g1].members@[x1];
    assert(keys[m as int] == groups[g1].key@);
    assert(keys[m as int] == groups[g2].key@);
    if g1 < g2 {
        assert(text_lt(groups[g1].key@, groups[g2].key@));
        lemma_lt_irreflexive(groups[g1].key@);
    } else if g2 < g1 {
        assert(text_lt(groups[g2].key@, groups[g1].key@));
        lemma_lt_irreflexive(groups[g1].key@);
    }
    if x1 < x2 {
        assert(groups[g1].members@[x1] < groups[g1].members@[x2]);
    } else if x2 < x1 {
        assert(groups[g1].members@[x2] < groups[g1].members@[x1]);
    }
}

/// The number of members of the first `g` groups.
pub open spec fn sizes_upto(groups: Seq<KeyGroup>, g: int) -> nat
    decreases g,
{
    if g <= 0 {
        0
    } else {
        sizes_upto(groups, g - 1) + groups[g - 1].members@.len()
    }
}

/// The member counts only grow with more groups.
pub proof fn lemma_sizes_grow(groups: Seq<KeyGroup>, a: int, b: int)
    requires
        0 <= a <= b,
    ensures
        sizes_upto(groups, a) <= sizes_upto(groups, b),
    decreases b - a,
{
    if a < b {
        lemma_sizes_grow(groups, a, b - 1);
    }
}

/// The positions a list of members holds.
pub open spec fn member_set(s: Seq<usize>) -> Set<int> {
    Set::new(|i: int| exists|x: int| 0 <= x < s.len() && #[trigger] s[x] as int == i)
}

/// The positions of the first `g` groups.
pub open spec fn union_upto(groups: Seq<KeyGroup>, g: int) -> Set<int>
    decreases g,
{
    if g <= 0 {
        Set::empty()
    } else {
        union_upto(groups, g - 1) + member_set(groups[g - 1].members@)
    }
}

proof fn lemma_member_set_len(s: Seq<usize>)
    requires
        forall|x: int, y: int| 0 <= x < y < s.len() ==> #[trigger] s[x] < #[trigger] s[y],
    ensures
        member_set(s).finite(),
        member_set(s).len() == s.len(),
    decreases s.len(),
{
    if s.len() == 0 {
        assert(member_set(s) =~= Set::<int>::empty());
    } else {
        let t = s.drop_last();
        lemma_member_set_len(t);
        assert(member_set(s) =~= member_set(t).insert(s.last() as int)) by {
            assert forall|i: int| #[trigger] member_set(s).contains(i) implies member_set(t).insert(
                s.last() as int,
            ).contains(i) by {
                let x = choose|x: int| 0 <= x < s.len() && #[trigger] s[x] as int == i;
                if x < s.len() - 1 {
                    assert(t[x] == s[x]);
                }
            }
            assert forall|i: int| #[trigger] member_set(t).insert(s.last() as int).contains(i)
                implies member_set(s).contains(i) by {
                if i != s.last() as int {
                    let x = choose|x: int| 0 <= x < t.len() && #[trigger] t[x] as int == i;
                    assert(s[x] == t[x]);
                } else {
                    assert(s[s.len() - 1] as int == i);
                }
            }
        }
        if member_set(t).contains(s.last() as int) {
            let x = choose|x: int| 0 <= x < t.len() && #[trigger] t[x] as int == s.last() as int;
            assert(s[x] < s[s.len() - 1]);
        }
    }
}

proof fn lemma_union_upto(keys: Seq<Seq<char>>, groups: Seq<KeyGroup>, g: int)
    requires
        grouped(keys, groups),
        0 <= g <= groups.len(),
    ensures
        union_upto(groups, g).finite(),
        union_upto(groups, g).len() == sizes_upto(groups, g),
        forall|i: int| #[trigger] union_upto(groups, g).contains(i) ==> 0 <= i < keys.len(),
        forall|q: int, x: int|
            0 <= q < g && 0 <= x < groups[q].members@.len() ==> union_upto(groups, g).contains(
                #[trigger] groups[q].members@[x] as int,
            ),
    decreases g,
{
    if g > 0 {
        lemma_union_upto(keys, groups, g - 1);
        let ms = groups[g - 1].members@;
        assert forall|x: int, y: int| 0 <= x < y < ms.len() implies #[trigger] ms[x] < #[trigger] ms[y] by {
            assert(groups[g - 1].members@[x] < groups[g - 1].members@[y]);
        }
        lemma_member_set_len(ms);
        let a = union_upto(groups, g - 1);
        let b = member_set(ms);
        assert(a.disjoint(b)) by {
            assert forall|i: int| !(a.contains(i) && b.contains(i)) by {
                if a.contains(i) && b.contains(i) {
                    let y = choose|y: int| 0 <= y < ms.len() && #[trigger] ms[y] as int == i;
                    let (q, x) = lemma_union_witness(keys, groups, g - 1, i);
                    lemma_grouped_unique(keys, groups, q, x, g - 1, y);
                }
            }
        }
        vstd::set_lib::lemma_set_disjoint_lens(a, b);
        assert forall|i: int| #[trigger] union_upto(groups, g).contains(i) implies 0 <= i < keys.len() by {
            if b.contains(i) {
                let y = choose|y: int| 0 <= y < ms.len() && #[trigger] ms[y] as int == i;
                assert(groups[g - 1].members@[y] == ms[y]);
            }
        }
        assert forall|q: int, x: int|
            0 <= q < g && 0 <= x < groups[q].members@.len() implies union_upto(groups, g).contains(
            #[trigger] groups[q].members@[x] as int,
        ) by {
            if q == g - 1 {
                assert(ms[x] as int == groups[q].members@[x] as int);
            }
        }
    }
}

proof fn lemma_union_witness(keys: Seq<Seq<char>>, groups: Seq<KeyGroup>, g: int, i: int) -> (r: (
    int,
    int,
))
    requires
        grouped(keys, groups),
        0 <= g <= groups.len(),
        union_upto(groups, g).contains(i),
    ensures
        0 <= r.0 < g,
        0 <= r.1 < groups[r.0].members@.len(),
        groups[r.0].members@[r.1] as int == i,
    decreases g,
{
    let ms = groups[g - 1].members@;
    if member_set(ms).contains(i) {
        let y = choose|y: int| 0 <= y < ms.len() && #[trigger] ms[y] as int == i;
        (g - 1, y)
    } else {
        lemma_union_witness(keys, groups, g - 1, i)
    }
}

/// A grouping partitions the positions: its groups hold as many members,
/// together, as there are keys.
pub proof fn lemma_grouped_sizes(keys: Seq<Seq<char>>, groups: Seq<KeyGroup>)
    requires
        grouped(keys, groups),
        keys.len() <= usize::MAX,
    ensures
        sizes_upto(groups, groups.len() as int) == keys.len(),
{
    let n = groups.len() as int;
    lemma_union_upto(keys, groups, n);
    let u = union_upto(groups, n);
    let r = vstd::set_lib::set_int_range(0, keys.len() as int);
    vstd::set_lib::lemma_int_range(0, keys.len() as int);
    assert forall|i: int| #[trigger] r.contains(i) implies u.contains(i) by {
        assert(in_some_group(groups, i));
        let (q, x) = choose|q: int, x: int|
            0 <= q < groups.len() && 0 <= x < groups[q].members@.len() && #[trigger] groups[q].members@[x]
                == i as usize;
        assert(groups[q].members@[x] as int == i);
        assert(u.contains(groups[q].members@[x] as int));
    }
    assert(u =~= r);
}


/// How many of the positions `s` have the property `q`.
pub open spec fn count_where(s: Seq<usize>, q: spec_fn(int) -> bool) -> nat
    decreases s.len(),
{
    if s.len() == 0 {
        0
    } else {
        count_where(s.drop_last(), q) + if q(s.last() as int) {
            1nat
        } else {
            0nat
        }
    }
}

/// How many of the positions `0..n` have the property `q`.
pub open spec fn count_below(n: int, q: spec_fn(int) -> bool) -> nat
    decreases n,
{
    if n <= 0 {
        0
    } else {
        count_below(n - 1, q) + if q(n - 1) {
            1nat
        } else {
            0nat
        }
    }
}

/// How many members of the first `g` groups have the property `q`.
pub open spec fn counts_where_upto(groups: Seq<KeyGroup>, q: spec_fn(int) -> bool, g: int) -> nat
    decreases g,
{
    if g <= 0 {
        0
    } else {
        counts_where_upto(groups, q, g - 1) + count_where(groups[g - 1].members@, q)
    }
}

proof fn lemma_member_set_last(s: Seq<usize>)
    requires
        s.len() > 0,
    ensures
        member_set(s) =~= member_set(s.drop_last()).insert(s.last() as int),
{
    let t = s.drop_last();
    assert forall|i: int| #[trigger] member_set(s).contains(i) implies member_set(t).insert(
        s.last() as int,
    ).contains(i) by {
        let x = choose|x: int| 0 <= x < s.len() && #[trigger] s[x] as int == i;
        if x < s.len() - 1 {
            assert(t[x] == s[x]);
        }
    }
    assert forall|i: int| #[trigger] member_set(t).insert(s.last() as int).contains(i) implies member_set(
        s,
    ).contains(i) by {
        if i != s.last() as int {
            let x = choose|x: int| 0 <= x < t.len() && #[trigger] t[x] as int == i;
            assert(s[x] == t[x]);
        } else {
            assert(s[s.len() - 1] as int == i);
        }
    }
}

proof fn lemma_count_where_set(s: Seq<usize>, q: spec_fn(int) -> bool)
    requires
        forall|x: int, y: int| 0 <= x < y < s.len() ==> #[trigger] s[x] < #[trigger] s[y],
    ensures
        member_set(s).filter(q).finite(),
        member_set(s).filter(q).len() == count_where(s, q),
    decreases s.len(),
{
    if s.len() == 0 {
        assert(member_set(s).filter(q) =~= Set::<int>::empty());
    } else {
        let t = s.drop_last();
        let last = s.last() as int;
        lemma_count_where_set(t, q);
        lemma_member_set_last(s);
        if member_set(t).contains(last) {
            let x = choose|x: int| 0 <= x < t.len() && #[trigger] t[x] as int == last;
            assert(s[x] < s[s.len() - 1]);
        }
        if q(last) {
            assert(member_set(s).filter(q) =~= member_set(t).filter(q).insert(last));
        } else {
            assert(member_set(s).filter(q) =~= member_set(t).filter(q));
        }
    }
}

proof fn lemma_count_below_set(n: int, q: spec_fn(int) -> bool)
    requires
        n >= 0,
    ensures
        vstd::set_lib::set_int_range(0, n).filter(q).finite(),
        vstd::set_lib::set_int_range(0, n).filter(q).len() == count_below(n, q),
    decreases n,
{
    let r = vstd::set_lib::set_int_range(0, n);
    if n == 0 {
        assert(r.filter(q) =~= Set::<int>::empty());
    } else {
        lemma_count_below_set(n - 1, q);
        let r1 = vstd::set_lib::set_int_range(0, n - 1);
        if q(n - 1) {
            assert(r.filter(q) =~= r1.filter(q).insert(n - 1));
        } else {
            assert(r.filter(q) =~= r1.filter(q));
        }
    }
}

proof fn lemma_union_filter(keys: Seq<Seq<char>>, groups: Seq<KeyGroup>, q: spec_fn(int) -> bool, g: int)
    requires
        grouped(keys, groups),
        0 <= g <= groups.len(),
    ensures
        union_upto(groups, g).filter(q).finite(),
        union_upto(groups, g).filter(q).len() == counts_where_upto(groups, q, g),
    decreases g,
{
    if g == 0 {
        assert(union_upto(groups, g).filter(q) =~= Set::<int>::empty());
    } else {
        lemma_union_filter(keys, groups, q, g - 1);
        let ms = groups[g - 1].members@;
        assert forall|x: int, y: int| 0 <= x < y < ms.len() implies #[trigger] ms[x] < #[trigger] ms[y] by {
            assert(groups[g - 1].members@[x] < groups[g - 1].members@[y]);
        }
        lemma_count_where_set(ms, q);
        let a = union_upto(groups, g - 1).filter(q);
        let b = member_set(ms).filter(q);
        assert(a.disjoint(b)) by {
            assert forall|i: int| !(a.contains(i) && b.contains(i)) by {
                if a.contains(i) && b.contains(i) {
                    let y = choose|y: int| 0 <= y < ms.len() && #[trigger] ms[y] as int == i;
                    let (p, x) = lemma_union_witness(keys, groups, g - 1, i);
                    lemma_grouped_unique(keys, groups, p, x, g - 1, y);
                }
            }
        }
        vstd::set_lib::lemma_set_disjoint_lens(a, b);
        assert(union_upto(groups, g).filter(q) =~= a + b);
    }
}

/// A grouping partitions the positions for any property too: its groups
/// hold, together, as many members with the property as there are
/// positions with it.
pub proof fn lemma_grouped_counts(keys: Seq<Seq<char>>, groups: Seq<KeyGroup>, q: spec_fn(int) -> bool)
    requires
        grouped(keys, groups),
        keys.len() <= usize::MAX,
    ensures
        counts_where_upto(groups, q, groups.len() as int) == count_below(keys.len() as int, q),
{
    let n = groups.len() as int;
    lemma_union_upto(keys, groups, n);
    lemma_union_filter(keys, groups, q, n);
    lemma_count_below_set(keys.len() as int, q);
    let u = union_upto(groups, n);
    let r = vstd::set_lib::set_int_range(0, keys.len() as int);
    vstd::set_lib::lemma_int_range(0, keys.len() as int);
    assert forall|i: int| #[trigger] r.contains(i) implies u.contains(i) by {
        assert(in_some_group(groups, i));
        let (p, x) = choose|p: int, x: int|
            0 <= p < groups.len() && 0 <= x < groups[p].members@.len() && #[trigger] groups[p].members@[x]
                == i as usize;
        assert(groups[p].members@[x] as int == i);
        assert(u.contains(groups[p].members@[x] as int));
    }
    assert(u =~= r);
}

} // verus!

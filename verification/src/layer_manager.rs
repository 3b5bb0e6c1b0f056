//! Which outside layers stay visible when the inside of a building is drawn.
//!
//! The map's sprites are taken in the order of its chunks. Whether a sprite stands on a
//! blocked cell comes from the map's topology, which the caller evaluates for each sprite.
use vstd::prelude::*;
use crate::groups::{Groups, GroupsView, visible_ok, layer_visible};
use crate::sprite::MapSprite;

verus! {

/// `s` with `x` added at the end unless it already holds it.
pub open spec fn push_distinct(s: Seq<i32>, x: i32) -> Seq<i32> {
    if s.contains(x) {
        s
    } else {
        s.push(x)
    }
}

/// The group ids of the first `n` sprites other than 0, each once, in the order they first
/// occur.
pub open spec fn group_ids_of(sp: Seq<MapSprite>, n: nat) -> Seq<i32>
    decreases n,
{
    if n == 0 {
        Seq::empty()
    } else {
        let g = group_ids_of(sp, (n - 1) as nat);
        let x = sp[n - 1].group_id;
        if x != 0 {
            push_distinct(g, x)
        } else {
            g
        }
    }
}

/// The negative group keys of the first `n` sprites of group `gid`, each once, in the
/// order they first occur.
pub open spec fn negative_keys_of(sp: Seq<MapSprite>, gid: i32, n: nat) -> Seq<i32>
    decreases n,
{
    if n == 0 {
        Seq::empty()
    } else {
        let g = negative_keys_of(sp, gid, (n - 1) as nat);
        let s = sp[n - 1];
        if s.group_id == gid && s.group_key < 0 {
            push_distinct(g, s.group_key)
        } else {
            g
        }
    }
}

/// How many of the first `n` keys of `neg` are visible from `key` on a cell that is not
/// blocked; `None` where asking panics.
pub open spec fn visible_count(g: GroupsView, key: i32, neg: Seq<i32>, n: nat, blocked: bool) -> Option<nat>
    decreases n,
{
    if n == 0 {
        Some(0)
    } else {
        match visible_count(g, key, neg, (n - 1) as nat, blocked) {
            Some(c) => if !visible_ok(g, key, neg[n - 1]) {
                None
            } else if layer_visible(g, key, neg[n - 1]) && !blocked {
                Some(c + 1)
            } else {
                Some(c)
            },
            None => None,
        }
    }
}

/// The position of `k` in a list of counters.
pub open spec fn find_key(c: Seq<(i32, u16)>, k: i32) -> Option<int>
    decreases c.len(),
{
    if c.len() == 0 {
        None
    } else if c.last().0 == k {
        Some(c.len() - 1)
    } else {
        find_key(c.drop_last(), k)
    }
}

/// The counters after a sprite of the group with key `k`: a key whose count is already
/// positive is left alone; otherwise the number of negative keys it sees is added (a new
/// key starting from it). Nothing happens for key 0 or when there are no negative keys.
/// `None` where counting panics: a count past 65535, or a question that cannot be asked.
pub open spec fn counter_step(g: GroupsView, c: Seq<(i32, u16)>, k: i32, neg: Seq<i32>, blocked: bool) -> Option<
    Seq<(i32, u16)>,
> {
    if k == 0 || neg.len() == 0 {
        Some(c)
    } else {
        match find_key(c, k) {
            Some(j) => if c[j].1 > 0 {
                Some(c)
            } else {
                match visible_count(g, k, neg, neg.len(), blocked) {
                    Some(n) => if n > 65535 {
                        None
                    } else {
                        Some(c.update(j, (k, n as u16)))
                    },
                    None => None,
                }
            },
            None => match visible_count(g, k, neg, neg.len(), blocked) {
                Some(n) => if n > 65535 {
                    None
                } else {
                    Some(c.push((k, n as u16)))
                },
                None => None,
            },
        }
    }
}

/// The counters of group `gid` after its sprites among the first `n`.
pub open spec fn counters_of(
    g: GroupsView,
    sp: Seq<MapSprite>,
    blocked: Seq<bool>,
    gid: i32,
    neg: Seq<i32>,
    n: nat,
) -> Option<Seq<(i32, u16)>>
    decreases n,
{
    if n == 0 {
        Some(Seq::empty())
    } else {
        match counters_of(g, sp, blocked, gid, neg, (n - 1) as nat) {
            Some(c) => if sp[n - 1].group_id == gid {
                counter_step(g, c, sp[n - 1].group_key, neg, blocked[n - 1])
            } else {
                Some(c)
            },
            None => None,
        }
    }
}

/// The first key of smallest positive count among the first `n` counters, or
/// `(0, 65535)` when none is positive and below 65535.
pub open spec fn min_count(c: Seq<(i32, u16)>, n: nat) -> (i32, u16)
    decreases n,
{
    if n == 0 {
        (0, 65535)
    } else {
        let m = min_count(c, (n - 1) as nat);
        let e = c[n - 1];
        if e.1 != 0 && e.1 < m.1 {
            e
        } else {
            m
        }
    }
}

/// The first key of smallest count above `lo` among the first `n` counters, or
/// `(0, 65535)`.
pub open spec fn next_count(c: Seq<(i32, u16)>, lo: u16, n: nat) -> (i32, u16)
    decreases n,
{
    if n == 0 {
        (0, 65535)
    } else {
        let m = next_count(c, lo, (n - 1) as nat);
        let e = c[n - 1];
        if e.1 > lo && e.1 < m.1 {
            e
        } else {
            m
        }
    }
}

/// The floor layer of a group: the key that sees the fewest outside layers, or the one that
/// sees the next fewest when that count is below the number of negative keys.
pub open spec fn floor_key(c: Seq<(i32, u16)>, neg_len: nat) -> i32 {
    let m = min_count(c, c.len());
    let p = next_count(c, m.1, c.len());
    if p.1 < neg_len as u16 {
        p.0
    } else {
        m.0
    }
}

/// The visible layers after the first `n` negative keys: each key not yet there is added
/// when the floor sees it. `None` where asking panics.
pub open spec fn add_visible(g: GroupsView, v: Seq<i32>, neg: Seq<i32>, from: i32, n: nat) -> Option<Seq<i32>>
    decreases n,
{
    if n == 0 {
        Some(v)
    } else {
        match add_visible(g, v, neg, from, (n - 1) as nat) {
            Some(v1) => {
                let k = neg[n - 1];
                if v1.contains(k) {
                    Some(v1)
                } else if !visible_ok(g, from, k) {
                    None
                } else if layer_visible(g, from, k) {
                    Some(v1.push(k))
                } else {
                    Some(v1)
                }
            },
            None => None,
        }
    }
}

/// The visible layers after the first `n` groups of `ids`. `None` where asking
/// panics.
pub open spec fn visible_layers_of(g: GroupsView, sp: Seq<MapSprite>, blocked: Seq<bool>, ids: Seq<i32>, n: nat) -> Option<
    Seq<i32>,
>
    decreases n,
{
    if n == 0 {
        Some(Seq::empty())
    } else {
        match visible_layers_of(g, sp, blocked, ids, (n - 1) as nat) {
            Some(v) => {
                let gid = ids[n - 1];
                let neg = negative_keys_of(sp, gid, sp.len());
                match counters_of(g, sp, blocked, gid, neg, sp.len()) {
                    Some(c) => add_visible(g, v, neg, floor_key(c, neg.len()), neg.len()),
                    None => None,
                }
            },
            None => None,
        }
    }
}

/// The outside layers that stay visible: for each group of the map, in order, the
/// negative keys that its floor layer sees.
pub open spec fn outdoor_visible_layers(g: GroupsView, sp: Seq<MapSprite>, blocked: Seq<bool>) -> Option<Seq<i32>> {
    let ids = group_ids_of(sp, sp.len());
    visible_layers_of(g, sp, blocked, ids, ids.len())
}

/// Whether each value of `s` is negative and none occurs twice.
pub open spec fn distinct_negative(s: Seq<i32>) -> bool {
    &&& forall|i: int| 0 <= i < s.len() ==> #[trigger] s[i] < 0
    &&& forall|i: int, j: int| 0 <= i < j < s.len() ==> s[i] != s[j]
}

proof fn lemma_negative_keys(sp: Seq<MapSprite>, gid: i32, n: nat)
    requires
        n <= sp.len(),
    ensures
        distinct_negative(negative_keys_of(sp, gid, n)),
    decreases n,
{
    if n > 0 {
        lemma_negative_keys(sp, gid, (n - 1) as nat);
    }
}

proof fn lemma_add_visible_distinct(g: GroupsView, v: Seq<i32>, neg: Seq<i32>, from: i32, n: nat)
    requires
        n <= neg.len(),
        distinct_negative(v),
        forall|i: int| 0 <= i < neg.len() ==> #[trigger] neg[i] < 0,
    ensures
        add_visible(g, v, neg, from, n) matches Some(w) ==> distinct_negative(w),
    decreases n,
{
    if n > 0 {
        lemma_add_visible_distinct(g, v, neg, from, (n - 1) as nat);
    }
}

proof fn lemma_visible_layers_distinct(g: GroupsView, sp: Seq<MapSprite>, blocked: Seq<bool>, ids: Seq<i32>, n: nat)
    requires
        n <= ids.len(),
    ensures
        visible_layers_of(g, sp, blocked, ids, n) matches Some(w) ==> distinct_negative(w),
    decreases n,
{
    if n > 0 {
        lemma_visible_layers_distinct(g, sp, blocked, ids, (n - 1) as nat);
        let gid = ids[n - 1];
        let neg = negative_keys_of(sp, gid, sp.len());
        lemma_negative_keys(sp, gid, sp.len());
        if let Some(v) = visible_layers_of(g, sp, blocked, ids, (n - 1) as nat) {
            if let Some(c) = counters_of(g, sp, blocked, gid, neg, sp.len()) {
                lemma_add_visible_distinct(g, v, neg, floor_key(c, neg.len()), neg.len());
            }
        }
    }
}

/// The outside layers kept visible are negative group keys, each listed once.
pub proof fn outdoor_layers_distinct_negative(g: GroupsView, sp: Seq<MapSprite>, blocked: Seq<bool>)
    ensures
        outdoor_visible_layers(g, sp, blocked) matches Some(w) ==> distinct_negative(w),
{
    let ids = group_ids_of(sp, sp.len());
    lemma_visible_layers_distinct(g, sp, blocked, ids, ids.len());
}

/// Whether `x` is the group key of one of the sprites `sp`.
pub open spec fn is_sprite_key(sp: Seq<MapSprite>, x: i32) -> bool {
    exists|j: int| 0 <= j < sp.len() && #[trigger] sp[j].group_key == x
}

proof fn lemma_negative_keys_from(sp: Seq<MapSprite>, gid: i32, n: nat)
    requires
        n <= sp.len(),
    ensures
        forall|x: i32| #[trigger] negative_keys_of(sp, gid, n).contains(x) ==> is_sprite_key(sp, x),
    decreases n,
{
    if n > 0 {
        lemma_negative_keys_from(sp, gid, (n - 1) as nat);
        let prev = negative_keys_of(sp, gid, (n - 1) as nat);
        let s = sp[n - 1];
        assert forall|x: i32| #[trigger] negative_keys_of(sp, gid, n).contains(x) implies is_sprite_key(sp, x) by {
            if s.group_id == gid && s.group_key < 0 && !prev.contains(s.group_key) {
                let w = prev.push(s.group_key);
                let i = choose|i: int| 0 <= i < w.len() && w[i] == x;
                if i < prev.len() {
                    assert(prev[i] == x);
                    assert(prev.contains(x));
                } else {
                    assert(sp[n - 1].group_key == x);
                }
            }
        }
    }
}

proof fn lemma_add_visible_from(g: GroupsView, v: Seq<i32>, neg: Seq<i32>, from: i32, n: nat)
    requires
        n <= neg.len(),
    ensures
        add_visible(g, v, neg, from, n) matches Some(w) ==> forall|x: i32| #[trigger] w.contains(x) ==> v.contains(x)
            || (neg.contains(x) && layer_visible(g, from, x)),
    decreases n,
{
    if n > 0 {
        lemma_add_visible_from(g, v, neg, from, (n - 1) as nat);
        if let Some(v1) = add_visible(g, v, neg, from, (n - 1) as nat) {
            let k = neg[n - 1];
            if !v1.contains(k) && visible_ok(g, from, k) && layer_visible(g, from, k) {
                let w = v1.push(k);
                assert forall|x: i32| #[trigger] w.contains(x) implies v.contains(x) || (neg.contains(x)
                    && layer_visible(g, from, x)) by {
                    let i = choose|i: int| 0 <= i < w.len() && w[i] == x;
                    if i < v1.len() {
                        assert(v1[i] == x);
                        assert(v1.contains(x));
                    } else {
                        assert(neg[n - 1] == x);
                    }
                }
            }
        }
    }
}

proof fn lemma_visible_layers_from(g: GroupsView, sp: Seq<MapSprite>, blocked: Seq<bool>, ids: Seq<i32>, n: nat)
    requires
        n <= ids.len(),
    ensures
        visible_layers_of(g, sp, blocked, ids, n) matches Some(w) ==> forall|x: i32| #[trigger] w.contains(x)
            ==> is_sprite_key(sp, x),
    decreases n,
{
    if n > 0 {
        lemma_visible_layers_from(g, sp, blocked, ids, (n - 1) as nat);
        let gid = ids[n - 1];
        let neg = negative_keys_of(sp, gid, sp.len());
        lemma_negative_keys_from(sp, gid, sp.len());
        if let Some(v) = visible_layers_of(g, sp, blocked, ids, (n - 1) as nat) {
            if let Some(c) = counters_of(g, sp, blocked, gid, neg, sp.len()) {
                lemma_add_visible_from(g, v, neg, floor_key(c, neg.len()), neg.len());
            }
        }
    }
}

/// Every outside layer kept visible is the group key of one of the map's sprites: nothing
/// is kept that the map does not hold.
pub proof fn outdoor_layers_are_sprite_keys(g: GroupsView, sp: Seq<MapSprite>, blocked: Seq<bool>)
    ensures
        outdoor_visible_layers(g, sp, blocked) matches Some(w) ==> forall|i: int| 0 <= i < w.len() ==> is_sprite_key(
            sp,
            #[trigger] w[i],
        ),
{
    let ids = group_ids_of(sp, sp.len());
    lemma_visible_layers_from(g, sp, blocked, ids, ids.len());
    if let Some(w) = outdoor_visible_layers(g, sp, blocked) {
        assert forall|i: int| 0 <= i < w.len() implies is_sprite_key(sp, #[trigger] w[i]) by {
            assert(w.contains(w[i]));
        }
    }
}

/// Computes which outside layers stay visible inside buildings.
pub struct LayerManager;

/// Whether `v` holds `x`.
pub fn vec_contains(v: &Vec<i32>, x: i32) -> (r: bool)
    ensures
        r == v@.contains(x),
{
    let mut i: usize = 0;
    while i < v.len()
        invariant
            i <= v@.len(),
            forall|k: int| 0 <= k < i ==> v@[k] != x,
        decreases v@.len() - i,
    {
        if v[i] == x {
            proof {
                assert(v@[i as int] == x);
            }
            return true;
        }
        i = i + 1;
    }
    false
}

impl LayerManager {
    /// The group ids of the map, each once, in the order they first occur (see
    /// [`group_ids_of`]).
    pub fn get_map_groups(sprites: &Vec<MapSprite>) -> (r: Vec<i32>)
        ensures
            r@ == group_ids_of(sprites@, sprites@.len()),
    {
        let mut group_ids: Vec<i32> = Vec::new();
        let mut i: usize = 0;
        while i < sprites.len()
            invariant
                i <= sprites@.len(),
                group_ids@ == group_ids_of(sprites@, i as nat),
            decreases sprites@.len() - i,
        {
            let gid = sprites[i].group_id;
            if gid != 0 && !vec_contains(&group_ids, gid) {
                group_ids.push(gid);
            }
            i = i + 1;
        }
        group_ids
    }

    /// The negative group keys of group `gid` (see [`negative_keys_of`]).
    fn negative_keys(sprites: &Vec<MapSprite>, gid: i32) -> (r: Vec<i32>)
        ensures
            r@ == negative_keys_of(sprites@, gid, sprites@.len()),
    {
        let mut keys: Vec<i32> = Vec::new();
        let mut i: usize = 0;
        while i < sprites.len()
            invariant
                i <= sprites@.len(),
                keys@ == negative_keys_of(sprites@, gid, i as nat),
            decreases sprites@.len() - i,
        {
            let s = &sprites[i];
            if s.group_id == gid && s.group_key < 0 && !vec_contains(&keys, s.group_key) {
                keys.push(s.group_key);
            }
            i = i + 1;
        }
        keys
    }

    /// How many negative keys `key` sees from a cell (see [`visible_count`]).
    fn count_visible(groups: &Groups, key: i32, neg: &Vec<i32>, blocked: bool) -> (r: u64)
        requires
            visible_count(groups@, key, neg@, neg@.len(), blocked) is Some,
        ensures
            visible_count(groups@, key, neg@, neg@.len(), blocked) == Some(r as nat),
    {
        let mut n: u64 = 0;
        let mut i: usize = 0;
        while i < neg.len()
            invariant
                i <= neg@.len(),
                n <= i,
                visible_count(groups@, key, neg@, neg@.len(), blocked) is Some,
                visible_count(groups@, key, neg@, i as nat, blocked) == Some(n as nat),
            decreases neg@.len() - i,
        {
            proof {
                if visible_count(groups@, key, neg@, (i + 1) as nat, blocked) is None {
                    lemma_count_stops(groups@, key, neg@, (i + 1) as nat, neg@.len(), blocked);
                }
            }
            if groups.is_layer_visible(key, neg[i]) && !blocked {
                n = n + 1;
            }
            i = i + 1;
        }
        n
    }

    /// The key that sees the fewest outside layers (see [`floor_key`]).
    fn floor(counter: &Vec<(i32, u16)>, neg_len: usize) -> (r: i32)
        ensures
            r == floor_key(counter@, neg_len as nat),
    {
        let mut min: (i32, u16) = (0, 65535);
        let mut i: usize = 0;
        while i < counter.len()
            invariant
                i <= counter@.len(),
                min == min_count(counter@, i as nat),
            decreases counter@.len() - i,
        {
            let e = counter[i];
            if e.1 != 0 && e.1 < min.1 {
                min = e;
            }
            i = i + 1;
        }
        let mut next: (i32, u16) = (0, 65535);
        let mut j: usize = 0;
        while j < counter.len()
            invariant
                j <= counter@.len(),
                min == min_count(counter@, counter@.len()),
                next == next_count(counter@, min.1, j as nat),
            decreases counter@.len() - j,
        {
            let e = counter[j];
            if e.1 > min.1 && e.1 < next.1 {
                next = e;
            }
            j = j + 1;
        }
        if next.1 < neg_len as u16 {
            next.0
        } else {
            min.0
        }
    }
}

/// A sprite on a blocked cell sees no outside layer: whatever the groups say, counting the
/// negative keys visible from a blocked cell gives 0 wherever asking does not panic. From
/// a walkable cell the count is at most the number of keys asked about.
pub proof fn blocked_cells_see_no_outside_layer(g: GroupsView, key: i32, neg: Seq<i32>, n: nat)
    ensures
        visible_count(g, key, neg, n, true) is Some ==> visible_count(g, key, neg, n, true) == Some(0nat),
        visible_count(g, key, neg, n, false) matches Some(c) ==> c <= n,
    decreases n,
{
    if n > 0 {
        blocked_cells_see_no_outside_layer(g, key, neg, (n - 1) as nat);
    }
}

/// From a walkable cell, every outside layer that the groups show to `key` is counted:
/// when each of the first `n` keys is visible, the count is `n`; when none is, it is 0.
pub proof fn walkable_cells_count_each_visible_layer(g: GroupsView, key: i32, neg: Seq<i32>, n: nat)
    requires
        n <= neg.len(),
        forall|i: int| 0 <= i < n ==> visible_ok(g, key, #[trigger] neg[i]),
    ensures
        (forall|i: int| 0 <= i < n ==> layer_visible(g, key, #[trigger] neg[i])) ==> visible_count(
            g,
            key,
            neg,
            n,
            false,
        ) == Some(n),
        (forall|i: int| 0 <= i < n ==> !layer_visible(g, key, #[trigger] neg[i])) ==> visible_count(
            g,
            key,
            neg,
            n,
            false,
        ) == Some(0nat),
    decreases n,
{
    if n > 0 {
        walkable_cells_count_each_visible_layer(g, key, neg, (n - 1) as nat);
        assert(visible_ok(g, key, neg[n - 1]));
    }
}

proof fn lemma_count_stops(g: GroupsView, key: i32, neg: Seq<i32>, i: nat, n: nat, blocked: bool)
    requires
        i <= n,
        visible_count(g, key, neg, i, blocked) is None,
    ensures
        visible_count(g, key, neg, n, blocked) is None,
    decreases n,
{
    if n > i {
        lemma_count_stops(g, key, neg, i, (n - 1) as nat, blocked);
    }
}

proof fn lemma_counters_stop(
    g: GroupsView,
    sp: Seq<MapSprite>,
    blocked: Seq<bool>,
    gid: i32,
    neg: Seq<i32>,
    i: nat,
    n: nat,
)
    requires
        i <= n,
        counters_of(g, sp, blocked, gid, neg, i) is None,
    ensures
        counters_of(g, sp, blocked, gid, neg, n) is None,
    decreases n,
{
    if n > i {
        lemma_counters_stop(g, sp, blocked, gid, neg, i, (n - 1) as nat);
    }
}

proof fn lemma_add_visible_stops(g: GroupsView, v: Seq<i32>, neg: Seq<i32>, from: i32, i: nat, n: nat)
    requires
        i <= n,
        add_visible(g, v, neg, from, i) is None,
    ensures
        add_visible(g, v, neg, from, n) is None,
    decreases n,
{
    if n > i {
        lemma_add_visible_stops(g, v, neg, from, i, (n - 1) as nat);
    }
}

proof fn lemma_visible_layers_stop(g: GroupsView, sp: Seq<MapSprite>, blocked: Seq<bool>, ids: Seq<i32>, i: nat, n: nat)
    requires
        i <= n,
        visible_layers_of(g, sp, blocked, ids, i) is None,
    ensures
        visible_layers_of(g, sp, blocked, ids, n) is None,
    decreases n,
{
    if n > i {
        lemma_visible_layers_stop(g, sp, blocked, ids, i, (n - 1) as nat);
    }
}

proof fn lemma_find_key(c: Seq<(i32, u16)>, k: i32)
    ensures
        find_key(c, k) matches Some(j) ==> 0 <= j < c.len() && c[j].0 == k,
        find_key(c, k) is None ==> forall|j: int| 0 <= j < c.len() ==> c[j].0 != k,
    decreases c.len(),
{
    if c.len() > 0 {
        lemma_find_key(c.drop_last(), k);
        assert(forall|j: int| 0 <= j < c.len() - 1 ==> c.drop_last()[j] == c[j]);
    }
}

/// The position of key `k` among the counters (see [`find_key`]).
fn find_counter(c: &Vec<(i32, u16)>, k: i32) -> (r: Option<usize>)
    ensures
        r matches Some(j) ==> find_key(c@, k) == Some(j as int),
        r is None ==> find_key(c@, k) is None,
{
    let mut i: usize = c.len();
    proof {
        assert(c@.subrange(0, c@.len() as int) =~= c@);
    }
    while i > 0
        invariant
            i <= c@.len(),
            find_key(c@, k) == find_key(c@.subrange(0, i as int), k),
        decreases i,
    {
        proof {
            assert(c@.subrange(0, i as int).drop_last() =~= c@.subrange(0, i - 1));
        }
        if c[i - 1].0 == k {
            return Some(i - 1);
        }
        i = i - 1;
    }
    None
}

impl LayerManager {
    /// The counters of group `gid` (see [`counters_of`]).
    fn counters(groups: &Groups, sprites: &Vec<MapSprite>, blocked: &Vec<bool>, gid: i32, neg: &Vec<i32>) -> (r: Vec<(i32, u16)>)
        requires
            blocked@.len() == sprites@.len(),
            counters_of(groups@, sprites@, blocked@, gid, neg@, sprites@.len()) is Some,
        ensures
            counters_of(groups@, sprites@, blocked@, gid, neg@, sprites@.len()) == Some(r@),
    {
        let mut c: Vec<(i32, u16)> = Vec::new();
        let mut i: usize = 0;
        while i < sprites.len()
            invariant
                blocked@.len() == sprites@.len(),
                i <= sprites@.len(),
                counters_of(groups@, sprites@, blocked@, gid, neg@, sprites@.len()) is Some,
                counters_of(groups@, sprites@, blocked@, gid, neg@, i as nat) == Some(c@),
            decreases sprites@.len() - i,
        {
            proof {
                if counters_of(groups@, sprites@, blocked@, gid, neg@, (i + 1) as nat) is None {
                    lemma_counters_stop(groups@, sprites@, blocked@, gid, neg@, (i + 1) as nat, sprites@.len());
                }
            }
            let s = &sprites[i];
            let k = s.group_key;
            let ghost step = counter_step(groups@, c@, k, neg@, blocked@[i as int]);
            proof {
                if s.group_id == gid {
                    assert(counters_of(groups@, sprites@, blocked@, gid, neg@, (i + 1) as nat) == step);
                } else {
                    assert(counters_of(groups@, sprites@, blocked@, gid, neg@, (i + 1) as nat) == Some(c@));
                }
            }
            if s.group_id == gid && k != 0 && neg.len() != 0 {
                proof {
                    lemma_find_key(c@, k);
                }
                match find_counter(&c, k) {
                    Some(j) => {
                        proof {
                            assert(find_key(c@, k) == Some(j as int));
                        }
                        if c[j].1 == 0 {
                            proof {
                                assert(step is Some);
                                assert(c@[j as int].1 == 0);
                                assert(visible_count(groups@, k, neg@, neg@.len(), blocked@[i as int]) is Some);
                            }
                            let n = Self::count_visible(groups, k, neg, blocked[i]);
                            c.set(j, (k, n as u16));
                        }
                    },
                    None => {
                        proof {
                            assert(visible_count(groups@, k, neg@, neg@.len(), blocked@[i as int]) is Some);
                        }
                        let n = Self::count_visible(groups, k, neg, blocked[i]);
                        c.push((k, n as u16));
                    },
                }
            }
            i = i + 1;
        }
        c
    }

    /// Adds the negative keys that the floor `from` sees (see [`add_visible`]).
    fn add_visible_layers(groups: &Groups, visible: &mut Vec<i32>, neg: &Vec<i32>, from: i32)
        requires
            add_visible(groups@, old(visible)@, neg@, from, neg@.len()) is Some,
        ensures
            add_visible(groups@, old(visible)@, neg@, from, neg@.len()) == Some(final(visible)@),
    {
        let ghost v0 = visible@;
        let mut i: usize = 0;
        while i < neg.len()
            invariant
                i <= neg@.len(),
                v0 == old(visible)@,
                add_visible(groups@, v0, neg@, from, neg@.len()) is Some,
                add_visible(groups@, v0, neg@, from, i as nat) == Some(visible@),
            decreases neg@.len() - i,
        {
            proof {
                if add_visible(groups@, v0, neg@, from, (i + 1) as nat) is None {
                    lemma_add_visible_stops(groups@, v0, neg@, from, (i + 1) as nat, neg@.len());
                }
            }
            let k = neg[i];
            if !vec_contains(visible, k) {
                if groups.is_layer_visible(from, k) {
                    visible.push(k);
                }
            }
            i = i + 1;
        }
    }

    /// The outside layers that stay visible inside buildings (see
    /// [`outdoor_visible_layers`]); `blocked` says for each sprite whether its cell is
    /// blocked. It must not be called where [`outdoor_visible_layers`] is `None`.
    pub fn get_outdoor_visible_layers(sprites: &Vec<MapSprite>, groups: &Groups, blocked: &Vec<bool>) -> (r: Vec<i32>)
        requires
            blocked@.len() == sprites@.len(),
            outdoor_visible_layers(groups@, sprites@, blocked@) is Some,
        ensures
            outdoor_visible_layers(groups@, sprites@, blocked@) == Some(r@),
    {
        let group_ids = Self::get_map_groups(sprites);
        let mut visible: Vec<i32> = Vec::new();
        let mut i: usize = 0;
        while i < group_ids.len()
            invariant
                blocked@.len() == sprites@.len(),
                group_ids@ == group_ids_of(sprites@, sprites@.len()),
                i <= group_ids@.len(),
                visible_layers_of(groups@, sprites@, blocked@, group_ids@, group_ids@.len()) is Some,
                visible_layers_of(groups@, sprites@, blocked@, group_ids@, i as nat) == Some(visible@),
            decreases group_ids@.len() - i,
        {
            proof {
                if visible_layers_of(groups@, sprites@, blocked@, group_ids@, (i + 1) as nat) is None {
                    lemma_visible_layers_stop(groups@, sprites@, blocked@, group_ids@, (i + 1) as nat, group_ids@.len());
                }
            }
            let gid = group_ids[i];
            let neg = Self::negative_keys(sprites, gid);
            let counter = Self::counters(groups, sprites, blocked, gid, &neg);
            let from = Self::floor(&counter, neg.len());
            Self::add_visible_layers(groups, &mut visible, &neg, from);
            i = i + 1;
        }
        visible
    }
}

} // verus!

use vstd::prelude::*;
use crate::color::Rgb;

verus! {

/// How the colors that several layers hold at one pixel become one color.
#[derive(Clone, Copy, Debug, PartialEq, Eq, Structural)]
pub enum Blending {
    Average,
    Median,
    Mode,
}

// ---------------------------------------------------------------- average

/// Channel `k` of `c` (0 red, 1 green, 2 blue).
pub open spec fn channel(c: Rgb, k: int) -> nat {
    if k == 0 {
        c.r as nat
    } else if k == 1 {
        c.g as nat
    } else {
        c.b as nat
    }
}

/// Sum of channel `k` over all colors of `s`.
pub open spec fn channel_sum(s: Seq<Rgb>, k: int) -> nat
    decreases s.len(),
{
    if s.len() == 0 {
        0
    } else {
        channel_sum(s.drop_last(), k) + channel(s.last(), k)
    }
}

/// Per-channel mean of a non-empty sequence of colors, truncated.
pub open spec fn average_of(s: Seq<Rgb>) -> Rgb {
    Rgb {
        r: (channel_sum(s, 0) / s.len()) as u8,
        g: (channel_sum(s, 1) / s.len()) as u8,
        b: (channel_sum(s, 2) / s.len()) as u8,
    }
}

pub proof fn lemma_channel_sum_bound(s: Seq<Rgb>, k: int)
    ensures
        channel_sum(s, k) <= 255 * s.len(),
    decreases s.len(),
{
    if s.len() > 0 {
        lemma_channel_sum_bound(s.drop_last(), k);
    }
}

/// A mean of values that are each at most 255 is itself at most 255.
proof fn lemma_mean_fits(sum: nat, n: nat)
    requires
        n > 0,
        sum <= 255 * n,
    ensures
        sum / n <= 255,
{
    assert(sum / n <= 255) by (nonlinear_arith)
        requires
            n > 0,
            sum <= 255 * n,
    ;
}

/// The per-channel integer mean of `colors`, each channel truncated.
pub fn average(colors: &Vec<Rgb>) -> (r: Rgb)
    requires
        colors@.len() > 0,
    ensures
        r == average_of(colors@),
{
    let n: usize = colors.len();
    let mut sum_r: u128 = 0;
    let mut sum_g: u128 = 0;
    let mut sum_b: u128 = 0;
    let mut i: usize = 0;
    while i < n
        invariant
            n == colors@.len(),
            i <= n,
            sum_r == channel_sum(colors@.subrange(0, i as int), 0),
            sum_g == channel_sum(colors@.subrange(0, i as int), 1),
            sum_b == channel_sum(colors@.subrange(0, i as int), 2),
        decreases n - i,
    {
        proof {
            let prefix = colors@.subrange(0, i as int);
            let next = colors@.subrange(0, i + 1);
            assert(next.drop_last() =~= prefix);
            lemma_channel_sum_bound(prefix, 0);
            lemma_channel_sum_bound(prefix, 1);
            lemma_channel_sum_bound(prefix, 2);
        }
        let c = colors[i];
        sum_r = sum_r + c.r as u128;
        sum_g = sum_g + c.g as u128;
        sum_b = sum_b + c.b as u128;
        i += 1;
    }
    proof {
        assert(colors@.subrange(0, n as int) =~= colors@);
        lemma_channel_sum_bound(colors@, 0);
        lemma_channel_sum_bound(colors@, 1);
        lemma_channel_sum_bound(colors@, 2);
        lemma_mean_fits(sum_r as nat, n as nat);
        lemma_mean_fits(sum_g as nat, n as nat);
        lemma_mean_fits(sum_b as nat, n as nat);
    }
    let len: u128 = n as u128;
    Rgb { r: (sum_r / len) as u8, g: (sum_g / len) as u8, b: (sum_b / len) as u8 }
}

// ---------------------------------------------------------------- median

/// Squared Euclidean norm of the RGB channels.
pub open spec fn sq_norm(c: Rgb) -> nat {
    (c.r * c.r + c.g * c.g + c.b * c.b) as nat
}

pub open spec fn is_floor_sqrt(n: nat, k: nat) -> bool {
    k * k <= n < (k + 1) * (k + 1)
}

/// The Euclidean norm of the RGB channels, truncated to an integer.
pub open spec fn magnitude(c: Rgb) -> nat {
    choose|k: nat| is_floor_sqrt(sq_norm(c), k)
}

proof fn lemma_floor_sqrt_unique(n: nat, j: nat, k: nat)
    requires
        is_floor_sqrt(n, j),
        is_floor_sqrt(n, k),
    ensures
        j == k,
{
    if j < k {
        assert((j + 1) * (j + 1) <= k * k) by (nonlinear_arith)
            requires
                j < k,
        ;
    } else if k < j {
        assert((k + 1) * (k + 1) <= j * j) by (nonlinear_arith)
            requires
                k < j,
        ;
    }
}

/// The color's magnitude: the integer part of the Euclidean norm of its RGB
/// channels.
pub fn col_len(c: &Rgb) -> (r: u32)
    ensures
        r == magnitude(*c),
{
    let n: u32 = square(c.r) + square(c.g) + square(c.b);
    let mut k: u32 = 0;
    while (k + 1) * (k + 1) <= n
        invariant
            k <= 441,
            k * k <= n,
            (k + 1) * (k + 1) <= 195364,
            n <= 195075,
        decreases 441 - k,
    {
        assert(k + 1 <= 441) by (nonlinear_arith)
            requires
                (k + 1) * (k + 1) <= n,
                n <= 195075,
        ;
        k = k + 1;
        assert((k + 1) * (k + 1) <= 195364) by (nonlinear_arith)
            requires
                k <= 441,
        ;
    }
    proof {
        assert(is_floor_sqrt(sq_norm(*c), k as nat));
        let m = magnitude(*c);
        assert(is_floor_sqrt(sq_norm(*c), m));
        lemma_floor_sqrt_unique(sq_norm(*c), k as nat, m);
    }
    k
}

fn square(x: u8) -> (r: u32)
    ensures
        r == x * x,
        r <= 65025,
{
    assert(x * x <= 65025) by (nonlinear_arith)
        requires
            x <= 255,
    ;
    (x as u32) * (x as u32)
}

/// `s` with `c` inserted after the last element whose magnitude does not
/// exceed that of `c`, scanning from the end: one step of a stable insertion
/// sort.
pub open spec fn insert_by_magnitude(s: Seq<Rgb>, c: Rgb) -> Seq<Rgb>
    decreases s.len(),
{
    if s.len() == 0 {
        seq![c]
    } else if magnitude(s.last()) <= magnitude(c) {
        s.push(c)
    } else {
        insert_by_magnitude(s.drop_last(), c).push(s.last())
    }
}

/// `s` stably sorted by magnitude: equal magnitudes keep their order in `s`.
pub open spec fn sort_by_magnitude(s: Seq<Rgb>) -> Seq<Rgb>
    decreases s.len(),
{
    if s.len() == 0 {
        s
    } else {
        insert_by_magnitude(sort_by_magnitude(s.drop_last()), s.last())
    }
}

/// The middle element of the colors sorted by magnitude (the upper one of
/// the two middles for an even count).
pub open spec fn median_of(s: Seq<Rgb>) -> Rgb {
    sort_by_magnitude(s)[s.len() as int / 2]
}

/// Inserting at position `p`, where every element from `p` on has a larger
/// magnitude than `c` and the one before `p` (if any) does not.
proof fn lemma_insert_at(s: Seq<Rgb>, c: Rgb, p: int)
    requires
        0 <= p <= s.len(),
        forall|i: int| p <= i < s.len() ==> magnitude(s[i]) > magnitude(c),
        p > 0 ==> magnitude(s[p - 1]) <= magnitude(c),
    ensures
        insert_by_magnitude(s, c) == s.subrange(0, p).push(c) + s.subrange(p, s.len() as int),
    decreases s.len(),
{
    if s.len() == 0 {
        assert(s.subrange(0, p).push(c) + s.subrange(p, s.len() as int) =~= seq![c]);
    } else if p == s.len() {
        assert(s.subrange(0, p).push(c) + s.subrange(p, s.len() as int) =~= s.push(c));
    } else {
        let t = s.drop_last();
        lemma_insert_at(t, c, p);
        assert(s.subrange(0, p).push(c) + s.subrange(p, s.len() as int) =~= (t.subrange(0, p).push(
            c,
        ) + t.subrange(p, t.len() as int)).push(s.last()));
    }
}

pub proof fn lemma_insert_len(s: Seq<Rgb>, c: Rgb)
    ensures
        insert_by_magnitude(s, c).len() == s.len() + 1,
    decreases s.len(),
{
    if s.len() > 0 {
        lemma_insert_len(s.drop_last(), c);
    }
}

pub proof fn lemma_sort_len(s: Seq<Rgb>)
    ensures
        sort_by_magnitude(s).len() == s.len(),
    decreases s.len(),
{
    if s.len() > 0 {
        lemma_sort_len(s.drop_last());
        lemma_insert_len(sort_by_magnitude(s.drop_last()), s.last());
    }
}

/// Magnitudes never decrease along `s`.
pub open spec fn ordered_by_magnitude(s: Seq<Rgb>) -> bool {
    forall|i: int, j: int| 0 <= i < j < s.len() ==> magnitude(s[i]) <= magnitude(s[j])
}

proof fn lemma_insert_multiset(s: Seq<Rgb>, c: Rgb)
    ensures
        insert_by_magnitude(s, c).to_multiset() =~= s.to_multiset().insert(c),
    decreases s.len(),
{
    broadcast use vstd::seq_lib::group_to_multiset_ensures;

    if s.len() > 0 && magnitude(s.last()) > magnitude(c) {
        let t = s.drop_last();
        lemma_insert_multiset(t, c);
        assert(s =~= t.push(s.last()));
    }
}

proof fn lemma_insert_ordered(s: Seq<Rgb>, c: Rgb)
    requires
        ordered_by_magnitude(s),
    ensures
        ordered_by_magnitude(insert_by_magnitude(s, c)),
    decreases s.len(),
{
    broadcast use vstd::seq_lib::group_to_multiset_ensures;

    if s.len() > 0 && magnitude(s.last()) > magnitude(c) {
        let t = s.drop_last();
        let last = s.last();
        lemma_insert_ordered(t, c);
        lemma_insert_multiset(t, c);
        let r = insert_by_magnitude(t, c);
        assert forall|i: int| 0 <= i < r.len() implies magnitude(#[trigger] r[i]) <= magnitude(
            last,
        ) by {
            assert(r.to_multiset().count(r[i]) > 0);
            if r[i] != c {
                assert(t.contains(r[i]));
                let k = choose|k: int| 0 <= k < t.len() && t[k] == r[i];
                assert(s[k] == t[k]);
            }
        }
        lemma_insert_len(t, c);
    }
}

/// `sort_by_magnitude` sorts: its result holds the same colors, as often,
/// with magnitudes in non-decreasing order.
pub proof fn lemma_sort_by_magnitude(s: Seq<Rgb>)
    ensures
        sort_by_magnitude(s).len() == s.len(),
        sort_by_magnitude(s).to_multiset() =~= s.to_multiset(),
        ordered_by_magnitude(sort_by_magnitude(s)),
    decreases s.len(),
{
    broadcast use vstd::seq_lib::group_to_multiset_ensures;

    lemma_sort_len(s);
    if s.len() > 0 {
        let t = s.drop_last();
        lemma_sort_by_magnitude(t);
        lemma_insert_multiset(sort_by_magnitude(t), s.last());
        lemma_insert_ordered(sort_by_magnitude(t), s.last());
        assert(s =~= t.push(s.last()));
    }
}

/// The median is one of the given colors.
pub proof fn lemma_median_is_given(s: Seq<Rgb>)
    requires
        s.len() > 0,
    ensures
        s.contains(median_of(s)),
{
    broadcast use vstd::seq_lib::group_to_multiset_ensures;

    lemma_sort_by_magnitude(s);
    let r = sort_by_magnitude(s);
    assert(r.to_multiset().count(r[s.len() as int / 2]) > 0);
}

/// The colors stably sorted by magnitude.
pub fn sorted_by_magnitude(colors: &Vec<Rgb>) -> (r: Vec<Rgb>)
    ensures
        r@ == sort_by_magnitude(colors@),
{
    let n: usize = colors.len();
    let mut sorted: Vec<Rgb> = Vec::new();
    let mut keys: Vec<u32> = Vec::new();
    let mut i: usize = 0;
    while i < n
        invariant
            n == colors@.len(),
            i <= n,
            sorted@ == sort_by_magnitude(colors@.subrange(0, i as int)),
            keys@.len() == sorted@.len(),
            forall|j: int| 0 <= j < keys@.len() ==> keys@[j] == magnitude(#[trigger] sorted@[j]),
        decreases n - i,
    {
        proof {
            lemma_sort_len(colors@.subrange(0, i as int));
        }
        let c = colors[i];
        let key = col_len(&c);
        let mut p: usize = sorted.len();
        while p > 0 && keys[p - 1] > key
            invariant
                p <= sorted@.len(),
                keys@.len() == sorted@.len(),
                forall|j: int| 0 <= j < keys@.len() ==> keys@[j] == magnitude(#[trigger] sorted@[j]),
                forall|j: int| p <= j < sorted@.len() ==> magnitude(#[trigger] sorted@[j]) > key,
            decreases p,
        {
            p -= 1;
        }
        proof {
            lemma_insert_at(sorted@, c, p as int);
            let next = colors@.subrange(0, i + 1);
            assert(next.drop_last() =~= colors@.subrange(0, i as int));
            assert(next.last() == c);
        }
        let ghost before_sorted = sorted@;
        let ghost before_keys = keys@;
        sorted.insert(p, c);
        keys.insert(p, key);
        proof {
            assert(sorted@ =~= sort_by_magnitude(colors@.subrange(0, i + 1)));
            assert forall|j: int| 0 <= j < keys@.len() implies keys@[j] == magnitude(
                #[trigger] sorted@[j],
            ) by {
                if j > p {
                    assert(keys@[j] == before_keys[j - 1]);
                    assert(sorted@[j] == before_sorted[j - 1]);
                } else if j < p {
                    assert(keys@[j] == before_keys[j]);
                    assert(sorted@[j] == before_sorted[j]);
                }
            }
        }
        i += 1;
    }
    proof {
        assert(colors@.subrange(0, n as int) =~= colors@);
    }
    sorted
}

/// The median color: the middle one once sorted by magnitude, ties kept in
/// their given order.
pub fn median(colors: &Vec<Rgb>) -> (r: Rgb)
    requires
        colors@.len() > 0,
    ensures
        r == median_of(colors@),
{
    let sorted = sorted_by_magnitude(colors);
    proof {
        lemma_sort_len(colors@);
    }
    sorted[colors.len() / 2]
}

// ---------------------------------------------------------------- mode

/// Number of occurrences of `c` in `s`.
pub open spec fn count_of(s: Seq<Rgb>, c: Rgb) -> nat
    decreases s.len(),
{
    if s.len() == 0 {
        0
    } else {
        count_of(s.drop_last(), c) + if s.last() == c {
            1nat
        } else {
            0nat
        }
    }
}

/// `s[j]` occurs as often as any color of `s`, and `j` is the first position
/// holding a color that occurs that often.
pub open spec fn is_mode_position(s: Seq<Rgb>, j: int) -> bool {
    &&& 0 <= j < s.len()
    &&& forall|i: int| 0 <= i < s.len() ==> count_of(s, #[trigger] s[i]) <= count_of(s, s[j])
    &&& forall|i: int| 0 <= i < j ==> count_of(s, #[trigger] s[i]) < count_of(s, s[j])
}

/// The most frequent color of a non-empty sequence; among equally frequent
/// colors, the one that occurs first.
pub open spec fn mode_of(s: Seq<Rgb>) -> Rgb {
    s[choose|j: int| is_mode_position(s, j)]
}

proof fn lemma_mode_position_unique(s: Seq<Rgb>, j: int, k: int)
    requires
        is_mode_position(s, j),
        is_mode_position(s, k),
    ensures
        j == k,
{
    if j < k {
        assert(count_of(s, s[j]) < count_of(s, s[k]));
    } else if k < j {
        assert(count_of(s, s[k]) < count_of(s, s[j]));
    }
}

/// Number of occurrences of `c` in `colors`.
pub fn count_color(colors: &Vec<Rgb>, c: Rgb) -> (r: usize)
    ensures
        r == count_of(colors@, c),
{
    let n: usize = colors.len();
    let mut count: usize = 0;
    let mut i: usize = 0;
    while i < n
        invariant
            n == colors@.len(),
            i <= n,
            count <= i,
            count == count_of(colors@.subrange(0, i as int), c),
        decreases n - i,
    {
        proof {
            let next = colors@.subrange(0, i + 1);
            assert(next.drop_last() =~= colors@.subrange(0, i as int));
        }
        if colors[i] == c {
            count += 1;
        }
        i += 1;
    }
    proof {
        assert(colors@.subrange(0, n as int) =~= colors@);
    }
    count
}

/// The most frequent color; among equally frequent colors, the one met first.
pub fn mode(colors: &Vec<Rgb>) -> (r: Rgb)
    requires
        colors@.len() > 0,
    ensures
        r == mode_of(colors@),
{
    let n: usize = colors.len();
    let mut best: usize = 0;
    let mut best_count: usize = count_color(colors, colors[0]);
    let mut j: usize = 1;
    while j < n
        invariant
            n == colors@.len(),
            1 <= j <= n,
            best < j,
            best_count == count_of(colors@, colors@[best as int]),
            forall|i: int| 0 <= i < j ==> count_of(colors@, #[trigger] colors@[i]) <= best_count,
            forall|i: int| 0 <= i < best ==> count_of(colors@, #[trigger] colors@[i]) < best_count,
        decreases n - j,
    {
        let count = count_color(colors, colors[j]);
        if count > best_count {
            best = j;
            best_count = count;
        }
        j += 1;
    }
    proof {
        let s = colors@;
        assert(is_mode_position(s, best as int));
        let k = choose|k: int| is_mode_position(s, k);
        lemma_mode_position_unique(s, best as int, k);
    }
    colors[best]
}

/// How `blending` turns the non-empty sequence `s` into one color.
pub open spec fn blend_of(s: Seq<Rgb>, blending: Blending) -> Rgb {
    match blending {
        Blending::Average => average_of(s),
        Blending::Median => median_of(s),
        Blending::Mode => mode_of(s),
    }
}

/// One color for a non-empty set of colors, by the given policy.
pub fn blend(colors: &Vec<Rgb>, blending: Blending) -> (r: Rgb)
    requires
        colors@.len() > 0,
    ensures
        r == blend_of(colors@, blending),
{
    match blending {
        Blending::Average => average(colors),
        Blending::Median => median(colors),
        Blending::Mode => mode(colors),
    }
}

} // verus!

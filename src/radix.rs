use vstd::arithmetic::div_mod::lemma_mod_breakdown;
use vstd::prelude::*;
use vstd::set_lib::{lemma_int_range, lemma_map_size, lemma_subset_equality, set_int_range};

verus! {

/// One element of a sort buffer: a depth key and the splat it belongs to.
#[derive(Clone, Copy, Debug, PartialEq, Eq, Structural)]
pub struct SortEntry {
    pub key: u32,
    pub index: u32,
}

/// Number of values one digit can take.
pub const RADIX_BASE: u32 = 256;

/// Value of the digit of `key` whose place value is `place`.
pub open spec fn digit(key: u32, place: int) -> int {
    (key as int / place) % (RADIX_BASE as int)
}

/// Entries among the first `i` of `s` whose digit equals `d`.
pub open spec fn count_eq(s: Seq<SortEntry>, place: int, i: int, d: int) -> int
    decreases i,
{
    if i <= 0 {
        0
    } else {
        count_eq(s, place, i - 1, d) + if digit(s[i - 1].key, place) == d {
            1int
        } else {
            0int
        }
    }
}

/// Entries among the first `i` of `s` whose digit is below `d`.
pub open spec fn count_lt(s: Seq<SortEntry>, place: int, i: int, d: int) -> int
    decreases i,
{
    if i <= 0 {
        0
    } else {
        count_lt(s, place, i - 1, d) + if digit(s[i - 1].key, place) < d {
            1int
        } else {
            0int
        }
    }
}

/// Where one digit pass puts entry `i` of `s`: after every entry with a
/// smaller digit, and after the earlier entries with the same digit.
pub open spec fn pass_slot(s: Seq<SortEntry>, place: int, i: int) -> int {
    let d = digit(s[i].key, place);
    count_lt(s, place, s.len() as int, d) + count_eq(s, place, i, d)
}

/// `out` holds the entries of `input`, each exactly once: position `p` of
/// `out` holds entry `origin[p]` of `input`.
pub open spec fn is_reordering(out: Seq<SortEntry>, input: Seq<SortEntry>, origin: Seq<int>) -> bool {
    &&& out.len() == input.len()
    &&& origin.len() == input.len()
    &&& forall|p: int|
        0 <= p < out.len() ==> 0 <= #[trigger] origin[p] < input.len() && out[p] == input[origin[p]]
    &&& forall|p: int, q: int| 0 <= p < q < out.len() ==> origin[p] != origin[q]
}

/// The entries are in ascending order of `key % m`, and entries that agree on
/// it keep the order of their origins.
pub open spec fn ordered_below(out: Seq<SortEntry>, origin: Seq<int>, m: int) -> bool {
    forall|p: int, q: int|
        #![trigger out[p], out[q]]
        0 <= p < q < out.len() ==> (out[p].key as int % m < out[q].key as int % m || (out[p].key
            as int % m == out[q].key as int % m && origin[p] < origin[q]))
}

/// `out` is the stable sort of `input` by key: ascending keys, and entries
/// with equal keys in the order they had in `input`.
pub open spec fn is_stable_sort_of(out: Seq<SortEntry>, input: Seq<SortEntry>, origin: Seq<int>) -> bool {
    &&& is_reordering(out, input, origin)
    &&& forall|p: int, q: int|
        #![trigger out[p], out[q]]
        0 <= p < q < out.len() ==> (out[p].key < out[q].key || (out[p].key == out[q].key
            && origin[p] < origin[q]))
}

/// Each entry's index is its position, as key extraction writes them.
pub open spec fn indexed_by_position(s: Seq<SortEntry>) -> bool {
    forall|i: int| 0 <= i < s.len() ==> #[trigger] s[i].index == i
}

/// Sorting entries indexed by position yields a permutation of the
/// positions: every index is below the length, no two are equal, and each
/// output entry is the input entry its index names.
pub proof fn lemma_sort_permutes_indices(out: Seq<SortEntry>, input: Seq<SortEntry>, origin: Seq<int>)
    requires
        is_stable_sort_of(out, input, origin),
        indexed_by_position(input),
    ensures
        forall|p: int| 0 <= p < out.len() ==> #[trigger] out[p].index < out.len(),
        forall|p: int| 0 <= p < out.len() ==> out[p] == input[#[trigger] out[p].index as int],
        forall|p: int, q: int|
            0 <= p < q < out.len() ==> #[trigger] out[p].index != #[trigger] out[q].index,
{
    assert forall|p: int| 0 <= p < out.len() implies #[trigger] out[p].index == origin[p] by {
        assert(0 <= origin[p] < input.len());
        assert(input[origin[p]].index == origin[p]);
    }
}

/// After a sort, each key is at most the next one.
pub proof fn lemma_sort_adjacent_ordered(out: Seq<SortEntry>, input: Seq<SortEntry>, origin: Seq<int>)
    requires
        is_stable_sort_of(out, input, origin),
    ensures
        forall|i: int| 0 <= i < out.len() - 1 ==> #[trigger] out[i].key <= out[i + 1].key,
{
    assert forall|i: int| 0 <= i < out.len() - 1 implies #[trigger] out[i].key <= out[i + 1].key by {
        assert(0 <= i < i + 1 < out.len());
    }
}

/// Sorting entries indexed by position breaks ties by index: of two entries
/// with equal keys, the one with the smaller index comes first.
pub proof fn lemma_sort_ties_by_index(out: Seq<SortEntry>, input: Seq<SortEntry>, origin: Seq<int>)
    requires
        is_stable_sort_of(out, input, origin),
        indexed_by_position(input),
    ensures
        forall|p: int, q: int|
            0 <= p < out.len() && 0 <= q < out.len() && #[trigger] out[p].key == #[trigger] out[q].key
                && out[p].index < out[q].index ==> p < q,
{
    lemma_sort_permutes_indices(out, input, origin);
    assert forall|p: int, q: int|
        0 <= p < out.len() && 0 <= q < out.len() && #[trigger] out[p].key == #[trigger] out[q].key
            && out[p].index < out[q].index implies p < q by {
        assert(out[p].index == origin[p]) by {
            assert(input[origin[p]].index == origin[p]);
        }
        assert(out[q].index == origin[q]) by {
            assert(input[origin[q]].index == origin[q]);
        }
    }
}

/// Keys never decrease along `s`.
pub open spec fn keys_ascending(s: Seq<SortEntry>) -> bool {
    forall|p: int, q: int| 0 <= p < q < s.len() ==> #[trigger] s[p].key <= #[trigger] s[q].key
}

proof fn lemma_increasing_is_identity(g: Seq<int>, p: int)
    requires
        forall|i: int| 0 <= i < g.len() ==> 0 <= #[trigger] g[i] < g.len(),
        forall|i: int, j: int| 0 <= i < j < g.len() ==> #[trigger] g[i] < #[trigger] g[j],
        0 <= p < g.len(),
    ensures
        g[p] == p,
{
    lemma_increasing_above(g, p);
    lemma_increasing_below(g, p);
}

proof fn lemma_increasing_above(g: Seq<int>, p: int)
    requires
        forall|i: int| 0 <= i < g.len() ==> 0 <= #[trigger] g[i] < g.len(),
        forall|i: int, j: int| 0 <= i < j < g.len() ==> #[trigger] g[i] < #[trigger] g[j],
        0 <= p < g.len(),
    ensures
        g[p] >= p,
    decreases p,
{
    if p > 0 {
        lemma_increasing_above(g, p - 1);
        assert(g[p - 1] < g[p]);
    }
}

proof fn lemma_increasing_below(g: Seq<int>, p: int)
    requires
        forall|i: int| 0 <= i < g.len() ==> 0 <= #[trigger] g[i] < g.len(),
        forall|i: int, j: int| 0 <= i < j < g.len() ==> #[trigger] g[i] < #[trigger] g[j],
        0 <= p < g.len(),
    ensures
        g[p] <= p,
    decreases g.len() - p,
{
    if p < g.len() - 1 {
        lemma_increasing_below(g, p + 1);
        assert(g[p] < g[p + 1]);
    }
}

/// Sorting entries whose keys already ascend gives them back unchanged.
pub proof fn lemma_sort_idempotent(out: Seq<SortEntry>, input: Seq<SortEntry>, origin: Seq<int>)
    requires
        is_stable_sort_of(out, input, origin),
        keys_ascending(input),
    ensures
        out == input,
{
    let n = out.len() as int;
    assert forall|i: int, j: int| 0 <= i < j < n implies #[trigger] origin[i] < #[trigger] origin[j] by {
        assert(out[i] == input[origin[i]]);
        assert(out[j] == input[origin[j]]);
        if origin[j] < origin[i] {
            assert(input[origin[j]].key <= input[origin[i]].key);
        }
    }
    assert forall|p: int| 0 <= p < n implies out[p] == input[p] by {
        lemma_increasing_is_identity(origin, p);
    }
    assert(out =~= input);
}

/// Entry `i` of `input` goes before entry `j` in its stable sort.
pub open spec fn sorts_before(input: Seq<SortEntry>, i: int, j: int) -> bool {
    input[i].key < input[j].key || (input[i].key == input[j].key && i < j)
}

proof fn lemma_origins_ascend(out: Seq<SortEntry>, input: Seq<SortEntry>, origin: Seq<int>)
    requires
        is_stable_sort_of(out, input, origin),
    ensures
        forall|p: int, q: int|
            0 <= p < q < out.len() ==> sorts_before(input, #[trigger] origin[p], #[trigger] origin[q]),
{
    assert forall|p: int, q: int| 0 <= p < q < out.len() implies sorts_before(
        input,
        #[trigger] origin[p],
        #[trigger] origin[q],
    ) by {
        assert(out[p] == input[origin[p]]);
        assert(out[q] == input[origin[q]]);
    }
}

/// Where `v` stands in `g`.
pub open spec fn position_of(g: Seq<int>, v: int) -> int {
    choose|p: int| 0 <= p < g.len() && g[p] == v
}

/// A sequence of distinct positions of `0 .. len` names every position.
proof fn lemma_distinct_positions_cover(g: Seq<int>)
    requires
        forall|p: int| 0 <= p < g.len() ==> 0 <= #[trigger] g[p] < g.len(),
        forall|p: int, q: int| 0 <= p < q < g.len() ==> g[p] != g[q],
    ensures
        forall|v: int|
            0 <= v < g.len() ==> 0 <= #[trigger] position_of(g, v) < g.len() && g[position_of(g, v)]
                == v,
{
    let n = g.len() as int;
    let range = set_int_range(0, n);
    let f = |p: int| g[p];
    let image = range.map(f);
    lemma_int_range(0, n);
    assert forall|i: int, j: int|
        range.contains(i) && range.contains(j) && #[trigger] f(i) == #[trigger] f(j) implies i
        == j by {
        if i < j {
            assert(g[i] != g[j]);
        } else if j < i {
            assert(g[j] != g[i]);
        }
    }
    lemma_map_size(range, image, f);
    assert forall|v: int| image.contains(v) implies range.contains(v) by {
        let i = choose|i: int| range.contains(i) && f(i) == v;
    }
    lemma_subset_equality(image, range);
    assert forall|v: int| 0 <= v < n implies 0 <= #[trigger] position_of(g, v) < n
        && g[position_of(g, v)] == v by {
        assert(range.contains(v));
        assert(image.contains(v));
    }
}

proof fn lemma_same_origins(
    input: Seq<SortEntry>,
    o1: Seq<SortEntry>,
    g1: Seq<int>,
    o2: Seq<SortEntry>,
    g2: Seq<int>,
    p: int,
)
    requires
        is_stable_sort_of(o1, input, g1),
        is_stable_sort_of(o2, input, g2),
        0 <= p <= input.len(),
    ensures
        forall|k: int| 0 <= k < p ==> #[trigger] g1[k] == g2[k],
    decreases p,
{
    if p > 0 {
        lemma_same_origins(input, o1, g1, o2, g2, p - 1);
        lemma_origins_ascend(o1, input, g1);
        lemma_origins_ascend(o2, input, g2);
        lemma_distinct_positions_cover(g1);
        lemma_distinct_positions_cover(g2);
        let k = p - 1;
        let a = g1[k];
        let b = g2[k];
        assert(0 <= a < input.len());
        assert(0 <= b < input.len());
        if a != b {
            if sorts_before(input, a, b) {
                let q = position_of(g2, a);
                if q < k {
                    assert(g1[q] == g2[q]);
                } else {
                    assert(sorts_before(input, g2[k], g2[q]));
                }
            } else {
                let q = position_of(g1, b);
                if q < k {
                    assert(g1[q] == g2[q]);
                } else {
                    assert(sorts_before(input, g1[k], g1[q]));
                }
            }
        }
    }
}

/// The stable sort is unique: two stable sorts of the same entries are the
/// same sequence, with the same origins.
pub proof fn lemma_stable_sort_unique(
    input: Seq<SortEntry>,
    o1: Seq<SortEntry>,
    g1: Seq<int>,
    o2: Seq<SortEntry>,
    g2: Seq<int>,
)
    requires
        is_stable_sort_of(o1, input, g1),
        is_stable_sort_of(o2, input, g2),
    ensures
        o1 == o2,
        g1 == g2,
{
    lemma_same_origins(input, o1, g1, o2, g2, input.len() as int);
    assert(g1 =~= g2);
    assert forall|p: int| 0 <= p < o1.len() implies o1[p] == o2[p] by {
        assert(o1[p] == input[g1[p]]);
        assert(o2[p] == input[g2[p]]);
    }
    assert(o1 =~= o2);
}

proof fn lemma_digit_range(key: u32, place: int)
    requires
        place > 0,
    ensures
        0 <= digit(key, place) < RADIX_BASE,
{
}

proof fn lemma_count_lt_step(s: Seq<SortEntry>, place: int, i: int, d: int)
    requires
        0 <= i <= s.len(),
    ensures
        count_lt(s, place, i, d + 1) == count_lt(s, place, i, d) + count_eq(s, place, i, d),
    decreases i,
{
    if i > 0 {
        lemma_count_lt_step(s, place, i - 1, d);
    }
}

proof fn lemma_count_lt_mono(s: Seq<SortEntry>, place: int, i: int, d1: int, d2: int)
    requires
        0 <= i <= s.len(),
        d1 <= d2,
    ensures
        count_lt(s, place, i, d1) <= count_lt(s, place, i, d2),
    decreases i,
{
    if i > 0 {
        lemma_count_lt_mono(s, place, i - 1, d1, d2);
    }
}

proof fn lemma_count_lt_all(s: Seq<SortEntry>, place: int, i: int)
    requires
        0 <= i <= s.len(),
        place > 0,
    ensures
        count_lt(s, place, i, RADIX_BASE as int) == i,
        count_lt(s, place, i, 0) == 0,
    decreases i,
{
    if i > 0 {
        lemma_digit_range(s[i - 1].key, place);
        lemma_count_lt_all(s, place, i - 1);
    }
}

proof fn lemma_count_eq_mono(s: Seq<SortEntry>, place: int, i: int, j: int, d: int)
    requires
        0 <= i <= j <= s.len(),
    ensures
        count_eq(s, place, i, d) <= count_eq(s, place, j, d),
    decreases j,
{
    if i < j {
        lemma_count_eq_mono(s, place, i, j - 1, d);
    }
}

/// The count of one digit is bounded by the prefix length.
proof fn lemma_count_eq_bound(s: Seq<SortEntry>, place: int, i: int, d: int)
    requires
        0 <= i <= s.len(),
        0 <= d < RADIX_BASE,
        place > 0,
    ensures
        0 <= count_eq(s, place, i, d),
        count_eq(s, place, i, d) <= i,
        0 <= count_lt(s, place, i, d) <= i,
{
    lemma_count_lt_step(s, place, i, d);
    lemma_count_lt_mono(s, place, i, 0, d);
    lemma_count_lt_mono(s, place, i, d, d + 1);
    lemma_count_lt_mono(s, place, i, d + 1, RADIX_BASE as int);
    lemma_count_lt_all(s, place, i);
}

/// The slot of entry `i` lies inside the bucket of its digit.
proof fn lemma_slot_bounds(s: Seq<SortEntry>, place: int, i: int)
    requires
        0 <= i < s.len(),
        place > 0,
    ensures
        count_lt(s, place, s.len() as int, digit(s[i].key, place)) <= pass_slot(s, place, i),
        pass_slot(s, place, i) < count_lt(s, place, s.len() as int, digit(s[i].key, place) + 1),
        0 <= pass_slot(s, place, i) < s.len(),
{
    let n = s.len() as int;
    let d = digit(s[i].key, place);
    lemma_digit_range(s[i].key, place);
    lemma_count_eq_bound(s, place, i, d);
    lemma_count_eq_mono(s, place, i + 1, n, d);
    lemma_count_lt_step(s, place, n, d);
    lemma_count_lt_mono(s, place, n, 0, d);
    lemma_count_lt_mono(s, place, n, d + 1, RADIX_BASE as int);
    lemma_count_lt_all(s, place, n);
}

/// Slots increase with the digit, and with the position among equal digits.
proof fn lemma_slot_order(s: Seq<SortEntry>, place: int, i: int, j: int)
    requires
        0 <= i < s.len(),
        0 <= j < s.len(),
        place > 0,
        digit(s[i].key, place) < digit(s[j].key, place) || (digit(s[i].key, place) == digit(
            s[j].key,
            place,
        ) && i < j),
    ensures
        pass_slot(s, place, i) < pass_slot(s, place, j),
{
    let n = s.len() as int;
    let di = digit(s[i].key, place);
    let dj = digit(s[j].key, place);
    lemma_slot_bounds(s, place, i);
    lemma_slot_bounds(s, place, j);
    if di < dj {
        lemma_count_lt_mono(s, place, n, di + 1, dj);
    } else {
        lemma_count_eq_mono(s, place, i + 1, j, di);
    }
}

proof fn lemma_slot_injective(s: Seq<SortEntry>, place: int, i: int, j: int)
    requires
        0 <= i < s.len(),
        0 <= j < s.len(),
        i != j,
        place > 0,
    ensures
        pass_slot(s, place, i) != pass_slot(s, place, j),
{
    let di = digit(s[i].key, place);
    let dj = digit(s[j].key, place);
    if di < dj || (di == dj && i < j) {
        lemma_slot_order(s, place, i, j);
    } else {
        lemma_slot_order(s, place, j, i);
    }
}

/// The entry of `s` that one digit pass moves to position `p`.
pub open spec fn pass_source(s: Seq<SortEntry>, place: int, p: int) -> int {
    choose|i: int| 0 <= i < s.len() && pass_slot(s, place, i) == p
}

/// Every position of the output is the slot of some entry.
proof fn lemma_slots_cover(s: Seq<SortEntry>, place: int)
    requires
        place > 0,
    ensures
        forall|p: int|
            0 <= p < s.len() ==> 0 <= #[trigger] pass_source(s, place, p) < s.len() && pass_slot(
                s,
                place,
                pass_source(s, place, p),
            ) == p,
{
    let n = s.len() as int;
    let slots = Seq::new(s.len(), |i: int| pass_slot(s, place, i));
    assert forall|i: int| 0 <= i < n implies 0 <= #[trigger] slots[i] < n by {
        lemma_slot_bounds(s, place, i);
    }
    assert forall|i: int, j: int| 0 <= i < j < n implies slots[i] != slots[j] by {
        lemma_slot_injective(s, place, i, j);
    }
    lemma_distinct_positions_cover(slots);
    assert forall|p: int| 0 <= p < n implies 0 <= #[trigger] pass_source(s, place, p) < n
        && pass_slot(s, place, pass_source(s, place, p)) == p by {
        let i = position_of(slots, p);
        assert(0 <= i < n && pass_slot(s, place, i) == p);
    }
}

/// Where a digit pass puts the entries' origins.
pub open spec fn pass_origin(s: Seq<SortEntry>, origin: Seq<int>, place: int) -> Seq<int> {
    Seq::new(s.len(), |p: int| origin[pass_source(s, place, p)])
}

/// A digit pass over entries ordered by their lower digits leaves them
/// ordered by one more digit, and still holds each input entry once.
pub(crate) proof fn lemma_pass_step(
    s: Seq<SortEntry>,
    o: Seq<SortEntry>,
    input: Seq<SortEntry>,
    origin: Seq<int>,
    place: int,
)
    requires
        place > 0,
        o.len() == s.len(),
        forall|i: int| 0 <= i < s.len() ==> o[#[trigger] pass_slot(s, place, i)] == s[i],
        is_reordering(s, input, origin),
        ordered_below(s, origin, place),
    ensures
        is_reordering(o, input, pass_origin(s, origin, place)),
        ordered_below(o, pass_origin(s, origin, place), place * RADIX_BASE),
{
    let n = s.len() as int;
    let no = pass_origin(s, origin, place);
    lemma_slots_cover(s, place);
    assert forall|p: int| 0 <= p < n implies o[p] == s[#[trigger] pass_source(s, place, p)] by {
        let i = pass_source(s, place, p);
        assert(o[pass_slot(s, place, i)] == s[i]);
    }
    assert forall|p: int| 0 <= p < n implies 0 <= #[trigger] no[p] < input.len() && o[p]
        == input[no[p]] by {
        let i = pass_source(s, place, p);
        assert(0 <= origin[i]);
    }
    assert forall|p: int, q: int| 0 <= p < q < n implies no[p] != no[q] by {
        let i = pass_source(s, place, p);
        let j = pass_source(s, place, q);
        assert(i != j);
        assert(0 <= origin[i]);
        assert(0 <= origin[j]);
    }
    assert forall|p: int, q: int| 0 <= p < q < n implies (o[p].key as int % (place * RADIX_BASE)
        < #[trigger] o[q].key as int % (place * RADIX_BASE) || (#[trigger] o[p].key as int % (
    place * RADIX_BASE) == o[q].key as int % (place * RADIX_BASE) && no[p] < no[q])) by {
        let i = pass_source(s, place, p);
        let j = pass_source(s, place, q);
        let di = digit(s[i].key, place);
        let dj = digit(s[j].key, place);
        if dj < di || (dj == di && j < i) {
            lemma_slot_order(s, place, j, i);
        }
        assert(o[p] == s[i]);
        assert(o[q] == s[j]);
        let ki = s[i].key as int;
        let kj = s[j].key as int;
        lemma_mod_breakdown(ki, place, RADIX_BASE as int);
        lemma_mod_breakdown(kj, place, RADIX_BASE as int);
        let ri = ki % place;
        let rj = kj % place;
        if di < dj {
            assert(place * di + ri < place * dj + rj) by (nonlinear_arith)
                requires
                    di < dj,
                    0 <= ri < place,
                    0 <= rj,
            ;
        } else {
            assert(i < j);
        }
    }
}

/// A copy of one row of counters.
fn copy_counters(row: &Vec<usize>) -> (r: Vec<usize>)
    ensures
        r@ == row@,
{
    let mut r: Vec<usize> = Vec::new();
    let mut i: usize = 0;
    while i < row.len()
        invariant
            i <= row@.len(),
            r@ == row@.take(i as int),
        decreases row@.len() - i,
    {
        r.push(row[i]);
        i += 1;
        assert(r@ =~= row@.take(i as int));
    }
    assert(r@ =~= row@);
    r
}

/// Start of the tile that follows a tile starting at `start`: `tile_entries`
/// further, or the end of the entries.
pub open spec fn next_tile_start(start: int, tile_entries: int, n: int) -> int {
    if n - start > tile_entries {
        start + tile_entries
    } else {
        n
    }
}

/// One digit pass: scatters `src` into `dst`, each entry at its slot.
///
/// The entries are cut into tiles of `tile_entries`. A histogram of the
/// whole buffer gives each digit's global offset. The status counters hold,
/// for each tile and digit, the entries of that digit in all earlier tiles:
/// the running totals a tile obtains by looking back at the tiles before
/// it. Each tile then scatters its entries, in order, to the global offset
/// of their digit plus the tile's look-back total plus their rank inside
/// the tile.
pub(crate) fn scatter_pass(src: &Vec<SortEntry>, dst: &mut Vec<SortEntry>, place: u32, tile_entries: usize)
    requires
        old(dst)@.len() == src@.len(),
        place > 0,
        tile_entries > 0,
    ensures
        final(dst)@.len() == src@.len(),
        forall|i: int|
            0 <= i < src@.len() ==> final(dst)@[#[trigger] pass_slot(src@, place as int, i)]
                == src@[i],
{
    let n = src.len();
    let ghost s = src@;
    let ghost pl = place as int;
    let ghost te = tile_entries as int;
    let mut zeros: Vec<usize> = Vec::new();
    let mut d: usize = 0;
    while d < RADIX_BASE as usize
        invariant
            d <= RADIX_BASE,
            zeros@.len() == d,
            forall|e: int| 0 <= e < d ==> zeros@[e] == 0,
        decreases RADIX_BASE - d,
    {
        zeros.push(0);
        d += 1;
    }
    // Histogram of the whole buffer, gathered tile by tile; before each
    // tile, the running totals are published as that tile's status row.
    let mut running = copy_counters(&zeros);
    let mut status: Vec<Vec<usize>> = Vec::new();
    let ghost mut starts: Seq<int> = seq![];
    let mut tile_start: usize = 0;
    while tile_start < n
        invariant
            n == s.len(),
            s == src@,
            pl == place as int,
            te == tile_entries as int,
            place > 0,
            tile_entries > 0,
            tile_start <= n,
            running@.len() == RADIX_BASE,
            forall|e: int|
                0 <= e < RADIX_BASE ==> running@[e] == count_eq(s, pl, tile_start as int, e),
            status@.len() == starts.len(),
            forall|t: int|
                0 <= t < status@.len() ==> (#[trigger] status@[t])@.len() == RADIX_BASE
                    && forall|e: int|
                    0 <= e < RADIX_BASE ==> status@[t]@[e] == count_eq(s, pl, starts[t], e),
            forall|t: int| 0 <= t < starts.len() ==> 0 <= #[trigger] starts[t] < n,
            forall|t: int|
                0 <= t < starts.len() - 1 ==> #[trigger] starts[t + 1] == next_tile_start(
                    starts[t],
                    te,
                    n as int,
                ),
            starts.len() > 0 ==> starts[0] == 0,
            starts.len() == 0 ==> tile_start == 0,
            starts.len() > 0 ==> tile_start == next_tile_start(starts.last(), te, n as int),
        decreases n - tile_start,
    {
        let row = copy_counters(&running);
        status.push(row);
        proof {
            starts = starts.push(tile_start as int);
        }
        let end = if n - tile_start > tile_entries {
            tile_start + tile_entries
        } else {
            n
        };
        let mut i = tile_start;
        while i < end
            invariant
                n == s.len(),
                s == src@,
                pl == place as int,
                place > 0,
                tile_start <= i <= end <= n,
                running@.len() == RADIX_BASE,
                forall|e: int| 0 <= e < RADIX_BASE ==> running@[e] == count_eq(s, pl, i as int, e),
            decreases end - i,
        {
            let dg = ((src[i].key / place) % RADIX_BASE) as usize;
            proof {
                lemma_count_eq_bound(s, pl, i as int, dg as int);
            }
            let c = running[dg];
            running.set(dg, c + 1);
            i += 1;
        }
        tile_start = end;
    }
    // Global offset of each digit: the entries with a smaller digit.
    let mut offsets: Vec<usize> = Vec::new();
    let mut total: usize = 0;
    let mut e: usize = 0;
    proof {
        lemma_count_lt_all(s, pl, n as int);
    }
    while e < RADIX_BASE as usize
        invariant
            n == s.len(),
            pl > 0,
            tile_start == n,
            e <= RADIX_BASE,
            running@.len() == RADIX_BASE,
            forall|f: int| 0 <= f < RADIX_BASE ==> running@[f] == count_eq(s, pl, n as int, f),
            offsets@.len() == e,
            total == count_lt(s, pl, n as int, e as int),
            forall|f: int| 0 <= f < e ==> offsets@[f] == count_lt(s, pl, n as int, f),
        decreases RADIX_BASE - e,
    {
        proof {
            lemma_count_lt_step(s, pl, n as int, e as int);
            lemma_count_eq_bound(s, pl, n as int, e as int);
            lemma_count_lt_mono(s, pl, n as int, e as int + 1, RADIX_BASE as int);
            lemma_count_lt_all(s, pl, n as int);
        }
        offsets.push(total);
        total = total + running[e];
        e += 1;
    }
    // Scatter, tile by tile.
    let num_tiles = status.len();
    let mut t: usize = 0;
    tile_start = 0;
    while tile_start < n
        invariant
            n == s.len(),
            s == src@,
            pl == place as int,
            te == tile_entries as int,
            place > 0,
            tile_entries > 0,
            tile_start <= n,
            dst@.len() == n,
            offsets@.len() == RADIX_BASE,
            forall|f: int| 0 <= f < RADIX_BASE ==> offsets@[f] == count_lt(s, pl, n as int, f),
            status@.len() == starts.len(),
            forall|u: int|
                0 <= u < status@.len() ==> (#[trigger] status@[u])@.len() == RADIX_BASE
                    && forall|e: int|
                    0 <= e < RADIX_BASE ==> status@[u]@[e] == count_eq(s, pl, starts[u], e),
            forall|u: int| 0 <= u < starts.len() ==> 0 <= #[trigger] starts[u] < n,
            forall|u: int|
                0 <= u < starts.len() - 1 ==> #[trigger] starts[u + 1] == next_tile_start(
                    starts[u],
                    te,
                    n as int,
                ),
            starts.len() > 0 ==> next_tile_start(starts.last(), te, n as int) == n,
            starts.len() == 0 ==> n == 0,
            starts.len() > 0 ==> starts[0] == 0,
            num_tiles == starts.len(),
            t <= starts.len(),
            t < starts.len() ==> tile_start == starts[t as int],
            t == starts.len() ==> tile_start == n,
            forall|j: int| 0 <= j < tile_start ==> dst@[#[trigger] pass_slot(s, pl, j)] == s[j],
        decreases n - tile_start,
    {
        let mut local = copy_counters(&status[t]);
        let end = if n - tile_start > tile_entries {
            tile_start + tile_entries
        } else {
            n
        };
        assert(t + 1 < starts.len() ==> end == starts[t + 1]);
        let mut i = tile_start;
        while i < end
            invariant
                n == s.len(),
                s == src@,
                pl == place as int,
                place > 0,
                tile_start <= i <= end <= n,
                dst@.len() == n,
                offsets@.len() == RADIX_BASE,
                forall|f: int| 0 <= f < RADIX_BASE ==> offsets@[f] == count_lt(s, pl, n as int, f),
                local@.len() == RADIX_BASE,
                forall|f: int| 0 <= f < RADIX_BASE ==> local@[f] == count_eq(s, pl, i as int, f),
                forall|j: int| 0 <= j < i ==> dst@[#[trigger] pass_slot(s, pl, j)] == s[j],
            decreases end - i,
        {
            let entry = src[i];
            let dg = ((entry.key / place) % RADIX_BASE) as usize;
            proof {
                lemma_slot_bounds(s, pl, i as int);
                lemma_count_eq_bound(s, pl, i as int, dg as int);
                assert forall|j: int| 0 <= j < i implies #[trigger] pass_slot(s, pl, j) != pass_slot(
                    s,
                    pl,
                    i as int,
                ) by {
                    lemma_slot_injective(s, pl, j, i as int);
                }
            }
            let slot = offsets[dg] + local[dg];
            assert(slot == pass_slot(s, pl, i as int));
            let ghost before = dst@;
            dst.set(slot, entry);
            proof {
                assert forall|j: int| 0 <= j < i + 1 implies dst@[#[trigger] pass_slot(s, pl, j)]
                    == s[j] by {
                    if j < i {
                        lemma_slot_bounds(s, pl, j);
                        assert(before[pass_slot(s, pl, j)] == s[j]);
                    }
                }
            }
            let c = local[dg];
            local.set(dg, c + 1);
            i += 1;
        }
        t += 1;
        tile_start = end;
    }
}

} // verus!

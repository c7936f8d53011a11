//! Abstract model of the buddy heap.
//!
//! A block is a pair `(level, index)`. The arena is one block at level 0;
//! a block at level `l` covers the byte offsets
//! `[index * block_bytes(l), (index + 1) * block_bytes(l))` of the arena.
//! The state of the heap is a free list per level plus the sequence of live
//! (handed-out) blocks. The invariants below say that the free and live
//! blocks together tile the arena exactly.

use vstd::arithmetic::power2::{lemma_pow2_adds, lemma_pow2_pos, lemma_pow2_unfold, pow2};
use vstd::prelude::*;

verus! {

/// Number of times the arena can be halved; level `NUM_LEVELS` holds the
/// leaf blocks.
pub const NUM_LEVELS: usize = 18;

/// Size in bytes of a leaf block.
pub const BLOCK_SIZE: usize = 4096;

/// log2 of the arena size.
pub const ARENA_SHIFT: usize = 30;

/// Size in bytes of the arena (`BLOCK_SIZE << NUM_LEVELS`).
pub const ARENA_SIZE: usize = 0x4000_0000;

/// A block of the arena: `(level, index at that level)`.
pub type Block = (int, int);

/// Size in bytes of a block at `level`.
pub open spec fn block_bytes(level: int) -> int {
    pow2((ARENA_SHIFT - level) as nat) as int
}

/// First arena offset covered by a block.
pub open spec fn block_lo(b: Block) -> int {
    b.1 * block_bytes(b.0)
}

/// First arena offset past a block.
pub open spec fn block_hi(b: Block) -> int {
    (b.1 + 1) * block_bytes(b.0)
}

/// A block that exists in the arena.
pub open spec fn valid_block(b: Block) -> bool {
    0 <= b.0 <= NUM_LEVELS && 0 <= b.1 < pow2(b.0 as nat)
}

/// The index of the sibling block that shares a parent with block `i`.
pub open spec fn buddy_of(i: int) -> int {
    if i % 2 == 0 {
        i + 1
    } else {
        i - 1
    }
}

/// Two blocks whose byte spans do not intersect.
pub open spec fn spans_disjoint(a: Block, b: Block) -> bool {
    block_hi(a) <= block_lo(b) || block_hi(b) <= block_lo(a)
}

/// Block `b` is on the free list of its level.
pub open spec fn is_free(fl: Seq<Seq<u32>>, b: Block) -> bool {
    valid_block(b) && fl[b.0].contains(b.1 as u32)
}

/// Block `b` is either free or live.
pub open spec fn is_block(fl: Seq<Seq<u32>>, live: Seq<Block>, b: Block) -> bool {
    is_free(fl, b) || live.contains(b)
}

/// The free list of one level: no repeated index, every index in range.
pub open spec fn level_well_formed(s: Seq<u32>, l: int) -> bool {
    &&& s.no_duplicates()
    &&& forall|k: int| 0 <= k < s.len() ==> (#[trigger] s[k] as int) < pow2(l as nat)
}

/// One free list per level, each well formed.
pub open spec fn lists_well_formed(fl: Seq<Seq<u32>>) -> bool {
    &&& fl.len() == NUM_LEVELS + 1
    &&& forall|l: int| 0 <= l <= NUM_LEVELS ==> #[trigger] level_well_formed(fl[l], l)
}

/// Live blocks are distinct, exist, and are not free.
pub open spec fn live_well_formed(fl: Seq<Seq<u32>>, live: Seq<Block>) -> bool {
    &&& live.no_duplicates()
    &&& forall|k: int|
        0 <= k < live.len() ==> valid_block(#[trigger] live[k]) && !is_free(fl, live[k])
}

/// No two distinct blocks (free or live) share a byte.
pub open spec fn blocks_disjoint(fl: Seq<Seq<u32>>, live: Seq<Block>) -> bool {
    forall|a: Block, b: Block|
        #[trigger] is_block(fl, live, a) && #[trigger] is_block(fl, live, b) && a != b
            ==> spans_disjoint(a, b)
}

/// Some free or live block covers arena offset `x`.
pub open spec fn offset_covered(fl: Seq<Seq<u32>>, live: Seq<Block>, x: int) -> bool {
    exists|b: Block| #[trigger] is_block(fl, live, b) && block_lo(b) <= x < block_hi(b)
}

/// Every arena offset is covered by a free or live block.
pub open spec fn arena_covered(fl: Seq<Seq<u32>>, live: Seq<Block>) -> bool {
    forall|x: int| 0 <= x < ARENA_SIZE ==> #[trigger] offset_covered(fl, live, x)
}

/// No level above the root holds a block and its buddy, except possibly the
/// pair formed by `(l0, i0)` and its buddy.
pub open spec fn buddies_apart_except(fl: Seq<Seq<u32>>, l0: int, i0: int) -> bool {
    forall|l: int, i: int|
        1 <= l && #[trigger] is_free(fl, (l, i)) && is_free(fl, (l, buddy_of(i))) ==> l == l0 && (
        i == i0 || i == buddy_of(i0))
}

/// No level above the root holds a block together with its buddy.
pub open spec fn buddies_apart(fl: Seq<Seq<u32>>) -> bool {
    forall|l: int, i: int|
        1 <= l && #[trigger] is_free(fl, (l, i)) ==> !is_free(fl, (l, buddy_of(i)))
}

/// Bytes held on the free lists of levels `0 .. n`.
pub open spec fn free_bytes(fl: Seq<Seq<u32>>, n: int) -> int
    decreases n,
{
    if n <= 0 {
        0
    } else {
        free_bytes(fl, n - 1) + fl[n - 1].len() * block_bytes(n - 1)
    }
}

/// Bytes held by the live blocks.
pub open spec fn live_bytes(live: Seq<Block>) -> int
    decreases live.len(),
{
    if live.len() == 0 {
        0
    } else {
        live_bytes(live.drop_last()) + block_bytes(live.last().0)
    }
}

/// Everything the heap guarantees except the merge rule.
pub open spec fn tiling(fl: Seq<Seq<u32>>, live: Seq<Block>) -> bool {
    &&& lists_well_formed(fl)
    &&& live_well_formed(fl, live)
    &&& blocks_disjoint(fl, live)
    &&& arena_covered(fl, live)
    &&& free_bytes(fl, NUM_LEVELS + 1) + live_bytes(live) == ARENA_SIZE
}

/// A consistent heap state.
pub open spec fn heap_state(fl: Seq<Seq<u32>>, live: Seq<Block>) -> bool {
    tiling(fl, live) && buddies_apart(fl)
}

/// The free lists of a heap in which nothing has been handed out: one block
/// at level 0, every other list empty.
pub open spec fn pristine_lists() -> Seq<Seq<u32>> {
    Seq::new((NUM_LEVELS + 1) as nat, |l: int| if l == 0 { seq![0u32] } else { Seq::empty() })
}

// ---------------------------------------------------------------------------
// Arithmetic on block spans
// ---------------------------------------------------------------------------

pub proof fn lemma_block_bytes(l: int)
    requires
        0 <= l <= NUM_LEVELS,
    ensures
        block_bytes(l) >= BLOCK_SIZE,
        block_bytes(l) * pow2(l as nat) == ARENA_SIZE,
        1 <= pow2(l as nat) <= 0x4_0000,
        l >= 1 ==> pow2(l as nat) == 2 * pow2((l - 1) as nat),
        l >= 1 ==> block_bytes(l - 1) == 2 * block_bytes(l),
{
    lemma_pow2_adds((ARENA_SHIFT - l) as nat, l as nat);
    lemma_pow2_adds(12, (ARENA_SHIFT - l - 12) as nat);
    lemma_pow2_pos((ARENA_SHIFT - l - 12) as nat);
    vstd::arithmetic::power2::lemma2_to64();
    vstd::arithmetic::power2::lemma2_to64_rest();
    assert(pow2(12) * pow2((ARENA_SHIFT - l - 12) as nat) >= pow2(12)) by (nonlinear_arith)
        requires
            pow2((ARENA_SHIFT - l - 12) as nat) >= 1,
    ;
    if l >= 1 {
        lemma_pow2_unfold((ARENA_SHIFT - l + 1) as nat);
        lemma_pow2_unfold(l as nat);
    }
    lemma_pow2_pos(l as nat);
    let b = block_bytes(l);
    let n = pow2(l as nat) as int;
    assert(n <= 0x4_0000) by (nonlinear_arith)
        requires
            b * n == 0x4000_0000,
            b >= 4096,
            n >= 1,
    ;
}

pub proof fn lemma_valid_block_span(b: Block)
    requires
        valid_block(b),
    ensures
        0 <= block_lo(b) < block_hi(b) <= ARENA_SIZE,
        block_hi(b) == block_lo(b) + block_bytes(b.0),
{
    lemma_block_bytes(b.0);
    let s = block_bytes(b.0);
    let n = pow2(b.0 as nat) as int;
    assert(0 <= b.1 * s < (b.1 + 1) * s <= n * s) by (nonlinear_arith)
        requires
            0 <= b.1 < n,
            s > 0,
    ;
    assert((b.1 + 1) * s == b.1 * s + s) by (nonlinear_arith);
}

/// The two halves of block `(l - 1, c)` are `(l, 2c)` and `(l, 2c + 1)`.
pub proof fn lemma_children_spans(l: int, c: int)
    requires
        1 <= l <= NUM_LEVELS,
    ensures
        block_lo((l, 2 * c)) == block_lo((l - 1, c)),
        block_hi((l, 2 * c)) == block_lo((l, 2 * c + 1)),
        block_hi((l, 2 * c + 1)) == block_hi((l - 1, c)),
        block_lo((l, 2 * c)) < block_hi((l, 2 * c)),
        block_lo((l, 2 * c + 1)) < block_hi((l, 2 * c + 1)),
{
    lemma_block_bytes(l);
    let s = block_bytes(l);
    assert((2 * c) * s == c * (2 * s)) by (nonlinear_arith);
    assert((2 * c + 2) * s == (c + 1) * (2 * s)) by (nonlinear_arith);
    assert((2 * c + 1) * s == 2 * c * s + s) by (nonlinear_arith);
    assert((2 * c + 2) * s == (2 * c + 1) * s + s) by (nonlinear_arith);
}

/// A block lies inside its parent's span.
pub proof fn lemma_parent_span(l: int, i: int)
    requires
        1 <= l <= NUM_LEVELS,
        0 <= i,
    ensures
        block_lo((l - 1, i / 2)) <= block_lo((l, i)),
        block_hi((l, i)) <= block_hi((l - 1, i / 2)),
        block_lo((l - 1, i / 2)) <= block_lo((l, buddy_of(i))),
        block_hi((l, buddy_of(i))) <= block_hi((l - 1, i / 2)),
        buddy_of(i) / 2 == i / 2,
        0 <= buddy_of(i),
{
    lemma_children_spans(l, i / 2);
    let s = block_bytes(l);
    if i % 2 == 0 {
        assert(i == 2 * (i / 2));
    } else {
        assert(i == 2 * (i / 2) + 1);
    }
}

/// Two blocks of one level whose spans meet are the same block.
pub proof fn lemma_same_level(l: int, i: int, j: int)
    requires
        0 <= l <= NUM_LEVELS,
        !spans_disjoint((l, i), (l, j)),
    ensures
        i == j,
{
    lemma_block_bytes(l);
    let s = block_bytes(l);
    assert(i < j + 1 && j < i + 1) by (nonlinear_arith)
        requires
            i * s < (j + 1) * s,
            j * s < (i + 1) * s,
            s > 0,
    ;
}

/// A block meeting a block of the same or a deeper level contains it.
pub proof fn lemma_nested(b: Block, c: Block)
    requires
        0 <= b.0 <= c.0 <= NUM_LEVELS,
        !spans_disjoint(b, c),
    ensures
        block_lo(b) <= block_lo(c),
        block_hi(c) <= block_hi(b),
{
    lemma_block_bytes(c.0);
    let q = block_bytes(c.0);
    let m = pow2((c.0 - b.0) as nat) as int;
    lemma_pow2_adds((ARENA_SHIFT - c.0) as nat, (c.0 - b.0) as nat);
    assert(block_bytes(b.0) == q * m);
    lemma_pow2_pos((c.0 - b.0) as nat);
    assert(b.1 * m <= c.1 && c.1 + 1 <= (b.1 + 1) * m) by (nonlinear_arith)
        requires
            b.1 * (q * m) < (c.1 + 1) * q,
            c.1 * q < (b.1 + 1) * (q * m),
            q > 0,
            m > 0,
    ;
    assert(b.1 * (q * m) <= c.1 * q && (c.1 + 1) * q <= (b.1 + 1) * (q * m)) by (nonlinear_arith)
        requires
            b.1 * m <= c.1,
            c.1 + 1 <= (b.1 + 1) * m,
            q > 0,
    ;
}

// ---------------------------------------------------------------------------
// Sequences
// ---------------------------------------------------------------------------

proof fn lemma_push_contains<A>(s: Seq<A>, v: A, x: A)
    ensures
        s.push(v).contains(x) == (s.contains(x) || x == v),
{
    if s.contains(x) {
        let k = choose|k: int| 0 <= k < s.len() && s[k] == x;
        assert(s.push(v)[k] == x);
    }
    if x == v {
        assert(s.push(v)[s.len() as int] == v);
    }
    if s.push(v).contains(x) {
        let k = choose|k: int| 0 <= k < s.len() + 1 && s.push(v)[k] == x;
        if k < s.len() {
            assert(s[k] == x);
        }
    }
}

proof fn lemma_push_no_duplicates<A>(s: Seq<A>, v: A)
    requires
        s.no_duplicates(),
        !s.contains(v),
    ensures
        s.push(v).no_duplicates(),
{
    assert forall|i: int, j: int|
        0 <= i < s.len() + 1 && 0 <= j < s.len() + 1 && i != j implies s.push(v)[i] != s.push(
        v)[j] by {
        if i == s.len() {
            assert(s[j] == s.push(v)[j]);
        } else if j == s.len() {
            assert(s[i] == s.push(v)[i]);
        }
    }
}

proof fn lemma_remove_contains<A>(s: Seq<A>, k: int, x: A)
    requires
        s.no_duplicates(),
        0 <= k < s.len(),
    ensures
        s.remove(k).contains(x) == (s.contains(x) && x != s[k]),
        s.remove(k).no_duplicates(),
{
    let r = s.remove(k);
    assert forall|i: int| 0 <= i < r.len() implies #[trigger] r[i] == if i < k {
        s[i]
    } else {
        s[i + 1]
    } by {}
    if r.contains(x) {
        let i = choose|i: int| 0 <= i < r.len() && r[i] == x;
        if i < k {
            assert(s[i] == x);
        } else {
            assert(s[i + 1] == x);
        }
    }
    if s.contains(x) && x != s[k] {
        let i = choose|i: int| 0 <= i < s.len() && s[i] == x;
        if i < k {
            assert(r[i] == x);
        } else {
            assert(r[i - 1] == x);
        }
    }
}

proof fn lemma_drop_last_contains<A>(s: Seq<A>, x: A)
    requires
        s.no_duplicates(),
        s.len() > 0,
    ensures
        s.drop_last().contains(x) == (s.contains(x) && x != s.last()),
        s.drop_last().no_duplicates(),
{
    assert(s.drop_last() =~= s.remove(s.len() - 1));
    lemma_remove_contains(s, s.len() - 1, x);
}

// ---------------------------------------------------------------------------
// Byte accounting
// ---------------------------------------------------------------------------

#[verifier::spinoff_prover]
proof fn lemma_free_bytes_update(fl: Seq<Seq<u32>>, l: int, s: Seq<u32>, n: int)
    requires
        0 <= l < n <= fl.len(),
    ensures
        free_bytes(fl.update(l, s), n) == free_bytes(fl, n) + (s.len() - fl[l].len())
            * block_bytes(l),
    decreases n,
{
    let fl2 = fl.update(l, s);
    if n - 1 == l {
        lemma_free_bytes_frame(fl, fl2, l);
        let b = block_bytes(l);
        assert(s.len() * b == fl[l].len() * b + (s.len() - fl[l].len()) * b) by (nonlinear_arith);
    } else {
        lemma_free_bytes_update(fl, l, s, n - 1);
    }
}

proof fn lemma_free_bytes_frame(fl: Seq<Seq<u32>>, fl2: Seq<Seq<u32>>, n: int)
    requires
        0 <= n <= fl.len(),
        n <= fl2.len(),
        forall|k: int| 0 <= k < n ==> fl[k].len() == fl2[k].len(),
    ensures
        free_bytes(fl, n) == free_bytes(fl2, n),
    decreases n,
{
    if n > 0 {
        lemma_free_bytes_frame(fl, fl2, n - 1);
    }
}

proof fn lemma_free_bytes_nonneg(fl: Seq<Seq<u32>>, n: int)
    requires
        0 <= n <= fl.len(),
        n <= NUM_LEVELS + 1,
    ensures
        free_bytes(fl, n) >= 0,
    decreases n,
{
    if n > 0 {
        lemma_free_bytes_nonneg(fl, n - 1);
        lemma_block_bytes(n - 1);
        let b = block_bytes(n - 1);
        assert(fl[n - 1].len() * b >= 0) by (nonlinear_arith)
            requires
                b >= 0,
        ;
    }
}

proof fn lemma_live_bytes_nonneg(live: Seq<Block>)
    requires
        forall|k: int| 0 <= k < live.len() ==> valid_block(#[trigger] live[k]),
    ensures
        live_bytes(live) >= 0,
    decreases live.len(),
{
    if live.len() > 0 {
        assert forall|k: int| 0 <= k < live.drop_last().len() implies valid_block(
            #[trigger] live.drop_last()[k],
        ) by {
            assert(live.drop_last()[k] == live[k]);
        }
        lemma_live_bytes_nonneg(live.drop_last());
        assert(valid_block(live[live.len() - 1]));
        lemma_block_bytes(live.last().0);
    }
}

#[verifier::spinoff_prover]
proof fn lemma_live_bytes_remove(live: Seq<Block>, k: int)
    requires
        0 <= k < live.len(),
    ensures
        live_bytes(live) == live_bytes(live.remove(k)) + block_bytes(live[k].0),
    decreases live.len(),
{
    if k == live.len() - 1 {
        assert(live.remove(k) =~= live.drop_last());
    } else {
        lemma_live_bytes_remove(live.drop_last(), k);
        assert(live.remove(k).drop_last() =~= live.drop_last().remove(k));
        assert(live.remove(k).last() == live.last());
    }
}

proof fn lemma_scale(d: int, k: int, b: int)
    requires
        d == k,
    ensures
        d * b == k * b,
{
}

// ---------------------------------------------------------------------------
// State transitions
// ---------------------------------------------------------------------------

proof fn lemma_blocks_equiv(
    fl: Seq<Seq<u32>>,
    live: Seq<Block>,
    fl2: Seq<Seq<u32>>,
    live2: Seq<Block>,
)
    requires
        forall|b: Block| #[trigger] is_block(fl2, live2, b) == is_block(fl, live, b),
        blocks_disjoint(fl, live),
        arena_covered(fl, live),
    ensures
        blocks_disjoint(fl2, live2),
        arena_covered(fl2, live2),
{
    assert forall|x: int| 0 <= x < ARENA_SIZE implies #[trigger] offset_covered(fl2, live2, x) by {
        assert(offset_covered(fl, live, x));
        let b = choose|b: Block| #[trigger] is_block(fl, live, b) && block_lo(b) <= x < block_hi(b);
        assert(is_block(fl2, live2, b));
    }
    assert forall|a: Block, b: Block|
        #[trigger] is_block(fl2, live2, a) && #[trigger] is_block(fl2, live2, b) && a
            != b implies spans_disjoint(a, b) by {
        assert(is_block(fl, live, a) && is_block(fl, live, b));
    }
}

/// An index in range of its level reads back unchanged through `as u32`.
proof fn lemma_index_cast(b: Block)
    requires
        valid_block(b),
    ensures
        (b.1 as u32) as int == b.1,
{
    lemma_block_bytes(b.0);
}

/// Facts about one element of a well-formed free list.
pub proof fn lemma_free_entry(fl: Seq<Seq<u32>>, l: int, k: int)
    requires
        lists_well_formed(fl),
        0 <= l <= NUM_LEVELS,
        0 <= k < fl[l].len(),
    ensures
        valid_block((l, fl[l][k] as int)),
        is_free(fl, (l, fl[l][k] as int)),
{
    assert(level_well_formed(fl[l], l));
    assert((fl[l][k] as int) < pow2(l as nat));
    assert(((fl[l][k] as int) as u32) == fl[l][k]);
}

/// Handing out the last free block of level `l`.
#[verifier::spinoff_prover]
pub proof fn lemma_take(fl: Seq<Seq<u32>>, live: Seq<Block>, l: int)
    requires
        heap_state(fl, live),
        0 <= l <= NUM_LEVELS,
        fl[l].len() > 0,
    ensures
        heap_state(fl.update(l, fl[l].drop_last()), live.push((l, fl[l].last() as int))),
{
    let c = fl[l].last() as int;
    let b0 = (l, c);
    let fl2 = fl.update(l, fl[l].drop_last());
    let live2 = live.push(b0);
    assert(level_well_formed(fl[l], l));
    lemma_free_entry(fl, l, fl[l].len() - 1);
    assert forall|b: Block| #[trigger] is_free(fl2, b) == (is_free(fl, b) && b != b0) by {
        if 0 <= b.0 <= NUM_LEVELS && b.0 == l {
            lemma_drop_last_contains(fl[l], b.1 as u32);
            if valid_block(b) {
                lemma_index_cast(b);
            }
        }
    }
    assert forall|b: Block| #[trigger] live2.contains(b) == (live.contains(b) || b == b0) by {
        lemma_push_contains(live, b0, b);
    }
    assert forall|b: Block| #[trigger] is_block(fl2, live2, b) == is_block(fl, live, b) by {
        assert(is_free(fl2, b) == (is_free(fl, b) && b != b0));
        assert(live2.contains(b) == (live.contains(b) || b == b0));
    }
    lemma_blocks_equiv(fl, live, fl2, live2);
    // the lists
    assert forall|m: int| 0 <= m <= NUM_LEVELS implies #[trigger] level_well_formed(fl2[m], m) by {
        assert(level_well_formed(fl[m], m));
        if m == l {
            lemma_drop_last_contains(fl[l], 0);
        }
    }
    // the live blocks
    if live.contains(b0) {
        let k = choose|k: int| 0 <= k < live.len() && live[k] == b0;
        assert(!is_free(fl, live[k]));
    }
    lemma_push_no_duplicates(live, b0);
    assert forall|k: int| 0 <= k < live2.len() implies valid_block(#[trigger] live2[k]) && !is_free(
        fl2,
        live2[k],
    ) by {
        if k < live.len() {
            assert(live2[k] == live[k]);
        }
    }
    // the accounting
    lemma_free_bytes_update(fl, l, fl[l].drop_last(), NUM_LEVELS + 1);
    assert(live2.drop_last() =~= live);
    assert(live2.last() == b0);
    assert(live_bytes(live2) == live_bytes(live) + block_bytes(l));
    lemma_scale(fl[l].drop_last().len() - fl[l].len(), -1, block_bytes(l));
    // merge rule
    assert forall|m: int, i: int| 1 <= m && #[trigger] is_free(fl2, (m, i)) implies !is_free(
        fl2,
        (m, buddy_of(i)),
    ) by {
        assert(is_free(fl, (m, i)));
    }
}

/// Every free or live block exists in the arena.
proof fn lemma_block_valid(fl: Seq<Seq<u32>>, live: Seq<Block>, b: Block)
    requires
        live_well_formed(fl, live),
        is_block(fl, live, b),
    ensures
        valid_block(b),
{
    if !is_free(fl, b) {
        let k = choose|k: int| 0 <= k < live.len() && live[k] == b;
        assert(valid_block(live[k]));
    }
}

/// A block and its buddy.
proof fn lemma_buddy(i: int)
    requires
        0 <= i,
    ensures
        buddy_of(buddy_of(i)) == i,
        buddy_of(i) != i,
        forall|j: int| buddy_of(j) == i ==> j == buddy_of(i),
{
}

/// Splitting the last live block, `(l - 1, c)`, into a live left half and a
/// free right half.
#[verifier::spinoff_prover]
pub proof fn lemma_split(fl: Seq<Seq<u32>>, live: Seq<Block>, l: int)
    requires
        heap_state(fl, live),
        1 <= l <= NUM_LEVELS,
        live.len() > 0,
        live.last().0 == l - 1,
    ensures
        heap_state(
            fl.update(l, fl[l].push((2 * live.last().1 + 1) as u32)),
            live.drop_last().push((l, 2 * live.last().1)),
        ),
{
    let c = live.last().1;
    let p = (l - 1, c);
    let lb = (l, 2 * c);
    let rb = (l, 2 * c + 1);
    let fl2 = fl.update(l, fl[l].push((2 * c + 1) as u32));
    let live2 = live.drop_last().push(lb);
    assert(live[live.len() - 1] == p);
    assert(valid_block(p));
    lemma_block_bytes(l);
    lemma_block_bytes(l - 1);
    assert(valid_block(lb) && valid_block(rb));
    lemma_children_spans(l, c);
    lemma_index_cast(rb);
    assert(is_block(fl, live, p));
    // neither half is a block yet: each lies inside p
    assert(!is_block(fl, live, lb)) by {
        if is_block(fl, live, lb) {
            assert(spans_disjoint(lb, p));
        }
    }
    assert(!is_block(fl, live, rb)) by {
        if is_block(fl, live, rb) {
            assert(spans_disjoint(rb, p));
        }
    }
    assert(!fl[l].contains((2 * c + 1) as u32));
    assert forall|b: Block| #[trigger] is_free(fl2, b) == (is_free(fl, b) || b == rb) by {
        if 0 <= b.0 <= NUM_LEVELS && b.0 == l {
            lemma_push_contains(fl[l], (2 * c + 1) as u32, b.1 as u32);
            if valid_block(b) {
                lemma_index_cast(b);
            }
        }
    }
    assert forall|b: Block| #[trigger] live2.contains(b) == ((live.contains(b) && b != p) || b
        == lb) by {
        lemma_push_contains(live.drop_last(), lb, b);
        lemma_drop_last_contains(live, b);
    }
    assert(!is_free(fl, p)) by {
        assert(!is_free(fl, live[live.len() - 1]));
    }
    assert forall|b: Block| #[trigger] is_block(fl2, live2, b) == ((is_block(fl, live, b) && b
        != p) || b == lb || b == rb) by {
        assert(is_free(fl2, b) == (is_free(fl, b) || b == rb));
        assert(live2.contains(b) == ((live.contains(b) && b != p) || b == lb));
    }
    // disjointness
    assert forall|a: Block, b: Block|
        #[trigger] is_block(fl2, live2, a) && #[trigger] is_block(fl2, live2, b) && a
            != b implies spans_disjoint(a, b) by {
        if a != lb && a != rb && b != lb && b != rb {
            assert(is_block(fl, live, a) && is_block(fl, live, b));
        } else if a != lb && a != rb {
            assert(is_block(fl, live, a) && spans_disjoint(a, p));
        } else if b != lb && b != rb {
            assert(is_block(fl, live, b) && spans_disjoint(b, p));
        }
    }
    // coverage
    assert forall|x: int| 0 <= x < ARENA_SIZE implies #[trigger] offset_covered(fl2, live2, x) by {
        assert(offset_covered(fl, live, x));
        let b = choose|b: Block| #[trigger] is_block(fl, live, b) && block_lo(b) <= x < block_hi(b);
        if b == p {
            if x < block_hi(lb) {
                assert(is_block(fl2, live2, lb));
            } else {
                assert(is_block(fl2, live2, rb));
            }
        } else {
            assert(is_block(fl2, live2, b));
        }
    }
    // the lists
    assert forall|m: int| 0 <= m <= NUM_LEVELS implies #[trigger] level_well_formed(fl2[m], m) by {
        assert(level_well_formed(fl[m], m));
        if m == l {
            lemma_push_no_duplicates(fl[l], (2 * c + 1) as u32);
            assert forall|k: int| 0 <= k < fl2[m].len() implies (#[trigger] fl2[m][k] as int) < pow2(
                m as nat,
            ) by {
                if k < fl[l].len() {
                    assert(fl2[m][k] == fl[l][k]);
                }
            }
        }
    }
    // the live blocks
    lemma_drop_last_contains(live, lb);
    lemma_push_no_duplicates(live.drop_last(), lb);
    assert forall|k: int| 0 <= k < live2.len() implies valid_block(#[trigger] live2[k]) && !is_free(
        fl2,
        live2[k],
    ) by {
        if k < live.len() - 1 {
            assert(live2[k] == live[k]);
            assert(live.contains(live[k]));
        }
    }
    // the accounting
    lemma_free_bytes_update(fl, l, fl[l].push((2 * c + 1) as u32), NUM_LEVELS + 1);
    lemma_scale(fl[l].push((2 * c + 1) as u32).len() - fl[l].len(), 1, block_bytes(l));
    assert(live2.drop_last() =~= live.drop_last());
    assert(live_bytes(live2) == live_bytes(live.drop_last()) + block_bytes(l));
    assert(live_bytes(live) == live_bytes(live.drop_last()) + block_bytes(l - 1));
    // merge rule
    lemma_buddy(2 * c);
    assert forall|m: int, i: int| 1 <= m && #[trigger] is_free(fl2, (m, i)) implies !is_free(
        fl2,
        (m, buddy_of(i)),
    ) by {
        if (m, i) == rb {
            assert(buddy_of(i) == 2 * c);
        } else if (m, buddy_of(i)) == rb {
            assert(i == 2 * c);
        } else {
            assert(is_free(fl, (m, i)));
        }
    }
}

/// Returning live block `live[k]` to the free list of its level.
#[verifier::spinoff_prover]
pub proof fn lemma_release(fl: Seq<Seq<u32>>, live: Seq<Block>, k: int)
    requires
        heap_state(fl, live),
        0 <= k < live.len(),
    ensures
        tiling(fl.update(live[k].0, fl[live[k].0].push(live[k].1 as u32)), live.remove(k)),
        buddies_apart_except(
            fl.update(live[k].0, fl[live[k].0].push(live[k].1 as u32)),
            live[k].0,
            live[k].1,
        ),
{
    let b0 = live[k];
    let l = b0.0;
    let v = b0.1 as u32;
    let fl2 = fl.update(l, fl[l].push(v));
    let live2 = live.remove(k);
    assert(valid_block(b0) && !is_free(fl, b0));
    lemma_index_cast(b0);
    assert(!fl[l].contains(v));
    assert forall|b: Block| #[trigger] is_free(fl2, b) == (is_free(fl, b) || b == b0) by {
        if 0 <= b.0 <= NUM_LEVELS && b.0 == l {
            lemma_push_contains(fl[l], v, b.1 as u32);
            if valid_block(b) {
                lemma_index_cast(b);
            }
        }
    }
    assert forall|b: Block| #[trigger] live2.contains(b) == (live.contains(b) && b != b0) by {
        lemma_remove_contains(live, k, b);
    }
    assert forall|b: Block| #[trigger] is_block(fl2, live2, b) == is_block(fl, live, b) by {
        assert(is_free(fl2, b) == (is_free(fl, b) || b == b0));
        assert(live2.contains(b) == (live.contains(b) && b != b0));
        assert(live.contains(b0));
    }
    lemma_blocks_equiv(fl, live, fl2, live2);
    assert forall|m: int| 0 <= m <= NUM_LEVELS implies #[trigger] level_well_formed(fl2[m], m) by {
        assert(level_well_formed(fl[m], m));
        if m == l {
            lemma_push_no_duplicates(fl[l], v);
            assert forall|j: int| 0 <= j < fl2[m].len() implies (#[trigger] fl2[m][j] as int) < pow2(
                m as nat,
            ) by {
                if j < fl[l].len() {
                    assert(fl2[m][j] == fl[l][j]);
                }
            }
        }
    }
    lemma_remove_contains(live, k, b0);
    assert forall|j: int| 0 <= j < live2.len() implies valid_block(#[trigger] live2[j]) && !is_free(
        fl2,
        live2[j],
    ) by {
        let jj = if j < k {
            j
        } else {
            j + 1
        };
        assert(live2[j] == live[jj]);
        assert(live.no_duplicates());
    }
    lemma_free_bytes_update(fl, l, fl[l].push(v), NUM_LEVELS + 1);
    lemma_scale(fl[l].push(v).len() - fl[l].len(), 1, block_bytes(l));
    lemma_live_bytes_remove(live, k);
    lemma_buddy(b0.1);
    assert forall|m: int, i: int|
        1 <= m && #[trigger] is_free(fl2, (m, i)) && is_free(fl2, (m, buddy_of(i))) implies m == l
        && (i == b0.1 || i == buddy_of(b0.1)) by {
        if (m, i) != b0 && (m, buddy_of(i)) != b0 {
            assert(is_free(fl, (m, i)));
        }
    }
}

/// Merging the last free block `(l, i)` of level `l` with its buddy, found
/// at position `p` of the same list, into their parent.
#[verifier::spinoff_prover]
pub proof fn lemma_merge(fl: Seq<Seq<u32>>, live: Seq<Block>, l: int, p: int)
    requires
        tiling(fl, live),
        1 <= l <= NUM_LEVELS,
        fl[l].len() > 0,
        buddies_apart_except(fl, l, fl[l].last() as int),
        0 <= p < fl[l].len(),
        fl[l][p] as int == buddy_of(fl[l].last() as int),
    ensures
        p < fl[l].len() - 1,
        tiling(
            fl.update(l, fl[l].drop_last().remove(p)).update(
                l - 1,
                fl[l - 1].push(((fl[l].last() as int) / 2) as u32),
            ),
            live,
        ),
        buddies_apart_except(
            fl.update(l, fl[l].drop_last().remove(p)).update(
                l - 1,
                fl[l - 1].push(((fl[l].last() as int) / 2) as u32),
            ),
            l - 1,
            (fl[l].last() as int) / 2,
        ),
{
    let i = fl[l].last() as int;
    let a = (l, i);
    let bb = (l, buddy_of(i));
    let par = (l - 1, i / 2);
    let pv = (i / 2) as u32;
    let s1 = fl[l].drop_last().remove(p);
    let fl1 = fl.update(l, s1);
    let fl2 = fl1.update(l - 1, fl[l - 1].push(pv));
    assert(level_well_formed(fl[l], l));
    assert(level_well_formed(fl[l - 1], l - 1));
    lemma_free_entry(fl, l, fl[l].len() - 1);
    lemma_free_entry(fl, l, p);
    lemma_buddy(i);
    assert(p != fl[l].len() - 1);
    lemma_block_bytes(l);
    lemma_block_bytes(l - 1);
    assert(valid_block(par));
    lemma_index_cast(par);
    lemma_parent_span(l, i);
    lemma_children_spans(l, i / 2);
    lemma_valid_block_span(a);
    if i % 2 == 0 {
        assert(i == 2 * (i / 2) && buddy_of(i) == 2 * (i / 2) + 1);
    } else {
        assert(i == 2 * (i / 2) + 1 && buddy_of(i) == 2 * (i / 2));
    }
    let c0 = (l, 2 * (i / 2));
    let c1 = (l, 2 * (i / 2) + 1);
    assert((a == c0 && bb == c1) || (a == c1 && bb == c0));
    assert(is_block(fl, live, a) && is_block(fl, live, bb));
    // the parent is not a block yet: it contains a
    assert(!is_block(fl, live, par)) by {
        if is_block(fl, live, par) {
            assert(par != a);
            assert(spans_disjoint(par, a));
        }
    }
    assert(!fl[l - 1].contains(pv));
    assert(!live.contains(a) && !live.contains(bb)) by {
        if live.contains(a) {
            let k = choose|k: int| 0 <= k < live.len() && live[k] == a;
            assert(!is_free(fl, live[k]));
        }
        if live.contains(bb) {
            let k = choose|k: int| 0 <= k < live.len() && live[k] == bb;
            assert(!is_free(fl, live[k]));
        }
    }
    // contents of level l after removing both
    lemma_drop_last_contains(fl[l], 0);
    assert(fl[l].drop_last()[p] == fl[l][p]);
    assert forall|x: u32| #[trigger] s1.contains(x) == (fl[l].contains(x) && x as int != i && x as int
        != buddy_of(i)) by {
        lemma_drop_last_contains(fl[l], x);
        lemma_remove_contains(fl[l].drop_last(), p, x);
    }
    assert forall|b: Block| #[trigger] is_free(fl2, b) == ((is_free(fl, b) && b != a && b != bb) || b
        == par) by {
        if 0 <= b.0 <= NUM_LEVELS && valid_block(b) {
            lemma_index_cast(b);
            if b.0 == l - 1 {
                lemma_push_contains(fl[l - 1], pv, b.1 as u32);
            } else if b.0 == l {
                assert(s1.contains(b.1 as u32) == (fl[l].contains(b.1 as u32) && b.1 != i && b.1
                    != buddy_of(i)));
            }
        }
    }
    assert forall|b: Block| #[trigger] is_block(fl2, live, b) == ((is_block(fl, live, b) && b != a
        && b != bb) || b == par) by {
        assert(is_free(fl2, b) == ((is_free(fl, b) && b != a && b != bb) || b == par));
    }
    assert(is_block(fl, live, a) && is_block(fl, live, bb));
    // disjointness
    assert forall|x: Block, y: Block|
        #[trigger] is_block(fl2, live, x) && #[trigger] is_block(fl2, live, y) && x
            != y implies spans_disjoint(x, y) by {
        if x != par && y != par {
            assert(is_block(fl, live, x) && is_block(fl, live, y));
        } else if x != par {
            assert(is_block(fl, live, x) && x != a && x != bb);
            assert(spans_disjoint(x, a) && spans_disjoint(x, bb));
            assert(spans_disjoint(x, c0) && spans_disjoint(x, c1));
            lemma_block_valid(fl, live, x);
            lemma_valid_block_span(x);
        } else {
            assert(is_block(fl, live, y) && y != a && y != bb);
            assert(spans_disjoint(y, a) && spans_disjoint(y, bb));
            assert(spans_disjoint(y, c0) && spans_disjoint(y, c1));
            lemma_block_valid(fl, live, y);
            lemma_valid_block_span(y);
        }
    }
    // coverage
    assert forall|x: int| 0 <= x < ARENA_SIZE implies #[trigger] offset_covered(fl2, live, x) by {
        assert(offset_covered(fl, live, x));
        let b = choose|b: Block| #[trigger] is_block(fl, live, b) && block_lo(b) <= x < block_hi(b);
        if b == a || b == bb {
            assert(is_block(fl2, live, par));
        } else {
            assert(is_block(fl2, live, b));
        }
    }
    // the lists
    assert forall|m: int| 0 <= m <= NUM_LEVELS implies #[trigger] level_well_formed(fl2[m], m) by {
        assert(level_well_formed(fl[m], m));
        if m == l - 1 {
            lemma_push_no_duplicates(fl[m], pv);
            assert forall|j: int| 0 <= j < fl2[m].len() implies (#[trigger] fl2[m][j] as int) < pow2(
                m as nat,
            ) by {
                if j < fl[m].len() {
                    assert(fl2[m][j] == fl[m][j]);
                }
            }
        } else if m == l {
            lemma_remove_contains(fl[l].drop_last(), p, 0);
            assert forall|j: int| 0 <= j < s1.len() implies (#[trigger] s1[j] as int) < pow2(
                m as nat,
            ) by {
                assert(s1.contains(s1[j]));
                let jj = choose|jj: int| 0 <= jj < fl[l].len() && fl[l][jj] == s1[j];
            }
        }
    }
    // the live blocks
    assert forall|k: int| 0 <= k < live.len() implies valid_block(#[trigger] live[k]) && !is_free(
        fl2,
        live[k],
    ) by {
        assert(live.contains(live[k]));
    }
    // the accounting
    lemma_free_bytes_update(fl, l, s1, NUM_LEVELS + 1);
    lemma_free_bytes_update(fl1, l - 1, fl[l - 1].push(pv), NUM_LEVELS + 1);
    lemma_scale(s1.len() - fl[l].len(), -2, block_bytes(l));
    lemma_scale(fl[l - 1].push(pv).len() - fl1[l - 1].len(), 1, block_bytes(l - 1));
    // merge rule
    lemma_buddy(i / 2);
    assert forall|m: int, j: int|
        1 <= m && #[trigger] is_free(fl2, (m, j)) && is_free(fl2, (m, buddy_of(j))) implies m == l
        - 1 && (j == i / 2 || j == buddy_of(i / 2)) by {
        if (m, j) != par && (m, buddy_of(j)) != par {
            assert(is_free(fl, (m, j)) && is_free(fl, (m, buddy_of(j))));
            lemma_buddy(j);
        }
    }
}

/// The merge rule holds again once the pair `(l, i)` has no free buddy.
pub proof fn lemma_merge_done(fl: Seq<Seq<u32>>, l: int, i: int)
    requires
        buddies_apart_except(fl, l, i),
        l == 0 || !is_free(fl, (l, buddy_of(i))),
        0 <= i,
    ensures
        buddies_apart(fl),
{
    lemma_buddy(i);
    assert forall|m: int, j: int| 1 <= m && #[trigger] is_free(fl, (m, j)) implies !is_free(
        fl,
        (m, buddy_of(j)),
    ) by {
        if is_free(fl, (m, buddy_of(j))) {
            lemma_buddy(j);
            if j == buddy_of(i) {
                assert(is_free(fl, (l, buddy_of(i))));
            }
        }
    }
}

/// A fresh heap, one free block at level 0 and nothing live, is consistent.
#[verifier::spinoff_prover]
pub proof fn lemma_pristine_state()
    ensures
        heap_state(pristine_lists(), Seq::empty()),
{
    let fl = pristine_lists();
    let live: Seq<Block> = Seq::empty();
    let root = (0int, 0int);
    lemma_block_bytes(0);
    assert(pow2(0) == 1) by {
        vstd::arithmetic::power2::lemma2_to64();
    }
    assert(fl[0] =~= seq![0u32]);
    assert(fl[0][0] == 0u32);
    assert(is_free(fl, root));
    assert(block_bytes(0) == ARENA_SIZE) by {
        vstd::arithmetic::power2::lemma2_to64();
    }
    assert(block_lo(root) == 0);
    assert(block_hi(root) == ARENA_SIZE);
    assert forall|b: Block| #[trigger] is_free(fl, b) implies b == root by {
        if b.0 != 0 {
            assert(fl[b.0] =~= Seq::<u32>::empty());
        } else {
            let k = choose|k: int| 0 <= k < fl[0].len() && fl[0][k] == b.1 as u32;
        }
    }
    assert forall|x: int| 0 <= x < ARENA_SIZE implies #[trigger] offset_covered(fl, live, x) by {
        assert(is_block(fl, live, root));
    }
    assert forall|m: int| 0 <= m <= NUM_LEVELS implies #[trigger] level_well_formed(fl[m], m) by {
        if m != 0 {
            assert(fl[m] =~= Seq::<u32>::empty());
        }
    }
    assert(free_bytes(fl, NUM_LEVELS + 1) == ARENA_SIZE) by {
        assert forall|k: int| 0 <= k < NUM_LEVELS + 1 implies fl[k].len() == (
        #[trigger] pristine_len(k)) by {
            if k != 0 {
                assert(fl[k] =~= Seq::<u32>::empty());
            }
        }
        lemma_free_bytes_pristine(fl, NUM_LEVELS + 1);
    }
}

spec fn pristine_len(k: int) -> int {
    if k == 0 {
        1
    } else {
        0
    }
}

#[verifier::spinoff_prover]
proof fn lemma_free_bytes_pristine(fl: Seq<Seq<u32>>, n: int)
    requires
        1 <= n <= fl.len(),
        forall|k: int| 0 <= k < n ==> fl[k].len() == #[trigger] pristine_len(k),
    ensures
        free_bytes(fl, n) == ARENA_SIZE,
    decreases n,
{
    if n == 1 {
        lemma_block_bytes(0);
        assert(pow2(0) == 1) by {
            vstd::arithmetic::power2::lemma2_to64();
        }
        assert(pristine_len(0) == 1);
        assert(free_bytes(fl, 0) == 0);
    } else {
        assert(pristine_len(n - 1) == 0);
        lemma_free_bytes_pristine(fl, n - 1);
    }
}

/// Once nothing is live, the free lists are back to one block at level 0.
///
/// Every sequence of allocations and releases that ends with every
/// allocation released leaves the heap as it was created.
#[verifier::spinoff_prover]
pub proof fn lemma_released_heap_is_pristine(fl: Seq<Seq<u32>>, live: Seq<Block>)
    requires
        heap_state(fl, live),
        live.len() == 0,
    ensures
        fl == pristine_lists(),
{
    lemma_levels_empty_below(fl, live, NUM_LEVELS as int);
    // only level 0 can hold a block now, and it holds the root
    lemma_block_bytes(0);
    assert(pow2(0) == 1) by {
        vstd::arithmetic::power2::lemma2_to64();
    }
    assert(offset_covered(fl, live, 0));
    let b = choose|b: Block| #[trigger] is_block(fl, live, b) && block_lo(b) <= 0 < block_hi(b);
    assert(is_free(fl, b));
    if b.0 != 0 {
        assert(fl[b.0].len() == 0);
    }
    assert(level_well_formed(fl[0], 0));
    assert(fl[0].contains(0u32));
    let k0 = choose|k: int| 0 <= k < fl[0].len() && fl[0][k] == 0u32;
    if fl[0].len() > 1 {
        let other = if k0 == 0 {
            1int
        } else {
            0int
        };
        assert(fl[0][other] == 0u32 && fl[0][k0] == 0u32);
    }
    assert(fl[0] =~= seq![0u32]);
    assert forall|m: int| 0 <= m < fl.len() implies #[trigger] fl[m] == pristine_lists()[m] by {
        if m != 0 {
            assert(fl[m] =~= Seq::<u32>::empty());
        }
    }
    assert(fl =~= pristine_lists());
}

proof fn lemma_levels_empty_below(fl: Seq<Seq<u32>>, live: Seq<Block>, d: int)
    requires
        heap_state(fl, live),
        live.len() == 0,
        0 <= d <= NUM_LEVELS,
        forall|m: int| d < m <= NUM_LEVELS ==> #[trigger] fl[m].len() == 0,
    ensures
        forall|m: int| 0 < m <= NUM_LEVELS ==> #[trigger] fl[m].len() == 0,
    decreases d,
{
    if d >= 1 {
        lemma_deepest_level_empty(fl, live, d);
        lemma_levels_empty_below(fl, live, d - 1);
    }
}

/// With nothing live and no free block below level `d`, level `d` (above the
/// root) is empty too: its deepest free block would have its buddy's bytes
/// covered by nothing.
#[verifier::spinoff_prover]
proof fn lemma_deepest_level_empty(fl: Seq<Seq<u32>>, live: Seq<Block>, d: int)
    requires
        heap_state(fl, live),
        live.len() == 0,
        1 <= d <= NUM_LEVELS,
        forall|m: int| d < m <= NUM_LEVELS ==> #[trigger] fl[m].len() == 0,
    ensures
        fl[d].len() == 0,
{
    if fl[d].len() > 0 {
        lemma_free_entry(fl, d, 0);
        let i = fl[d][0] as int;
        let a = (d, i);
        let k = buddy_of(i);
        let kb = (d, k);
        let par = (d - 1, i / 2);
        lemma_block_bytes(d);
        lemma_block_bytes(d - 1);
        lemma_parent_span(d, i);
        if i % 2 == 0 {
            assert(i == 2 * (i / 2) && k == 2 * (i / 2) + 1);
        } else {
            assert(i == 2 * (i / 2) + 1 && k == 2 * (i / 2));
        }
        assert(i / 2 < pow2((d - 1) as nat));
        lemma_children_spans(d, i / 2);
        assert(valid_block(kb));
        lemma_valid_block_span(kb);
        lemma_valid_block_span(a);
        let x = block_lo(kb);
        assert(offset_covered(fl, live, x));
        let b = choose|b: Block| #[trigger] is_block(fl, live, b) && block_lo(b) <= x < block_hi(b);
        assert(is_free(fl, b));
        if b.0 > d {
            assert(fl[b.0].len() == 0);
        } else if b.0 == d {
            lemma_same_level(d, b.1, k);
            assert(is_free(fl, (d, i)));
        } else {
            lemma_nested(b, par);
            assert(is_block(fl, live, a));
            assert(spans_disjoint(b, a));
        }
    }
}

/// Distinct live blocks occupy disjoint byte ranges of the arena.
pub proof fn lemma_live_blocks_disjoint(fl: Seq<Seq<u32>>, live: Seq<Block>, j: int, k: int)
    requires
        heap_state(fl, live),
        0 <= j < live.len(),
        0 <= k < live.len(),
        j != k,
    ensures
        block_hi(live[j]) <= block_lo(live[k]) || block_hi(live[k]) <= block_lo(live[j]),
{
    assert(live.contains(live[j]) && live.contains(live[k]));
    assert(is_block(fl, live, live[j]) && is_block(fl, live, live[k]));
}

/// Some level from 0 to `l` has a free block.
pub open spec fn any_free_upto(fl: Seq<Seq<u32>>, l: int) -> bool
    decreases l + 1,
{
    if l < 0 {
        false
    } else {
        fl[l].len() > 0 || any_free_upto(fl, l - 1)
    }
}

/// The free bytes of the first `m` levels never exceed those of the first `n`.
pub proof fn lemma_free_bytes_prefix(fl: Seq<Seq<u32>>, m: int, n: int)
    requires
        0 <= m <= n <= fl.len(),
        n <= NUM_LEVELS + 1,
    ensures
        0 <= free_bytes(fl, m) <= free_bytes(fl, n),
    decreases n - m,
{
    lemma_free_bytes_nonneg(fl, m);
    if m < n {
        lemma_free_bytes_prefix(fl, m + 1, n);
        lemma_block_bytes(m);
        let b = block_bytes(m);
        assert(fl[m].len() * b >= 0) by (nonlinear_arith)
            requires
                b >= 0,
        ;
    }
}

/// The deepest level from `l` upwards (towards the root) whose free list is
/// not empty; -1 if there is none.
pub open spec fn deepest_free(fl: Seq<Seq<u32>>, l: int) -> int
    decreases l + 1,
{
    if l < 0 {
        -1
    } else if fl[l].len() > 0 {
        l
    } else {
        deepest_free(fl, l - 1)
    }
}

/// The index at level `l` of the block that a request at level `l` receives:
/// the leftmost level-`l` descendant of the last free block of the deepest
/// non-empty level at or above `l`.
pub open spec fn split_index(fl: Seq<Seq<u32>>, l: int) -> int {
    let k = deepest_free(fl, l);
    fl[k].last() as int * pow2((l - k) as nat)
}

pub proof fn lemma_deepest_free(fl: Seq<Seq<u32>>, l: int)
    requires
        any_free_upto(fl, l),
    ensures
        0 <= deepest_free(fl, l) <= l,
        fl[deepest_free(fl, l)].len() > 0,
    decreases l + 1,
{
    if l >= 0 && fl[l].len() == 0 {
        lemma_deepest_free(fl, l - 1);
    }
}

/// A request at a level with a free block takes that list's last block.
pub proof fn lemma_split_index_here(fl: Seq<Seq<u32>>, l: int)
    requires
        0 <= l,
        fl[l].len() > 0,
    ensures
        split_index(fl, l) == fl[l].last() as int,
{
    assert(pow2(0) == 1) by {
        vstd::arithmetic::power2::lemma2_to64();
    }
    let x = fl[l].last() as int;
    assert(x * pow2(0) == x);
}

/// A request at an empty level takes the left half of what the level above
/// would hand out.
pub proof fn lemma_split_index_up(fl: Seq<Seq<u32>>, l: int)
    requires
        1 <= l,
        fl[l].len() == 0,
        any_free_upto(fl, l - 1),
    ensures
        split_index(fl, l) == 2 * split_index(fl, l - 1),
        any_free_upto(fl, l),
{
    lemma_deepest_free(fl, l - 1);
    let k = deepest_free(fl, l - 1);
    assert(deepest_free(fl, l) == k);
    lemma_pow2_unfold((l - k) as nat);
    let last = fl[k].last() as int;
    let q = pow2((l - 1 - k) as nat) as int;
    assert(2 * (last * q) == last * (2 * q)) by (nonlinear_arith);
}

/// In a consistent heap the free bytes of any prefix of levels, and the
/// live bytes, lie between 0 and the arena size.
pub proof fn lemma_bytes_bounded(fl: Seq<Seq<u32>>, live: Seq<Block>, n: int)
    requires
        heap_state(fl, live),
        0 <= n <= NUM_LEVELS + 1,
    ensures
        0 <= free_bytes(fl, n) <= free_bytes(fl, NUM_LEVELS + 1) <= ARENA_SIZE,
        0 <= live_bytes(live) <= ARENA_SIZE,
{
    lemma_free_bytes_prefix(fl, n, NUM_LEVELS + 1);
    lemma_live_bytes_nonneg(live);
}

/// The free lists after merging block `i`, the last free block of level
/// `l`, with its buddy while the buddy is free, moving one level up each
/// time.
pub open spec fn merged(fl: Seq<Seq<u32>>, l: int, i: int) -> Seq<Seq<u32>>
    decreases l,
{
    if l <= 0 || l >= fl.len() || !fl[l].contains(buddy_of(i) as u32) {
        fl
    } else {
        let p = fl[l].index_of(buddy_of(i) as u32);
        merged(
            fl.update(l, fl[l].drop_last().remove(p)).update(l - 1, fl[l - 1].push((i / 2) as u32)),
            l - 1,
            i / 2,
        )
    }
}

/// In a list without repeats, an element's index is its only position.
pub proof fn lemma_index_of_unique(s: Seq<u32>, p: int)
    requires
        s.no_duplicates(),
        0 <= p < s.len(),
    ensures
        s.contains(s[p]),
        s.index_of(s[p]) == p,
{
    assert(s.contains(s[p]));
}

/// The free lists after a request at level `l` is served: the last free
/// block of the deepest non-empty level at or above `l` is taken; each split
/// on the way down keeps the left half and puts the right half on the free
/// list of the level below.
pub open spec fn split_lists(fl: Seq<Seq<u32>>, l: int) -> Seq<Seq<u32>>
    decreases l + 1,
{
    if l < 0 {
        fl
    } else if fl[l].len() > 0 {
        fl.update(l, fl[l].drop_last())
    } else {
        let up = split_lists(fl, l - 1);
        up.update(l, up[l].push((2 * split_index(fl, l - 1) + 1) as u32))
    }
}

/// Releasing block `i` of level `l` (the last entry of its list) while its
/// buddy is free removes both from level `l` and pushes their parent
/// `i / 2` on level `l - 1`; the parent stays there exactly when it has no
/// free buddy (or is the root), and merges further up otherwise.
pub proof fn lemma_merge_one_level(fl: Seq<Seq<u32>>, l: int, i: int)
    requires
        1 <= l < fl.len(),
        fl[l].contains(buddy_of(i) as u32),
    ensures
        ({
            let p = fl[l].index_of(buddy_of(i) as u32);
            let up = fl.update(l, fl[l].drop_last().remove(p)).update(
                l - 1,
                fl[l - 1].push((i / 2) as u32),
            );
            &&& up[l - 1] == fl[l - 1].push((i / 2) as u32)
            &&& merged(fl, l, i) == merged(up, l - 1, i / 2)
            &&& (l - 1 == 0 || !up[l - 1].contains(buddy_of(i / 2) as u32)) ==> merged(fl, l, i)
                == up
        }),
{
}

} // verus!

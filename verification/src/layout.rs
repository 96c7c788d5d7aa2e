//! Laying out the rooms of a level that was loaded without positions: rooms
//! joined by a transition are put next to each other as the transition says,
//! and rooms that cannot be reached that way go to free space on the right.
use vstd::prelude::*;
use crate::geom::{IAabb2, IVec2};
use crate::level::{find_room, room_index, room_state_ok, rooms_ok, RoomState};

verus! {

/// How far, in cells, a transition may shift a room, and how large a room (plus
/// its gap of five cells) and its starting position may be, for a layout.
pub const LAYOUT_STEP: isize = 0x1_0000;

/// How many rooms a layout may hold.
pub const LAYOUT_ROOMS: usize = 4094;

/// The rooms each room leads to, by index, with the transitions' offsets.
pub type Links = Seq<Seq<(usize, IVec2)>>;

/// The positions of the rooms, which of them are laid out, and which are
/// waiting for a room they lead to.
pub ghost struct LayoutState {
    pub pos: Seq<IVec2>,
    pub laid: Seq<bool>,
    pub blocked: Seq<bool>,
}

pub open spec fn vadd(a: IVec2, b: IVec2) -> IVec2 {
    IVec2 { x: (a.x + b.x) as isize, y: (a.y + b.y) as isize }
}

pub open spec fn vsub(a: IVec2, b: IVec2) -> IVec2 {
    IVec2 { x: (a.x - b.x) as isize, y: (a.y - b.y) as isize }
}

pub open spec fn imin(a: isize, b: isize) -> isize {
    if a <= b { a } else { b }
}

pub open spec fn imax(a: isize, b: isize) -> isize {
    if a >= b { a } else { b }
}

/// The cells taken by the origin and the first `k` rooms that are laid out.
pub open spec fn occupied(st: LayoutState, sizes: Seq<IVec2>, k: int) -> IAabb2
    decreases k,
{
    if k <= 0 {
        IAabb2 { min: IVec2 { x: 0, y: 0 }, max: IVec2 { x: 0, y: 0 } }
    } else {
        let o = occupied(st, sizes, k - 1);
        if st.laid[k - 1] {
            let p = st.pos[k - 1];
            let q = vadd(p, sizes[k - 1]);
            IAabb2 {
                min: IVec2 { x: imin(o.min.x, p.x), y: imin(o.min.y, p.y) },
                max: IVec2 { x: imax(o.max.x, q.x), y: imax(o.max.y, q.y) },
            }
        } else {
            o
        }
    }
}

/// Free space for a room: five cells right of everything laid out, level with
/// its bottom.
pub open spec fn fresh_pos(st: LayoutState, sizes: Seq<IVec2>) -> IVec2 {
    let o = occupied(st, sizes, st.pos.len() as int);
    IVec2 { x: (o.max.x + 5) as isize, y: o.min.y }
}

/// Lays out room `id`, at `p` if given: unless it is laid out already, a room
/// with no position takes one from the first room it leads to that is laid out
/// or can be (laying that one out first), or else free space; then the rooms it
/// leads to that are not laid out yet are put next to it.
pub open spec fn lay(links: Links, sizes: Seq<IVec2>, st: LayoutState, id: int, p: Option<IVec2>, fuel: nat) -> LayoutState
    decreases fuel, 1nat, 0int,
{
    if fuel == 0 {
        st
    } else {
        let st1 = match p {
            Some(q) => LayoutState { pos: st.pos.update(id, q), ..st },
            None => st,
        };
        let st2 = LayoutState { blocked: st1.blocked.update(id, false), ..st1 };
        if st2.laid[id] {
            st2
        } else {
            let st3 = LayoutState { laid: st2.laid.update(id, true), ..st2 };
            let st4 = if p is None { find_place(links, sizes, st3, id, 0, fuel) } else { st3 };
            place_children(links, sizes, st4, id, 0, fuel)
        }
    }
}

/// The search for a position for room `id` from its `t`-th transition on.
pub open spec fn find_place(links: Links, sizes: Seq<IVec2>, st: LayoutState, id: int, t: int, fuel: nat) -> LayoutState
    decreases fuel, 0nat, links[id].len() - t,
{
    if fuel == 0 || t < 0 {
        st
    } else if t >= links[id].len() {
        LayoutState { pos: st.pos.update(id, fresh_pos(st, sizes)), ..st }
    } else {
        let c = links[id][t].0 as int;
        let off = links[id][t].1;
        if st.laid[c] {
            LayoutState { pos: st.pos.update(id, vadd(st.pos[c], off)), ..st }
        } else if !st.blocked[c] {
            let s1 = LayoutState { blocked: st.blocked.update(id, true), ..st };
            let s2 = lay(links, sizes, s1, c, None, (fuel - 1) as nat);
            let s3 = LayoutState { blocked: s2.blocked.update(id, false), ..s2 };
            LayoutState { pos: s3.pos.update(id, vadd(s3.pos[c], off)), ..s3 }
        } else {
            find_place(links, sizes, st, id, t + 1, fuel)
        }
    }
}

/// Puts the rooms that room `id` leads to from its `t`-th transition on next to
/// it, those not laid out yet.
pub open spec fn place_children(links: Links, sizes: Seq<IVec2>, st: LayoutState, id: int, t: int, fuel: nat) -> LayoutState
    decreases fuel, 0nat, links[id].len() - t,
{
    if fuel == 0 || t < 0 || t >= links[id].len() {
        st
    } else {
        let c = links[id][t].0 as int;
        let off = links[id][t].1;
        if st.laid[c] {
            place_children(links, sizes, st, id, t + 1, fuel)
        } else {
            let s2 = lay(links, sizes, st, c, Some(vsub(st.pos[id], off)), (fuel - 1) as nat);
            place_children(links, sizes, s2, id, t + 1, fuel)
        }
    }
}

pub open spec fn all_false(n: nat) -> Seq<bool> {
    Seq::new(n, |i: int| false)
}

/// Lays out the rooms `k` to `m - 1` in turn, each with nothing waiting.
pub open spec fn lay_rest(links: Links, sizes: Seq<IVec2>, st: LayoutState, k: int, m: int, fuel: nat) -> LayoutState
    decreases m - k,
{
    if k >= m {
        st
    } else {
        let fresh = LayoutState { blocked: all_false(st.pos.len()), ..st };
        lay_rest(links, sizes, lay(links, sizes, fresh, k, None, fuel), k + 1, m, fuel)
    }
}

/// The layout of rooms that start at `pos0`: the last room goes to the origin
/// and everything it leads to around it; then each other room in order.
pub open spec fn spec_layout(links: Links, sizes: Seq<IVec2>, pos0: Seq<IVec2>) -> Seq<IVec2> {
    let n = pos0.len();
    if n == 0 {
        pos0
    } else {
        let st0 = LayoutState { pos: pos0, laid: all_false(n), blocked: all_false(n) };
        let st1 = lay(links, sizes, st0, n - 1, Some(IVec2 { x: 0, y: 0 }), n + 1);
        lay_rest(links, sizes, st1, 0, n - 1, n + 1).pos
    }
}

/// How many entries of `s` are set.
pub open spec fn count_true(s: Seq<bool>) -> nat
    decreases s.len(),
{
    if s.len() == 0 {
        0
    } else {
        count_true(s.drop_last()) + if s.last() { 1nat } else { 0nat }
    }
}

proof fn lemma_count_le_len(s: Seq<bool>)
    ensures
        count_true(s) <= s.len(),
    decreases s.len(),
{
    if s.len() > 0 {
        lemma_count_le_len(s.drop_last());
    }
}

/// Setting an unset entry counts one more.
proof fn lemma_count_set(s: Seq<bool>, i: int)
    requires
        0 <= i < s.len(),
        !s[i],
    ensures
        count_true(s.update(i, true)) == count_true(s) + 1,
    decreases s.len(),
{
    let u = s.update(i, true);
    if i == s.len() - 1 {
        assert(u.drop_last() =~= s.drop_last());
    } else {
        assert(u.drop_last() =~= s.drop_last().update(i, true));
        lemma_count_set(s.drop_last(), i);
    }
}

/// A sequence whose set entries are all set in another counts no more.
proof fn lemma_count_subset(a: Seq<bool>, b: Seq<bool>)
    requires
        a.len() == b.len(),
        forall|i: int| 0 <= i < a.len() && a[i] ==> b[i],
    ensures
        count_true(a) <= count_true(b),
    decreases a.len(),
{
    if a.len() > 0 {
        lemma_count_subset(a.drop_last(), b.drop_last());
    }
}

/// The transitions of the rooms, by index, as values.
pub open spec fn links_view(lk: Vec<Vec<(usize, IVec2)>>) -> Links {
    lk@.map_values(|v: Vec<(usize, IVec2)>| v@)
}

/// Whether the transitions lead to rooms among the `n` and shift by at most a
/// layout step.
pub open spec fn links_ok(links: Links, n: nat) -> bool {
    &&& links.len() == n
    &&& forall|i: int, t: int| 0 <= i < n && 0 <= t < links[i].len() ==> {
        &&& (#[trigger] links[i][t]).0 < n
        &&& -LAYOUT_STEP <= links[i][t].1.x <= LAYOUT_STEP
        &&& -LAYOUT_STEP <= links[i][t].1.y <= LAYOUT_STEP
    }
}

/// Whether the `n` rooms, with their gap of five cells, fit a layout step.
pub open spec fn sizes_ok(sizes: Seq<IVec2>, n: nat) -> bool {
    &&& sizes.len() == n
    &&& forall|i: int| 0 <= i < n ==> 0 <= (#[trigger] sizes[i]).x <= LAYOUT_STEP - 5 && 0 <= sizes[i].y <= LAYOUT_STEP - 5
}

/// Whether `p` lies within `k` layout steps of the origin.
pub open spec fn within(p: IVec2, k: int) -> bool {
    -k * LAYOUT_STEP <= p.x <= k * LAYOUT_STEP && -k * LAYOUT_STEP <= p.y <= k * LAYOUT_STEP
}

/// The bookkeeping of a layout in progress: `placed` marks the rooms whose
/// position is final, all of them laid out, and every position lies within one
/// step more than their number.
pub open spec fn layout_inv(pos: Seq<IVec2>, laid: Seq<bool>, placed: Seq<bool>, n: nat) -> bool {
    &&& pos.len() == n
    &&& laid.len() == n
    &&& placed.len() == n
    &&& n <= LAYOUT_ROOMS
    &&& forall|i: int| 0 <= i < n && #[trigger] placed[i] ==> laid[i]
    &&& forall|i: int| 0 <= i < n ==> within(#[trigger] pos[i], count_true(placed) + 1int)
}

/// How a layout in progress went on from `(pos0, laid0, placed0)`: rooms stay
/// laid out, placed rooms keep their positions, and only rooms that were not laid
/// out get placed.
pub open spec fn progressed(
    pos0: Seq<IVec2>, laid0: Seq<bool>, placed0: Seq<bool>,
    pos: Seq<IVec2>, laid: Seq<bool>, placed: Seq<bool>, n: nat,
) -> bool {
    &&& layout_inv(pos, laid, placed, n)
    &&& forall|i: int| 0 <= i < n && laid0[i] ==> #[trigger] laid[i]
    &&& forall|i: int| 0 <= i < n && placed0[i] ==> #[trigger] placed[i] && pos[i] == pos0[i]
    &&& forall|i: int| 0 <= i < n && #[trigger] placed[i] && !placed0[i] ==> !laid0[i]
}

pub open spec fn st_of(pos: Seq<IVec2>, laid: Seq<bool>, blocked: Seq<bool>) -> LayoutState {
    LayoutState { pos, laid, blocked }
}

proof fn lemma_within_grows(p: IVec2, k: int)
    requires
        k >= 0,
        within(p, k),
    ensures
        within(p, k + 1),
{
}

/// The free space `fresh_pos` finds, computed over the rooms in order.
fn fresh_place(sz: &Vec<IVec2>, pos: &Vec<IVec2>, laid: &Vec<bool>, Ghost(placed): Ghost<Seq<bool>>, Ghost(blocked): Ghost<Seq<bool>>) -> (r: IVec2)
    requires
        sizes_ok(sz@, sz@.len()),
        layout_inv(pos@, laid@, placed, sz@.len()),
    ensures
        r == fresh_pos(st_of(pos@, laid@, blocked), sz@),
        within(r, count_true(placed) + 2int),
{
    let ghost st = st_of(pos@, laid@, blocked);
    let ghost c = count_true(placed) as int;
    proof {
        lemma_count_le_len(placed);
    }
    let n = pos.len();
    let mut o = IAabb2 { min: IVec2 { x: 0, y: 0 }, max: IVec2 { x: 0, y: 0 } };
    let mut k: usize = 0;
    while k < n
        invariant
            n == pos@.len(),
            n == sz@.len(),
            n == laid@.len(),
            n <= LAYOUT_ROOMS,
            0 <= c <= n,
            st == st_of(pos@, laid@, blocked),
            sizes_ok(sz@, sz@.len()),
            forall|i: int| 0 <= i < n ==> within(#[trigger] pos@[i], c + 1),
            k <= n,
            o == occupied(st, sz@, k as int),
            -(c + 1) * LAYOUT_STEP <= o.min.x <= 0,
            -(c + 1) * LAYOUT_STEP <= o.min.y <= 0,
            0 <= o.max.x <= (c + 2) * LAYOUT_STEP - 5,
            0 <= o.max.y <= (c + 2) * LAYOUT_STEP - 5,
        decreases n - k,
    {
        if laid[k] {
            let p = pos[k];
            let s = sz[k];
            assert(within(pos@[k as int], c + 1));
            let qx = p.x + s.x;
            let qy = p.y + s.y;
            o = IAabb2 {
                min: IVec2 { x: if o.min.x <= p.x { o.min.x } else { p.x }, y: if o.min.y <= p.y { o.min.y } else { p.y } },
                max: IVec2 { x: if o.max.x >= qx { o.max.x } else { qx }, y: if o.max.y >= qy { o.max.y } else { qy } },
            };
        }
        k += 1;
    }
    IVec2 { x: o.max.x + 5, y: o.min.y }
}

proof fn lemma_progressed_trans(
    pos0: Seq<IVec2>, laid0: Seq<bool>, placed0: Seq<bool>,
    pos1: Seq<IVec2>, laid1: Seq<bool>, placed1: Seq<bool>,
    pos2: Seq<IVec2>, laid2: Seq<bool>, placed2: Seq<bool>, n: nat,
)
    requires
        pos0.len() == n,
        laid0.len() == n,
        placed0.len() == n,
        progressed(pos0, laid0, placed0, pos1, laid1, placed1, n),
        progressed(pos1, laid1, placed1, pos2, laid2, placed2, n),
    ensures
        progressed(pos0, laid0, placed0, pos2, laid2, placed2, n),
{
    assert forall|i: int| 0 <= i < n && #[trigger] placed2[i] && !placed0[i] implies !laid0[i] by {
        if placed1[i] {
        } else {
            assert(!laid1[i]);
        }
    }
}

/// Lays out room `id` as `lay` says. `placed` marks the rooms whose position is
/// final before the call; the result marks them after it.
fn lay_room(
    lk: &Vec<Vec<(usize, IVec2)>>,
    sz: &Vec<IVec2>,
    pos: &mut Vec<IVec2>,
    laid: &mut Vec<bool>,
    blocked: &mut Vec<bool>,
    id: usize,
    p: Option<IVec2>,
    Ghost(fuel): Ghost<nat>,
    Ghost(placed): Ghost<Seq<bool>>,
) -> (out: Ghost<Seq<bool>>)
    requires
        links_ok(links_view(*lk), sz@.len()),
        sizes_ok(sz@, sz@.len()),
        old(blocked)@.len() == sz@.len(),
        layout_inv(old(pos)@, old(laid)@, placed, sz@.len()),
        id < sz@.len(),
        fuel >= sz@.len() - count_true(old(laid)@) + 1,
        p matches Some(q) ==> !old(laid)@[id as int] && within(q, count_true(placed) + 2int),
    ensures
        st_of(final(pos)@, final(laid)@, final(blocked)@)
            == lay(links_view(*lk), sz@, st_of(old(pos)@, old(laid)@, old(blocked)@), id as int, p, fuel),
        final(blocked)@.len() == sz@.len(),
        progressed(old(pos)@, old(laid)@, placed, final(pos)@, final(laid)@, out@, sz@.len()),
        final(laid)@[id as int],
        forall|i: int| 0 <= i < sz@.len() && #[trigger] final(laid)@[i] && !old(laid)@[i] ==> out@[i],
        p matches Some(q) ==> final(pos)@[id as int] == q,
    decreases fuel,
{
    let ghost lv = links_view(*lk);
    let ghost n = sz@.len();
    proof {
        lemma_count_le_len(old(laid)@);
        lemma_count_le_len(placed);
    }
    match p {
        Some(q) => {
            pos.set(id, q);
        },
        None => {},
    }
    blocked.set(id, false);
    if laid[id] {
        return Ghost(placed);
    }
    proof {
        lemma_count_set(laid@, id as int);
    }
    laid.set(id, true);
    let ghost st3 = st_of(pos@, laid@, blocked@);
    let ghost laid3 = laid@;
    let ghost mut pl: Seq<bool> = placed;
    assert(!placed[id as int]);
    assert(lk@[id as int]@ == lv[id as int]);
    if p.is_none() {
        let m = lk[id].len();
        let mut t: usize = 0;
        let mut found = false;
        while t < m && !found
            invariant
                n == sz@.len(),
                n == pos@.len(),
                n == laid@.len(),
                n == blocked@.len(),
                links_ok(lv, n),
                lv == links_view(*lk),
                sizes_ok(sz@, n),
                id < n,
                m == lv[id as int].len(),
                p is None,
                t <= m,
                fuel >= n - count_true(old(laid)@) + 1,
                count_true(laid3) == count_true(old(laid)@) + 1,
                laid3 == old(laid)@.update(id as int, true),
                st3.laid == laid3,
                st3.pos == old(pos)@,
                laid@[id as int],
                !found ==> laid@ == laid3,
                !found ==> {
                    &&& st_of(pos@, laid@, blocked@) == st3
                    &&& pl == placed
                    &&& find_place(lv, sz@, st3, id as int, 0, fuel) == find_place(lv, sz@, st3, id as int, t as int, fuel)
                    &&& pos@ == old(pos)@
                },
                found ==> st_of(pos@, laid@, blocked@) == find_place(lv, sz@, st3, id as int, 0, fuel),
                found ==> progressed(old(pos)@, old(laid)@, placed, pos@, laid@, pl, n),
                found ==> pl[id as int],
                found ==> forall|i: int| 0 <= i < n && #[trigger] laid@[i] && !old(laid)@[i] ==> pl[i],
                layout_inv(old(pos)@, old(laid)@, placed, n),
                !placed[id as int],
                !old(laid)@[id as int],
                count_true(old(laid)@) <= n,
                count_true(placed) <= n,
                fuel >= 1,
            decreases m - t,
        {
            let (c, off) = lk[id][t];
            assert(lv[id as int][t as int] == (c, off));
            assert(within(pos@[c as int], count_true(placed) + 1int));
            if laid[c] {
                let np = IVec2 { x: pos[c].x + off.x, y: pos[c].y + off.y };
                pos.set(id, np);
                proof {
                    lemma_count_set(pl, id as int);
                    let pl2 = pl.update(id as int, true);
                    assert forall|i: int| 0 <= i < n implies within(#[trigger] pos@[i], count_true(pl2) + 1int) by {
                        if i != id {
                            lemma_within_grows(old(pos)@[i], count_true(placed) + 1int);
                        }
                    }
                    pl = pl2;
                }
                found = true;
            } else if !blocked[c] {
                proof {
                    assert forall|i: int| 0 <= i < n && #[trigger] placed[i] implies laid@[i] by {
                        assert(old(laid)@[i]);
                    }
                }
                blocked.set(id, true);
                let ghost pos_call = pos@;
                let ghost laid_call = laid@;
                let g = lay_room(lk, sz, pos, laid, blocked, c, None, Ghost((fuel - 1) as nat), Ghost(pl));
                proof {
                    assert(progressed(old(pos)@, old(laid)@, placed, pos_call, laid_call, placed, n));
                    lemma_progressed_trans(old(pos)@, old(laid)@, placed, pos_call, laid_call, placed, pos@, laid@, g@, n);
                    assert(!g@[id as int]);
                    assert forall|i: int| 0 <= i < n && laid3[i] implies laid@[i] by {
                        assert(laid3[i] == st3.laid[i]);
                    }
                    lemma_count_subset(laid3, laid@);
                    pl = g@;
                }
                blocked.set(id, false);
                assert(within(pos@[c as int], count_true(pl) + 1int));
                proof {
                    lemma_count_le_len(pl);
                }
                let np = IVec2 { x: pos[c].x + off.x, y: pos[c].y + off.y };
                let ghost pos_mid = pos@;
                let ghost laid_mid = laid@;
                let ghost pl_mid = pl;
                pos.set(id, np);
                proof {
                    lemma_count_set(pl, id as int);
                    let pl2 = pl.update(id as int, true);
                    assert forall|i: int| 0 <= i < n implies within(#[trigger] pos@[i], count_true(pl2) + 1int) by {
                        if i != id {
                            lemma_within_grows(pos_mid[i], count_true(pl_mid) + 1int);
                        }
                    }
                    pl = pl2;
                }
                found = true;
            }
            t += 1;
        }
        if !found {
            let fp = fresh_place(sz, pos, laid, Ghost(pl), Ghost(blocked@));
            pos.set(id, fp);
            proof {
                lemma_count_set(pl, id as int);
                let pl2 = pl.update(id as int, true);
                assert forall|i: int| 0 <= i < n implies within(#[trigger] pos@[i], count_true(pl2) + 1int) by {
                    if i != id {
                        lemma_within_grows(old(pos)@[i], count_true(placed) + 1int);
                    }
                }
                pl = pl2;
            }
        }
    } else {
        proof {
            lemma_count_set(pl, id as int);
            let pl2 = pl.update(id as int, true);
            assert forall|i: int| 0 <= i < n implies within(#[trigger] pos@[i], count_true(pl2) + 1int) by {
                if i != id {
                    lemma_within_grows(old(pos)@[i], count_true(placed) + 1int);
                }
            }
            pl = pl2;
        }
    }
    let ghost st4 = st_of(pos@, laid@, blocked@);
    assert(p matches Some(q) ==> st4.pos[id as int] == q);
    let m = lk[id].len();
    let mut t: usize = 0;
    while t < m
        invariant
            n == sz@.len(),
            n == pos@.len(),
            n == laid@.len(),
            n == blocked@.len(),
            links_ok(lv, n),
            lv == links_view(*lk),
            sizes_ok(sz@, n),
            id < n,
            m == lv[id as int].len(),
            t <= m,
            fuel >= n - count_true(old(laid)@) + 1,
            count_true(laid3) == count_true(old(laid)@) + 1,
            forall|i: int| 0 <= i < n && laid3[i] ==> #[trigger] laid@[i],
            laid3.len() == n,
            st4.pos.len() == n,
            place_children(lv, sz@, st4, id as int, 0, fuel)
                == place_children(lv, sz@, st_of(pos@, laid@, blocked@), id as int, t as int, fuel),
            progressed(old(pos)@, old(laid)@, placed, pos@, laid@, pl, n),
            pl[id as int],
            pos@[id as int] == st4.pos[id as int],
            forall|i: int| 0 <= i < n && #[trigger] laid@[i] && !old(laid)@[i] ==> pl[i],
            layout_inv(old(pos)@, old(laid)@, placed, n),
            count_true(old(laid)@) <= n,
            fuel >= 1,
        decreases m - t,
    {
        let (c, off) = lk[id][t];
        assert(lv[id as int][t as int] == (c, off));
        if !laid[c] {
            assert(within(pos@[id as int], count_true(pl) + 1int));
            proof {
                lemma_count_le_len(pl);
            }
            let q = IVec2 { x: pos[id].x - off.x, y: pos[id].y - off.y };
            let ghost pos_mid = pos@;
            let ghost laid_mid = laid@;
            let ghost pl_mid = pl;
            proof {
                lemma_count_subset(laid3, laid@);
            }
            let g = lay_room(lk, sz, pos, laid, blocked, c, Some(q), Ghost((fuel - 1) as nat), Ghost(pl));
            proof {
                assert(g@[id as int]);
                assert(pos@[id as int] == pos_mid[id as int]);
                lemma_progressed_trans(old(pos)@, old(laid)@, placed, pos_mid, laid_mid, pl_mid, pos@, laid@, g@, n);
                pl = g@;
            }
        }
        t += 1;
    }
    Ghost(pl)
}

fn all_false_vec(n: usize) -> (v: Vec<bool>)
    ensures
        v@ == all_false(n as nat),
{
    let mut v: Vec<bool> = Vec::new();
    let mut i: usize = 0;
    while i < n
        invariant
            i <= n,
            v@ == all_false(i as nat),
        decreases n - i,
    {
        v.push(false);
        i += 1;
        assert(v@ =~= all_false(i as nat));
    }
    v
}

/// The positions `spec_layout` gives rooms with the transitions `lk`, the sizes
/// `sz` and the starting positions `pos0`.
fn layout_positions(lk: &Vec<Vec<(usize, IVec2)>>, sz: &Vec<IVec2>, pos0: Vec<IVec2>) -> (pos: Vec<IVec2>)
    requires
        links_ok(links_view(*lk), sz@.len()),
        sizes_ok(sz@, sz@.len()),
        pos0@.len() == sz@.len(),
        sz@.len() <= LAYOUT_ROOMS,
        forall|i: int| 0 <= i < sz@.len() ==> within(#[trigger] pos0@[i], 1),
    ensures
        pos@ == spec_layout(links_view(*lk), sz@, pos0@),
        pos@.len() == sz@.len(),
        forall|i: int| 0 <= i < sz@.len() ==> within(#[trigger] pos@[i], sz@.len() + 1int),
        sz@.len() > 0 ==> pos@[sz@.len() - 1] == (IVec2 { x: 0, y: 0 }),
{
    let n = sz.len();
    if n == 0 {
        return pos0;
    }
    let ghost lv = links_view(*lk);
    let mut pos = pos0;
    let mut laid = all_false_vec(n);
    let mut blocked = all_false_vec(n);
    proof {
        lemma_none_counted(laid@);
        lemma_none_counted(all_false(n as nat));
    }
    let root = n - 1;
    let g = lay_room(lk, sz, &mut pos, &mut laid, &mut blocked, root, Some(IVec2 { x: 0, y: 0 }),
        Ghost((n + 1) as nat), Ghost(all_false(n as nat)));
    let ghost mut pl = g@;
    let ghost st1 = st_of(pos@, laid@, blocked@);
    let mut k: usize = 0;
    while k < root
        invariant
            n == sz@.len(),
            root == n - 1,
            n == pos@.len(),
            n == laid@.len(),
            n <= LAYOUT_ROOMS,
            links_ok(lv, n as nat),
            lv == links_view(*lk),
            sizes_ok(sz@, n as nat),
            k <= root,
            layout_inv(pos@, laid@, pl, n as nat),
            pl[root as int],
            pos@[root as int] == (IVec2 { x: 0, y: 0 }),
            lay_rest(lv, sz@, st1, 0, root as int, (n + 1) as nat)
                == lay_rest(lv, sz@, st_of(pos@, laid@, blocked@), k as int, root as int, (n + 1) as nat),
        decreases root - k,
    {
        blocked = all_false_vec(n);
        proof {
            lemma_count_le_len(laid@);
        }
        let ghost pos_call = pos@;
        let g = lay_room(lk, sz, &mut pos, &mut laid, &mut blocked, k, None, Ghost((n + 1) as nat), Ghost(pl));
        proof {
            assert(g@[root as int]);
            pl = g@;
        }
        k += 1;
    }
    proof {
        lemma_count_le_len(pl);
        assert forall|i: int| 0 <= i < n implies within(#[trigger] pos@[i], n + 1int) by {
            assert(within(pos@[i], count_true(pl) + 1int));
        }
    }
    pos
}

/// The transitions of the rooms as the indices of the rooms they lead to, with
/// their offsets.
pub open spec fn links_of(rooms: Seq<(String, RoomState)>) -> Links {
    Seq::new(
        rooms.len(),
        |i: int| Seq::new(
            rooms[i].1.room.transitions@.len(),
            |t: int| (room_index(rooms, rooms[i].1.room.transitions@[t].to_room@).unwrap() as usize,
                rooms[i].1.room.transitions@[t].offset),
        ),
    )
}

/// The sizes of the rooms, in cells.
pub open spec fn sizes_of(rooms: Seq<(String, RoomState)>) -> Seq<IVec2> {
    Seq::new(rooms.len(), |i: int| IVec2 { x: rooms[i].1.room.size.x as isize, y: rooms[i].1.room.size.y as isize })
}

/// The positions of the rooms.
pub open spec fn positions_of(rooms: Seq<(String, RoomState)>) -> Seq<IVec2> {
    Seq::new(rooms.len(), |i: int| rooms[i].1.pos)
}

/// Whether the rooms of a level can be laid out: there are at most
/// `LAYOUT_ROOMS` of them, every transition leads to one of them and shifts by at
/// most a layout step, and every room with its gap of five cells fits a layout
/// step and starts within one of the origin.
pub open spec fn layout_ready(rooms: Seq<(String, RoomState)>) -> bool {
    &&& rooms_ok(rooms)
    &&& rooms.len() <= LAYOUT_ROOMS
    &&& forall|i: int| 0 <= i < rooms.len() ==> {
        &&& (#[trigger] rooms[i]).1.room.size.x <= LAYOUT_STEP - 5
        &&& rooms[i].1.room.size.y <= LAYOUT_STEP - 5
        &&& within(rooms[i].1.pos, 1)
    }
    &&& forall|i: int, t: int| 0 <= i < rooms.len() && 0 <= t < rooms[i].1.room.transitions@.len() ==> {
        &&& room_index(rooms, (#[trigger] rooms[i].1.room.transitions@[t]).to_room@) is Some
        &&& -LAYOUT_STEP <= rooms[i].1.room.transitions@[t].offset.x <= LAYOUT_STEP
        &&& -LAYOUT_STEP <= rooms[i].1.room.transitions@[t].offset.y <= LAYOUT_STEP
    }
}

/// Lays out the rooms of a level that were loaded without positions (see
/// `spec_layout`): the last room goes to the origin and the rooms it leads to
/// around it, as their transitions say; then each other room in order, next to a
/// room it leads to that is laid out, or in free space on the right. Only the
/// positions change.
pub fn layout_rooms(rooms: &mut Vec<(String, RoomState)>)
    requires
        layout_ready(old(rooms)@),
    ensures
        final(rooms)@.len() == old(rooms)@.len(),
        forall|i: int| 0 <= i < old(rooms)@.len() ==> {
            &&& (#[trigger] final(rooms)@[i]).0 == old(rooms)@[i].0
            &&& final(rooms)@[i].1 == (RoomState { pos: final(rooms)@[i].1.pos, ..old(rooms)@[i].1 })
        },
        positions_of(final(rooms)@) == spec_layout(links_of(old(rooms)@), sizes_of(old(rooms)@), positions_of(old(rooms)@)),
        rooms_ok(final(rooms)@),
        old(rooms)@.len() > 0 ==> final(rooms)@[old(rooms)@.len() - 1].1.pos == (IVec2 { x: 0, y: 0 }),
{
    let n = rooms.len();
    let ghost links = links_of(rooms@);
    let mut lk: Vec<Vec<(usize, IVec2)>> = Vec::new();
    let mut sz: Vec<IVec2> = Vec::new();
    let mut pos0: Vec<IVec2> = Vec::new();
    let mut i: usize = 0;
    while i < n
        invariant
            n == rooms@.len(),
            rooms@ == old(rooms)@,
            layout_ready(rooms@),
            links == links_of(rooms@),
            i <= n,
            lk@.len() == i,
            forall|a: int| 0 <= a < i ==> (#[trigger] lk@[a])@ == links[a],
            sz@ == sizes_of(rooms@).take(i as int),
            pos0@ == positions_of(rooms@).take(i as int),
        decreases n - i,
    {
        let m = rooms[i].1.room.transitions.len();
        let mut row: Vec<(usize, IVec2)> = Vec::new();
        let mut t: usize = 0;
        while t < m
            invariant
                n == rooms@.len(),
                rooms@ == old(rooms)@,
                layout_ready(rooms@),
                links == links_of(rooms@),
                i < n,
                m == rooms@[i as int].1.room.transitions@.len(),
                t <= m,
                row@ == links[i as int].take(t as int),
            decreases m - t,
        {
            let tr = &rooms[i].1.room.transitions[t];
            assert(room_index(rooms@, rooms@[i as int].1.room.transitions@[t as int].to_room@) is Some);
            let j = find_room(rooms, &tr.to_room).unwrap();
            row.push((j, tr.offset));
            assert(row@ =~= links[i as int].take(t as int + 1));
            t += 1;
        }
        assert(row@ =~= links[i as int]);
        lk.push(row);
        let size = rooms[i].1.room.size;
        assert(room_state_ok(rooms@[i as int].1));
        sz.push(IVec2 { x: size.x as isize, y: size.y as isize });
        pos0.push(rooms[i].1.pos);
        assert(sz@ =~= sizes_of(rooms@).take(i as int + 1));
        assert(pos0@ =~= positions_of(rooms@).take(i as int + 1));
        i += 1;
    }
    proof {
        assert(links_view(lk) =~= links);
        assert(sz@ =~= sizes_of(rooms@));
        assert(pos0@ =~= positions_of(rooms@));
        assert forall|a: int, t: int| 0 <= a < n && 0 <= t < links[a].len() implies {
            &&& (#[trigger] links[a][t]).0 < n
            &&& -LAYOUT_STEP <= links[a][t].1.x <= LAYOUT_STEP
            &&& -LAYOUT_STEP <= links[a][t].1.y <= LAYOUT_STEP
        } by {
            let to = rooms@[a].1.room.transitions@[t].to_room@;
            assert(room_index(rooms@, to) is Some);
        }
    }
    let pos = layout_positions(&lk, &sz, pos0);
    let mut k: usize = 0;
    while k < n
        invariant
            n == rooms@.len(),
            n == old(rooms)@.len(),
            n == pos@.len(),
            rooms_ok(old(rooms)@),
            k <= n,
            forall|a: int| 0 <= a < n ==> within(#[trigger] pos@[a], n + 1int),
            n <= LAYOUT_ROOMS,
            forall|a: int| 0 <= a < k ==> (#[trigger] rooms@[a]) == (old(rooms)@[a].0, RoomState { pos: pos@[a], ..old(rooms)@[a].1 }),
            forall|a: int| k <= a < n ==> #[trigger] rooms@[a] == old(rooms)@[a],
        decreases n - k,
    {
        let mut entry = rooms.remove(k);
        entry.1.pos = pos[k];
        rooms.insert(k, entry);
        k += 1;
    }
    proof {
        assert(positions_of(rooms@) =~= pos@);
        assert forall|a: int, b: int| 0 <= a < n && 0 <= b < n && a != b implies #[trigger] rooms@[a].0@ != #[trigger] rooms@[b].0@ by {
            assert(old(rooms)@[a].0@ != old(rooms)@[b].0@);
        }
        assert forall|a: int| 0 <= a < n implies room_state_ok(#[trigger] rooms@[a].1) by {
            assert(room_state_ok(old(rooms)@[a].1));
            assert(within(pos@[a], n + 1int));
        }
    }
}

proof fn lemma_none_counted(s: Seq<bool>)
    requires
        forall|i: int| 0 <= i < s.len() ==> !s[i],
    ensures
        count_true(s) == 0,
    decreases s.len(),
{
    if s.len() > 0 {
        assert forall|i: int| 0 <= i < s.drop_last().len() implies !s.drop_last()[i] by {
            assert(s.drop_last()[i] == s[i]);
        }
        lemma_none_counted(s.drop_last());
    }
}

} // verus!

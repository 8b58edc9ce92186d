//! How states are grouped together: the hierarchy map.
//!
//! It protects the heterogeneous state implementations from the engine; in
//! exchange it offers APIs keyed by tokens (`StateId`). The whole tree of
//! states can be resolved from the parent links recorded here.
use vstd::prelude::*;

use crate::errors::{HSMError, HSMResult};
use crate::state::{StateBox, StateConstraint, StateContainer, StateId};
use crate::state_data_delegate::{PendingCommand, StateDataDelegate};

verus! {

/// The mathematical shape of a hierarchy: for every registered state, its
/// id and the id of its parent (`None` only for the top state).
pub type Skeleton = Seq<(u16, Option<u16>)>;

/// The id component of an optional token.
pub open spec fn opt_id(p: Option<StateId>) -> Option<u16> {
    match p {
        Some(s) => Some(s.id),
        None => None,
    }
}

/// Does `sk` register a state with this id?
pub open spec fn sk_registered(sk: Skeleton, id: u16) -> bool {
    exists|i: int| 0 <= i < sk.len() && (#[trigger] sk[i]).0 == id
}

/// The index at which `sk` registers `id` (meaningful only when registered
/// and unique only when ids are distinct).
pub open spec fn sk_idx(sk: Skeleton, id: u16) -> int {
    choose|i: int| 0 <= i < sk.len() && (#[trigger] sk[i]).0 == id
}

/// The recorded parent of `id`: `None` both for the rootless state and for
/// an id that is not registered at all.
pub open spec fn sk_parent(sk: Skeleton, id: u16) -> Option<u16> {
    if sk_registered(sk, id) {
        sk[sk_idx(sk, id)].1
    } else {
        None
    }
}

/// No state id is registered twice.
pub open spec fn sk_distinct(sk: Skeleton) -> bool {
    forall|i: int, j: int|
        0 <= i < j < sk.len() ==> (#[trigger] sk[i]).0 != (#[trigger] sk[j]).0
}

/// The parent chain from `id` upward, `id` first, stopping at the first
/// state without a recorded parent or when the fuel runs out.
pub open spec fn sk_path(sk: Skeleton, id: u16, fuel: nat) -> Seq<u16>
    decreases fuel,
{
    if fuel == 0 {
        seq![id]
    } else {
        match sk_parent(sk, id) {
            None => seq![id],
            Some(p) => seq![id] + sk_path(sk, p, (fuel - 1) as nat),
        }
    }
}

/// The canonical root path of `id`: enough fuel to cross every registered
/// state once.
pub open spec fn sk_root_path(sk: Skeleton, id: u16) -> Seq<u16> {
    sk_path(sk, id, sk.len() as nat)
}

/// The parent chain from `id` genuinely terminates: its canonical root
/// path ends at a state with no recorded parent (rather than being cut off
/// by fuel, which happens exactly when the chain has a cycle).
pub open spec fn sk_chain_ok(sk: Skeleton, id: u16) -> bool {
    sk_parent(sk, sk_root_path(sk, id).last()) is None
}

/// Every recorded parent is itself a registered state.
pub open spec fn sk_no_dangling(sk: Skeleton) -> bool {
    forall|i: int|
        0 <= i < sk.len() ==> match (#[trigger] sk[i]).1 {
            Some(p) => sk_registered(sk, p),
            None => true,
        }
}

/// A state lacks a parent exactly when it is the designated top state.
pub open spec fn sk_top_iff(sk: Skeleton, top: u16) -> bool {
    forall|i: int| 0 <= i < sk.len() ==> (((#[trigger] sk[i]).0 == top) <==> sk[i].1 is None)
}

/// Every registered state's parent chain terminates.
pub open spec fn sk_chains_ok(sk: Skeleton) -> bool {
    forall|i: int| 0 <= i < sk.len() ==> sk_chain_ok(sk, (#[trigger] sk[i]).0)
}

/// Everything build-time validation establishes about a hierarchy with
/// designated top id `top`: ids are distinct, every recorded parent is
/// itself registered, exactly the top state lacks a parent, and every
/// parent chain terminates.
pub open spec fn sk_valid(sk: Skeleton, top: u16) -> bool {
    &&& sk_distinct(sk)
    &&& sk_no_dangling(sk)
    &&& sk_top_iff(sk, top)
    &&& sk_chains_ok(sk)
}

/// A well-formed, usable hierarchy: valid and non-empty (so the top state
/// itself is registered).
pub open spec fn sk_wf(sk: Skeleton, top: u16) -> bool {
    &&& sk_valid(sk, top)
    &&& sk_registered(sk, top)
}

/// `p` follows parent links: each element's recorded parent is the next.
pub open spec fn sk_linked(sk: Skeleton, p: Seq<u16>) -> bool {
    forall|j: int| 0 <= j < p.len() - 1 ==> sk_parent(sk, #[trigger] p[j]) == Some(p[j + 1])
}

/// Length of the longest common prefix of two sequences.
pub open spec fn sk_cpl(x: Seq<u16>, y: Seq<u16>) -> nat
    decreases x.len(),
{
    if x.len() == 0 || y.len() == 0 || x[0] != y[0] {
        0
    } else {
        (1 + sk_cpl(x.drop_first(), y.drop_first())) as nat
    }
}

/// The least common ancestor of `a` and `b`: reverse both root paths so
/// they start at the top, walk the common prefix, and take its last
/// element.
pub open spec fn sk_lca(sk: Skeleton, a: u16, b: u16) -> u16 {
    let ra = sk_root_path(sk, a).reverse();
    let rb = sk_root_path(sk, b).reverse();
    ra[sk_cpl(ra, rb) - 1]
}

/// The states exited when moving from `cur` up to `lca`: `cur` first,
/// `lca` itself excluded.
pub open spec fn sk_exit_path(sk: Skeleton, cur: u16, lca: u16) -> Seq<u16> {
    let p = sk_root_path(sk, cur);
    p.take(p.len() - sk_root_path(sk, lca).len())
}

/// The states entered when moving from `lca` down to `target`: the child
/// of `lca` first, `target` itself last, `lca` excluded.
pub open spec fn sk_enter_path(sk: Skeleton, target: u16, lca: u16) -> Seq<u16> {
    let p = sk_root_path(sk, target);
    p.take(p.len() - sk_root_path(sk, lca).len()).reverse()
}

/// The states entered at initialization: the whole ancestor chain of the
/// starting state, top first, starting state last.
pub open spec fn sk_init_enter_path(sk: Skeleton, target: u16) -> Seq<u16> {
    sk_root_path(sk, target).reverse()
}

/// Structural facts about `sk_path` that hold with no assumptions on the
/// hierarchy: it starts at its argument, is linked, fits in the fuel, and
/// only stops early at a parentless state.
#[verifier::rlimit(100)]
#[verifier::spinoff_prover]
pub proof fn lemma_path_basics(sk: Skeleton, id: u16, fuel: nat)
    ensures
        sk_path(sk, id, fuel).len() >= 1,
        sk_path(sk, id, fuel)[0] == id,
        sk_path(sk, id, fuel).len() <= fuel + 1,
        sk_linked(sk, sk_path(sk, id, fuel)),
        sk_parent(sk, sk_path(sk, id, fuel).last()) is None || sk_path(sk, id, fuel).len() == fuel
            + 1,
    decreases fuel,
{
    let p = sk_path(sk, id, fuel);
    if fuel == 0 {
        assert(p =~= seq![id]);
    } else {
        match sk_parent(sk, id) {
            None => {
                assert(p =~= seq![id]);
            },
            Some(par) => {
                lemma_path_basics(sk, par, (fuel - 1) as nat);
                let q = sk_path(sk, par, (fuel - 1) as nat);
                assert(p =~= seq![id] + q);
                assert(p.last() == q.last());
                assert forall|j: int| 0 <= j < p.len() - 1 implies sk_parent(sk, #[trigger] p[j])
                    == Some(p[j + 1]) by {
                    if j == 0 {
                        assert(p[0] == id && p[1] == q[0] && q[0] == par);
                    } else {
                        assert(p[j] == q[j - 1] && p[j + 1] == q[j]);
                        assert(sk_parent(sk, q[j - 1]) == Some(q[j]));
                    }
                }
            },
        }
    }
}

/// A linked sequence that either ends at a parentless state or exactly
/// exhausts the fuel is precisely what `sk_path` computes from its head.
#[verifier::rlimit(100)]
#[verifier::spinoff_prover]
pub proof fn lemma_linked_path(sk: Skeleton, p: Seq<u16>, fuel: nat)
    requires
        p.len() >= 1,
        sk_linked(sk, p),
        fuel >= p.len() - 1,
        sk_parent(sk, p.last()) is None || fuel == p.len() - 1,
    ensures
        sk_path(sk, p[0], fuel) =~= p,
    decreases p.len(),
{
    if p.len() == 1 {
        if fuel != 0 {
            assert(sk_parent(sk, p[0]) is None);
        }
    } else {
        assert(sk_parent(sk, p[0]) == Some(p[1]));
        let q = p.drop_first();
        assert(q.len() == p.len() - 1);
        assert(q.last() == p.last());
        assert forall|j: int| 0 <= j < q.len() - 1 implies sk_parent(sk, #[trigger] q[j]) == Some(
            q[j + 1],
        ) by {
            assert(q[j] == p[j + 1] && q[j + 1] == p[j + 2]);
            assert(sk_parent(sk, p[j + 1]) == Some(p[j + 2]));
        }
        lemma_linked_path(sk, q, (fuel - 1) as nat);
        assert(sk_path(sk, p[0], fuel) =~= seq![p[0]] + q);
        assert(seq![p[0]] + q =~= p);
    }
}

/// Every suffix of a terminating root path is itself the root path of its
/// first element.
#[verifier::rlimit(100)]
#[verifier::spinoff_prover]
pub proof fn lemma_path_suffix(sk: Skeleton, id: u16, i: int)
    requires
        sk_chain_ok(sk, id),
        0 <= i < sk_root_path(sk, id).len(),
    ensures
        sk_root_path(sk, sk_root_path(sk, id)[i]) =~= sk_root_path(sk, id).skip(i),
{
    let p = sk_root_path(sk, id);
    lemma_path_basics(sk, id, sk.len() as nat);
    let q = p.skip(i);
    assert(q.len() == p.len() - i >= 1);
    assert(q[0] == p[i]);
    assert(q.last() == p.last());
    assert forall|j: int| 0 <= j < q.len() - 1 implies sk_parent(sk, #[trigger] q[j]) == Some(
        q[j + 1],
    ) by {
        assert(q[j] == p[i + j] && q[j + 1] == p[i + j + 1]);
        assert(sk_parent(sk, p[i + j]) == Some(p[i + j + 1]));
    }
    lemma_linked_path(sk, q, sk.len() as nat);
}

/// Two equal elements of a linked sequence force every later pair at the
/// same offset to be equal as well.
#[verifier::rlimit(100)]
#[verifier::spinoff_prover]
proof fn lemma_linked_shift(sk: Skeleton, p: Seq<u16>, i: int, j: int, d: int)
    requires
        sk_linked(sk, p),
        0 <= i < j,
        0 <= d,
        j + d < p.len(),
        p[i] == p[j],
    ensures
        p[i + d] == p[j + d],
    decreases d,
{
    if d > 0 {
        lemma_linked_shift(sk, p, i, j, d - 1);
        assert(sk_parent(sk, p[i + d - 1]) == Some(p[i + d]));
        assert(sk_parent(sk, p[j + d - 1]) == Some(p[j + d]));
    }
}

/// A terminating root path never visits the same state twice.
#[verifier::rlimit(100)]
#[verifier::spinoff_prover]
pub proof fn lemma_path_no_dup(sk: Skeleton, id: u16)
    requires
        sk_chain_ok(sk, id),
    ensures
        forall|i: int, j: int|
            0 <= i < j < sk_root_path(sk, id).len() ==> sk_root_path(sk, id)[i] != sk_root_path(
                sk,
                id,
            )[j],
{
    let p = sk_root_path(sk, id);
    lemma_path_basics(sk, id, sk.len() as nat);
    assert forall|i: int, j: int| 0 <= i < j < p.len() implies p[i] != p[j] by {
        if p[i] == p[j] {
            lemma_linked_shift(sk, p, i, j, p.len() - 1 - j);
            assert(p[i + p.len() - 1 - j] == p[p.len() - 1]);
            assert(sk_parent(sk, p[i + p.len() - 1 - j]) == Some(p[i + p.len() - j]));
            assert(sk_parent(sk, p.last()) is None);
        }
    }
}

/// In a well-formed hierarchy the root path of a registered state visits
/// only registered states and ends at the designated top state.
#[verifier::rlimit(100)]
#[verifier::spinoff_prover]
pub proof fn lemma_path_ends_top(sk: Skeleton, top: u16, id: u16)
    requires
        sk_wf(sk, top),
        sk_registered(sk, id),
    ensures
        sk_chain_ok(sk, id),
        sk_root_path(sk, id).last() == top,
        forall|k: int|
            0 <= k < sk_root_path(sk, id).len() ==> sk_registered(
                sk,
                #[trigger] sk_root_path(sk, id)[k],
            ),
{
    let i0 = choose|i: int| 0 <= i < sk.len() && (#[trigger] sk[i]).0 == id;
    assert(sk_chain_ok(sk, sk[i0].0));
    let p = sk_root_path(sk, id);
    lemma_path_basics(sk, id, sk.len() as nat);
    assert forall|k: int| 0 <= k < p.len() implies sk_registered(sk, #[trigger] p[k]) by {
        if k == 0 {
        } else {
            assert(sk_parent(sk, p[k - 1]) == Some(p[k]));
            assert(sk_registered(sk, p[k - 1]));
            let ix = sk_idx(sk, p[k - 1]);
            assert(sk[ix].1 == Some(p[k]));
        }
    }
    let lst = p.last();
    assert(sk_registered(sk, lst));
    assert(sk_parent(sk, lst) is None);
    let il = sk_idx(sk, lst);
    assert(0 <= il < sk.len() && sk[il].0 == lst);
    assert(sk[il].1 is None);
    assert(sk[il].0 == top);
}

/// Common-prefix lengths are bounded, describe genuine agreement, stop at
/// the first disagreement, and are symmetric.
#[verifier::rlimit(100)]
#[verifier::spinoff_prover]
pub proof fn lemma_cpl_props(x: Seq<u16>, y: Seq<u16>)
    ensures
        sk_cpl(x, y) <= x.len(),
        sk_cpl(x, y) <= y.len(),
        forall|i: int| 0 <= i < sk_cpl(x, y) ==> x[i] == y[i],
        (sk_cpl(x, y) < x.len() && sk_cpl(x, y) < y.len()) ==> x[sk_cpl(x, y) as int] != y[sk_cpl(
            x,
            y,
        ) as int],
        sk_cpl(x, y) == sk_cpl(y, x),
    decreases x.len(),
{
    if x.len() == 0 || y.len() == 0 || x[0] != y[0] {
    } else {
        lemma_cpl_props(x.drop_first(), y.drop_first());
        let c = sk_cpl(x, y);
        assert(c == 1 + sk_cpl(x.drop_first(), y.drop_first()));
        assert forall|i: int| 0 <= i < c implies x[i] == y[i] by {
            if i > 0 {
                assert(x.drop_first()[i - 1] == y.drop_first()[i - 1]);
            }
        }
        if c < x.len() && c < y.len() {
            assert(x.drop_first()[c - 1] != y.drop_first()[c - 1]);
        }
    }
}

/// An agreement of length `i` followed by a disagreement (or the end of a
/// sequence) pins the common-prefix length to exactly `i`.
#[verifier::rlimit(100)]
#[verifier::spinoff_prover]
pub proof fn lemma_cpl_is(x: Seq<u16>, y: Seq<u16>, i: int)
    requires
        0 <= i <= x.len(),
        i <= y.len(),
        forall|j: int| 0 <= j < i ==> x[j] == y[j],
        i == x.len() || i == y.len() || x[i] != y[i],
    ensures
        sk_cpl(x, y) == i,
    decreases i,
{
    if i == 0 {
        if x.len() != 0 && y.len() != 0 {
            assert(x[0] != y[0]);
        }
    } else {
        assert(x[0] == y[0]);
        let xs = x.drop_first();
        let ys = y.drop_first();
        assert forall|j: int| 0 <= j < i - 1 implies xs[j] == ys[j] by {
            assert(x[j + 1] == y[j + 1]);
        }
        if i - 1 < xs.len() && i - 1 < ys.len() {
            assert(xs[i - 1] == x[i as int] && ys[i - 1] == y[i as int]);
        }
        lemma_cpl_is(xs, ys, i - 1);
    }
}

/// In a well-formed hierarchy the reversed root paths of two registered
/// states agree on at least their first element, the top state.
#[verifier::rlimit(100)]
#[verifier::spinoff_prover]
pub proof fn lemma_cpl_positive(sk: Skeleton, top: u16, a: u16, b: u16)
    requires
        sk_wf(sk, top),
        sk_registered(sk, a),
        sk_registered(sk, b),
    ensures
        1 <= sk_cpl(sk_root_path(sk, a).reverse(), sk_root_path(sk, b).reverse()),
        sk_root_path(sk, a).reverse()[0] == top,
        sk_root_path(sk, b).reverse()[0] == top,
{
    lemma_path_ends_top(sk, top, a);
    lemma_path_ends_top(sk, top, b);
    let ra = sk_root_path(sk, a).reverse();
    let rb = sk_root_path(sk, b).reverse();
    lemma_path_basics(sk, a, sk.len() as nat);
    lemma_path_basics(sk, b, sk.len() as nat);
    assert(ra[0] == sk_root_path(sk, a).last());
    assert(rb[0] == sk_root_path(sk, b).last());
    assert(sk_cpl(ra, rb) >= 1) by {
        assert(ra.len() >= 1 && rb.len() >= 1 && ra[0] == rb[0]);
        assert(sk_cpl(ra, rb) == 1 + sk_cpl(ra.drop_first(), rb.drop_first()));
    }
}

/// The least common ancestor does not depend on the order of its two
/// arguments.
#[verifier::rlimit(100)]
#[verifier::spinoff_prover]
pub proof fn lemma_find_lca_symmetric(sk: Skeleton, top: u16, a: u16, b: u16)
    requires
        sk_wf(sk, top),
        sk_registered(sk, a),
        sk_registered(sk, b),
    ensures
        sk_lca(sk, a, b) == sk_lca(sk, b, a),
{
    let ra = sk_root_path(sk, a).reverse();
    let rb = sk_root_path(sk, b).reverse();
    lemma_cpl_positive(sk, top, a, b);
    lemma_cpl_props(ra, rb);
    let c = sk_cpl(ra, rb) as int;
    assert(ra[c - 1] == rb[c - 1]);
}

/// The id components of a sequence of tokens.
pub open spec fn ids_of(v: Seq<StateId>) -> Seq<u16> {
    v.map(|i: int, s: StateId| s.id)
}

/// Registering a fresh id keeps the ids distinct.
#[verifier::rlimit(100)]
#[verifier::spinoff_prover]
pub proof fn lemma_push_distinct(sk: Skeleton, id: u16, p: Option<u16>)
    requires
        sk_distinct(sk),
        !sk_registered(sk, id),
    ensures
        sk_distinct(sk.push((id, p))),
{
    let sk2 = sk.push((id, p));
    assert forall|i: int, j: int| 0 <= i < j < sk2.len() implies (#[trigger] sk2[i]).0 != (
    #[trigger] sk2[j]).0 by {
        if j == sk.len() {
            assert(sk2[i] == sk[i]);
            if sk2[i].0 == id {
                assert(sk_registered(sk, id));
            }
        } else {
            assert(sk2[i] == sk[i] && sk2[j] == sk[j]);
        }
    }
}

/// Without dangling parents, a root path visits only registered states.
#[verifier::rlimit(100)]
#[verifier::spinoff_prover]
pub proof fn lemma_path_all_registered(sk: Skeleton, id: u16)
    requires
        sk_no_dangling(sk),
        sk_registered(sk, id),
    ensures
        forall|k: int|
            0 <= k < sk_root_path(sk, id).len() ==> sk_registered(
                sk,
                #[trigger] sk_root_path(sk, id)[k],
            ),
{
    let p = sk_root_path(sk, id);
    lemma_path_basics(sk, id, sk.len() as nat);
    assert forall|k: int| 0 <= k < p.len() implies sk_registered(sk, #[trigger] p[k]) by {
        lemma_path_prefix_registered(sk, id, k);
    }
}

/// Helper for `lemma_path_all_registered`: registration propagates along
/// the path one link at a time.
#[verifier::rlimit(100)]
#[verifier::spinoff_prover]
proof fn lemma_path_prefix_registered(sk: Skeleton, id: u16, k: int)
    requires
        sk_no_dangling(sk),
        sk_registered(sk, id),
        0 <= k < sk_root_path(sk, id).len(),
    ensures
        sk_registered(sk, sk_root_path(sk, id)[k]),
    decreases k,
{
    let p = sk_root_path(sk, id);
    lemma_path_basics(sk, id, sk.len() as nat);
    if k == 0 {
    } else {
        lemma_path_prefix_registered(sk, id, k - 1);
        assert(sk_parent(sk, p[k - 1]) == Some(p[k]));
        let ix = sk_idx(sk, p[k - 1]);
        assert(sk[ix].1 == Some(p[k]));
    }
}

/// The least common ancestor of two registered states lies on both of
/// their root paths, and its own root path is the common suffix of
/// theirs, whose length is the common-prefix length of the reversals.
#[verifier::rlimit(100)]
#[verifier::spinoff_prover]
pub proof fn lemma_lca_on_paths(sk: Skeleton, top: u16, a: u16, b: u16)
    requires
        sk_wf(sk, top),
        sk_registered(sk, a),
        sk_registered(sk, b),
    ensures
        sk_registered(sk, sk_lca(sk, a, b)),
        ({
            let l = sk_lca(sk, a, b);
            let pa = sk_root_path(sk, a);
            let pb = sk_root_path(sk, b);
            let pl = sk_root_path(sk, l);
            let c = sk_cpl(pa.reverse(), pb.reverse()) as int;
            &&& 1 <= c <= pa.len()
            &&& c <= pb.len()
            &&& pl.len() == c
            &&& pa.skip(pa.len() - c) =~= pl
            &&& pb.skip(pb.len() - c) =~= pl
            &&& pa[pa.len() - c] == l
            &&& pb[pb.len() - c] == l
        }),
{
    let l = sk_lca(sk, a, b);
    let pa = sk_root_path(sk, a);
    let pb = sk_root_path(sk, b);
    let ra = pa.reverse();
    let rb = pb.reverse();
    let c = sk_cpl(ra, rb) as int;
    lemma_cpl_positive(sk, top, a, b);
    lemma_cpl_props(ra, rb);
    lemma_path_basics(sk, a, sk.len() as nat);
    lemma_path_basics(sk, b, sk.len() as nat);
    lemma_path_ends_top(sk, top, a);
    lemma_path_ends_top(sk, top, b);
    assert(ra[c - 1] == pa[pa.len() - c]);
    assert(rb[c - 1] == pb[pb.len() - c]);
    assert(ra[c - 1] == rb[c - 1]);
    assert(l == pa[pa.len() - c]);
    lemma_path_suffix(sk, a, pa.len() - c);
    lemma_path_suffix(sk, b, pb.len() - c);
    assert(sk_root_path(sk, l) =~= pa.skip(pa.len() - c));
    assert(sk_root_path(sk, l) =~= pb.skip(pb.len() - c));
    assert(sk_registered(sk, pa[pa.len() - c]));
}

/// Exiting and then standing at the least common ancestor accounts for
/// the whole root path: the states exited on the way from `a` up to the
/// LCA, followed by the LCA's own root path, are exactly `a`'s root path,
/// and likewise on `b`'s side.
#[verifier::rlimit(100)]
#[verifier::spinoff_prover]
pub proof fn lemma_exit_path_decomposition(sk: Skeleton, top: u16, a: u16, b: u16)
    requires
        sk_wf(sk, top),
        sk_registered(sk, a),
        sk_registered(sk, b),
    ensures
        ({
            let l = sk_lca(sk, a, b);
            &&& sk_root_path(sk, a) =~= sk_exit_path(sk, a, l) + sk_root_path(sk, l)
            &&& sk_root_path(sk, b) =~= sk_exit_path(sk, b, l) + sk_root_path(sk, l)
        }),
{
    lemma_lca_on_paths(sk, top, a, b);
    let l = sk_lca(sk, a, b);
    let pa = sk_root_path(sk, a);
    let pb = sk_root_path(sk, b);
    let pl = sk_root_path(sk, l);
    assert(pa =~= pa.take(pa.len() - pl.len()) + pa.skip(pa.len() - pl.len()));
    assert(pb =~= pb.take(pb.len() - pl.len()) + pb.skip(pb.len() - pl.len()));
}

/// No state is both exited and entered in the same transition: the states
/// exited on the way up from `a` and the states entered on the way down to
/// `b` are disjoint.
#[verifier::rlimit(100)]
#[verifier::spinoff_prover]
pub proof fn lemma_exit_enter_disjoint(sk: Skeleton, top: u16, a: u16, b: u16)
    requires
        sk_wf(sk, top),
        sk_registered(sk, a),
        sk_registered(sk, b),
    ensures
        forall|x: u16|
            sk_exit_path(sk, a, sk_lca(sk, a, b)).contains(x) ==> !sk_enter_path(
                sk,
                b,
                sk_lca(sk, a, b),
            ).contains(x),
{
    let l = sk_lca(sk, a, b);
    let pa = sk_root_path(sk, a);
    let pb = sk_root_path(sk, b);
    let ra = pa.reverse();
    let rb = pb.reverse();
    let c = sk_cpl(ra, rb) as int;
    lemma_lca_on_paths(sk, top, a, b);
    lemma_cpl_props(ra, rb);
    lemma_path_ends_top(sk, top, a);
    lemma_path_ends_top(sk, top, b);
    let ex = sk_exit_path(sk, a, l);
    let en = sk_enter_path(sk, b, l);
    assert(ex =~= pa.take(pa.len() - c));
    assert(en =~= pb.take(pb.len() - c).reverse());
    assert forall|x: u16| ex.contains(x) implies !en.contains(x) by {
        if en.contains(x) {
            let ii = choose|ii: int| 0 <= ii < ex.len() && ex[ii] == x;
            let jr = choose|jr: int| 0 <= jr < en.len() && en[jr] == x;
            let i = ii;
            let j = pb.len() - c - 1 - jr;
            assert(pa[i] == x && 0 <= i < pa.len() - c);
            assert(pb[j] == x && 0 <= j < pb.len() - c);
            lemma_path_suffix(sk, a, i);
            lemma_path_suffix(sk, b, j);
            assert(pa.skip(i) =~= pb.skip(j));
            lemma_rev_agree(pa, pb, i, j, c);
            assert(c < ra.len() && c < rb.len());
            assert(ra[c] != rb[c]);
        }
    }
}

/// States at or above the least common ancestor are neither exited nor
/// entered by the transition: nothing on the LCA's own root path appears
/// in either the exit path or the enter path.
#[verifier::rlimit(100)]
#[verifier::spinoff_prover]
pub proof fn lemma_lca_chain_untouched(sk: Skeleton, top: u16, a: u16, b: u16)
    requires
        sk_wf(sk, top),
        sk_registered(sk, a),
        sk_registered(sk, b),
    ensures
        forall|x: u16|
            sk_exit_path(sk, a, sk_lca(sk, a, b)).contains(x) ==> !sk_root_path(
                sk,
                sk_lca(sk, a, b),
            ).contains(x),
        forall|x: u16|
            sk_enter_path(sk, b, sk_lca(sk, a, b)).contains(x) ==> !sk_root_path(
                sk,
                sk_lca(sk, a, b),
            ).contains(x),
{
    let l = sk_lca(sk, a, b);
    let pa = sk_root_path(sk, a);
    let pb = sk_root_path(sk, b);
    let c = sk_cpl(pa.reverse(), pb.reverse()) as int;
    lemma_lca_on_paths(sk, top, a, b);
    lemma_path_no_dup(sk, a);
    lemma_path_no_dup(sk, b);
    lemma_path_ends_top(sk, top, a);
    lemma_path_ends_top(sk, top, b);
    let pl = sk_root_path(sk, l);
    let ex = sk_exit_path(sk, a, l);
    let en = sk_enter_path(sk, b, l);
    assert(ex =~= pa.take(pa.len() - c));
    assert(en =~= pb.take(pb.len() - c).reverse());
    assert forall|x: u16| ex.contains(x) implies !pl.contains(x) by {
        if pl.contains(x) {
            let i = choose|i: int| 0 <= i < ex.len() && ex[i] == x;
            let j = choose|j: int| 0 <= j < pl.len() && pl[j] == x;
            assert(pa[i] == x && 0 <= i < pa.len() - c);
            assert(pl =~= pa.skip(pa.len() - c));
            assert(pa[pa.len() - c + j] == x);
            assert(pa[i] == pa[pa.len() - c + j]);
        }
    }
    assert forall|x: u16| en.contains(x) implies !pl.contains(x) by {
        if pl.contains(x) {
            let ir = choose|ir: int| 0 <= ir < en.len() && en[ir] == x;
            let j = choose|j: int| 0 <= j < pl.len() && pl[j] == x;
            let i = pb.len() - c - 1 - ir;
            assert(pb[i] == x && 0 <= i < pb.len() - c);
            assert(pl =~= pb.skip(pb.len() - c));
            assert(pb[pb.len() - c + j] == x);
            assert(pb[i] == pb[pb.len() - c + j]);
        }
    }
}

/// If two sequences share a common suffix, their reversals agree on every
/// index inside that suffix.
#[verifier::rlimit(100)]
#[verifier::spinoff_prover]
proof fn lemma_rev_agree(pa: Seq<u16>, pb: Seq<u16>, i: int, j: int, e: int)
    requires
        0 <= i < pa.len(),
        0 <= j < pb.len(),
        pa.skip(i) =~= pb.skip(j),
        0 <= e < pa.len() - i,
    ensures
        pa.reverse()[e] == pb.reverse()[e],
{
    assert(pa.skip(i).len() == pa.len() - i);
    assert(pb.skip(j).len() == pb.len() - j);
    assert(pa.len() - i == pb.len() - j);
    assert(pa.reverse()[e] == pa[pa.len() - 1 - e]);
    assert(pb.reverse()[e] == pb[pb.len() - 1 - e]);
    assert(pa[pa.len() - 1 - e] == pa.skip(i)[pa.len() - 1 - e - i]);
    assert(pb[pb.len() - 1 - e] == pb.skip(j)[pb.len() - 1 - e - j]);
    assert(pa.len() - 1 - e - i == pb.len() - 1 - e - j);
}

/// Reverse a path, so it runs from the top down.
pub(crate) fn reverse_ids(path: &Vec<StateId>) -> (r: Vec<StateId>)
    ensures
        r@ =~= path@.reverse(),
{
    let n = path.len();
    let mut out: Vec<StateId> = Vec::new();
    let mut i: usize = 0;
    while i < n
        invariant
            n == path@.len(),
            0 <= i <= n,
            out@.len() == i,
            forall|j: int| 0 <= j < i ==> #[trigger] out@[j] == path@[n - 1 - j],
        decreases n - i,
    {
        out.push(path[n - 1 - i]);
        i = i + 1;
    }
    out
}

/// `anc` lies on `node`'s root path: `node`'s path ends with `anc`'s.
pub open spec fn on_path_of(sk: Skeleton, anc: u16, node: u16) -> bool {
    let pn = sk_root_path(sk, node);
    let pa = sk_root_path(sk, anc);
    &&& pa.len() <= pn.len()
    &&& pn.skip(pn.len() - pa.len()) =~= pa
}

/// A validated hierarchy that registers any state at all also registers
/// the designated top state, and so is well formed.
#[verifier::rlimit(100)]
#[verifier::spinoff_prover]
pub proof fn lemma_valid_gives_wf(sk: Skeleton, top: u16, s: u16)
    requires
        sk_valid(sk, top),
        sk_registered(sk, s),
    ensures
        sk_wf(sk, top),
        sk_root_path(sk, s).last() == top,
{
    let i0 = choose|i: int| 0 <= i < sk.len() && (#[trigger] sk[i]).0 == s;
    assert(sk_chain_ok(sk, sk[i0].0));
    lemma_path_all_registered(sk, s);
    let p = sk_root_path(sk, s);
    lemma_path_basics(sk, s, sk.len() as nat);
    let lst = p.last();
    assert(sk_registered(sk, lst));
    assert(sk_parent(sk, lst) is None);
    let il = sk_idx(sk, lst);
    assert(0 <= il < sk.len() && sk[il].0 == lst);
    assert(sk[il].1 is None);
    assert(sk[il].0 == top);
}

/// With distinct ids, the recorded parent of the state at position `i` is
/// exactly that entry's parent component.
#[verifier::rlimit(100)]
#[verifier::spinoff_prover]
pub proof fn lemma_entry_parent(sk: Skeleton, i: int)
    requires
        sk_distinct(sk),
        0 <= i < sk.len(),
    ensures
        sk_parent(sk, sk[i].0) == sk[i].1,
{
    assert(sk_registered(sk, sk[i].0));
    let j = sk_idx(sk, sk[i].0);
    assert(0 <= j < sk.len() && sk[j].0 == sk[i].0);
    if i < j {
        assert(sk[i].0 != sk[j].0);
    } else if j < i {
        assert(sk[j].0 != sk[i].0);
    }
}

/// Root paths terminate and are inclusive on both ends: for every
/// registered state, its root path starts with the state itself, ends with
/// the designated top state, and has no duplicate entries.
#[verifier::rlimit(100)]
#[verifier::spinoff_prover]
pub proof fn lemma_path_to_root_properties(sk: Skeleton, top: u16, s: u16)
    requires
        sk_wf(sk, top),
        sk_registered(sk, s),
    ensures
        sk_root_path(sk, s).len() >= 1,
        sk_root_path(sk, s)[0] == s,
        sk_root_path(sk, s).last() == top,
        forall|i: int, j: int|
            0 <= i < j < sk_root_path(sk, s).len() ==> sk_root_path(sk, s)[i] != sk_root_path(
                sk,
                s,
            )[j],
{
    lemma_path_basics(sk, s, sk.len() as nat);
    lemma_path_ends_top(sk, top, s);
    lemma_path_no_dup(sk, s);
}

/// Owns all registered states keyed by id, plus the parent links; answers
/// "what is the parent of X", "what is the root-to-X path", "is this id
/// valid", and forwards lifecycle callbacks to the owned states.
#[verifier::reject_recursive_types(StateT)]
#[verifier::reject_recursive_types(EventT)]
pub struct StateMapping<StateT, EventT> {
    top_state_id: StateId,
    containers: Vec<StateContainer<StateT, EventT>>,
}

impl<StateT: StateConstraint, EventT> StateMapping<StateT, EventT> {
    /// The designated top state id.
    pub closed spec fn top_spec(self) -> u16 {
        self.top_state_id.id
    }

    /// The hierarchy's shape: ids and parent links, in registration order.
    pub closed spec fn skeleton(self) -> Skeleton {
        self.containers@.map(
            |i: int, c: StateContainer<StateT, EventT>| (c.state_id.id, opt_id(c.parent_id)),
        )
    }

    /// Is `id` the id of a registered state?
    pub open spec fn registered(self, id: u16) -> bool {
        sk_registered(self.skeleton(), id)
    }

    /// The hierarchy is well formed.
    pub open spec fn wf(self) -> bool {
        sk_wf(self.skeleton(), self.top_spec())
    }

    pub fn new(top_state_id: StateId, containers: Vec<StateContainer<StateT, EventT>>) -> (r: Self)
        ensures
            r.top_spec() == top_state_id.id,
            r.skeleton() =~= containers@.map(
                |i: int, c: StateContainer<StateT, EventT>| (c.state_id.id, opt_id(c.parent_id)),
            ),
    {
        StateMapping { top_state_id, containers }
    }

    /// The position of `id` among the registered states, if any: always the
    /// first match, which is the only one once ids are distinct.
    fn find_index(&self, id: u16) -> (r: Option<usize>)
        ensures
            r is Some <==> self.registered(id),
            r matches Some(i) ==> 0 <= i < self.skeleton().len() && self.skeleton()[i as int].0
                == id,
            r matches Some(i) ==> (sk_distinct(self.skeleton()) ==> i as int == sk_idx(
                self.skeleton(),
                id,
            )),
    {
        let ghost sk = self.skeleton();
        let n = self.containers.len();
        let mut i: usize = 0;
        while i < n
            invariant
                n == self.containers@.len(),
                sk == self.skeleton(),
                0 <= i <= n,
                forall|j: int| 0 <= j < i ==> (#[trigger] sk[j]).0 != id,
            decreases n - i,
        {
            if self.containers[i].state_id.id == id {
                proof {
                    assert(sk[i as int].0 == id);
                    if sk_distinct(sk) {
                        let k = sk_idx(sk, id);
                        assert(0 <= k < sk.len() && sk[k].0 == id);
                    }
                }
                return Some(i);
            }
            i = i + 1;
        }
        proof {
            assert(forall|j: int| 0 <= j < sk.len() ==> (#[trigger] sk[j]).0 != id);
        }
        None
    }

    /// Every registered state id, in registration order.
    pub fn get_registered_state_id(&self) -> (r: Vec<StateId>)
        ensures
            r@.len() == self.skeleton().len(),
            forall|i: int|
                0 <= i < r@.len() ==> (#[trigger] r@[i]).id == self.skeleton()[i].0,
    {
        let mut out: Vec<StateId> = Vec::new();
        let n = self.containers.len();
        let mut i: usize = 0;
        while i < n
            invariant
                n == self.containers@.len(),
                0 <= i <= n,
                out@.len() == i,
                forall|j: int|
                    0 <= j < i ==> (#[trigger] out@[j]).id == self.skeleton()[j].0,
            decreases n - i,
        {
            out.push(self.containers[i].state_id);
            i = i + 1;
        }
        out
    }

    /// Return the id of the state's parent; `None` both for the top state
    /// and for an id that was never registered.
    pub fn get_parent_state_id(&self, id: &StateId) -> (r: Option<StateId>)
        ensures
            sk_distinct(self.skeleton()) ==> opt_id(r) == sk_parent(self.skeleton(), id.id),
            !self.registered(id.id) ==> r is None,
    {
        match self.find_index(id.id) {
            None => None,
            Some(i) => self.containers[i].parent_id,
        }
    }

    /// Is `id` a registered state?
    pub fn is_state_valid(&self, id: &StateId) -> (r: bool)
        ensures
            r == self.registered(id.id),
    {
        self.find_index(id.id).is_some()
    }

    /// Same question as `is_state_valid`, kept for both call shapes the
    /// engine uses.
    pub fn is_state_id_valid(&self, state_id: &StateId) -> (r: bool)
        ensures
            r == self.registered(state_id.id),
    {
        self.is_state_valid(state_id)
    }

    /// Is `id` registered, as a result: the error names the state.
    pub fn is_state_id_valid_result(&self, state_id: &StateId) -> (r: HSMResult<(), StateT>)
        ensures
            r is Ok <==> self.registered(state_id.id),
            r is Err ==> r->Err_0 is InvalidStateId,
    {
        if self.is_state_id_valid(state_id) {
            Ok(())
        } else {
            Err(
                HSMError::InvalidStateId(
                    StateT::from_id(state_id.id),
                    "is_state_id_valid_result".to_owned(),
                ),
            )
        }
    }

    /// Register a state: record its id, its parent link and its
    /// implementation. Fails if a second rootless state is registered, if
    /// the designated top state is given a parent, or if the id is already
    /// taken; on failure nothing is recorded.
    #[verifier::rlimit(100)]
    #[verifier::spinoff_prover]
    pub fn add_state_internal(
        &mut self,
        state_ref: StateBox<StateT, EventT>,
        new_state_id: StateId,
        parent_state: Option<StateId>,
    ) -> (r: HSMResult<(), StateT>)
        ensures
            final(self).top_spec() == old(self).top_spec(),
            ({
                let sk = old(self).skeleton();
                let top = old(self).top_spec();
                if parent_state is None && new_state_id.id != top {
                    &&& r is Err
                    &&& r->Err_0 is MultipleTopState
                    &&& final(self).skeleton() =~= sk
                } else if parent_state is Some && new_state_id.id == top {
                    &&& r is Err
                    &&& r->Err_0 is GenericError
                    &&& final(self).skeleton() =~= sk
                } else if sk_registered(sk, new_state_id.id) {
                    &&& r is Err
                    &&& r->Err_0 is AddDuplicateStateId
                    &&& final(self).skeleton() =~= sk
                } else {
                    &&& r is Ok
                    &&& final(self).skeleton() =~= sk.push(
                        (new_state_id.id, opt_id(parent_state)),
                    )
                }
            }),
    {
        let top = self.top_state_id.id;
        if parent_state.is_none() && new_state_id.id != top {
            return Err(
                HSMError::MultipleTopState(
                    StateT::from_id(top).name(),
                    top,
                    StateT::from_id(new_state_id.id).name(),
                    new_state_id.id,
                ),
            );
        }
        if parent_state.is_some() && new_state_id.id == top {
            return Err(
                HSMError::GenericError(
                    "the designated top state cannot be given a parent".to_owned(),
                ),
            );
        }
        if self.find_index(new_state_id.id).is_some() {
            return Err(HSMError::AddDuplicateStateId(StateT::from_id(new_state_id.id), new_state_id.id));
        }
        let ghost sk = self.skeleton();
        self.containers.push(StateContainer::new(new_state_id, parent_state, state_ref));
        proof {
            assert(final(self).skeleton() =~= sk.push((new_state_id.id, opt_id(parent_state))));
        }
        Ok(())
    }

    /// Path to the root from the provided state, inclusive on both ends:
    /// `[start, ..., top]`. Walks the parent links; fails if the start id
    /// is unregistered, if a hop's target is not itself a registered state
    /// (graph corruption), or if the links form a cycle.
    #[verifier::rlimit(100)]
    #[verifier::spinoff_prover]
    pub fn resolve_path_to_root(&self, start_node: &StateId) -> (r: HSMResult<Vec<StateId>, StateT>)
        ensures
            !self.registered(start_node.id) <==> (r is Err && r->Err_0 is InvalidStateId),
            sk_distinct(self.skeleton()) ==> ({
                let sk = self.skeleton();
                let id = start_node.id;
                &&& ((sk_registered(sk, id) && !sk_chain_ok(sk, id)) <==> (r is Err
                    && r->Err_0 is MapValidationError))
                &&& ((sk_registered(sk, id) && sk_chain_ok(sk, id) && !sk_registered(
                    sk,
                    sk_root_path(sk, id).last(),
                )) <==> (r is Err && r->Err_0 is ImpossibleStateMismatch))
                &&& ((sk_registered(sk, id) && sk_chain_ok(sk, id) && sk_registered(
                    sk,
                    sk_root_path(sk, id).last(),
                )) ==> (r matches Ok(p) && ids_of(p@) =~= sk_root_path(sk, id)))
            }),
    {
        let ghost sk = self.skeleton();
        let n = self.containers.len();
        if self.find_index(start_node.id).is_none() {
            return Err(
                HSMError::InvalidStateId(
                    StateT::from_id(start_node.id),
                    "resolve_path_to_root".to_owned(),
                ),
            );
        }
        let mut path: Vec<StateId> = Vec::new();
        path.push(*start_node);
        let mut current: StateId = *start_node;
        let mut fuel: usize = n;
        loop
            invariant
                sk == self.skeleton(),
                n == sk.len(),
                fuel <= n,
                path@.len() == n - fuel + 1,
                path@[0] == *start_node,
                path@.last() == current,
                forall|k: int|
                    0 <= k < path@.len() ==> sk_registered(sk, (#[trigger] path@[k]).id),
                sk_distinct(sk) ==> sk_linked(sk, ids_of(path@)),
            decreases fuel,
        {
            let parent_opt = self.get_parent_state_id(&current);
            match parent_opt {
                None => {
                    proof {
                        if sk_distinct(sk) {
                            let p = ids_of(path@);
                            assert(p.len() == path@.len() && p[0] == start_node.id);
                            assert(p.last() == current.id);
                            assert(sk_parent(sk, current.id) is None);
                            lemma_linked_path(sk, p, sk.len() as nat);
                            assert(sk_root_path(sk, start_node.id) =~= p);
                        }
                    }
                    return Ok(path);
                },
                Some(parent_id) => {
                    if fuel == 0 {
                        proof {
                            if sk_distinct(sk) {
                                let p = ids_of(path@);
                                assert(p.len() == n + 1 && p[0] == start_node.id);
                                assert(p.last() == current.id);
                                assert(sk_parent(sk, current.id) == Some(parent_id.id));
                                lemma_linked_path(sk, p, sk.len() as nat);
                                assert(sk_root_path(sk, start_node.id) =~= p);
                            }
                        }
                        return Err(
                            HSMError::MapValidationError(
                                "state hierarchy contains a parent cycle".to_owned(),
                            ),
                        );
                    }
                    if !self.is_state_id_valid(&parent_id) {
                        proof {
                            if sk_distinct(sk) {
                                let p0 = ids_of(path@);
                                let p = p0.push(parent_id.id);
                                assert(sk_parent(sk, current.id) == Some(parent_id.id));
                                assert(sk_parent(sk, parent_id.id) is None);
                                assert(p[0] == start_node.id && p.last() == parent_id.id);
                                assert forall|j: int|
                                    0 <= j < p.len() - 1 implies sk_parent(sk, #[trigger] p[j])
                                    == Some(p[j + 1]) by {
                                    if j < p0.len() - 1 {
                                        assert(p[j] == p0[j] && p[j + 1] == p0[j + 1]);
                                        assert(sk_parent(sk, p0[j]) == Some(p0[j + 1]));
                                    } else {
                                        assert(p[j] == current.id);
                                    }
                                }
                                lemma_linked_path(sk, p, sk.len() as nat);
                                assert(sk_root_path(sk, start_node.id) =~= p);
                            }
                        }
                        return Err(
                            HSMError::ImpossibleStateMismatch(
                                StateT::from_id(current.id),
                                StateT::from_id(parent_id.id),
                            ),
                        );
                    }
                    proof {
                        assert(ids_of(path@.push(parent_id)) =~= ids_of(path@).push(
                            parent_id.id,
                        ));
                        if sk_distinct(sk) {
                            let p0 = ids_of(path@);
                            let p = p0.push(parent_id.id);
                            assert(sk_parent(sk, current.id) == Some(parent_id.id));
                            assert forall|j: int|
                                0 <= j < p.len() - 1 implies sk_parent(sk, #[trigger] p[j])
                                == Some(p[j + 1]) by {
                                if j < p0.len() - 1 {
                                    assert(p[j] == p0[j] && p[j + 1] == p0[j + 1]);
                                    assert(sk_parent(sk, p0[j]) == Some(p0[j + 1]));
                                } else {
                                    assert(p[j] == current.id);
                                }
                            }
                        }
                    }
                    path.push(parent_id);
                    current = parent_id;
                    fuel = fuel - 1;
                },
            }
        }
    }

    /// The least common ancestor of two states: resolve both root paths,
    /// reverse them so they start at the top, and walk the shared prefix;
    /// its last element is the LCA. Fails if the two states are the same
    /// (no meaningful LCA), if the target is the top state itself
    /// (transitioning to top is disallowed), or if either path cannot be
    /// resolved.
    #[verifier::rlimit(100)]
    #[verifier::spinoff_prover]
    pub fn find_lca(&self, source_state: &StateId, target_state: &StateId) -> (r: HSMResult<
        StateId,
        StateT,
    >)
        ensures
            source_state.id == target_state.id ==> (r is Err && r->Err_0 is LCAOfSameNode),
            self.wf() ==> ({
                let sk = self.skeleton();
                let s = source_state.id;
                let t = target_state.id;
                if s == t {
                    r is Err && r->Err_0 is LCAOfSameNode
                } else if t == self.top_spec() {
                    r is Err && r->Err_0 is GenericError
                } else if !sk_registered(sk, s) || !sk_registered(sk, t) {
                    r is Err && r->Err_0 is InvalidStateId
                } else {
                    r matches Ok(l) && l.id == sk_lca(sk, s, t)
                }
            }),
    {
        let ghost sk = self.skeleton();
        let ghost top = self.top_spec();
        if source_state.id == target_state.id {
            return Err(HSMError::LCAOfSameNode());
        }
        if target_state.id == self.top_state_id.id {
            return Err(
                HSMError::GenericError(
                    "no LCA above the root: the top state cannot be a transition target".to_owned(),
                ),
            );
        }
        proof {
            if self.wf() {
                if sk_registered(sk, source_state.id) {
                    lemma_path_ends_top(sk, top, source_state.id);
                    lemma_path_all_registered(sk, source_state.id);
                }
                if sk_registered(sk, target_state.id) {
                    lemma_path_ends_top(sk, top, target_state.id);
                    lemma_path_all_registered(sk, target_state.id);
                }
            }
        }
        let source_path_to_root = self.resolve_path_to_root(source_state)?;
        let target_path_to_root = self.resolve_path_to_root(target_state)?;

        let root_to_source_path = reverse_ids(&source_path_to_root);
        let root_to_target_path = reverse_ids(&target_path_to_root);
        let ghost ra = ids_of(root_to_source_path@);
        let ghost rb = ids_of(root_to_target_path@);
        proof {
            assert(ra =~= ids_of(source_path_to_root@).reverse());
            assert(rb =~= ids_of(target_path_to_root@).reverse());
        }

        // Compare the two paths starting at the top and keep going until
        // they diverge; the last state before the divergence is the LCA.
        let na = root_to_source_path.len();
        let nb = root_to_target_path.len();
        let mut i: usize = 0;
        while i < na && i < nb && root_to_source_path[i].id == root_to_target_path[i].id
            invariant
                na == ra.len(),
                nb == rb.len(),
                ra =~= ids_of(root_to_source_path@),
                rb =~= ids_of(root_to_target_path@),
                0 <= i <= na,
                i <= nb,
                forall|j: int| 0 <= j < i ==> ra[j] == rb[j],
            decreases na - i,
        {
            i = i + 1;
        }
        proof {
            lemma_cpl_is(ra, rb, i as int);
        }
        if i == 0 {
            return Err(HSMError::LCAOfSameNode());
        }
        Ok(root_to_source_path[i - 1])
    }

    /// Validate the relationships between the registered states: ids are
    /// unique, every recorded parent resolves to a registered state,
    /// exactly the designated top state has no parent, and no parent chain
    /// loops. Run once at build completion; states are immutable in number
    /// after that.
    #[verifier::rlimit(100)]
    #[verifier::spinoff_prover]
    pub fn validate_cross_states(&self) -> (r: HSMResult<(), StateT>)
        ensures
            r is Ok <==> sk_valid(self.skeleton(), self.top_spec()),
            r is Err ==> r->Err_0 is MapValidationError,
    {
        let ghost sk = self.skeleton();
        let ghost top = self.top_spec();
        let n = self.containers.len();

        // Pass 1: no state id is registered twice.
        let mut i: usize = 0;
        while i < n
            invariant
                sk == self.skeleton(),
                n == sk.len(),
                0 <= i <= n,
                forall|x: int, y: int|
                    0 <= x < y < sk.len() && x < i ==> (#[trigger] sk[x]).0 != (
                    #[trigger] sk[y]).0,
            decreases n - i,
        {
            let mut j: usize = i + 1;
            while j < n
                invariant
                    sk == self.skeleton(),
                    n == sk.len(),
                    0 <= i < n,
                    i + 1 <= j <= n,
                    forall|y: int| i < y < j ==> sk[i as int].0 != (#[trigger] sk[y]).0,
                decreases n - j,
            {
                if self.containers[i].state_id.id == self.containers[j].state_id.id {
                    proof {
                        assert(sk[i as int].0 == sk[j as int].0);
                        assert(!sk_distinct(sk));
                    }
                    return Err(
                        HSMError::MapValidationError(
                            "a state id is registered more than once".to_owned(),
                        ),
                    );
                }
                j = j + 1;
            }
            i = i + 1;
        }
        proof {
            assert(sk_distinct(sk));
        }

        // Pass 2: parent links resolve, and exactly the top state has no
        // parent.
        let mut i2: usize = 0;
        while i2 < n
            invariant
                sk == self.skeleton(),
                top == self.top_spec(),
                n == sk.len(),
                sk_distinct(sk),
                0 <= i2 <= n,
                forall|k: int|
                    0 <= k < i2 ==> match (#[trigger] sk[k]).1 {
                        Some(p) => sk_registered(sk, p),
                        None => true,
                    },
                forall|k: int|
                    0 <= k < i2 ==> (((#[trigger] sk[k]).0 == self.top_spec()) <==> sk[k].1
                        is None),
            decreases n - i2,
        {
            let sid = self.containers[i2].state_id;
            let pid = self.containers[i2].parent_id;
            proof {
                assert(sk[i2 as int] == (sid.id, opt_id(pid)));
            }
            match pid {
                Some(p) => {
                    if !self.is_state_id_valid(&p) {
                        proof {
                            assert(!sk_no_dangling(sk));
                        }
                        return Err(
                            HSMError::MapValidationError(
                                "a parent id in the hierarchy is not a registered state".to_owned(),
                            ),
                        );
                    }
                    if sid.id == self.top_state_id.id {
                        proof {
                            assert((sk[i2 as int]).0 == top && (sk[i2 as int]).1 is Some);
                            if sk_top_iff(sk, top) {
                                assert(((sk[i2 as int]).0 == top) <==> (sk[i2 as int]).1 is None);
                                assert(false);
                            }
                        }
                        return Err(
                            HSMError::MapValidationError(
                                "the designated top state has a parent".to_owned(),
                            ),
                        );
                    }
                },
                None => {
                    if sid.id != self.top_state_id.id {
                        proof {
                            assert((sk[i2 as int]).0 != top && (sk[i2 as int]).1 is None);
                            if sk_top_iff(sk, top) {
                                assert(((sk[i2 as int]).0 == top) <==> (sk[i2 as int]).1 is None);
                                assert(false);
                            }
                        }
                        return Err(
                            HSMError::MapValidationError(
                                "a state other than the designated top has no parent".to_owned(),
                            ),
                        );
                    }
                },
            }
            i2 = i2 + 1;
        }
        proof {
            assert(sk_no_dangling(sk));
            assert(sk_top_iff(sk, top));
        }

        // Pass 3: every parent chain terminates.
        let mut i3: usize = 0;
        while i3 < n
            invariant
                sk == self.skeleton(),
                n == sk.len(),
                sk_distinct(sk),
                sk_no_dangling(sk),
                sk_top_iff(sk, top),
                top == self.top_spec(),
                0 <= i3 <= n,
                forall|k: int| 0 <= k < i3 ==> sk_chain_ok(sk, (#[trigger] sk[k]).0),
            decreases n - i3,
        {
            let sid = self.containers[i3].state_id;
            proof {
                assert(sk[i3 as int].0 == sid.id);
                assert(sk_registered(sk, sid.id));
            }
            match self.resolve_path_to_root(&sid) {
                Ok(_) => {
                    proof {
                        assert(sk_chain_ok(sk, sid.id));
                    }
                },
                Err(e) => {
                    proof {
                        lemma_path_all_registered(sk, sid.id);
                        assert(!sk_chain_ok(sk, sid.id));
                        assert(!sk_chains_ok(sk));
                    }
                    return Err(e);
                },
            }
            i3 = i3 + 1;
        }
        proof {
            assert(sk_chains_ok(sk));
        }
        Ok(())
    }

    /// Let the state with this id try to handle the event. Returns whether
    /// it did, together with the commands it queued on its delegate while
    /// doing so; the shape of the hierarchy is untouched.
    pub fn handle_event(&mut self, id: &StateId, event: &EventT) -> (r: HSMResult<
        (bool, Vec<PendingCommand<EventT>>),
        StateT,
    >)
        ensures
            final(self).skeleton() =~= old(self).skeleton(),
            final(self).top_spec() == old(self).top_spec(),
            r is Ok <==> old(self).registered(id.id),
            r is Err ==> r->Err_0 is InvalidStateId,
    {
        let ghost sk = self.skeleton();
        match self.find_index(id.id) {
            None => Err(
                HSMError::InvalidStateId(StateT::from_id(id.id), "handle_event".to_owned()),
            ),
            Some(i) => {
                let mut delegate = StateDataDelegate::new(*id);
                let c = &mut self.containers[i];
                let handled = c.state_ref.handle_event(event, &mut delegate);
                proof {
                    assert(final(self).skeleton() =~= sk);
                }
                Ok((handled, delegate.take_commands()))
            },
        }
    }

    /// Forward the enter callback to the state with this id.
    pub fn handle_state_enter(&mut self, id: &StateId) -> (r: HSMResult<(), StateT>)
        ensures
            final(self).skeleton() =~= old(self).skeleton(),
            final(self).top_spec() == old(self).top_spec(),
            r is Ok <==> old(self).registered(id.id),
            r is Err ==> r->Err_0 is InvalidStateId,
    {
        let ghost sk = self.skeleton();
        match self.find_index(id.id) {
            None => Err(
                HSMError::InvalidStateId(StateT::from_id(id.id), "handle_state_enter".to_owned()),
            ),
            Some(i) => {
                let c = &mut self.containers[i];
                c.state_ref.handle_state_enter();
                proof {
                    assert(final(self).skeleton() =~= sk);
                }
                Ok(())
            },
        }
    }

    /// Forward the start callback to the state with this id.
    pub fn handle_state_start(&mut self, id: &StateId) -> (r: HSMResult<(), StateT>)
        ensures
            final(self).skeleton() =~= old(self).skeleton(),
            final(self).top_spec() == old(self).top_spec(),
            r is Ok <==> old(self).registered(id.id),
            r is Err ==> r->Err_0 is InvalidStateId,
    {
        let ghost sk = self.skeleton();
        match self.find_index(id.id) {
            None => Err(
                HSMError::InvalidStateId(StateT::from_id(id.id), "handle_state_start".to_owned()),
            ),
            Some(i) => {
                let c = &mut self.containers[i];
                c.state_ref.handle_state_start();
                proof {
                    assert(final(self).skeleton() =~= sk);
                }
                Ok(())
            },
        }
    }

    /// Forward the exit callback to the state with this id.
    pub fn handle_state_exit(&mut self, id: &StateId) -> (r: HSMResult<(), StateT>)
        ensures
            final(self).skeleton() =~= old(self).skeleton(),
            final(self).top_spec() == old(self).top_spec(),
            r is Ok <==> old(self).registered(id.id),
            r is Err ==> r->Err_0 is InvalidStateId,
    {
        let ghost sk = self.skeleton();
        match self.find_index(id.id) {
            None => Err(
                HSMError::InvalidStateId(StateT::from_id(id.id), "handle_state_exit".to_owned()),
            ),
            Some(i) => {
                let c = &mut self.containers[i];
                c.state_ref.handle_state_exit();
                proof {
                    assert(final(self).skeleton() =~= sk);
                }
                Ok(())
            },
        }
    }
}

} // verus!

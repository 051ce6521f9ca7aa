//! The device-path format as mathematics: what it means for a buffer to hold
//! a chain of nodes, which nodes it holds, and how chains behave when their
//! bytes are copied, joined and cut.

use crate::protocol::device_path::{END_ENTIRE_PATH, END_TYPE};
use vstd::prelude::*;

verus! {

/// The length field of a node that starts at `at`: two bytes, low byte first.
pub open spec fn length_at(b: Seq<u8>, at: int) -> int {
    b[at + 2] as int + 256 * (b[at + 3] as int)
}

/// A whole node lies in `b` at `at`: its header is there, its length field
/// covers at least the header, and the buffer holds all of it.
pub open spec fn node_at(b: Seq<u8>, at: int) -> bool {
    &&& 0 <= at
    &&& at + 4 <= b.len()
    &&& 4 <= length_at(b, at)
    &&& at + length_at(b, at) <= b.len()
}

/// The node at `at` is an end node, of whatever subtype.
pub open spec fn end_at(b: Seq<u8>, at: int) -> bool {
    b[at] == END_TYPE
}

/// The node at `at` ends the whole path.
pub open spec fn terminator_at(b: Seq<u8>, at: int) -> bool {
    b[at] == END_TYPE && b[at + 1] == END_ENTIRE_PATH
}

/// Walking from `at`, every node lies whole in the buffer and the walk comes
/// to a node that ends the whole path.
pub open spec fn chain_from(b: Seq<u8>, at: int) -> bool
    decreases b.len() - at,
{
    if !node_at(b, at) {
        false
    } else if terminator_at(b, at) {
        true
    } else {
        chain_from(b, at + length_at(b, at))
    }
}

/// Where the walk from `at` stops: at the node that ends the whole path, or
/// where no whole node lies.
pub open spec fn terminator_from(b: Seq<u8>, at: int) -> int
    decreases b.len() - at,
{
    if !node_at(b, at) || terminator_at(b, at) {
        at
    } else {
        terminator_from(b, at + length_at(b, at))
    }
}

/// The offset just behind the node at which the walk from `at` stops.
pub open spec fn size_from(b: Seq<u8>, at: int) -> int {
    terminator_from(b, at) + length_at(b, terminator_from(b, at))
}

/// The offsets of the nodes that the walk from `at` visits, the node that
/// ends the path included.
pub open spec fn offsets_from(b: Seq<u8>, at: int) -> Seq<int>
    decreases b.len() - at,
{
    if !node_at(b, at) {
        Seq::empty()
    } else if terminator_at(b, at) {
        seq![at]
    } else {
        seq![at] + offsets_from(b, at + length_at(b, at))
    }
}

/// Walking from `at` over whole nodes, none of which ends the path, one
/// arrives exactly at `stop`.
pub open spec fn reaches(b: Seq<u8>, at: int, stop: int) -> bool
    decreases b.len() - at,
{
    if at == stop {
        true
    } else if at > stop || !node_at(b, at) || terminator_at(b, at) {
        false
    } else {
        reaches(b, at + length_at(b, at), stop)
    }
}

/// The nodes that start at or behind `at` and before `stop`, each as its
/// bytes, header included.
pub open spec fn nodes_between(b: Seq<u8>, at: int, stop: int) -> Seq<Seq<u8>>
    decreases b.len() - at,
{
    if at >= stop || !node_at(b, at) {
        Seq::empty()
    } else {
        seq![b.subrange(at, at + length_at(b, at))] + nodes_between(
            b,
            at + length_at(b, at),
            stop,
        )
    }
}

/// The buffer holds a device path: a chain of nodes from its first byte to a
/// node that ends the whole path.
pub open spec fn well_formed(b: Seq<u8>) -> bool {
    chain_from(b, 0)
}

/// The offset of the node that ends the path.
pub open spec fn terminator(b: Seq<u8>) -> int {
    terminator_from(b, 0)
}

/// The number of bytes that the path takes, the node that ends it included.
pub open spec fn size(b: Seq<u8>) -> int {
    size_from(b, 0)
}

/// The nodes of the path before the node that ends it.
pub open spec fn nodes(b: Seq<u8>) -> Seq<Seq<u8>> {
    nodes_between(b, 0, terminator(b))
}

/// No node of the path before the one that ends it is an end node: the path
/// has one instance.
pub open spec fn single_instance(b: Seq<u8>) -> bool {
    forall|i: int| 0 <= i < nodes(b).len() ==> (#[trigger] nodes(b)[i])[0] != END_TYPE
}

/// The buffer holds a first byte, and it is the type of an end node: the path
/// begins with an end node.
pub open spec fn begins_with_end(b: Seq<u8>) -> bool {
    b.len() > 0 && end_at(b, 0)
}

/// Walking from `at`, a node that is no end node: the offset of the last
/// node before the first end node.
pub open spec fn last_before_end(b: Seq<u8>, at: int) -> int
    decreases b.len() - at,
{
    let next = at + length_at(b, at);
    if !node_at(b, at) || !node_at(b, next) || end_at(b, next) {
        at
    } else {
        last_before_end(b, next)
    }
}

/// The header of a node that ends the whole path.
pub open spec fn end_header() -> Seq<u8> {
    seq![END_TYPE, END_ENTIRE_PATH, 4u8, 0u8]
}

/// The buffer with the header at `at` overwritten by that of a node that ends
/// the whole path.
pub open spec fn with_end_at(b: Seq<u8>, at: int) -> Seq<u8> {
    b.update(at, END_TYPE).update(at + 1, END_ENTIRE_PATH).update(at + 2, 4u8).update(at + 3, 0u8)
}

/// A copy of the path, no byte more.
pub open spec fn duplicate_of(b: Seq<u8>) -> Seq<u8> {
    b.subrange(0, size(b))
}

/// The first path without the node that ends it, then the second path.
pub open spec fn joined(a: Seq<u8>, b: Seq<u8>) -> Seq<u8> {
    a.subrange(0, terminator(a)) + b.subrange(0, size(b))
}

/// The path with the first node of `n` put in before the node that ends the
/// path.
pub open spec fn with_node(p: Seq<u8>, n: Seq<u8>) -> Seq<u8> {
    p.subrange(0, terminator(p)) + n.subrange(0, length_at(n, 0)) + p.subrange(
        terminator(p),
        size(p),
    )
}

/// A copy of the path in which the last node before the first end node has
/// become the node that ends the path.
pub open spec fn parent_of(b: Seq<u8>) -> Seq<u8> {
    let d = duplicate_of(b);
    with_end_at(d, last_before_end(d, 0))
}

/// A chain's terminator lies at or behind the start, is a whole node that
/// ends the path, and the start reaches it.
pub proof fn lemma_terminator(b: Seq<u8>, at: int)
    requires
        chain_from(b, at),
    ensures
        at <= terminator_from(b, at),
        node_at(b, terminator_from(b, at)),
        terminator_at(b, terminator_from(b, at)),
        chain_from(b, terminator_from(b, at)),
        size_from(b, at) <= b.len(),
        reaches(b, at, terminator_from(b, at)),
        !terminator_at(b, at) ==> at + length_at(b, at) <= terminator_from(b, at),
    decreases b.len() - at,
{
    if !terminator_at(b, at) {
        lemma_terminator(b, at + length_at(b, at));
    }
}

/// From a place that the start of a chain reaches, the rest is a chain with
/// the same terminator, and the nodes up to the terminator are those up to
/// that place followed by those behind it.
pub proof fn lemma_reaches(b: Seq<u8>, at: int, stop: int)
    requires
        chain_from(b, at),
        reaches(b, at, stop),
    ensures
        chain_from(b, stop),
        at <= stop <= terminator_from(b, at),
        terminator_from(b, stop) == terminator_from(b, at),
        nodes_between(b, at, terminator_from(b, at)) == nodes_between(b, at, stop) + nodes_between(
            b,
            stop,
            terminator_from(b, at),
        ),
    decreases b.len() - at,
{
    let t = terminator_from(b, at);
    if at == stop {
        lemma_terminator(b, at);
        assert(nodes_between(b, at, stop) =~= Seq::empty());
        assert(nodes_between(b, at, t) =~= nodes_between(b, at, stop) + nodes_between(b, stop, t));
    } else {
        let next = at + length_at(b, at);
        lemma_terminator(b, at);
        lemma_reaches(b, next, stop);
        assert(nodes_between(b, at, t) =~= nodes_between(b, at, stop) + nodes_between(b, stop, t));
    }
}

/// A place that is reached lies at or behind the start.
pub proof fn lemma_reaches_forward(b: Seq<u8>, at: int, stop: int)
    requires
        reaches(b, at, stop),
    ensures
        at <= stop,
        at < stop ==> at + length_at(b, at) <= stop,
    decreases b.len() - at,
{
    if at != stop {
        lemma_reaches_forward(b, at + length_at(b, at), stop);
    }
}

/// What is reached in one buffer is reached in every buffer that holds the
/// same bytes up to there.
pub proof fn lemma_reaches_agree(a: Seq<u8>, at: int, stop: int, b: Seq<u8>)
    requires
        reaches(a, at, stop),
        0 <= at,
        stop <= b.len(),
        forall|i: int| at <= i < stop ==> b[i] == #[trigger] a[i],
    ensures
        reaches(b, at, stop),
    decreases a.len() - at,
{
    if at != stop {
        let next = at + length_at(a, at);
        lemma_reaches_forward(a, at, stop);
        assert(b[at] == a[at]);
        assert(b[at + 1] == a[at + 1]);
        assert(b[at + 2] == a[at + 2]);
        assert(b[at + 3] == a[at + 3]);
        lemma_reaches_agree(a, next, stop, b);
    }
}

/// From a place that is reached, where a whole node lies that does not end
/// the path, the place behind that node is reached too.
pub proof fn lemma_reaches_step(b: Seq<u8>, at: int, stop: int)
    requires
        reaches(b, at, stop),
        node_at(b, stop),
        !terminator_at(b, stop),
    ensures
        reaches(b, at, stop + length_at(b, stop)),
    decreases b.len() - at,
{
    if at != stop {
        lemma_reaches_forward(b, at, stop);
        lemma_reaches_step(b, at + length_at(b, at), stop);
    } else {
        assert(reaches(b, stop + length_at(b, stop), stop + length_at(b, stop)));
    }
}

/// Where a place is reached from which a chain leads on, a chain leads on
/// from the start, to the same terminator.
pub proof fn lemma_reaches_chain(b: Seq<u8>, at: int, stop: int)
    requires
        reaches(b, at, stop),
        chain_from(b, stop),
    ensures
        chain_from(b, at),
        terminator_from(b, at) == terminator_from(b, stop),
    decreases b.len() - at,
{
    if at != stop {
        lemma_reaches_forward(b, at, stop);
        lemma_reaches_chain(b, at + length_at(b, at), stop);
    }
}

/// A chain whose bytes are found again elsewhere, in the same or another
/// buffer, is a chain there too, with the same nodes.
pub proof fn lemma_chain_moved(a: Seq<u8>, at: int, b: Seq<u8>, to: int)
    requires
        chain_from(a, at),
        0 <= to,
        to + (size_from(a, at) - at) <= b.len(),
        forall|i: int| at <= i < size_from(a, at) ==> b[i - at + to] == #[trigger] a[i],
    ensures
        chain_from(b, to),
        terminator_from(b, to) == terminator_from(a, at) - at + to,
        size_from(b, to) == size_from(a, at) - at + to,
        nodes_between(b, to, terminator_from(b, to)) == nodes_between(
            a,
            at,
            terminator_from(a, at),
        ),
        offsets_from(b, to).len() == offsets_from(a, at).len(),
        forall|k: int|
            0 <= k < offsets_from(a, at).len() ==> #[trigger] offsets_from(b, to)[k]
                == offsets_from(a, at)[k] - at + to,
    decreases a.len() - at,
{
    lemma_terminator(a, at);
    assert(b[to] == a[at]);
    assert(b[to + 1] == a[at + 1]);
    assert(b[to + 2] == a[at + 2]);
    assert(b[to + 3] == a[at + 3]);
    if terminator_at(a, at) {
        assert(nodes_between(b, to, to) =~= nodes_between(a, at, at));
    } else {
        let len = length_at(a, at);
        lemma_chain_moved(a, at + len, b, to + len);
        let moved = b.subrange(to, to + len);
        let node = a.subrange(at, at + len);
        assert forall|k: int| 0 <= k < len implies #[trigger] moved[k] == node[k] by {
            assert(b[(at + k) - at + to] == a[at + k]);
        }
        assert(moved =~= node);
        assert forall|k: int| 0 <= k < offsets_from(a, at).len() implies #[trigger] offsets_from(
            b,
            to,
        )[k] == offsets_from(a, at)[k] - at + to by {
            if k > 0 {
                assert(offsets_from(b, to)[k] == offsets_from(b, to + len)[k - 1]);
                assert(offsets_from(a, at)[k] == offsets_from(a, at + len)[k - 1]);
            }
        }
    }
}

/// Where a buffer repeats the bytes of a chain up to a place that the chain
/// reaches, and holds a chain from that place on, it holds a chain from the
/// start: the nodes up to that place, then its own.
pub proof fn lemma_chain_spliced(a: Seq<u8>, at: int, stop: int, r: Seq<u8>)
    requires
        chain_from(a, at),
        reaches(a, at, stop),
        forall|i: int| at <= i < stop ==> r[i] == #[trigger] a[i],
        chain_from(r, stop),
    ensures
        chain_from(r, at),
        reaches(r, at, stop),
        terminator_from(r, at) == terminator_from(r, stop),
        nodes_between(r, at, terminator_from(r, at)) == nodes_between(a, at, stop) + nodes_between(
            r,
            stop,
            terminator_from(r, stop),
        ),
    decreases a.len() - at,
{
    let t = terminator_from(r, stop);
    lemma_terminator(r, stop);
    if at == stop {
        assert(nodes_between(a, at, stop) =~= Seq::empty());
        assert(nodes_between(r, at, t) =~= nodes_between(a, at, stop) + nodes_between(r, stop, t));
    } else {
        let len = length_at(a, at);
        let next = at + len;
        lemma_reaches(a, next, stop);
        assert(r[at] == a[at]);
        assert(r[at + 1] == a[at + 1]);
        assert(r[at + 2] == a[at + 2]);
        assert(r[at + 3] == a[at + 3]);
        lemma_chain_spliced(a, next, stop, r);
        assert(r.subrange(at, at + len) =~= a.subrange(at, at + len));
        assert(nodes_between(r, at, t) =~= nodes_between(a, at, stop) + nodes_between(r, stop, t));
    }
}

/// A walk over a device path visits its nodes in rising order, each once,
/// stepping by each node's length, and comes to exactly one node that ends
/// the whole path: the last one it visits.
pub proof fn lemma_walk(b: Seq<u8>, at: int)
    requires
        chain_from(b, at),
    ensures
        offsets_from(b, at).len() == nodes_between(b, at, terminator_from(b, at)).len() + 1,
        offsets_from(b, at)[0] == at,
        offsets_from(b, at).last() == terminator_from(b, at),
        terminator_at(b, offsets_from(b, at).last()),
        forall|i: int|
            0 <= i < offsets_from(b, at).len() ==> node_at(b, #[trigger] offsets_from(b, at)[i]),
        forall|i: int|
            0 <= i < offsets_from(b, at).len() - 1 ==> !terminator_at(
                b,
                #[trigger] offsets_from(b, at)[i],
            ),
        forall|i: int|
            0 <= i < offsets_from(b, at).len() - 1 ==> offsets_from(b, at)[i + 1] == (
            #[trigger] offsets_from(b, at)[i]) + length_at(b, offsets_from(b, at)[i]),
        forall|i: int, j: int|
            0 <= i < j < offsets_from(b, at).len() ==> (#[trigger] offsets_from(b, at)[i]) < (
            #[trigger] offsets_from(b, at)[j]),
    decreases b.len() - at,
{
    lemma_terminator(b, at);
    if !terminator_at(b, at) {
        let next = at + length_at(b, at);
        let o = offsets_from(b, at);
        let rest = offsets_from(b, next);
        lemma_walk(b, next);
        lemma_terminator(b, next);
        assert(o =~= seq![at] + rest);
        assert forall|i: int| 0 <= i < o.len() implies node_at(b, #[trigger] o[i]) by {
            if i > 0 {
                assert(o[i] == rest[i - 1]);
            }
        }
        assert forall|i: int| 0 <= i < o.len() - 1 implies !terminator_at(b, #[trigger] o[i]) by {
            if i > 0 {
                assert(o[i] == rest[i - 1]);
            }
        }
        assert forall|i: int| 0 <= i < o.len() - 1 implies o[i + 1] == (#[trigger] o[i])
            + length_at(b, o[i]) by {
            if i > 0 {
                assert(o[i] == rest[i - 1]);
                assert(o[i + 1] == rest[i]);
            } else {
                assert(o[1] == rest[0]);
            }
        }
        assert forall|i: int, j: int| 0 <= i < j < o.len() implies (#[trigger] o[i]) < (
        #[trigger] o[j]) by {
            assert(o[j] == rest[j - 1]);
            if i > 0 {
                assert(o[i] == rest[i - 1]);
            } else if j > 1 {
                assert(rest[0] < rest[j - 1]);
            }
        }
    }
}

/// A copy of a device path is a device path with the same nodes, and takes
/// exactly the bytes of the copy.
pub proof fn lemma_duplicate(b: Seq<u8>)
    requires
        well_formed(b),
    ensures
        well_formed(duplicate_of(b)),
        nodes(duplicate_of(b)) == nodes(b),
        terminator(duplicate_of(b)) == terminator(b),
        size(duplicate_of(b)) == size(b),
        duplicate_of(b).len() == size(b),
{
    lemma_terminator(b, 0);
    lemma_chain_moved(b, 0, duplicate_of(b), 0);
}

/// Two device paths joined are a device path: the nodes of the first, then
/// those of the second.
pub proof fn lemma_joined(a: Seq<u8>, b: Seq<u8>)
    requires
        well_formed(a),
        well_formed(b),
    ensures
        well_formed(joined(a, b)),
        nodes(joined(a, b)) == nodes(a) + nodes(b),
        size(joined(a, b)) == terminator(a) + size(b),
        joined(a, b).len() == terminator(a) + size(b),
{
    let r = joined(a, b);
    let ta = terminator(a);
    lemma_terminator(a, 0);
    lemma_terminator(b, 0);
    lemma_chain_moved(b, 0, r, ta);
    lemma_chain_spliced(a, 0, ta, r);
}

/// A node put into a device path before the node that ends it gives a device
/// path. Unless the node itself ends a path, it becomes the last of the
/// path's nodes.
pub proof fn lemma_with_node(p: Seq<u8>, n: Seq<u8>)
    requires
        well_formed(p),
        node_at(n, 0),
    ensures
        well_formed(with_node(p, n)),
        with_node(p, n).len() == size(p) + length_at(n, 0),
        !terminator_at(n, 0) ==> nodes(with_node(p, n)) == nodes(p).push(
            n.subrange(0, length_at(n, 0)),
        ),
        !terminator_at(n, 0) ==> size(with_node(p, n)) == size(p) + length_at(n, 0),
        terminator_at(n, 0) ==> nodes(with_node(p, n)) == nodes(p),
{
    let r = with_node(p, n);
    let tp = terminator(p);
    let ln = length_at(n, 0);
    lemma_terminator(p, 0);
    lemma_chain_moved(p, tp, r, tp + ln);
    assert(r[tp] == n[0]);
    assert(r[tp + 1] == n[1]);
    assert(r[tp + 2] == n[2]);
    assert(r[tp + 3] == n[3]);
    assert(node_at(r, tp));
    if terminator_at(n, 0) {
        assert(nodes_between(r, tp, tp) =~= Seq::empty());
        lemma_chain_spliced(p, 0, tp, r);
        assert(nodes(r) =~= nodes(p));
    } else {
        assert(chain_from(r, tp));
        assert(terminator_from(r, tp) == tp + ln);
        assert(r.subrange(tp, tp + ln) =~= n.subrange(0, ln));
        assert(nodes_between(r, tp + ln, tp + ln) =~= Seq::empty());
        assert(nodes_between(r, tp, tp + ln) =~= seq![n.subrange(0, ln)]);
        lemma_chain_spliced(p, 0, tp, r);
        assert(nodes(r) =~= nodes(p).push(n.subrange(0, ln)));
    }
}

/// Walking a chain from a node that is no end node, one reaches the last node
/// before the first end node, and the end node lies right behind it.
pub proof fn lemma_last_before_end(b: Seq<u8>, at: int)
    requires
        chain_from(b, at),
        !end_at(b, at),
    ensures
        reaches(b, at, last_before_end(b, at)),
        node_at(b, last_before_end(b, at)),
        !end_at(b, last_before_end(b, at)),
        chain_from(b, last_before_end(b, at) + length_at(b, last_before_end(b, at))),
        end_at(b, last_before_end(b, at) + length_at(b, last_before_end(b, at))),
    decreases b.len() - at,
{
    let next = at + length_at(b, at);
    if !end_at(b, next) {
        lemma_last_before_end(b, next);
    }
}

/// The parent of a device path whose first node is no end node is a device
/// path. Its nodes are the first nodes of the path, fewer than the path has.
pub proof fn lemma_parent(b: Seq<u8>)
    requires
        well_formed(b),
        !begins_with_end(b),
    ensures
        well_formed(parent_of(b)),
        parent_of(b).len() == size(b),
        length_at(parent_of(b), terminator(parent_of(b))) == 4,
        nodes(parent_of(b)).len() < nodes(b).len(),
        nodes(parent_of(b)) == nodes(b).take(nodes(parent_of(b)).len() as int),
        single_instance(b) ==> nodes(parent_of(b)) == nodes(b).drop_last(),
{
    let d = duplicate_of(b);
    lemma_duplicate(b);
    let j = last_before_end(d, 0);
    let r = parent_of(b);
    let t = terminator(d);
    lemma_terminator(b, 0);
    assert(d[0] == b[0]);
    lemma_last_before_end(d, 0);
    lemma_reaches(d, 0, j);
    let nj = j + length_at(d, j);
    assert(node_at(r, j));
    assert(terminator_at(r, j));
    assert(nodes_between(r, j, j) =~= Seq::empty());
    lemma_chain_spliced(d, 0, j, r);
    let kept = nodes_between(d, 0, j);
    assert(nodes(r) =~= kept);
    let removed = d.subrange(j, nj);
    let rest = nodes_between(d, nj, t);
    lemma_terminator(d, nj);
    assert(nodes_between(d, j, t) =~= seq![removed] + rest);
    assert(nodes(d) =~= kept + (seq![removed] + rest));
    assert(nodes(b).take(kept.len() as int) =~= kept);
    if single_instance(b) {
        if nj < t {
            let k: int = kept.len() as int + 1;
            assert(rest[0] == d.subrange(nj, nj + length_at(d, nj)));
            assert(nodes(b)[k] == rest[0]);
            assert(nodes(b)[k][0] == d[nj]);
        }
        assert(rest =~= Seq::empty());
        assert(nodes(b).drop_last() =~= kept);
    }
}

/// The parent of a path to which a node was appended has the nodes of the
/// path again, where the path has one instance and the node is no end node.
pub proof fn lemma_parent_of_appended(p: Seq<u8>, n: Seq<u8>)
    requires
        well_formed(p),
        single_instance(p),
        node_at(n, 0),
        !end_at(n, 0),
    ensures
        well_formed(parent_of(with_node(p, n))),
        nodes(parent_of(with_node(p, n))) == nodes(p),
{
    let added = n.subrange(0, length_at(n, 0));
    let q = with_node(p, n);
    lemma_with_node(p, n);
    lemma_terminator(p, 0);
    assert(nodes(q) == nodes(p).push(added));
    assert(added[0] == n[0]);
    assert forall|i: int| 0 <= i < nodes(q).len() implies (#[trigger] nodes(q)[i])[0]
        != END_TYPE by {
        if i < nodes(p).len() {
            assert(nodes(q)[i] == nodes(p)[i]);
        }
    }
    assert(q[0] == if terminator(p) == 0 {
        n[0]
    } else {
        p[0]
    });
    if terminator(p) > 0 {
        assert(nodes(p).len() > 0);
        assert(nodes(p)[0][0] == p[0]);
    }
    lemma_parent(q);
    assert(nodes(p).push(added).drop_last() =~= nodes(p));
}

} // verus!

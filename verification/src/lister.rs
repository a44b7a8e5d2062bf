//! The listing join: the inode-keyed connection map from the table decoder
//! on one side, the scan's socket claims on the other. A claim whose inode
//! the map holds becomes one row; every other claim, and every connection
//! no claim points at, is left out. Rows keep scan discovery order.

use crate::addr::{SocketFd, Stream};
use std::collections::HashMap;
use vstd::prelude::*;

verus! {

broadcast use vstd::std_specs::hash::group_hash_axioms;

/// One row of the listing: a connection and the process claim that led to
/// it. The process's display name is a presentation concern resolved
/// outside.
#[derive(Clone, Copy, Debug, PartialEq, Eq, Structural)]
pub struct ListRow {
    pub stream: Stream,
    pub sock: SocketFd,
}

/// The join of a connection map and a claim sequence: one row per claim
/// whose inode the map holds, in claim order.
pub open spec fn spec_join(tbl: Map<u64, Stream>, socks: Seq<SocketFd>) -> Seq<ListRow>
    decreases socks.len(),
{
    if socks.len() == 0 {
        Seq::empty()
    } else {
        let head = socks[0];
        let tail = spec_join(tbl, socks.drop_first());
        if tbl.dom().contains(head.inode) {
            seq![ListRow { stream: tbl[head.inode], sock: head }] + tail
        } else {
            tail
        }
    }
}

/// Joins the decoded connection tables with the scan's claims.
pub fn join_connections(streams: &HashMap<u64, Stream>, socks: &Vec<SocketFd>) -> (r: Vec<ListRow>)
    ensures
        r@ == spec_join(streams@, socks@),
{
    let mut out: Vec<ListRow> = Vec::new();
    let mut i: usize = 0;
    proof {
        assert(socks@.skip(0) =~= socks@);
        assert(out@ + spec_join(streams@, socks@) =~= spec_join(streams@, socks@));
    }
    while i < socks.len()
        invariant
            0 <= i <= socks@.len(),
            spec_join(streams@, socks@) == out@ + spec_join(streams@, socks@.skip(i as int)),
        decreases socks@.len() - i,
    {
        proof {
            assert(socks@.skip(i as int)[0] == socks@[i as int]);
            assert(socks@.skip(i as int).drop_first() =~= socks@.skip(i + 1));
        }
        let sock: SocketFd = socks[i];
        let ghost prev = out@;
        match streams.get(&sock.inode) {
            Some(st) => {
                out.push(ListRow { stream: *st, sock });
                proof {
                    assert(prev + (seq![
                        ListRow { stream: streams@[sock.inode], sock },
                    ] + spec_join(streams@, socks@.skip(i + 1))) =~= out@ + spec_join(
                        streams@,
                        socks@.skip(i + 1),
                    ));
                }
            },
            None => {},
        }
        i = i + 1;
    }
    proof {
        assert(spec_join(streams@, socks@.skip(i as int)) =~= Seq::<ListRow>::empty());
        assert(out@ + Seq::<ListRow>::empty() =~= out@);
    }
    out
}

/// The join holds exactly the matching claims: every row comes from a
/// claim in the sequence whose inode the map holds and carries that
/// inode's record, and every such claim yields its row. A claim whose
/// inode the map lacks, and a map entry no claim points at, yield none.
pub proof fn lemma_join_exactly_matching(tbl: Map<u64, Stream>, socks: Seq<SocketFd>)
    ensures
        forall|i: int|
            0 <= i < spec_join(tbl, socks).len() ==> {
                let row = #[trigger] spec_join(tbl, socks)[i];
                socks.contains(row.sock) && tbl.dom().contains(row.sock.inode) && row.stream == tbl[row.sock.inode]
            },
        forall|j: int|
            0 <= j < socks.len() && tbl.dom().contains(#[trigger] socks[j].inode) ==> spec_join(
                tbl,
                socks,
            ).contains(ListRow { stream: tbl[socks[j].inode], sock: socks[j] }),
    decreases socks.len(),
{
    if socks.len() > 0 {
        lemma_join_exactly_matching(tbl, socks.drop_first());
        let head = socks[0];
        let tail = spec_join(tbl, socks.drop_first());
        assert(forall|k: int|
            0 <= k < socks.drop_first().len() ==> #[trigger] socks.drop_first()[k] == socks[k + 1]);
        assert forall|i: int| 0 <= i < spec_join(tbl, socks).len() implies {
            let row = #[trigger] spec_join(tbl, socks)[i];
            socks.contains(row.sock) && tbl.dom().contains(row.sock.inode) && row.stream == tbl[row.sock.inode]
        } by {
            let row = spec_join(tbl, socks)[i];
            if tbl.dom().contains(head.inode) {
                if i == 0 {
                    assert(row.sock == head);
                    assert(socks[0] == head);
                } else {
                    assert(row == tail[i - 1]);
                    assert(socks.drop_first().contains(row.sock));
                    let k = choose|k: int|
                        0 <= k < socks.drop_first().len() && socks.drop_first()[k] == row.sock;
                    assert(socks[k + 1] == row.sock);
                }
            } else {
                assert(row == tail[i]);
                assert(socks.drop_first().contains(row.sock));
                let k = choose|k: int|
                    0 <= k < socks.drop_first().len() && socks.drop_first()[k] == row.sock;
                assert(socks[k + 1] == row.sock);
            }
        };
        assert forall|j: int|
            0 <= j < socks.len() && tbl.dom().contains(#[trigger] socks[j].inode) implies spec_join(
            tbl,
            socks,
        ).contains(ListRow { stream: tbl[socks[j].inode], sock: socks[j] }) by {
            let row = ListRow { stream: tbl[socks[j].inode], sock: socks[j] };
            if j == 0 {
                assert(spec_join(tbl, socks)[0] == row);
            } else {
                assert(socks.drop_first()[j - 1] == socks[j]);
                assert(tail.contains(row));
                let k = choose|k: int| 0 <= k < tail.len() && tail[k] == row;
                if tbl.dom().contains(head.inode) {
                    assert(spec_join(tbl, socks)[k + 1] == row);
                } else {
                    assert(spec_join(tbl, socks)[k] == row);
                }
            }
        };
    }
}

} // verus!

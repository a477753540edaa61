//! Host election: the participant whose identifier comes first is the host.
//! Nothing is stored and nothing is sent; each peer decides from the
//! membership it sees.

use vstd::prelude::*;
use crate::ident::id_lt;
use crate::ident::id_before;
use crate::ident::lemma_id_lt_transitive;
use crate::ident::lemma_id_lt_total;
use crate::peers::PeerDirectory;
use crate::peers::RemotePlayerView;
use crate::peers::ids;
use crate::peers::listed;

verus! {

/// A participant is host when its identifier comes before that of every
/// other participant; alone, it is host.
pub open spec fn spec_is_host(self_id: Seq<char>, others: Set<Seq<char>>) -> bool {
    forall|k: Seq<char>| others.contains(k) ==> id_lt(self_id, k)
}

/// Whether the participant `self_id` is host among the mirrors of
/// `directory`.
pub fn is_host(self_id: &String, directory: &PeerDirectory) -> (r: bool)
    requires
        directory.wf(),
    ensures
        r == spec_is_host(self_id@, ids(directory@)),
{
    match directory.get_at(0) {
        None => {
            assert(forall|k: Seq<char>| !listed(directory@, k));
            true
        },
        Some(first) => {
            let r = id_before(self_id, &first.id);
            proof {
                let s = directory@;
                assert(listed(s, s[0].id));
                assert(ids(s).contains(s[0].id));
                if r {
                    assert forall|k: Seq<char>| ids(s).contains(k) implies id_lt(self_id@, k) by {
                        let j = choose|j: int| 0 <= j < s.len() && #[trigger] s[j].id == k;
                        if j > 0 {
                            assert(id_lt(s[0].id, s[j].id));
                            lemma_id_lt_transitive(self_id@, s[0].id, k);
                        }
                    }
                }
            }
            r
        },
    }
}

/// Among peers that see the same membership, at most one holds itself for
/// the host.
pub proof fn lemma_host_agreement(members: Set<Seq<char>>, p: Seq<char>, q: Seq<char>)
    requires
        members.contains(p),
        members.contains(q),
        spec_is_host(p, members.remove(p)),
        spec_is_host(q, members.remove(q)),
    ensures
        p == q,
{
    if p != q {
        assert(members.remove(p).contains(q));
        assert(members.remove(q).contains(p));
        lemma_id_lt_total(p, q);
    }
}

/// Every non-empty finite membership has a host.
pub proof fn lemma_host_exists(members: Set<Seq<char>>)
    requires
        members.finite(),
        members.len() > 0,
    ensures
        exists|p: Seq<char>| members.contains(p) && spec_is_host(p, members.remove(p)),
    decreases members.len(),
{
    let x = members.choose();
    let rest = members.remove(x);
    if rest.len() == 0 {
        assert(forall|k: Seq<char>| !rest.contains(k)) by {
            if exists|k: Seq<char>| rest.contains(k) {
                let k = choose|k: Seq<char>| rest.contains(k);
                assert(rest.remove(k).len() + 1 == rest.len());
            }
        }
        assert(spec_is_host(x, members.remove(x)));
    } else {
        lemma_host_exists(rest);
        let p = choose|p: Seq<char>| rest.contains(p) && spec_is_host(p, rest.remove(p));
        lemma_id_lt_total(x, p);
        if id_lt(x, p) {
            assert forall|k: Seq<char>| members.remove(x).contains(k) implies id_lt(x, k) by {
                if k != p {
                    assert(rest.remove(p).contains(k));
                    lemma_id_lt_transitive(x, p, k);
                }
            }
            assert(spec_is_host(x, members.remove(x)));
        } else {
            assert forall|k: Seq<char>| members.remove(p).contains(k) implies id_lt(p, k) by {
                if k != x {
                    assert(rest.remove(p).contains(k));
                }
            }
            assert(members.contains(p));
            assert(spec_is_host(p, members.remove(p)));
        }
    }
}

/// When a participant joins whose identifier comes before all others, it
/// is host from then on and no earlier member still is: of the earlier
/// members exactly the former host changes its answer.
pub proof fn lemma_smaller_joiner(members: Set<Seq<char>>, joiner: Seq<char>, p: Seq<char>)
    requires
        !members.contains(joiner),
        forall|k: Seq<char>| members.contains(k) ==> id_lt(joiner, k),
        members.contains(p),
    ensures
        spec_is_host(joiner, members.insert(joiner).remove(joiner)),
        !spec_is_host(p, members.insert(joiner).remove(p)),
{
    assert(members.insert(joiner).remove(joiner) =~= members);
    assert(members.insert(joiner).remove(p).contains(joiner));
    lemma_id_lt_total(joiner, p);
}

/// When a participant joins whose identifier comes before those of a
/// non-empty finite membership, exactly one earlier member changes its
/// answer from host to not host: the former host. Every other member was
/// not host and is not host.
pub proof fn lemma_one_host_changes(members: Set<Seq<char>>, joiner: Seq<char>)
    requires
        members.finite(),
        members.len() > 0,
        !members.contains(joiner),
        forall|k: Seq<char>| members.contains(k) ==> id_lt(joiner, k),
    ensures
        exists|p: Seq<char>|
            {
                &&& members.contains(p)
                &&& spec_is_host(p, members.remove(p))
                &&& !spec_is_host(p, members.insert(joiner).remove(p))
                &&& forall|q: Seq<char>|
                    members.contains(q) && q != p ==> !spec_is_host(q, members.remove(q))
                        && !spec_is_host(q, members.insert(joiner).remove(q))
            },
{
    lemma_host_exists(members);
    let p = choose|p: Seq<char>| members.contains(p) && spec_is_host(p, members.remove(p));
    lemma_smaller_joiner(members, joiner, p);
    assert forall|q: Seq<char>| members.contains(q) && q != p implies !spec_is_host(
        q,
        members.remove(q),
    ) && !spec_is_host(q, members.insert(joiner).remove(q)) by {
        if spec_is_host(q, members.remove(q)) {
            lemma_host_agreement(members, p, q);
        }
        lemma_smaller_joiner(members, joiner, q);
    }
}

/// The election depends on the membership alone: two directories with the
/// same identifiers give the same answer, whatever else their mirrors hold.
pub proof fn lemma_host_by_membership(
    self_id: Seq<char>,
    a: Seq<RemotePlayerView>,
    b: Seq<RemotePlayerView>,
)
    requires
        ids(a) == ids(b),
    ensures
        spec_is_host(self_id, ids(a)) == spec_is_host(self_id, ids(b)),
{
}

} // verus!

use vstd::prelude::*;

verus! {

/// One observable side effect on a kernel resource, as the lifecycle laws
/// count them: socket-pair allocation, descriptor close, a handshake
/// message in either direction, an id-map write, and cgroup creation and
/// removal.  The orchestration code keeps a ghost sequence of these beside
/// the calls it makes, so that the conservation laws can be stated and
/// proved over every control path.  The events are appended in proof code
/// next to the calls they mirror: the proofs therefore attest the control
/// flow of the verified code, and the reader checks by the adjacency that
/// each event stands beside the call it names.
pub enum IoEvent {
    PairCreated { parent_fd: i32, child_fd: i32 },
    FdClosed { fd: i32 },
    SentBool { fd: i32, value: bool },
    RecvdBool { fd: i32, value: bool },
    MapWritten { path: Seq<char>, bytes: Seq<char> },
    CgroupCreated { name: Seq<char> },
    CgroupRemoveAttempted { name: Seq<char> },
}

/// How many times descriptor `fd` was closed in `tr`.
pub open spec fn close_count(tr: Seq<IoEvent>, fd: i32) -> nat
    decreases tr.len(),
{
    if tr.len() == 0 {
        0
    } else {
        close_count(tr.drop_last(), fd) + (if tr.last() == (IoEvent::FdClosed { fd }) {
            1nat
        } else {
            0nat
        })
    }
}

/// How many socket pairs were created in `tr`.
pub open spec fn pair_count(tr: Seq<IoEvent>) -> nat
    decreases tr.len(),
{
    if tr.len() == 0 {
        0
    } else {
        pair_count(tr.drop_last()) + (if tr.last() is PairCreated {
            1nat
        } else {
            0nat
        })
    }
}

/// Whether `tr` records the creation of the pair `(p, c)`.
pub open spec fn pair_created(tr: Seq<IoEvent>, p: i32, c: i32) -> bool {
    tr.contains(IoEvent::PairCreated { parent_fd: p, child_fd: c })
}

/// How many messages were sent over `fd` in `tr`.
pub open spec fn send_count(tr: Seq<IoEvent>, fd: i32) -> nat
    decreases tr.len(),
{
    if tr.len() == 0 {
        0
    } else {
        send_count(tr.drop_last(), fd) + (if tr.last() matches IoEvent::SentBool { fd: f, .. }
            && f == fd {
            1nat
        } else {
            0nat
        })
    }
}

/// How many messages were received over `fd` in `tr`.
pub open spec fn recv_count(tr: Seq<IoEvent>, fd: i32) -> nat
    decreases tr.len(),
{
    if tr.len() == 0 {
        0
    } else {
        recv_count(tr.drop_last(), fd) + (if tr.last() matches IoEvent::RecvdBool { fd: f, .. }
            && f == fd {
            1nat
        } else {
            0nat
        })
    }
}

/// Whether `tr` records the creation of the cgroup named `name`.
pub open spec fn cgroup_created(tr: Seq<IoEvent>, name: Seq<char>) -> bool {
    tr.contains(IoEvent::CgroupCreated { name })
}

/// How many attempts to remove the cgroup named `name` are in `tr`.
pub open spec fn cgroup_remove_count(tr: Seq<IoEvent>, name: Seq<char>) -> nat
    decreases tr.len(),
{
    if tr.len() == 0 {
        0
    } else {
        cgroup_remove_count(tr.drop_last(), name) + (if tr.last() == (IoEvent::CgroupRemoveAttempted {
            name,
        }) {
            1nat
        } else {
            0nat
        })
    }
}

/// Whether `e` is a message sent over `fd`.
pub open spec fn is_send_on(e: IoEvent, fd: i32) -> bool {
    e matches IoEvent::SentBool { fd: f, .. } && f == fd
}

/// Whether `e` is a message received over `fd`.
pub open spec fn is_recv_on(e: IoEvent, fd: i32) -> bool {
    e matches IoEvent::RecvdBool { fd: f, .. } && f == fd
}

/// How each counter moves when one event is appended.
pub proof fn lemma_counts_push(tr: Seq<IoEvent>, e: IoEvent, fd: i32, name: Seq<char>)
    ensures
        close_count(tr.push(e), fd) == close_count(tr, fd) + (if e == (IoEvent::FdClosed { fd }) {
            1nat
        } else {
            0nat
        }),
        pair_count(tr.push(e)) == pair_count(tr) + (if e is PairCreated {
            1nat
        } else {
            0nat
        }),
        send_count(tr.push(e), fd) == send_count(tr, fd) + (if e matches IoEvent::SentBool {
            fd: f,
            ..
        } && f == fd {
            1nat
        } else {
            0nat
        }),
        recv_count(tr.push(e), fd) == recv_count(tr, fd) + (if e matches IoEvent::RecvdBool {
            fd: f,
            ..
        } && f == fd {
            1nat
        } else {
            0nat
        }),
        cgroup_remove_count(tr.push(e), name) == cgroup_remove_count(tr, name) + (if e
            == (IoEvent::CgroupRemoveAttempted { name }) {
            1nat
        } else {
            0nat
        }),
{
    assert(tr.push(e).drop_last() =~= tr);
    assert(tr.push(e).last() == e);
}

/// Every counter is additive over concatenation.
pub proof fn lemma_counts_concat(a: Seq<IoEvent>, b: Seq<IoEvent>, fd: i32, name: Seq<char>)
    ensures
        close_count(a + b, fd) == close_count(a, fd) + close_count(b, fd),
        pair_count(a + b) == pair_count(a) + pair_count(b),
        send_count(a + b, fd) == send_count(a, fd) + send_count(b, fd),
        recv_count(a + b, fd) == recv_count(a, fd) + recv_count(b, fd),
        cgroup_remove_count(a + b, name) == cgroup_remove_count(a, name) + cgroup_remove_count(
            b,
            name,
        ),
    decreases b.len(),
{
    if b.len() == 0 {
        assert(a + b =~= a);
    } else {
        let b0 = b.drop_last();
        lemma_counts_concat(a, b0, fd, name);
        assert((a + b).drop_last() =~= a + b0);
        assert((a + b).last() == b.last());
    }
}

/// A trace without close events closes nothing.
pub proof fn lemma_close_count_zero(tr: Seq<IoEvent>, fd: i32)
    requires
        forall|i: int| 0 <= i < tr.len() ==> !((#[trigger] tr[i]) is FdClosed),
    ensures
        close_count(tr, fd) == 0,
    decreases tr.len(),
{
    if tr.len() > 0 {
        let t0 = tr.drop_last();
        assert(forall|i: int| 0 <= i < t0.len() ==> t0[i] == tr[i]);
        lemma_close_count_zero(t0, fd);
    }
}

/// A trace without pair-creation events creates no pair.
pub proof fn lemma_pair_count_zero(tr: Seq<IoEvent>)
    requires
        forall|i: int| 0 <= i < tr.len() ==> !((#[trigger] tr[i]) is PairCreated),
    ensures
        pair_count(tr) == 0,
    decreases tr.len(),
{
    if tr.len() > 0 {
        let t0 = tr.drop_last();
        assert(forall|i: int| 0 <= i < t0.len() ==> t0[i] == tr[i]);
        lemma_pair_count_zero(t0);
    }
}

/// A trace without cgroup-removal events attempts no removal.
pub proof fn lemma_cgroup_remove_count_zero(tr: Seq<IoEvent>, name: Seq<char>)
    requires
        forall|i: int| 0 <= i < tr.len() ==> !((#[trigger] tr[i]) is CgroupRemoveAttempted),
    ensures
        cgroup_remove_count(tr, name) == 0,
    decreases tr.len(),
{
    if tr.len() > 0 {
        let t0 = tr.drop_last();
        assert(forall|i: int| 0 <= i < t0.len() ==> t0[i] == tr[i]);
        lemma_cgroup_remove_count_zero(t0, name);
    }
}

} // verus!

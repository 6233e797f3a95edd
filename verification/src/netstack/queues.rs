//! The queues into the stack. Each is emptied on every pass, within a budget of
//! its own, and none waits for another.

use vstd::prelude::*;

use super::backlog::{ingest, Backlog, MAX_BACKLOG_BYTES};
#[allow(unused_imports)]
use super::backlog::{
    nothing_placed,
    offering_extends_the_stream,
    one_more_placed,
    placed,
    queueing_extends_the_stream,
    stream,
    tcp_sockets_kept,
    tcp_sockets_stay_kept,
    waiting_bytes,
    waits,
};
use super::cmd::{handle_cmd, Cmd, CmdOutcome};
#[allow(unused_imports)]
use super::cmd::cmd_done;
use super::device::StackDevice;
#[allow(unused_imports)]
use super::flow::FlowView;
use super::stack::{DataIn, NetStack};
#[allow(unused_imports)]
use super::stack::{pending_limit, same_handles, DataView};
use crate::channel::{try_recv_cmd, try_recv_data, try_recv_packet, Received};
#[allow(unused_imports)]
use crate::channel::{
    all_read,
    all_that_waited_was_read,
    cmd_queue,
    data_queue,
    nothing_read,
    one_more_read,
    packets,
    packet_queue,
};

verus! {

/// Packets taken from the tunnel on one pass.
pub const MAX_INGEST_PER_TICK: usize = 512;

/// Pieces of data taken from the applications on one pass.
pub const MAX_APP_INGEST_PER_TICK: usize = 512;

/// Commands carried out on one pass.
pub const MAX_CMD_PER_TICK: usize = 64;

/// Whether taking packets from the tunnel had this outcome: no more than the
/// budget, each behind those the device held, and nothing else changed.
pub open spec fn inbound_taken(
    was: &StackDevice,
    now: &StackDevice,
    budget: usize,
    r: (usize, bool),
) -> bool {
    &&& r.0 <= budget
    &&& r.1 ==> r.0 < budget
    &&& now.rx@.len() == was.rx@.len() + r.0
    &&& was.rx@.is_prefix_of(now.rx@)
    &&& *now == (StackDevice { rx: now.rx, ..*was })
}

/// Whether the queue of the tunnel was emptied into the device: every packet
/// that left the queue is in the device, in order and no other, of those that
/// waited only what is over the budget stays behind, and the tunnel is called
/// gone exactly where the queue was found to be over.
pub open spec fn inbound_emptied(
    was_queue: tokio::sync::mpsc::Receiver<Vec<u8>>,
    now_queue: tokio::sync::mpsc::Receiver<Vec<u8>>,
    was: &StackDevice,
    now: &StackDevice,
    budget: usize,
    closed: bool,
) -> bool {
    let moved = packets(now.rx@.skip(was.rx@.len() as int));
    &&& all_read(
        packet_queue(was_queue),
        packet_queue(now_queue),
        moved,
    )
    &&& moved.len() < budget ==> packet_queue(was_queue).waiting.len() <= moved.len()
    &&& budget > 0 ==> closed == packet_queue(now_queue).over
    &&& budget == 0 ==> now_queue == was_queue
}

/// Takes packets from the tunnel, behind those the device already holds.
/// Returns how many, and whether the tunnel is gone.
pub fn drain_inbound(
    device: &mut StackDevice,
    rx: &mut tokio::sync::mpsc::Receiver<Vec<u8>>,
    budget: usize,
) -> (r: (usize, bool))
    ensures
        inbound_taken(old(device), final(device), budget, r),
        inbound_emptied(*old(rx), *final(rx), old(device), final(device), budget, r.1),
{
    let mut moved: usize = 0;
    let mut closed = false;
    let mut empty = false;
    let ghost held = device.rx@.len() as int;
    let ghost queue0 = packet_queue(*rx);
    let ghost mut got: Seq<Seq<u8>> = Seq::empty();
    proof {
        assert(packets(device.rx@.skip(held)) =~= got);
        nothing_read(queue0);
    }
    while moved < budget && !closed && !empty
        invariant
            moved <= budget,
            closed ==> moved < budget,
            device.rx@.len() == old(device).rx@.len() + moved,
            old(device).rx@.is_prefix_of(device.rx@),
            *device == (StackDevice { rx: device.rx, ..*old(device) }),
            held == old(device).rx@.len(),
            queue0 == packet_queue(*old(rx)),
            got.len() == moved,
            packets(device.rx@.skip(held)) == got,
            all_read(queue0, packet_queue(*rx), got),
            closed || empty ==> queue0.waiting.len() <= moved,
            moved > 0 || closed || empty ==> packet_queue(*rx).over == closed,
            budget == 0 ==> *rx == *old(rx),
        decreases
            budget - moved,
            if closed || empty {
                0int
            } else {
                1int
            },
    {
        let ghost before = *rx;
        let ghost was = device.rx@;
        match try_recv_packet(rx) {
            Received::Message(packet) => {
                let ghost p = packet@;
                device.rx.push_back(packet);
                moved = moved + 1;
                proof {
                    one_more_read(
                        queue0,
                        packet_queue(before),
                        packet_queue(*rx),
                        got,
                        p,
                    );
                    got = got.push(p);
                    assert(packets(device.rx@.skip(held)) =~= packets(was.skip(held)).push(p));
                }
            },
            Received::Empty => {
                empty = true;
                proof {
                    all_that_waited_was_read(
                        queue0,
                        packet_queue(before),
                        packet_queue(*rx),
                        got,
                    );
                }
            },
            Received::Disconnected => {
                closed = true;
                proof {
                    all_that_waited_was_read(
                        queue0,
                        packet_queue(before),
                        packet_queue(*rx),
                        got,
                    );
                }
            },
        }
    }
    (moved, closed)
}

/// Whether taking these pieces of data, in order, took the flows and their
/// backlog from one state to the other: the stream of each flow is longer by
/// exactly the bytes that are for it.
pub open spec fn streams_extended(
    was: Map<usize, FlowView>,
    was_waiting: Seq<DataView>,
    now: Map<usize, FlowView>,
    now_waiting: Seq<DataView>,
    taken: Seq<DataView>,
) -> bool {
    &&& now.dom() == was.dom()
    &&& forall|id: usize| #[trigger]
        was.dom().contains(id) ==> stream(now, now_waiting, id) == stream(was, was_waiting, id)
            + waiting_bytes(taken, id)
}

/// Whether this data was taken from the queue of the applications: all that left
/// it and no other, in order, and of what waited only what is over the budget
/// stays behind, unless the backlog has reached its bound.
pub open spec fn app_queue_emptied(
    was_queue: tokio::sync::mpsc::Receiver<DataIn>,
    now_queue: tokio::sync::mpsc::Receiver<DataIn>,
    now_backlog: &Backlog,
    budget: usize,
    taken: Seq<DataView>,
) -> bool {
    &&& all_read(
        data_queue(was_queue),
        data_queue(now_queue),
        taken,
    )
    &&& taken.len() < budget && now_backlog.bytes < MAX_BACKLOG_BYTES ==> data_queue(
        was_queue,
    ).waiting.len() <= taken.len()
}

/// Whether taking data from the applications had this outcome: no more than the
/// budget, and nothing while the backlog is over its bound. They are called gone
/// exactly where their queue was found to be over.
pub open spec fn app_data_taken(
    was: &NetStack,
    was_backlog: &Backlog,
    was_queue: tokio::sync::mpsc::Receiver<DataIn>,
    now: &NetStack,
    now_backlog: &Backlog,
    now_queue: tokio::sync::mpsc::Receiver<DataIn>,
    budget: usize,
    r: (usize, bool),
) -> bool {
    &&& now.same_setup(was)
    &&& now.device == was.device
    &&& same_handles(was, now)
    &&& tcp_sockets_kept(was, now)
    &&& r.0 <= budget
    &&& r.1 ==> r.0 < budget
    &&& was_backlog.bytes < MAX_BACKLOG_BYTES && budget > 0 ==> r.1 == data_queue(now_queue).over
    &&& was_backlog.bytes >= MAX_BACKLOG_BYTES ==> r == (0usize, false) && now_queue == was_queue
    &&& exists|taken: Seq<DataView>|
        {
            &&& taken.len() == r.0
            &&& app_queue_emptied(was_queue, now_queue, now_backlog, budget, taken)
            &&& placed(was, was_backlog.queued(), now, now_backlog.queued(), taken)
            &&& #[trigger] streams_extended(
                was.flows(),
                was_backlog.queued(),
                now.flows(),
                now_backlog.queued(),
                taken,
            )
        }
}

/// Takes data from the applications, as long as the backlog is not over its
/// bound. Returns how many pieces, and whether the applications are gone.
pub fn drain_app_data(
    s: &mut NetStack,
    backlog: &mut Backlog,
    rx: &mut tokio::sync::mpsc::Receiver<DataIn>,
    budget: usize,
) -> (r: (usize, bool))
    requires
        old(s).wf(),
        old(backlog).wf(),
    ensures
        final(s).wf(),
        final(backlog).wf(),
        app_data_taken(
            old(s),
            old(backlog),
            *old(rx),
            final(s),
            final(backlog),
            *final(rx),
            budget,
            r,
        ),
{
    let mut moved: usize = 0;
    let mut closed = false;
    let mut empty = false;
    let ghost mut taken: Seq<DataView> = Seq::empty();
    let ghost flows0 = s.flows();
    let ghost q0 = backlog.queued();
    let ghost queue0 = data_queue(*rx);
    proof {
        nothing_placed(s, q0);
        nothing_read(queue0);
        assert forall|id: usize| #[trigger] flows0.dom().contains(id) implies stream(flows0, q0, id)
            == stream(flows0, q0, id) + waiting_bytes(taken, id) by {
            assert(stream(flows0, q0, id) + waiting_bytes(taken, id) =~= stream(flows0, q0, id));
        }
    }
    while moved < budget && backlog.bytes < MAX_BACKLOG_BYTES && !closed && !empty
        invariant
            moved <= budget,
            closed ==> moved < budget,
            old(backlog).bytes >= MAX_BACKLOG_BYTES ==> moved == 0 && !closed && backlog.bytes
                == old(backlog).bytes && *rx == *old(rx),
            s.wf(),
            backlog.wf(),
            s.same_setup(old(s)),
            s.device == old(s).device,
            same_handles(old(s), s),
            tcp_sockets_kept(old(s), s),
            taken.len() == moved,
            queue0 == data_queue(*old(rx)),
            all_read(queue0, data_queue(*rx), taken),
            closed || empty ==> queue0.waiting.len() <= moved,
            moved > 0 || closed || empty ==> data_queue(*rx).over == closed,
            moved == 0 && !closed && !empty ==> backlog.bytes == old(backlog).bytes,
            placed(old(s), q0, s, backlog.queued(), taken),
            streams_extended(flows0, q0, s.flows(), backlog.queued(), taken),
        decreases
            budget - moved,
            if closed || empty {
                0int
            } else {
                1int
            },
    {
        let ghost queue = *rx;
        match try_recv_data(rx) {
            Received::Message(d) => {
                let ghost v = d@;
                let ghost mid = *s;
                let ghost flows1 = s.flows();
                let ghost q1 = backlog.queued();
                let ghost max = pending_limit(s.tuning) as nat;
                ingest(s, backlog, d);
                moved = moved + 1;
                proof {
                    let before = taken;
                    one_more_read(
                        queue0,
                        data_queue(queue),
                        data_queue(*rx),
                        taken,
                        v,
                    );
                    tcp_sockets_stay_kept(old(s), &mid, s);
                    one_more_placed(old(s), q0, &mid, q1, s, backlog.queued(), taken, v);
                    taken = taken.push(v);
                    assert(taken.drop_last() =~= before);
                    assert forall|id: usize| #[trigger] flows0.dom().contains(id) implies stream(
                        s.flows(),
                        backlog.queued(),
                        id,
                    ) == stream(flows0, q0, id) + waiting_bytes(taken, id) by {
                        if waits(q1, v.id()) {
                            queueing_extends_the_stream(flows1, q1, v, id);
                        } else {
                            offering_extends_the_stream(flows1, q1, v, max, id);
                        }
                        assert(stream(flows0, q0, id) + waiting_bytes(taken, id) =~= stream(
                            flows1,
                            q1,
                            id,
                        ) + super::backlog::stream_bytes(v, id));
                    }
                    assert(s.flows().dom() =~= flows0.dom());
                }
            },
            Received::Empty => {
                empty = true;
                proof {
                    all_that_waited_was_read(
                        queue0,
                        data_queue(queue),
                        data_queue(*rx),
                        taken,
                    );
                }
            },
            Received::Disconnected => {
                closed = true;
                proof {
                    all_that_waited_was_read(
                        queue0,
                        data_queue(queue),
                        data_queue(*rx),
                        taken,
                    );
                }
            },
        }
    }
    assert(app_queue_emptied(*old(rx), *final(rx), final(backlog), budget, taken));
    assert(placed(old(s), q0, final(s), final(backlog).queued(), taken));
    assert(streams_extended(flows0, q0, final(s).flows(), final(backlog).queued(), taken));
    (moved, closed)
}

/// Whether a row of commands had these outcomes, one after the other, each under
/// the number that came with its command.
pub open spec fn cmds_done(
    states: Seq<NetStack>,
    cmds: Seq<(Cmd, u64)>,
    time: u64,
    outcomes: Seq<(u64, CmdOutcome)>,
) -> bool {
    &&& cmds.len() == outcomes.len()
    &&& states.len() == cmds.len() + 1
    &&& forall|i: int|
        0 <= i < cmds.len() ==> cmd_done(
            &states[i],
            &states[i + 1],
            (#[trigger] cmds[i]).0,
            time,
            outcomes[i].1,
        ) && outcomes[i].0 == cmds[i].1
}

/// Whether these commands were taken from their queue: all that left it and no
/// other, in order, and of those that waited only what is over the budget stays
/// behind.
pub open spec fn cmd_queue_emptied(
    was_queue: tokio::sync::mpsc::Receiver<(Cmd, u64)>,
    now_queue: tokio::sync::mpsc::Receiver<(Cmd, u64)>,
    budget: usize,
    taken: Seq<(Cmd, u64)>,
) -> bool {
    &&& all_read(
        cmd_queue(was_queue),
        cmd_queue(now_queue),
        taken,
    )
    &&& taken.len() < budget ==> cmd_queue(was_queue).waiting.len() <= taken.len()
    &&& budget == 0 ==> now_queue == was_queue
}

/// Whether carrying out commands had this outcome: no more than the budget, one
/// after the other. Nobody is left to give any exactly where the queue was found
/// to be over.
pub open spec fn cmds_taken(
    was: &NetStack,
    was_queue: tokio::sync::mpsc::Receiver<(Cmd, u64)>,
    now: &NetStack,
    now_queue: tokio::sync::mpsc::Receiver<(Cmd, u64)>,
    budget: usize,
    time: u64,
    outcomes: Seq<(u64, CmdOutcome)>,
    closed: bool,
) -> bool {
    &&& outcomes.len() <= budget
    &&& closed ==> outcomes.len() < budget
    &&& budget > 0 ==> closed == cmd_queue(now_queue).over
    &&& exists|states: Seq<NetStack>, cmds: Seq<(Cmd, u64)>|
        {
            &&& states.first() == *was
            &&& states.last() == *now
            &&& cmd_queue_emptied(was_queue, now_queue, budget, cmds)
            &&& #[trigger] cmds_done(states, cmds, time, outcomes)
        }
}

/// Carries out commands. Each comes with a number by which its answer is found
/// again, which is handed back with the outcome. Also tells whether nobody is
/// left to give commands.
pub fn drain_cmds(
    s: &mut NetStack,
    rx: &mut tokio::sync::mpsc::Receiver<(Cmd, u64)>,
    budget: usize,
    time: u64,
) -> (r: (Vec<(u64, CmdOutcome)>, bool))
    requires
        old(s).wf(),
        old(s).next_id + budget <= usize::MAX,
        time + old(s).tcp_limits.connect <= u64::MAX,
    ensures
        final(s).wf(),
        cmds_taken(old(s), *old(rx), final(s), *final(rx), budget, time, r.0@, r.1),
{
    let mut outcomes: Vec<(u64, CmdOutcome)> = Vec::new();
    let mut closed = false;
    let mut empty = false;
    let ghost mut states: Seq<NetStack> = seq![*s];
    let ghost mut cmds: Seq<(Cmd, u64)> = Seq::empty();
    let ghost queue0 = cmd_queue(*rx);
    proof {
        nothing_read(queue0);
    }
    while outcomes.len() < budget && !closed && !empty
        invariant
            outcomes.len() <= budget,
            closed ==> outcomes.len() < budget,
            s.wf(),
            s.next_id <= old(s).next_id + outcomes.len(),
            s.tcp_limits == old(s).tcp_limits,
            old(s).next_id + budget <= usize::MAX,
            time + old(s).tcp_limits.connect <= u64::MAX,
            states.len() == cmds.len() + 1,
            states.first() == *old(s),
            states.last() == *s,
            cmds_done(states, cmds, time, outcomes@),
            queue0 == cmd_queue(*old(rx)),
            all_read(queue0, cmd_queue(*rx), cmds),
            closed || empty ==> queue0.waiting.len() <= cmds.len(),
            outcomes@.len() > 0 || closed || empty ==> cmd_queue(*rx).over == closed,
            budget == 0 ==> *rx == *old(rx),
        decreases
            budget - outcomes.len(),
            if closed || empty {
                0int
            } else {
                1int
            },
    {
        let ghost queue = *rx;
        let got = try_recv_cmd(rx);
        proof {
            if !(got is Message) {
                all_that_waited_was_read(
                    queue0,
                    cmd_queue(queue),
                    cmd_queue(*rx),
                    cmds,
                );
            }
        }
        match got {
            Received::Message((cmd, number)) => {
                let ghost before = outcomes@;
                let ghost seen = states;
                let ghost done = cmds;
                proof {
                    one_more_read(
                        queue0,
                        cmd_queue(queue),
                        cmd_queue(*rx),
                        cmds,
                        (cmd, number),
                    );
                    cmds = cmds.push((cmd, number));
                }
                let outcome = handle_cmd(s, cmd, time);
                outcomes.push((number, outcome));
                proof {
                    states = states.push(*s);
                    assert forall|i: int| 0 <= i < cmds.len() implies cmd_done(
                        &states[i],
                        &states[i + 1],
                        (#[trigger] cmds[i]).0,
                        time,
                        outcomes@[i].1,
                    ) && outcomes@[i].0 == cmds[i].1 by {
                        if i < done.len() {
                            assert(cmds[i] == done[i]);
                            assert(states[i] == seen[i]);
                            assert(states[i + 1] == seen[i + 1]);
                            assert(outcomes@[i] == before[i]);
                        }
                    }
                }
            },
            Received::Empty => {
                empty = true;
            },
            Received::Disconnected => {
                closed = true;
            },
        }
    }
    assert(cmd_queue_emptied(*old(rx), *final(rx), budget, cmds));
    assert(states.last() == *final(s) && cmds_done(states, cmds, time, outcomes@));
    (outcomes, closed)
}

} // verus!

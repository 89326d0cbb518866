//! What a transfer is for: on machines that do what they are asked to, every
//! file comes to hold at its target what it held at its source, on every route.
#![allow(unused_imports)]

use vstd::prelude::*;

use crate::exchange::{ActionModel, ReplyModel};
use crate::paths::parent;
use crate::plan::{PlaceModel, TaskModel};
use crate::request::ConflictMode;
use crate::shell::{
    endpoint, hash_line, local_rsync_command, remove_line, rsync_command, scp_command,
    ssh_command, CommandModel, Program,
};
use crate::step_laws::step_fits;
use crate::steps::{first_step, next_step, Leg, Outcome, Plan, Route, Signal, Step};
use crate::transfer::{
    action_of, after, after_work, goal_of, heard_in, host_hash, is_taken, learned, open_file,
    StageModel, TransferModel,
};

verus! {

// ---------------------------------------------------------------------------
// Machines that do what they are asked to
// ---------------------------------------------------------------------------

/// The files on all the machines and what they hold. A file on this machine
/// goes by its path, a file on a host by host and path as programs take them.
pub type World = Map<Seq<u8>, Seq<u8>>;

/// Whether the machines do what they are asked to and say so, where `digest` is
/// the hash that all of them compute.
pub open spec fn obeys(
    digest: spec_fn(Seq<u8>) -> Seq<char>,
    w: World,
    a: ActionModel,
    next: World,
    reply: ReplyModel,
) -> bool {
    match a {
        ActionModel::Exists(p) => next == w && reply == ReplyModel::Told(w.contains_key(p)),
        ActionModel::SameContents(p, q) => next == w && reply == ReplyModel::Told(w[p] == w[q]),
        ActionModel::SamePlace(p, q) => next == w && reply == ReplyModel::Told(p == q),
        ActionModel::CopyFile(p, q) => next == w.insert(q, w[p]) && reply == ReplyModel::Did,
        ActionModel::Rename(p, q) => next == w.insert(q, w[p]).remove(p) && reply
            == ReplyModel::Did,
        ActionModel::RemoveFile(p) => next == w.remove(p) && reply == ReplyModel::Did,
        ActionModel::HashFile(p) => next == w && reply == ReplyModel::Hashed(digest(w[p])),
        ActionModel::Run(c) => reply == ReplyModel::Exited(true, Some(0i32)) && (match c.program {
            Program::Ssh => forall|host: Seq<char>, path: Seq<char>|
                c == #[trigger] ssh_command(host, remove_line(path)) ==> next == w.remove(
                    endpoint(host, path),
                ),
            _ => next == w.insert(c.args.last(), w[c.args[c.args.len() - 2]]),
        }),
        ActionModel::Capture(c) => next == w && forall|host: Seq<char>, path: Seq<char>|
            c == #[trigger] ssh_command(host, hash_line(path)) ==> host_hash(reply) == Ok::<
                Seq<char>,
                Seq<char>,
            >(digest(w[endpoint(host, path)])),
        ActionModel::Poll => next == w && reply == ReplyModel::Told(false),
        _ => next == w && reply == ReplyModel::Did,
    }
}

/// Where the file that a transfer is at lies.
pub open spec fn source_key(m: TransferModel) -> Seq<u8> {
    match m.task().source {
        PlaceModel::Here(p) => p,
        PlaceModel::There(p) => endpoint(m.setting.source_host(), p),
    }
}

/// Where the file that a transfer is at goes.
pub open spec fn target_key(m: TransferModel) -> Seq<u8> {
    match m.task().target {
        PlaceModel::Here(p) => p,
        PlaceModel::There(p) => endpoint(m.setting.target_host, p),
    }
}

/// Whether the places of a file are at the ends that the route says.
pub open spec fn places_fit(route: Route, task: TaskModel) -> bool {
    &&& task.source is Here <==> route == Route::Local || route == Route::Upload
    &&& task.target is Here <==> route == Route::Local || route == Route::Download
}

/// Whether a transfer is about to take up a file that lies at its source, apart
/// from where it goes, and that nothing keeps from its target: what is there is
/// overwritten, or nothing is.
pub open spec fn can_deliver(m: TransferModel, w: World) -> bool {
    &&& m.stage is Poll
    &&& m.at < m.tasks.len()
    &&& m.task().plan == Plan::Go
    &&& places_fit(m.setting.job.route, m.task())
    &&& !m.is_in_place()
    &&& w.contains_key(source_key(m))
    &&& source_key(m) != target_key(m)
    &&& m.setting.job.route == Route::Relay ==> m.staged() != source_key(m) && m.staged()
        != target_key(m)
    &&& m.setting.job.conflict == ConflictMode::Overwrite || (!is_taken(m) && !w.contains_key(
        target_key(m),
    ))
}

/// Whether a file has arrived: its target holds what its source held, the source
/// is gone if the file was to move and as it was if not, nothing else has
/// changed, and the file is counted; one that was at its target already may be
/// mentioned instead.
pub open spec fn delivered(m: TransferModel, x: TransferModel, w: World, now: World) -> bool {
    let s = source_key(m);
    let t = target_key(m);
    &&& now.contains_key(t)
    &&& now[t] == w[s]
    &&& m.setting.job.moving ==> !now.contains_key(s)
    &&& !m.setting.job.moving ==> now.contains_key(s) && now[s] == w[s]
    &&& forall|k: Seq<u8>|
        k != s && k != t && !(m.setting.job.route == Route::Relay && k == m.staged()) ==> (
        #[trigger] now.contains_key(k) <==> w.contains_key(k)) && now[k] == w[k]
    &&& x.tally.errors == m.tally.errors
    &&& x.tally.copied == m.tally.copied + 1 || (!m.setting.job.moving && w.contains_key(t)
        && w[t] == w[s])
}

// ---------------------------------------------------------------------------
// On the way
// ---------------------------------------------------------------------------

/// What the machines hold when the bytes have gone over a leg.
spec fn landed(m: TransferModel, w: World, leg: Leg) -> World {
    let b = w[source_key(m)];
    if m.setting.job.route == Route::Relay {
        if leg == Leg::Fetch {
            w.insert(m.staged(), b)
        } else {
            w.insert(m.staged(), b).insert(target_key(m), b)
        }
    } else {
        w.insert(target_key(m), b)
    }
}

/// What the machines hold at a step, for a file that the transfer `m` took up
/// when they held `w`.
spec fn world_at(
    digest: spec_fn(Seq<u8>) -> Seq<char>,
    m: TransferModel,
    x: TransferModel,
    w: World,
    now: World,
    step: Step,
) -> bool {
    let t = target_key(m);
    let b = w[source_key(m)];
    let relay = m.setting.job.route == Route::Relay;
    let local = m.setting.job.route == Route::Local;
    match step {
        Step::MakeParent | Step::Probe | Step::Shift | Step::Carry(Leg::Fetch) => now == w,
        Step::Carry(Leg::Send) => now == (if relay {
            w.insert(m.staged(), b)
        } else {
            w
        }),
        Step::Compare => local && now == w && w.contains_key(t),
        Step::Locate | Step::DropIdentical => local && now == w && w.contains_key(t) && w[t] == b
            && m.setting.job.moving,
        Step::Check => local && now == w.insert(t, b),
        Step::HashHere(leg) => !local && now == landed(m, w, leg),
        Step::HashThere(leg) => !local && now == landed(m, w, leg) && x.digest == digest(b),
        Step::DropStaged(o) => relay && o == Outcome::Copied && now == landed(m, w, Leg::Send),
        Step::DropSource => m.setting.job.moving && now == (if relay {
            landed(m, w, Leg::Send).remove(m.staged())
        } else {
            w.insert(t, b)
        }),
        _ => false,
    }
}

/// What holds while a file is on its way.
spec fn on_the_way(
    digest: spec_fn(Seq<u8>) -> Seq<char>,
    m: TransferModel,
    x: TransferModel,
    w: World,
    now: World,
) -> bool {
    &&& x == (TransferModel {
        stage: x.stage,
        detail: x.detail,
        digest: x.digest,
        goal: m.task().target,
        ..m
    })
    &&& match x.stage {
        StageModel::Work(step) => world_at(digest, m, x, w, now, step) && step_fits(
            m.setting.job,
            step,
        ),
        _ => false,
    }
}

proof fn a_file_sets_out(
    digest: spec_fn(Seq<u8>) -> Seq<char>,
    m: TransferModel,
    x: TransferModel,
    w: World,
    now: World,
    reply: ReplyModel,
)
    requires
        can_deliver(m, w),
        obeys(digest, w, action_of(m), now, reply),
        after(m, reply) == Some(x),
    ensures
        on_the_way(digest, m, x, w, now),
{
    assert(goal_of(m) == Some(m.task().target));
    assert(m.file_job() == m.setting.job);
}

proof fn a_file_goes_on(
    digest: spec_fn(Seq<u8>) -> Seq<char>,
    m: TransferModel,
    x: TransferModel,
    y: TransferModel,
    w: World,
    now: World,
    next: World,
    reply: ReplyModel,
)
    requires
        can_deliver(m, w),
        on_the_way(digest, m, x, w, now),
        obeys(digest, now, action_of(x), next, reply),
        after(x, reply) == Some(y),
    ensures
        y.stage is Work ==> on_the_way(digest, m, y, w, next),
        !(y.stage is Work) ==> delivered(m, y, w, next),
{
    let step = x.stage->Work_0;
    assert(x.is_in_place() == m.is_in_place());
    assert(x.file_job() == m.setting.job);
    assert(x.staged() == m.staged());
    let signal = heard_in(x, step, reply).0;
    if let Step::Carry(leg) = step {
        assert(signal == Signal::Yes);
        assert(next == landed(m, w, leg));
    }
    if step is Check || step is HashHere || step is HashThere || step is DropSource {
        assert(signal == Signal::Yes);
    }
}

/// A file arrives on every route: from where the transfer takes it up to where
/// it has dealt with it, whatever it asked for in between, the machines have
/// brought what was at the source to the target, and nothing else has changed.
pub proof fn every_file_is_delivered(
    digest: spec_fn(Seq<u8>) -> Seq<char>,
    m: Seq<TransferModel>,
    w: Seq<World>,
    replies: Seq<ReplyModel>,
)
    requires
        replies.len() > 0,
        m.len() == replies.len() + 1,
        w.len() == replies.len() + 1,
        can_deliver(m[0], w[0]),
        forall|i: int|
            0 <= i < replies.len() ==> obeys(
                digest,
                w[i],
                action_of(m[i]),
                w[i + 1],
                #[trigger] replies[i],
            ) && after(m[i], replies[i]) == Some(m[i + 1]),
        forall|i: int| 0 < i < replies.len() ==> (#[trigger] m[i]).stage is Work,
        !(m.last().stage is Work),
    ensures
        delivered(m[0], m.last(), w[0], w.last()),
{
    let n = replies.len() as int;
    assert(replies[0] == replies[0]);
    a_file_sets_out(digest, m[0], m[1], w[0], w[1], replies[0]);
    every_step_is_taken(digest, m, w, replies, n - 1);
    assert(replies[n - 1] == replies.last());
    if n > 1 {
        a_file_goes_on(digest, m[0], m[n - 1], m[n], w[0], w[n - 1], w[n], replies[n - 1]);
    }
}

proof fn every_step_is_taken(
    digest: spec_fn(Seq<u8>) -> Seq<char>,
    m: Seq<TransferModel>,
    w: Seq<World>,
    replies: Seq<ReplyModel>,
    n: int,
)
    requires
        m.len() == replies.len() + 1,
        w.len() == replies.len() + 1,
        0 <= n < replies.len(),
        can_deliver(m[0], w[0]),
        forall|i: int|
            0 <= i < replies.len() ==> obeys(
                digest,
                w[i],
                action_of(m[i]),
                w[i + 1],
                #[trigger] replies[i],
            ) && after(m[i], replies[i]) == Some(m[i + 1]),
        forall|i: int| 0 < i < replies.len() ==> (#[trigger] m[i]).stage is Work,
    ensures
        n > 0 ==> on_the_way(digest, m[0], m[n], w[0], w[n]),
    decreases n,
{
    if n > 0 {
        every_step_is_taken(digest, m, w, replies, n - 1);
        let reply = replies[n - 1];
        assert(m[n].stage is Work);
        if n == 1 {
            a_file_sets_out(digest, m[0], m[1], w[0], w[1], reply);
        } else {
            a_file_goes_on(digest, m[0], m[n - 1], m[n], w[0], w[n - 1], w[n], reply);
        }
    }
}

} // verus!

//! The operation-log model: tasks, state snapshots, the wire operation
//! vocabulary, and the pure function that applies one operation to a
//! snapshot while reconciling the single active-edit slot.

use vstd::prelude::*;

verus! {

/// Terminal status of a finished task.
#[derive(Clone, Copy, Debug, PartialEq, Eq, Structural)]
pub enum TaskStatus {
    Succeeded,
    Failed,
    Obsoleted,
}

/// An active, unfinished item in the shared list. Identity is the `id`;
/// `value` is the mutable text.
#[derive(Debug)]
pub struct LiveTask {
    pub id: String,
    pub value: String,
}

/// An item removed from the live list with a terminal status.
#[derive(Debug)]
pub struct FinishedTask {
    pub id: String,
    pub value: String,
    pub status: TaskStatus,
}

/// Mathematical model of a live task.
#[verifier::ext_equal]
pub struct LiveTaskV {
    pub id: Seq<char>,
    pub value: Seq<char>,
}

/// Mathematical model of a finished task.
#[verifier::ext_equal]
pub struct FinishedTaskV {
    pub id: Seq<char>,
    pub value: Seq<char>,
    pub status: TaskStatus,
}

impl View for LiveTask {
    type V = LiveTaskV;

    open spec fn view(&self) -> LiveTaskV {
        LiveTaskV { id: self.id@, value: self.value@ }
    }
}

impl View for FinishedTask {
    type V = FinishedTaskV;

    open spec fn view(&self) -> FinishedTaskV {
        FinishedTaskV { id: self.id@, value: self.value@, status: self.status }
    }
}

impl Clone for LiveTask {
    fn clone(&self) -> (r: Self)
        ensures
            r@ == self@,
    {
        LiveTask { id: self.id.clone(), value: self.value.clone() }
    }
}

impl Clone for FinishedTask {
    fn clone(&self) -> (r: Self)
        ensures
            r@ == self@,
    {
        FinishedTask { id: self.id.clone(), value: self.value.clone(), status: self.status }
    }
}

/// The single source of truth for the task list: the live tasks in order
/// (front = highest priority) and the finished tasks, most recently
/// finished first.
#[derive(Debug)]
pub struct StateSnapshot {
    pub live: Vec<LiveTask>,
    pub finished: Vec<FinishedTask>,
}

/// Mathematical model of a snapshot.
#[verifier::ext_equal]
pub struct SnapshotV {
    pub live: Seq<LiveTaskV>,
    pub finished: Seq<FinishedTaskV>,
}

/// The model of a vector of live tasks.
pub open spec fn live_view(v: Seq<LiveTask>) -> Seq<LiveTaskV> {
    v.map_values(|t: LiveTask| t@)
}

/// The model of a vector of finished tasks.
pub open spec fn fin_view(v: Seq<FinishedTask>) -> Seq<FinishedTaskV> {
    v.map_values(|t: FinishedTask| t@)
}

impl View for StateSnapshot {
    type V = SnapshotV;

    open spec fn view(&self) -> SnapshotV {
        SnapshotV { live: live_view(self.live@), finished: fin_view(self.finished@) }
    }
}

impl Clone for StateSnapshot {
    fn clone(&self) -> (r: Self)
        ensures
            r@ == self@,
    {
        let r = StateSnapshot { live: clone_live(&self.live), finished: clone_fin(&self.finished) };
        proof {
            assert(r@.live =~= self@.live);
            assert(r@.finished =~= self@.finished);
        }
        r
    }
}

impl StateSnapshot {
    /// The empty snapshot that a fresh connection starts from.
    pub fn new() -> (r: StateSnapshot)
        ensures
            r@.live == Seq::<LiveTaskV>::empty(),
            r@.finished == Seq::<FinishedTaskV>::empty(),
    {
        let r = StateSnapshot { live: Vec::new(), finished: Vec::new() };
        proof {
            assert(r@.live =~= Seq::<LiveTaskV>::empty());
            assert(r@.finished =~= Seq::<FinishedTaskV>::empty());
        }
        r
    }
}

fn clone_live(v: &Vec<LiveTask>) -> (r: Vec<LiveTask>)
    ensures
        live_view(r@) == live_view(v@),
{
    let mut r: Vec<LiveTask> = Vec::new();
    let mut i: usize = 0;
    while i < v.len()
        invariant
            i <= v@.len(),
            r@.len() == i as int,
            live_view(r@) =~= live_view(v@).take(i as int),
        decreases v@.len() - i,
    {
        r.push(v[i].clone());
        i = i + 1;
        proof {
            assert(live_view(r@) =~= live_view(v@).take(i as int));
        }
    }
    proof {
        assert(live_view(r@) =~= live_view(v@));
    }
    r
}

fn clone_fin(v: &Vec<FinishedTask>) -> (r: Vec<FinishedTask>)
    ensures
        fin_view(r@) == fin_view(v@),
{
    let mut r: Vec<FinishedTask> = Vec::new();
    let mut i: usize = 0;
    while i < v.len()
        invariant
            i <= v@.len(),
            r@.len() == i as int,
            fin_view(r@) =~= fin_view(v@).take(i as int),
        decreases v@.len() - i,
    {
        r.push(v[i].clone());
        i = i + 1;
        proof {
            assert(fin_view(r@) =~= fin_view(v@).take(i as int));
        }
    }
    proof {
        assert(fin_view(r@) =~= fin_view(v@));
    }
    r
}

/// Index of the first live task with the given id, searching from
/// position `i`; `None` when no such task follows.
pub open spec fn find_live_from(s: Seq<LiveTaskV>, id: Seq<char>, i: int) -> Option<int>
    decreases s.len() - i,
{
    if i < 0 || i >= s.len() {
        None
    } else if s[i].id == id {
        Some(i)
    } else {
        find_live_from(s, id, i + 1)
    }
}

/// Index of the first live task with the given id.
pub open spec fn find_live(s: Seq<LiveTaskV>, id: Seq<char>) -> Option<int> {
    find_live_from(s, id, 0)
}

/// Index of the first finished task with the given id, searching from `i`.
pub open spec fn find_fin_from(s: Seq<FinishedTaskV>, id: Seq<char>, i: int) -> Option<int>
    decreases s.len() - i,
{
    if i < 0 || i >= s.len() {
        None
    } else if s[i].id == id {
        Some(i)
    } else {
        find_fin_from(s, id, i + 1)
    }
}

/// Index of the first finished task with the given id.
pub open spec fn find_fin(s: Seq<FinishedTaskV>, id: Seq<char>) -> Option<int> {
    find_fin_from(s, id, 0)
}

/// What a found index means: the id stands at that index and nowhere
/// before it.
pub proof fn lemma_find_live_from(s: Seq<LiveTaskV>, id: Seq<char>, i: int)
    requires
        0 <= i <= s.len(),
    ensures
        match find_live_from(s, id, i) {
            Some(j) => i <= j < s.len() && s[j].id == id && forall|k: int|
                i <= k < j ==> s[k].id != id,
            None => forall|k: int| i <= k < s.len() ==> s[k].id != id,
        },
    decreases s.len() - i,
{
    if i < s.len() && s[i].id != id {
        lemma_find_live_from(s, id, i + 1);
    }
}

/// What a found index means for the finished list.
pub proof fn lemma_find_fin_from(s: Seq<FinishedTaskV>, id: Seq<char>, i: int)
    requires
        0 <= i <= s.len(),
    ensures
        match find_fin_from(s, id, i) {
            Some(j) => i <= j < s.len() && s[j].id == id && forall|k: int|
                i <= k < j ==> s[k].id != id,
            None => forall|k: int| i <= k < s.len() ==> s[k].id != id,
        },
    decreases s.len() - i,
{
    if i < s.len() && s[i].id != id {
        lemma_find_fin_from(s, id, i + 1);
    }
}

/// Lifts an executable index option to the model.
pub open spec fn idx_view(o: Option<usize>) -> Option<int> {
    match o {
        Some(i) => Some(i as int),
        None => None,
    }
}

/// Position of the first live task whose id equals `id`.
pub fn position_in_live(live: &Vec<LiveTask>, id: &String) -> (r: Option<usize>)
    ensures
        idx_view(r) == find_live(live_view(live@), id@),
{
    let ghost s = live_view(live@);
    let mut i: usize = 0;
    while i < live.len()
        invariant
            i <= live@.len(),
            s == live_view(live@),
            find_live_from(s, id@, 0) == find_live_from(s, id@, i as int),
        decreases live@.len() - i,
    {
        if live[i].id == *id {
            return Some(i);
        }
        i = i + 1;
    }
    None
}

/// Position of the first finished task whose id equals `id`.
pub fn position_in_finished(finished: &Vec<FinishedTask>, id: &String) -> (r: Option<usize>)
    ensures
        idx_view(r) == find_fin(fin_view(finished@), id@),
{
    let ghost s = fin_view(finished@);
    let mut i: usize = 0;
    while i < finished.len()
        invariant
            i <= finished@.len(),
            s == fin_view(finished@),
            find_fin_from(s, id@, 0) == find_fin_from(s, id@, i as int),
        decreases finished@.len() - i,
    {
        if finished[i].id == *id {
            return Some(i);
        }
        i = i + 1;
    }
    None
}


/// One atomic, server-ordered mutation of the shared snapshot.
#[derive(Debug)]
pub enum WebsocketOpKind {
    /// Replace the whole snapshot.
    OverwriteState(StateSnapshot),
    /// Insert a new live task at the front.
    InsLiveTask { id: String, value: String },
    /// Replace the text of the live task with this id.
    EditLiveTask { id: String, value: String },
    /// Remove the live task with this id.
    DelLiveTask { id: String },
    /// Move the live task with this id to the front of the finished list.
    FinishLiveTask { id: String, status: TaskStatus },
    /// Move the finished task with this id back to the front of the live list.
    RestoreFinishedTask { id: String },
    /// Relocate the task identified by `id_del` to just before `id_ins`.
    MvLiveTask { id_del: String, id_ins: String },
    /// Reverse the live range between the positions of `id1` and `id2`.
    RevLiveTask { id1: String, id2: String },
}

/// Mathematical model of an operation kind.
#[verifier::ext_equal]
pub enum OpKindV {
    OverwriteState(SnapshotV),
    InsLiveTask { id: Seq<char>, value: Seq<char> },
    EditLiveTask { id: Seq<char>, value: Seq<char> },
    DelLiveTask { id: Seq<char> },
    FinishLiveTask { id: Seq<char>, status: TaskStatus },
    RestoreFinishedTask { id: Seq<char> },
    MvLiveTask { id_del: Seq<char>, id_ins: Seq<char> },
    RevLiveTask { id1: Seq<char>, id2: Seq<char> },
}

impl View for WebsocketOpKind {
    type V = OpKindV;

    open spec fn view(&self) -> OpKindV {
        match self {
            WebsocketOpKind::OverwriteState(s) => OpKindV::OverwriteState(s@),
            WebsocketOpKind::InsLiveTask { id, value } => OpKindV::InsLiveTask {
                id: id@,
                value: value@,
            },
            WebsocketOpKind::EditLiveTask { id, value } => OpKindV::EditLiveTask {
                id: id@,
                value: value@,
            },
            WebsocketOpKind::DelLiveTask { id } => OpKindV::DelLiveTask { id: id@ },
            WebsocketOpKind::FinishLiveTask { id, status } => OpKindV::FinishLiveTask {
                id: id@,
                status: *status,
            },
            WebsocketOpKind::RestoreFinishedTask { id } => OpKindV::RestoreFinishedTask {
                id: id@,
            },
            WebsocketOpKind::MvLiveTask { id_del, id_ins } => OpKindV::MvLiveTask {
                id_del: id_del@,
                id_ins: id_ins@,
            },
            WebsocketOpKind::RevLiveTask { id1, id2 } => OpKindV::RevLiveTask {
                id1: id1@,
                id2: id2@,
            },
        }
    }
}

/// An operation as carried on the wire: the client-asserted time in
/// milliseconds (a logging and ordering hint, not a vector clock) and the
/// mutation itself.
#[derive(Debug)]
pub struct WebsocketOp {
    pub alleged_time: u64,
    pub kind: WebsocketOpKind,
}

/// Mathematical model of a wire operation.
#[verifier::ext_equal]
pub struct OpV {
    pub alleged_time: u64,
    pub kind: OpKindV,
}

impl View for WebsocketOp {
    type V = OpV;

    open spec fn view(&self) -> OpV {
        OpV { alleged_time: self.alleged_time, kind: self.kind@ }
    }
}

/// Model of the at-most-one active edit slot: the edited id and the
/// in-progress text.
pub open spec fn edit_view(a: Option<(String, String)>) -> Option<(Seq<char>, Seq<char>)> {
    match a {
        Some(p) => Some((p.0@, p.1@)),
        None => None,
    }
}

/// Holds of a live task whose id differs from `id`: the tasks that a
/// delete of `id` keeps.
pub open spec fn keeps_id(id: Seq<char>) -> spec_fn(LiveTaskV) -> bool {
    |t: LiveTaskV| t.id != id
}

/// Clears the active edit when the given id is the one under edit.
pub open spec fn clear_if_edited(
    active: Option<(Seq<char>, Seq<char>)>,
    id: Seq<char>,
) -> Option<(Seq<char>, Seq<char>)> {
    match active {
        Some(p) => if p.0 == id {
            None
        } else {
            Some(p)
        },
        None => None,
    }
}

/// What one operation does to a snapshot and the active-edit slot: the
/// pure, total transition of the reconciliation core. Operations that
/// reference an id that is not present leave the snapshot unchanged.
pub open spec fn apply_kind(
    s: SnapshotV,
    active: Option<(Seq<char>, Seq<char>)>,
    k: OpKindV,
) -> (SnapshotV, Option<(Seq<char>, Seq<char>)>) {
    match k {
        OpKindV::OverwriteState(ns) => (ns, None),
        OpKindV::InsLiveTask { id, value } => (
            SnapshotV {
                live: seq![LiveTaskV { id, value }] + s.live,
                finished: s.finished,
            },
            active,
        ),
        OpKindV::EditLiveTask { id, value } => (
            SnapshotV {
                live: match find_live(s.live, id) {
                    Some(i) => s.live.update(i, LiveTaskV { id: s.live[i].id, value }),
                    None => s.live,
                },
                finished: s.finished,
            },
            active,
        ),
        OpKindV::DelLiveTask { id } => (
            SnapshotV {
                live: s.live.filter(keeps_id(id)),
                finished: s.finished,
            },
            clear_if_edited(active, id),
        ),
        OpKindV::FinishLiveTask { id, status } => {
            let active2 = clear_if_edited(active, id);
            match find_live(s.live, id) {
                Some(i) => (
                    SnapshotV {
                        live: s.live.remove(i),
                        finished: seq![
                            FinishedTaskV { id, value: s.live[i].value, status },
                        ] + s.finished,
                    },
                    active2,
                ),
                None => (s, active2),
            }
        },
        OpKindV::RestoreFinishedTask { id } => match find_fin(s.finished, id) {
            Some(i) => (
                SnapshotV {
                    live: seq![
                        LiveTaskV { id: s.finished[i].id, value: s.finished[i].value },
                    ] + s.live,
                    finished: s.finished.remove(i),
                },
                active,
            ),
            None => (s, active),
        },
        OpKindV::MvLiveTask { id_del, id_ins } => match (
            find_live(s.live, id_del),
            find_live(s.live, id_ins),
        ) {
            (Some(d), Some(ins)) => (
                SnapshotV {
                    live: s.live.remove(d).insert(ins, s.live[d]),
                    finished: s.finished,
                },
                active,
            ),
            _ => (s, active),
        },
        OpKindV::RevLiveTask { id1, id2 } => match (
            find_live(s.live, id1),
            find_live(s.live, id2),
        ) {
            (Some(p1), Some(p2)) => {
                let lo = if p1 <= p2 {
                    p1
                } else {
                    p2
                };
                let hi = if p1 <= p2 {
                    p2
                } else {
                    p1
                };
                (
                    SnapshotV {
                        live: s.live.take(lo) + s.live.subrange(lo, hi + 1).reverse()
                            + s.live.skip(hi + 1),
                        finished: s.finished,
                    },
                    active,
                )
            },
            _ => (s, active),
        },
    }
}

/// Applies one remote operation to the snapshot and reconciles the active
/// edit slot, exactly as [`apply_kind`] states. Pure and total: an
/// operation naming an unknown id is a no-op, never an error.
pub fn apply_operation(
    snapshot: &mut StateSnapshot,
    active_id_val: &mut Option<(String, String)>,
    op: WebsocketOpKind,
)
    ensures
        ({
            let (s2, a2) = apply_kind(old(snapshot)@, edit_view(*old(active_id_val)), op@);
            final(snapshot)@ == s2 && edit_view(*final(active_id_val)) == a2
        }),
{
    match op {
        WebsocketOpKind::OverwriteState(s) => {
            *active_id_val = None;
            *snapshot = s;
        },
        WebsocketOpKind::InsLiveTask { id, value } => {
            let ghost target = apply_kind(snapshot@, edit_view(*active_id_val), OpKindV::InsLiveTask { id: id@, value: value@ }).0;
            snapshot.live.insert(0, LiveTask { id, value });
            proof {
                assert(snapshot@.live =~= target.live);
            }
        },
        WebsocketOpKind::EditLiveTask { id, value } => {
            let ghost pre = snapshot@;
            proof {
                lemma_find_live_from(pre.live, id@, 0);
            }
            match position_in_live(&snapshot.live, &id) {
                Some(i) => {
                    let mut t = snapshot.live.remove(i);
                    t.value = value;
                    snapshot.live.insert(i, t);
                    proof {
                        assert(snapshot@.live =~= pre.live.update(
                            i as int,
                            LiveTaskV { id: pre.live[i as int].id, value: value@ },
                        ));
                    }
                },
                None => {},
            }
        },
        WebsocketOpKind::DelLiveTask { id } => {
            clear_active_if(active_id_val, &id);
            let ghost pre = live_view(snapshot.live@);
            let ghost p = keeps_id(id@);
            let mut kept: Vec<LiveTask> = Vec::new();
            let mut i: usize = 0;
            while i < snapshot.live.len()
                invariant
                    i <= snapshot.live@.len(),
                    pre == live_view(snapshot.live@),
                    p == keeps_id(id@),
                    live_view(kept@) =~= pre.take(i as int).filter(p),
                decreases snapshot.live@.len() - i,
            {
                let ghost prefix = pre.take(i as int);
                let ghost kv0 = live_view(kept@);
                let keep = !(snapshot.live[i].id == id);
                proof {
                    assert(p(pre[i as int]) == keep);
                }
                if keep {
                    kept.push(snapshot.live[i].clone());
                }
                i = i + 1;
                proof {
                    reveal_with_fuel(Seq::filter, 2);
                    let ii = i as int;
                    assert(pre.take(ii).drop_last() =~= prefix);
                    assert(pre.take(ii).last() == pre[ii - 1]);
                    if keep {
                        assert(kept@.len() == kv0.len() + 1);
                        assert(live_view(kept@) =~= kv0.push(pre[ii - 1]));
                        assert(pre.take(ii).filter(p) == prefix.filter(p).push(pre[ii - 1]));
                    } else {
                        assert(live_view(kept@) == kv0);
                        assert(pre.take(ii).filter(p) == prefix.filter(p));
                    }
                    assert(live_view(kept@) =~= pre.take(ii).filter(p));
                }
            }
            proof {
                assert(pre.take(pre.len() as int) =~= pre);
            }
            snapshot.live = kept;
        },
        WebsocketOpKind::FinishLiveTask { id, status } => {
            clear_active_if(active_id_val, &id);
            let ghost pre = snapshot@;
            proof {
                lemma_find_live_from(pre.live, id@, 0);
            }
            match position_in_live(&snapshot.live, &id) {
                Some(i) => {
                    let t = snapshot.live.remove(i);
                    snapshot.finished.insert(
                        0,
                        FinishedTask { id, value: t.value, status },
                    );
                    proof {
                        assert(snapshot@.live =~= pre.live.remove(i as int));
                        assert(snapshot@.finished =~= seq![
                            FinishedTaskV {
                                id: id@,
                                value: pre.live[i as int].value,
                                status,
                            },
                        ] + pre.finished);
                    }
                },
                None => {},
            }
        },
        WebsocketOpKind::RestoreFinishedTask { id } => {
            let ghost pre = snapshot@;
            proof {
                lemma_find_fin_from(pre.finished, id@, 0);
            }
            match position_in_finished(&snapshot.finished, &id) {
                Some(i) => {
                    let t = snapshot.finished.remove(i);
                    snapshot.live.insert(0, LiveTask { id: t.id, value: t.value });
                    proof {
                        assert(snapshot@.finished =~= pre.finished.remove(i as int));
                        assert(snapshot@.live =~= seq![
                            LiveTaskV {
                                id: pre.finished[i as int].id,
                                value: pre.finished[i as int].value,
                            },
                        ] + pre.live);
                    }
                },
                None => {},
            }
        },
        WebsocketOpKind::MvLiveTask { id_del, id_ins } => {
            let ghost pre = snapshot@;
            proof {
                lemma_find_live_from(pre.live, id_del@, 0);
                lemma_find_live_from(pre.live, id_ins@, 0);
            }
            let del_pos = position_in_live(&snapshot.live, &id_del);
            let ins_pos = position_in_live(&snapshot.live, &id_ins);
            match (del_pos, ins_pos) {
                (Some(d), Some(ins)) => {
                    let t = snapshot.live.remove(d);
                    snapshot.live.insert(ins, t);
                    proof {
                        assert(snapshot@.live =~= pre.live.remove(d as int).insert(
                            ins as int,
                            pre.live[d as int],
                        ));
                    }
                },
                _ => {},
            }
        },
        WebsocketOpKind::RevLiveTask { id1, id2 } => {
            let ghost pre = snapshot@;
            proof {
                lemma_find_live_from(pre.live, id1@, 0);
                lemma_find_live_from(pre.live, id2@, 0);
            }
            let pos1 = position_in_live(&snapshot.live, &id1);
            let pos2 = position_in_live(&snapshot.live, &id2);
            match (pos1, pos2) {
                (Some(p1), Some(p2)) => {
                    let lo = if p1 <= p2 { p1 } else { p2 };
                    let hi = if p1 <= p2 { p2 } else { p1 };
                    let ghost target = pre.live.take(lo as int) + pre.live.subrange(
                        lo as int,
                        hi as int + 1,
                    ).reverse() + pre.live.skip(hi as int + 1);
                    let mut out: Vec<LiveTask> = Vec::new();
                    let mut i: usize = 0;
                    proof {
                        assert(target.len() == pre.live.len());
                    }
                    while i < snapshot.live.len()
                        invariant
                            lo <= hi < snapshot.live@.len(),
                            i <= snapshot.live@.len(),
                            pre == snapshot@,
                            target.len() == pre.live.len(),
                            forall|j: int| 0 <= j < target.len() ==> target[j]
                                == (if lo <= j <= hi {
                                    pre.live[lo + hi - j]
                                } else {
                                    pre.live[j]
                                }),
                            out@.len() == i as int,
                            live_view(out@) =~= target.take(i as int),
                        decreases snapshot.live@.len() - i,
                    {
                        if lo <= i && i <= hi {
                            out.push(snapshot.live[hi - (i - lo)].clone());
                        } else {
                            out.push(snapshot.live[i].clone());
                        }
                        i = i + 1;
                        proof {
                            assert(live_view(out@) =~= target.take(i as int));
                        }
                    }
                    snapshot.live = out;
                    proof {
                        assert(live_view(snapshot.live@) =~= target);
                    }
                },
                _ => {},
            }
        },
    }
}

/// Clears the active edit slot when the edited id equals `id`, as
/// [`clear_if_edited`] states.
fn clear_active_if(active_id_val: &mut Option<(String, String)>, id: &String)
    ensures
        edit_view(*final(active_id_val)) == clear_if_edited(
            edit_view(*old(active_id_val)),
            id@,
        ),
{
    let clear = match &*active_id_val {
        Some(p) => p.0 == *id,
        None => false,
    };
    if clear {
        *active_id_val = None;
    }
}


/// Whether some live task carries this id.
pub open spec fn has_live_id(live: Seq<LiveTaskV>, id: Seq<char>) -> bool {
    exists|j: int| 0 <= j < live.len() && live[j].id == id
}

/// `find_live` succeeds exactly on the ids that the live list holds.
pub proof fn lemma_find_live_some(live: Seq<LiveTaskV>, id: Seq<char>)
    ensures
        find_live(live, id) is Some <==> has_live_id(live, id),
{
    lemma_find_live_from(live, id, 0);
    if find_live(live, id) is Some {
        let j = find_live(live, id)->Some_0;
        assert(live[j].id == id);
    }
}

/// The invariant of the active-edit slot: an id under edit always names a
/// task of the live list.
pub open spec fn edit_in_live(s: SnapshotV, active: Option<(Seq<char>, Seq<char>)>) -> bool {
    match active {
        Some(p) => has_live_id(s.live, p.0),
        None => true,
    }
}

/// Whether the operation refers to an id that its target list does not
/// hold, so that applying it must leave the snapshot unchanged.
pub open spec fn references_unknown_id(s: SnapshotV, k: OpKindV) -> bool {
    match k {
        OpKindV::OverwriteState(_) => false,
        OpKindV::InsLiveTask { .. } => false,
        OpKindV::EditLiveTask { id, .. } => find_live(s.live, id) is None,
        OpKindV::DelLiveTask { id } => find_live(s.live, id) is None,
        OpKindV::FinishLiveTask { id, .. } => find_live(s.live, id) is None,
        OpKindV::RestoreFinishedTask { id } => find_fin(s.finished, id) is None,
        OpKindV::MvLiveTask { id_del, id_ins } => find_live(s.live, id_del) is None
            || find_live(s.live, id_ins) is None,
        OpKindV::RevLiveTask { id1, id2 } => find_live(s.live, id1) is None || find_live(
            s.live,
            id2,
        ) is None,
    }
}

/// A filter that keeps every element changes nothing.
proof fn lemma_filter_keep_all<A>(s: Seq<A>, p: spec_fn(A) -> bool)
    requires
        forall|i: int| 0 <= i < s.len() ==> p(s[i]),
    ensures
        s.filter(p) == s,
    decreases s.len(),
{
    reveal_with_fuel(Seq::filter, 2);
    if s.len() > 0 {
        lemma_filter_keep_all(s.drop_last(), p);
        assert(s.drop_last().push(s.last()) =~= s);
    }
}

/// Applying an operation that names an unknown id leaves both the
/// snapshot and the active edit unchanged: such operations are tolerated
/// no-ops, never errors.
pub proof fn lemma_unknown_id_op_noop(
    s: SnapshotV,
    active: Option<(Seq<char>, Seq<char>)>,
    k: OpKindV,
)
    requires
        references_unknown_id(s, k),
        edit_in_live(s, active),
    ensures
        apply_kind(s, active, k) == (s, active),
{
    match k {
        OpKindV::DelLiveTask { id } => {
            lemma_find_live_from(s.live, id, 0);
            lemma_filter_keep_all(s.live, keeps_id(id));
            assert(SnapshotV { live: s.live.filter(keeps_id(id)), finished: s.finished } == s);
            if active is Some {
                let p0 = active->Some_0.0;
                let j = choose|j: int| 0 <= j < s.live.len() && s.live[j].id == p0;
                assert(s.live[j].id != id);
            }
        },
        OpKindV::FinishLiveTask { id, status } => {
            if active is Some {
                lemma_find_live_from(s.live, id, 0);
                let p0 = active->Some_0.0;
                let j = choose|j: int| 0 <= j < s.live.len() && s.live[j].id == p0;
                assert(s.live[j].id != id);
            }
        },
        _ => {},
    }
}

/// Reversing between two ids does not depend on the order in which the
/// ids are given.
pub proof fn lemma_rev_symmetric(
    s: SnapshotV,
    active: Option<(Seq<char>, Seq<char>)>,
    id1: Seq<char>,
    id2: Seq<char>,
)
    ensures
        apply_kind(s, active, OpKindV::RevLiveTask { id1, id2 }) == apply_kind(
            s,
            active,
            OpKindV::RevLiveTask { id1: id2, id2: id1 },
        ),
{
}

/// Finishing a task and then restoring it returns it to the front of the
/// live list, and the finished list holds no trace of it afterwards.
pub proof fn lemma_finish_restore_round_trip(
    s: SnapshotV,
    active: Option<(Seq<char>, Seq<char>)>,
    id: Seq<char>,
    status: TaskStatus,
)
    requires
        find_live(s.live, id) is Some,
        forall|j: int| 0 <= j < s.finished.len() ==> s.finished[j].id != id,
    ensures
        ({
            let i = find_live(s.live, id)->Some_0;
            let (s1, a1) = apply_kind(s, active, OpKindV::FinishLiveTask { id, status });
            let (s2, a2) = apply_kind(s1, a1, OpKindV::RestoreFinishedTask { id });
            &&& s2.live == seq![s.live[i]] + s.live.remove(i)
            &&& s2.live[0].id == id
            &&& s2.finished == s.finished
            &&& forall|j: int| 0 <= j < s2.finished.len() ==> s2.finished[j].id != id
        }),
{
    lemma_find_live_from(s.live, id, 0);
    let i = find_live(s.live, id)->Some_0;
    let (s1, a1) = apply_kind(s, active, OpKindV::FinishLiveTask { id, status });
    let ft = FinishedTaskV { id, value: s.live[i].value, status };
    assert(s1.finished == seq![ft] + s.finished);
    assert(s1.finished[0].id == id);
    assert(find_fin(s1.finished, id) == Some(0int));
    let (s2, a2) = apply_kind(s1, a1, OpKindV::RestoreFinishedTask { id });
    assert(s2.finished =~= s.finished);
    assert(LiveTaskV { id: ft.id, value: ft.value } == s.live[i]);
    assert(s2.live == seq![s.live[i]] + s1.live);
}

/// A remote finish or delete of the id under local edit clears the
/// active-edit slot.
pub proof fn lemma_removal_clears_active_edit(
    s: SnapshotV,
    value: Seq<char>,
    id: Seq<char>,
    status: TaskStatus,
)
    ensures
        apply_kind(s, Some((id, value)), OpKindV::FinishLiveTask { id, status }).1 is None,
        apply_kind(s, Some((id, value)), OpKindV::DelLiveTask { id }).1 is None,
        apply_kind(s, Some((id, value)), OpKindV::OverwriteState(s)).1 is None,
{
}

/// Applying any operation preserves the active-edit invariant: afterwards
/// the slot is either empty or names a task that the live list still
/// holds.
pub proof fn lemma_apply_preserves_edit_in_live(
    s: SnapshotV,
    active: Option<(Seq<char>, Seq<char>)>,
    k: OpKindV,
)
    requires
        edit_in_live(s, active),
    ensures
        ({
            let (s2, a2) = apply_kind(s, active, k);
            edit_in_live(s2, a2)
        }),
{
    let (s2, a2) = apply_kind(s, active, k);
    if active is Some && a2 is Some {
        let p0 = active->Some_0.0;
        let j = choose|j: int| 0 <= j < s.live.len() && s.live[j].id == p0;
        match k {
            OpKindV::OverwriteState(_) => {},
            OpKindV::InsLiveTask { id, value } => {
                assert(s2.live[j + 1].id == p0);
            },
            OpKindV::EditLiveTask { id, value } => {
                lemma_find_live_from(s.live, id, 0);
                match find_live(s.live, id) {
                    Some(i) => {
                        assert(s2.live[j].id == p0);
                    },
                    None => {},
                }
            },
            OpKindV::DelLiveTask { id } => {
                assert(p0 != id);
                lemma_filter_membership(s.live, keeps_id(id), j);
            },
            OpKindV::FinishLiveTask { id, status } => {
                lemma_find_live_from(s.live, id, 0);
                assert(p0 != id);
                match find_live(s.live, id) {
                    Some(i) => {
                        assert(s.live[i].id == id);
                        assert(i != j);
                        if j < i {
                            assert(s.live.remove(i)[j] == s.live[j]);
                            assert(s2.live[j].id == p0);
                        } else {
                            assert(s.live.remove(i)[j - 1] == s.live[j]);
                            assert(s2.live[j - 1].id == p0);
                        }
                    },
                    None => {},
                }
            },
            OpKindV::RestoreFinishedTask { id } => {
                lemma_find_fin_from(s.finished, id, 0);
                match find_fin(s.finished, id) {
                    Some(i) => {
                        assert(s2.live[j + 1].id == p0);
                    },
                    None => {},
                }
            },
            OpKindV::MvLiveTask { id_del, id_ins } => {
                lemma_find_live_from(s.live, id_del, 0);
                lemma_find_live_from(s.live, id_ins, 0);
                match (find_live(s.live, id_del), find_live(s.live, id_ins)) {
                    (Some(d), Some(ins)) => {
                        if j == d {
                            assert(s2.live[ins].id == p0);
                        } else {
                            let j1: int = if j < d {
                                j
                            } else {
                                j - 1
                            };
                            assert(s.live.remove(d)[j1].id == p0);
                            let j2: int = if j1 < ins {
                                j1
                            } else {
                                j1 + 1
                            };
                            assert(s2.live[j2].id == p0);
                        }
                    },
                    _ => {},
                }
            },
            OpKindV::RevLiveTask { id1, id2 } => {
                lemma_find_live_from(s.live, id1, 0);
                lemma_find_live_from(s.live, id2, 0);
                match (find_live(s.live, id1), find_live(s.live, id2)) {
                    (Some(p1), Some(p2)) => {
                        let lo = if p1 <= p2 {
                            p1
                        } else {
                            p2
                        };
                        let hi = if p1 <= p2 {
                            p2
                        } else {
                            p1
                        };
                        if j < lo || j > hi {
                            assert(s2.live[j].id == p0);
                        } else {
                            assert(s2.live[lo + hi - j] == s.live[j]);
                        }
                    },
                    _ => {},
                }
            },
        }
    }
}

/// An element that the filter keeps is in the filtered sequence.
proof fn lemma_filter_membership<A>(s: Seq<A>, p: spec_fn(A) -> bool, j: int)
    requires
        0 <= j < s.len(),
        p(s[j]),
    ensures
        exists|i: int| 0 <= i < s.filter(p).len() && s.filter(p)[i] == s[j],
    decreases s.len(),
{
    reveal_with_fuel(Seq::filter, 2);
    if j == s.len() - 1 {
        assert(s.filter(p).last() == s[j]);
    } else {
        lemma_filter_membership(s.drop_last(), p, j);
        let i = choose|i: int|
            0 <= i < s.drop_last().filter(p).len() && s.drop_last().filter(p)[i]
                == s.drop_last()[j];
        if p(s.last()) {
            assert(s.filter(p)[i] == s[j]);
        } else {
            assert(s.filter(p)[i] == s[j]);
        }
    }
}


/// Whether some finished task carries this id.
pub open spec fn has_fin_id(finished: Seq<FinishedTaskV>, id: Seq<char>) -> bool {
    exists|j: int| 0 <= j < finished.len() && finished[j].id == id
}

/// Well-formedness of a snapshot: ids are unique within each list, and
/// the live and finished lists hold disjoint sets of ids.
pub open spec fn wf_snapshot(s: SnapshotV) -> bool {
    &&& (forall|i: int, j: int|
        0 <= i < j < s.live.len() ==> s.live[i].id != s.live[j].id)
    &&& (forall|i: int, j: int|
        0 <= i < j < s.finished.len() ==> s.finished[i].id != s.finished[j].id)
    &&& (forall|i: int, j: int|
        0 <= i < s.live.len() && 0 <= j < s.finished.len() ==> s.live[i].id != s.finished[j].id)
}

/// Whether an operation respects the id discipline against this
/// snapshot: an overwrite carries a well-formed snapshot, and an insert
/// carries an id that is not in use. Every other operation is safe
/// unconditionally.
pub open spec fn op_respects_ids(s: SnapshotV, k: OpKindV) -> bool {
    match k {
        OpKindV::OverwriteState(ns) => wf_snapshot(ns),
        OpKindV::InsLiveTask { id, .. } => !has_live_id(s.live, id) && !has_fin_id(
            s.finished,
            id,
        ),
        _ => true,
    }
}

/// A filter of a sequence of live tasks with pairwise distinct ids
/// keeps the ids pairwise distinct, and keeps only ids of the original.
proof fn lemma_filter_live_ids<A>(s: Seq<A>, p: spec_fn(A) -> bool)
    ensures
        forall|i: int|
            0 <= i < s.filter(p).len() ==> exists|i0: int|
                0 <= i0 < s.len() && s[i0] == #[trigger] s.filter(p)[i],
        forall|i: int, j: int|
            0 <= i < j < s.filter(p).len() ==> exists|i0: int, j0: int|
                0 <= i0 < j0 < s.len() && s[i0] == #[trigger] s.filter(p)[i] && s[j0]
                    == #[trigger] s.filter(p)[j],
    decreases s.len(),
{
    reveal_with_fuel(Seq::filter, 2);
    if s.len() > 0 {
        let t = s.drop_last();
        lemma_filter_live_ids(t, p);
        let f = s.filter(p);
        let ft = t.filter(p);
        assert(forall|i0: int| 0 <= i0 < t.len() ==> t[i0] == s[i0]);
        if p(s.last()) {
            assert(f == ft.push(s.last()));
            assert forall|i: int| 0 <= i < f.len() implies exists|i0: int|
                0 <= i0 < s.len() && s[i0] == #[trigger] f[i] by {
                if i < ft.len() {
                    assert(f[i] == ft[i]);
                    let i0 = choose|i0: int| 0 <= i0 < t.len() && t[i0] == ft[i];
                    assert(s[i0] == f[i]);
                } else {
                    assert(f[i] == s[s.len() - 1]);
                }
            }
            assert forall|i: int, j: int| 0 <= i < j < f.len() implies exists|i0: int, j0: int|
                0 <= i0 < j0 < s.len() && s[i0] == #[trigger] f[i] && s[j0] == #[trigger] f[j] by {
                if j < ft.len() {
                    let (i0, j0) = choose|i0: int, j0: int|
                        0 <= i0 < j0 < t.len() && t[i0] == ft[i] && t[j0] == ft[j];
                    assert(s[i0] == f[i] && s[j0] == f[j]);
                } else {
                    assert(f[j] == s[s.len() - 1]);
                    let i0 = choose|i0: int| 0 <= i0 < t.len() && t[i0] == ft[i];
                    assert(s[i0] == f[i] && s[s.len() - 1] == f[j]);
                }
            }
        } else {
            assert(f == ft);
            assert forall|i: int| 0 <= i < f.len() implies exists|i0: int|
                0 <= i0 < s.len() && s[i0] == #[trigger] f[i] by {
                let i0 = choose|i0: int| 0 <= i0 < t.len() && t[i0] == ft[i];
                assert(s[i0] == f[i]);
            }
            assert forall|i: int, j: int| 0 <= i < j < f.len() implies exists|i0: int, j0: int|
                0 <= i0 < j0 < s.len() && s[i0] == #[trigger] f[i] && s[j0] == #[trigger] f[j] by {
                let (i0, j0) = choose|i0: int, j0: int|
                    0 <= i0 < j0 < t.len() && t[i0] == ft[i] && t[j0] == ft[j];
                assert(s[i0] == f[i] && s[j0] == f[j]);
            }
        }
    }
}

/// Applying an operation that respects the id discipline keeps the
/// snapshot well-formed: ids stay unique and the two lists stay
/// disjoint.
#[verifier::rlimit(100)]
pub proof fn lemma_apply_preserves_wf(
    s: SnapshotV,
    active: Option<(Seq<char>, Seq<char>)>,
    k: OpKindV,
)
    requires
        wf_snapshot(s),
        op_respects_ids(s, k),
    ensures
        wf_snapshot(apply_kind(s, active, k).0),
{
    let s2 = apply_kind(s, active, k).0;
    match k {
        OpKindV::OverwriteState(_) => {},
        OpKindV::InsLiveTask { id, value } => {
            assert(forall|j: int| 1 <= j < s2.live.len() ==> s2.live[j] == s.live[j - 1]);
            assert forall|i: int, j: int| 0 <= i < j < s2.live.len() implies s2.live[i].id
                != s2.live[j].id by {
                if i == 0 {
                    assert(s2.live[j].id == s.live[j - 1].id);
                    if s2.live[0].id == s2.live[j].id {
                        assert(has_live_id(s.live, id));
                    }
                }
            }
            assert forall|i: int, j: int|
                0 <= i < s2.live.len() && 0 <= j < s2.finished.len() implies s2.live[i].id
                != s2.finished[j].id by {
                if i == 0 {
                    if s2.live[0].id == s2.finished[j].id {
                        assert(has_fin_id(s.finished, id));
                    }
                }
            }
        },
        OpKindV::EditLiveTask { id, value } => {
            match find_live(s.live, id) {
                Some(i) => {
                    lemma_find_live_from(s.live, id, 0);
                    assert(forall|j: int|
                        0 <= j < s2.live.len() ==> s2.live[j].id == s.live[j].id);
                },
                None => {},
            }
        },
        OpKindV::DelLiveTask { id } => {
            lemma_filter_live_ids(s.live, keeps_id(id));
            let f = s.live.filter(keeps_id(id));
            assert forall|i: int, j: int| 0 <= i < j < f.len() implies f[i].id != f[j].id by {
                let (i0, j0) = choose|i0: int, j0: int|
                    0 <= i0 < j0 < s.live.len() && s.live[i0] == f[i] && s.live[j0] == f[j];
                assert(s.live[i0].id != s.live[j0].id);
            }
            assert forall|i: int, j: int|
                0 <= i < f.len() && 0 <= j < s2.finished.len() implies f[i].id
                != s2.finished[j].id by {
                let i0 = choose|i0: int| 0 <= i0 < s.live.len() && s.live[i0] == f[i];
                assert(s.live[i0].id != s.finished[j].id);
            }
        },
        OpKindV::FinishLiveTask { id, status } => {
            match find_live(s.live, id) {
                Some(i) => {
                    lemma_find_live_from(s.live, id, 0);
                    let m = s.live.remove(i);
                    assert(forall|j: int|
                        0 <= j < m.len() ==> m[j] == s.live[if j < i {
                            j
                        } else {
                            j + 1
                        }]);
                    assert forall|j1: int, j2: int| 0 <= j1 < j2 < m.len() implies m[j1].id
                        != m[j2].id by {
                        let o1: int = if j1 < i {
                            j1
                        } else {
                            j1 + 1
                        };
                        let o2: int = if j2 < i {
                            j2
                        } else {
                            j2 + 1
                        };
                        assert(s.live[o1].id != s.live[o2].id);
                    }
                    assert(s2.finished[0].id == id);
                    assert forall|j1: int, j2: int| 0 <= j1 < j2 < s2.finished.len() implies
                        s2.finished[j1].id != s2.finished[j2].id by {
                        if j1 == 0 {
                            assert(s2.finished[j2] == s.finished[j2 - 1]);
                            assert(s.live[i].id != s.finished[j2 - 1].id);
                        } else {
                            assert(s2.finished[j1] == s.finished[j1 - 1]);
                            assert(s2.finished[j2] == s.finished[j2 - 1]);
                        }
                    }
                    assert forall|j1: int, j2: int|
                        0 <= j1 < m.len() && 0 <= j2 < s2.finished.len() implies m[j1].id
                        != s2.finished[j2].id by {
                        let o1: int = if j1 < i {
                            j1
                        } else {
                            j1 + 1
                        };
                        if j2 == 0 {
                            assert(s2.finished[0].id == s.live[i].id);
                            assert(o1 != i);
                            assert(s.live[o1].id != s.live[i].id);
                        } else {
                            assert(s2.finished[j2] == s.finished[j2 - 1]);
                            assert(s.live[o1].id != s.finished[j2 - 1].id);
                        }
                    }
                },
                None => {},
            }
        },
        OpKindV::RestoreFinishedTask { id } => {
            match find_fin(s.finished, id) {
                Some(i) => {
                    lemma_find_fin_from(s.finished, id, 0);
                    let m = s.finished.remove(i);
                    assert(forall|j: int|
                        0 <= j < m.len() ==> m[j] == s.finished[if j < i {
                            j
                        } else {
                            j + 1
                        }]);
                    assert(s2.live[0].id == s.finished[i].id);
                    assert forall|j1: int, j2: int| 0 <= j1 < j2 < s2.live.len() implies
                        s2.live[j1].id != s2.live[j2].id by {
                        if j1 == 0 {
                            assert(s2.live[j2] == s.live[j2 - 1]);
                            assert(s.live[j2 - 1].id != s.finished[i].id);
                        } else {
                            assert(s2.live[j1] == s.live[j1 - 1]);
                            assert(s2.live[j2] == s.live[j2 - 1]);
                        }
                    }
                    assert forall|j1: int, j2: int| 0 <= j1 < j2 < m.len() implies m[j1].id
                        != m[j2].id by {
                        let o1: int = if j1 < i {
                            j1
                        } else {
                            j1 + 1
                        };
                        let o2: int = if j2 < i {
                            j2
                        } else {
                            j2 + 1
                        };
                        assert(s.finished[o1].id != s.finished[o2].id);
                    }
                    assert forall|j1: int, j2: int|
                        0 <= j1 < s2.live.len() && 0 <= j2 < m.len() implies s2.live[j1].id
                        != m[j2].id by {
                        let o2: int = if j2 < i {
                            j2
                        } else {
                            j2 + 1
                        };
                        if j1 == 0 {
                            assert(o2 != i);
                            assert(s.finished[i].id != s.finished[o2].id);
                        } else {
                            assert(s2.live[j1] == s.live[j1 - 1]);
                            assert(s.live[j1 - 1].id != s.finished[o2].id);
                        }
                    }
                },
                None => {},
            }
        },
        OpKindV::MvLiveTask { id_del, id_ins } => {
            match (find_live(s.live, id_del), find_live(s.live, id_ins)) {
                (Some(d), Some(ins)) => {
                    lemma_find_live_from(s.live, id_del, 0);
                    lemma_find_live_from(s.live, id_ins, 0);
                    let m = s.live.remove(d);
                    let l2 = m.insert(ins, s.live[d]);
                    assert(forall|j: int|
                        0 <= j < m.len() ==> m[j] == s.live[if j < d {
                            j
                        } else {
                            j + 1
                        }]);
                    assert forall|j1: int, j2: int| 0 <= j1 < j2 < l2.len() implies l2[j1].id
                        != l2[j2].id by {
                        let o1: int = mv_origin(j1, ins, d);
                        let o2: int = mv_origin(j2, ins, d);
                        assert(l2[j1] == s.live[o1]);
                        assert(l2[j2] == s.live[o2]);
                        assert(o1 != o2);
                    }
                    assert forall|j1: int, j2: int|
                        0 <= j1 < l2.len() && 0 <= j2 < s.finished.len() implies l2[j1].id
                        != s.finished[j2].id by {
                        let o1: int = mv_origin(j1, ins, d);
                        assert(l2[j1] == s.live[o1]);
                    }
                },
                _ => {},
            }
        },
        OpKindV::RevLiveTask { id1, id2 } => {
            match (find_live(s.live, id1), find_live(s.live, id2)) {
                (Some(p1), Some(p2)) => {
                    lemma_find_live_from(s.live, id1, 0);
                    lemma_find_live_from(s.live, id2, 0);
                    let lo = if p1 <= p2 {
                        p1
                    } else {
                        p2
                    };
                    let hi = if p1 <= p2 {
                        p2
                    } else {
                        p1
                    };
                    assert(forall|j: int|
                        0 <= j < s2.live.len() ==> s2.live[j] == s.live[if lo <= j <= hi {
                            lo + hi - j
                        } else {
                            j
                        }]);
                    assert forall|j1: int, j2: int| 0 <= j1 < j2 < s2.live.len() implies
                        s2.live[j1].id != s2.live[j2].id by {
                        let o1: int = if lo <= j1 <= hi {
                            lo + hi - j1
                        } else {
                            j1
                        };
                        let o2: int = if lo <= j2 <= hi {
                            lo + hi - j2
                        } else {
                            j2
                        };
                        assert(o1 != o2);
                        assert(s.live[o1].id != s.live[o2].id || s.live[o2].id != s.live[o1].id);
                    }
                    assert forall|j1: int, j2: int|
                        0 <= j1 < s2.live.len() && 0 <= j2 < s2.finished.len() implies
                        s2.live[j1].id != s2.finished[j2].id by {
                        let o1: int = if lo <= j1 <= hi {
                            lo + hi - j1
                        } else {
                            j1
                        };
                        assert(s2.live[j1] == s.live[o1]);
                    }
                },
                _ => {},
            }
        },
    }
}

/// The original position of the element at `j` after a move that
/// removed position `d` and reinserted it at `ins`.
pub open spec fn mv_origin(j: int, ins: int, d: int) -> int {
    if j == ins {
        d
    } else {
        let j1 = if j < ins {
            j
        } else {
            j - 1
        };
        if j1 < d {
            j1
        } else {
            j1 + 1
        }
    }
}

} // verus!

use vstd::prelude::*;

verus! {

/// The offscreen surface a state is asked to draw into: `Current` for the
/// active state, `Staging` for the state a transition leads into.
#[derive(Clone, Copy, Debug, PartialEq, Eq, Structural)]
pub enum Surface {
    Current,
    Staging,
}

/// A lifecycle hook that the controller calls on a state: an update with
/// the delta time handed to it, a draw with the surface it draws into.
#[derive(Clone, Copy, Debug, PartialEq, Eq, Structural)]
pub enum Hook {
    Enter,
    Exit,
    Update(u64),
    Draw(Surface),
}

/// One hook call, on the state with the given serial number.
pub type Event = (Hook, nat);

pub open spec fn entered_before(log: Seq<Event>, id: nat, j: int) -> bool {
    exists|i: int| 0 <= i < j && log[i] == (Hook::Enter, id)
}

pub open spec fn exited_before(log: Seq<Event>, id: nat, j: int) -> bool {
    exists|i: int| 0 <= i < j && log[i] == (Hook::Exit, id)
}

/// The state has entered and not yet exited before position `j` of the log.
pub open spec fn live_at(log: Seq<Event>, id: nat, j: int) -> bool {
    entered_before(log, id, j) && !exited_before(log, id, j)
}

/// The lifecycle that every state goes through: it is entered once, and
/// every later hook (update, draw, and the one exit) comes while it is live,
/// that is after its entry and before its exit.
pub open spec fn lifecycle_ok(log: Seq<Event>) -> bool {
    forall|j: int|
        0 <= j < log.len() ==> match #[trigger] log[j].0 {
            Hook::Enter => !entered_before(log, log[j].1, j),
            _ => live_at(log, log[j].1, j),
        }
}

/// The hook `e` may come next after `log`.
pub open spec fn admissible(log: Seq<Event>, e: Event) -> bool {
    match e.0 {
        Hook::Enter => !entered_before(log, e.1, log.len() as int),
        _ => live_at(log, e.1, log.len() as int),
    }
}

pub proof fn lemma_push(log: Seq<Event>, e: Event)
    requires
        lifecycle_ok(log),
        admissible(log, e),
    ensures
        lifecycle_ok(log.push(e)),
        forall|id: nat|
            #[trigger] entered_before(log.push(e), id, log.len() + 1 as int) <==> (entered_before(
                log,
                id,
                log.len() as int,
            ) || e == (Hook::Enter, id)),
        forall|id: nat|
            #[trigger] exited_before(log.push(e), id, log.len() + 1 as int) <==> (exited_before(
                log,
                id,
                log.len() as int,
            ) || e == (Hook::Exit, id)),
{
    let l2 = log.push(e);
    assert forall|id: nat, j: int| 0 <= j <= log.len() implies (entered_before(l2, id, j)
        <==> entered_before(log, id, j)) && (exited_before(l2, id, j) <==> exited_before(
        log,
        id,
        j,
    )) by {
        if entered_before(l2, id, j) {
            let i = choose|i: int| 0 <= i < j && l2[i] == (Hook::Enter, id);
            assert(log[i] == l2[i]);
        }
        if entered_before(log, id, j) {
            let i = choose|i: int| 0 <= i < j && log[i] == (Hook::Enter, id);
            assert(log[i] == l2[i]);
        }
        if exited_before(l2, id, j) {
            let i = choose|i: int| 0 <= i < j && l2[i] == (Hook::Exit, id);
            assert(log[i] == l2[i]);
        }
        if exited_before(log, id, j) {
            let i = choose|i: int| 0 <= i < j && log[i] == (Hook::Exit, id);
            assert(log[i] == l2[i]);
        }
    }
    assert forall|id: nat| #[trigger]
        entered_before(l2, id, log.len() + 1 as int) <==> (entered_before(log, id, log.len() as int) || e
            == (Hook::Enter, id)) by {
        if entered_before(l2, id, log.len() + 1 as int) && !(e == (Hook::Enter, id)) {
            let i = choose|i: int| 0 <= i < log.len() + 1 && l2[i] == (Hook::Enter, id);
            assert(l2[i] == log[i]);
        }
        if entered_before(log, id, log.len() as int) {
            let i = choose|i: int| 0 <= i < log.len() && log[i] == (Hook::Enter, id);
            assert(l2[i] == log[i]);
        }
        if e == (Hook::Enter, id) {
            assert(l2[log.len() as int] == e);
        }
    }
    assert forall|id: nat| #[trigger]
        exited_before(l2, id, log.len() + 1 as int) <==> (exited_before(log, id, log.len() as int) || e
            == (Hook::Exit, id)) by {
        if exited_before(l2, id, log.len() + 1 as int) && !(e == (Hook::Exit, id)) {
            let i = choose|i: int| 0 <= i < log.len() + 1 && l2[i] == (Hook::Exit, id);
            assert(l2[i] == log[i]);
        }
        if exited_before(log, id, log.len() as int) {
            let i = choose|i: int| 0 <= i < log.len() && log[i] == (Hook::Exit, id);
            assert(l2[i] == log[i]);
        }
        if e == (Hook::Exit, id) {
            assert(l2[log.len() as int] == e);
        }
    }
    assert forall|j: int| 0 <= j < l2.len() implies match #[trigger] l2[j].0 {
        Hook::Enter => !entered_before(l2, l2[j].1, j),
        _ => live_at(l2, l2[j].1, j),
    } by {
        if j < log.len() {
            assert(l2[j] == log[j]);
        }
    }
}

} // verus!

//! The producer and the consumer running together: the two threads of the
//! Dekker task, sharing the product buffer under Dekker's lock.
//!
//! Thread 0 is the producer and thread 1 the consumer. Each runs Dekker's
//! protocol (`protocol::DekkerModel`) and, in the step that leaves its
//! critical section, does its move on the buffer: the producer's is
//! `place_effect` with its next product number, the consumer's is
//! `take_effect` (the effects of `place_product` and `take_product`). A move
//! that finds the buffer full or empty does nothing, and the thread locks
//! again. A thread that has made all `TASK_DEKKER_SIZE` moves and is back at
//! `Idle` is done; its steps change nothing.
//!
//! The laws: whatever the interleaving, the consumer has taken exactly the
//! first products in the order they were made (`lemma_delivered_in_order`);
//! and under any fair schedule both threads finish, every product having
//! been delivered once, in order, with the buffer left empty
//! (`lemma_delivery_completes`).
use vstd::prelude::*;
use crate::protocol::{DekkerModel, LockPhase, initial};
use crate::progress::{fair, steps_again, rank_for, helper_for, lemma_progress_step, lemma_critical_rank};
use crate::producer_consumer::{place_effect, take_effect, BUFFER_DEKKER_SIZE, TASK_DEKKER_SIZE};

verus! {

/// The product numbers 1 to `k`, in the order they are made.
pub open spec fn products(k: nat) -> Seq<usize> {
    Seq::new(k, |x: int| (x + 1) as usize)
}

/// The numbers of the products in `buf`, front first.
pub open spec fn numbers(buf: Seq<(usize, usize)>) -> Seq<usize> {
    buf.map_values(|product: (usize, usize)| product.0)
}

/// Both threads of the Dekker task with their shared buffer.
pub struct DeliveryModel {
    pub lock: DekkerModel,
    pub buffer: Seq<(usize, usize)>,
    /// How many products the producer has placed.
    pub produced: nat,
    /// The numbers of the products the consumer has taken, in order.
    pub consumed: Seq<usize>,
}

/// Before either thread has started: lock free, buffer empty.
pub open spec fn delivery_initial() -> DeliveryModel {
    DeliveryModel { lock: initial(), buffer: Seq::empty(), produced: 0, consumed: Seq::empty() }
}

/// A thread in phase `p` is trying to get the lock or is inside.
pub open spec fn busy(p: LockPhase) -> bool {
    p != LockPhase::Release && p != LockPhase::Idle
}

/// Thread `i` can get in without the other thread's help: `turn` names it, or
/// it is on a path that does not wait for `turn`.
pub open spec fn free_for(lock: DekkerModel, i: int) -> bool {
    lock.turn == i || match lock.phase_of(i) {
        LockPhase::Idle | LockPhase::CheckOther | LockPhase::Reannounce
        | LockPhase::Critical | LockPhase::Release => true,
        _ => false,
    }
}

impl DeliveryModel {
    /// How many moves thread `id` has made.
    pub open spec fn count_of(self, id: int) -> nat {
        if id == 0 { self.produced } else { self.consumed.len() }
    }

    /// Thread `id` has made all its moves and returned.
    pub open spec fn done(self, id: int) -> bool {
        self.lock.phase_of(id) == LockPhase::Idle && self.count_of(id) == TASK_DEKKER_SIZE
    }

    /// How many moves both threads still have to make.
    pub open spec fn remaining(self) -> nat {
        ((TASK_DEKKER_SIZE - self.produced) + (TASK_DEKKER_SIZE - self.consumed.len())) as nat
    }

    /// The state after thread `id` (0 or 1) takes one step.
    pub open spec fn stepped(self, id: int) -> DeliveryModel {
        if self.done(id) {
            self
        } else if self.lock.phase_of(id) == LockPhase::Critical && id == 0 {
            let (buf, answer) = place_effect(self.buffer, (self.produced + 1) as usize);
            DeliveryModel {
                lock: self.lock.stepped(id),
                buffer: buf,
                produced: if answer is Some { self.produced + 1 } else { self.produced },
                consumed: self.consumed,
            }
        } else if self.lock.phase_of(id) == LockPhase::Critical {
            let (buf, answer) = take_effect(self.buffer);
            DeliveryModel {
                lock: self.lock.stepped(id),
                buffer: buf,
                produced: self.produced,
                consumed: match answer {
                    Some(taken) => self.consumed.push(taken.0.0),
                    None => self.consumed,
                },
            }
        } else {
            DeliveryModel {
                lock: self.lock.stepped(id),
                buffer: self.buffer,
                produced: self.produced,
                consumed: self.consumed,
            }
        }
    }

    /// What every state reached from the start satisfies.
    pub open spec fn inv(self) -> bool {
        &&& self.lock.inv()
        &&& self.produced <= TASK_DEKKER_SIZE
        &&& self.buffer.len() <= BUFFER_DEKKER_SIZE
        &&& self.consumed + numbers(self.buffer) == products(self.produced)
        &&& busy(self.lock.phase0) ==> self.produced < TASK_DEKKER_SIZE
        &&& busy(self.lock.phase1) ==> self.consumed.len() < TASK_DEKKER_SIZE
        &&& self.done(0) ==> free_for(self.lock, 1)
        &&& self.done(1) ==> free_for(self.lock, 0)
    }
}

/// The state after the first `n` steps of an unending schedule.
pub open spec fn delivery_run(s: DeliveryModel, schedule: spec_fn(nat) -> int, n: nat) -> DeliveryModel
    decreases n,
{
    if n == 0 {
        s
    } else {
        delivery_run(s, schedule, (n - 1) as nat).stepped(schedule((n - 1) as nat))
    }
}

/// What one step keeps and changes.
proof fn lemma_delivery_step(s: DeliveryModel, id: int)
    requires
        s.inv(),
        id == 0 || id == 1,
    ensures
        s.stepped(id).inv(),
        s.stepped(id).produced >= s.produced,
        s.stepped(id).consumed.len() >= s.consumed.len(),
        s.stepped(id).remaining() <= s.remaining(),
        s.stepped(id).remaining() == s.remaining() ==> {
            &&& s.stepped(id).buffer == s.buffer
            &&& s.stepped(id).produced == s.produced
            &&& s.stepped(id).consumed == s.consumed
        },
        s.done(id) ==> s.stepped(id) == s,
        !s.done(id) ==> s.stepped(id).lock == s.lock.stepped(id),
        s.stepped(id).lock.phase_of(1 - id) == s.lock.phase_of(1 - id),
        s.stepped(id).count_of(1 - id) == s.count_of(1 - id),
{
    let t = s.stepped(id);
    assert(s.consumed.len() + s.buffer.len() == s.produced) by {
        assert((s.consumed + numbers(s.buffer)).len() == products(s.produced).len());
    }
    if !s.done(id) {
        crate::protocol::lemma_step_keeps_inv(s.lock, id);
        if s.lock.phase_of(id) == LockPhase::Critical && id == 0 {
            if s.buffer.len() != BUFFER_DEKKER_SIZE {
                let item = ((s.produced + 1) as usize, s.buffer.len() as usize);
                assert(numbers(s.buffer.push(item)) =~= numbers(s.buffer).push(item.0));
                assert(s.consumed + numbers(s.buffer).push(item.0) =~= (s.consumed + numbers(s.buffer)).push(item.0));
                assert(products(s.produced).push(item.0) =~= products(s.produced + 1));
            }
        } else if s.lock.phase_of(id) == LockPhase::Critical {
            if s.buffer.len() > 0 {
                let front = s.buffer[0];
                assert(numbers(s.buffer) =~= seq![front.0] + numbers(s.buffer.remove(0)));
                assert(s.consumed.push(front.0) + numbers(s.buffer.remove(0)) =~= s.consumed + numbers(s.buffer));
            }
        }
    }
}

/// Every state of a run from a state satisfying the invariant satisfies it.
pub proof fn lemma_delivery_run_inv(s: DeliveryModel, schedule: spec_fn(nat) -> int, n: nat)
    requires
        s.inv(),
        forall|m: nat| #[trigger] schedule(m) == 0 || schedule(m) == 1,
    ensures
        delivery_run(s, schedule, n).inv(),
    decreases n,
{
    if n > 0 {
        lemma_delivery_run_inv(s, schedule, (n - 1) as nat);
        assert(schedule((n - 1) as nat) == 0 || schedule((n - 1) as nat) == 1);
        lemma_delivery_step(delivery_run(s, schedule, (n - 1) as nat), schedule((n - 1) as nat));
    }
}

/// The state before anything happens satisfies the invariant.
pub proof fn lemma_delivery_initial_inv()
    ensures
        delivery_initial().inv(),
{
    let s = delivery_initial();
    assert(s.consumed + numbers(s.buffer) =~= products(0));
}

/// The move that thread `i` would make now finds what it needs: room in the
/// buffer for the producer, a product for the consumer.
pub open spec fn move_possible(s: DeliveryModel, i: int) -> bool {
    if i == 0 { s.buffer.len() < BUFFER_DEKKER_SIZE } else { s.buffer.len() > 0 }
}

/// How far thread `i` is from its critical section when the other thread is
/// done, counted in its own steps.
spec fn alone_rank(p: LockPhase) -> nat {
    match p {
        LockPhase::Critical => 0,
        LockPhase::CheckOther => 1,
        LockPhase::Idle | LockPhase::Reannounce | LockPhase::CheckTurn => 2,
        LockPhase::Release | LockPhase::WaitTurn => 3,
        LockPhase::Withdraw => 4,
    }
}

/// With the other thread done, thread `i` makes its move by its own steps.
proof fn lemma_moves_alone(s: DeliveryModel, schedule: spec_fn(nat) -> int, i: int, p: nat, q: nat)
    requires
        s.inv(),
        fair(schedule),
        i == 0 || i == 1,
        delivery_run(s, schedule, p).done(1 - i),
        delivery_run(s, schedule, p).count_of(i) < TASK_DEKKER_SIZE,
        move_possible(delivery_run(s, schedule, p), i),
        q >= p,
        schedule(q) == i,
    ensures
        exists|n: nat| n > p && #[trigger] delivery_run(s, schedule, n).remaining() < delivery_run(s, schedule, p).remaining(),
    decreases alone_rank(delivery_run(s, schedule, p).lock.phase_of(i)), q - p,
{
    let t = delivery_run(s, schedule, p);
    lemma_delivery_run_inv(s, schedule, p);
    let k = schedule(p);
    assert(k == 0 || k == 1);
    lemma_delivery_step(t, k);
    let t2 = delivery_run(s, schedule, p + 1);
    assert(t2 == t.stepped(k));
    if t2.remaining() < t.remaining() {
        assert(delivery_run(s, schedule, p + 1).remaining() < t.remaining());
    } else if k != i {
        assert(t2 == t);
        lemma_moves_alone(s, schedule, i, p + 1, q);
    } else {
        assert(t.lock.phase_of(i) != LockPhase::Critical);
        assert(alone_rank(t2.lock.phase_of(i)) < alone_rank(t.lock.phase_of(i)));
        assert(steps_again(schedule, p + 1, i));
        let m = choose|m: nat| m >= p + 1 && #[trigger] schedule(m) == i;
        lemma_moves_alone(s, schedule, i, p + 1, m);
    }
}

/// With the other thread still running, thread `i` makes its move: the
/// ranking of `progress` bounds how long it can be kept out.
proof fn lemma_moves_shared(s: DeliveryModel, schedule: spec_fn(nat) -> int, i: int, p: nat, q: nat)
    requires
        s.inv(),
        fair(schedule),
        i == 0 || i == 1,
        !delivery_run(s, schedule, p).done(1 - i),
        delivery_run(s, schedule, p).count_of(i) < TASK_DEKKER_SIZE,
        move_possible(delivery_run(s, schedule, p), i),
        q >= p,
        schedule(q) == helper_for(delivery_run(s, schedule, p).lock, i),
    ensures
        exists|n: nat| n > p && #[trigger] delivery_run(s, schedule, n).remaining() < delivery_run(s, schedule, p).remaining(),
    decreases rank_for(delivery_run(s, schedule, p).lock, i), q - p,
{
    let t = delivery_run(s, schedule, p);
    lemma_delivery_run_inv(s, schedule, p);
    let k = schedule(p);
    assert(k == 0 || k == 1);
    lemma_delivery_step(t, k);
    let t2 = delivery_run(s, schedule, p + 1);
    assert(t2 == t.stepped(k));
    lemma_delivery_run_inv(s, schedule, p + 1);
    if t2.remaining() < t.remaining() {
        assert(delivery_run(s, schedule, p + 1).remaining() < t.remaining());
    } else if t.lock.phase_of(i) == LockPhase::Critical {
        lemma_critical_rank(t.lock, i);
        assert(k != i);
        assert(t2.lock.phase_of(i) == LockPhase::Critical);
        lemma_critical_rank(t2.lock, i);
        assert(!t2.done(1 - i));
        lemma_moves_shared(s, schedule, i, p + 1, q);
    } else {
        lemma_progress_step(t.lock, i, k);
        if t2.done(1 - i) {
            assert(steps_again(schedule, p + 1, i));
            let m = choose|m: nat| m >= p + 1 && #[trigger] schedule(m) == i;
            lemma_moves_alone(s, schedule, i, p + 1, m);
        } else if rank_for(t2.lock, i) < rank_for(t.lock, i) {
            let h = helper_for(t2.lock, i);
            if t2.lock.phase_of(i) == LockPhase::Critical {
                lemma_critical_rank(t2.lock, i);
            } else {
                lemma_progress_step(t2.lock, i, 0);
            }
            assert(h == 0 || h == 1);
            assert(steps_again(schedule, p + 1, h));
            let m = choose|m: nat| m >= p + 1 && #[trigger] schedule(m) == h;
            lemma_moves_shared(s, schedule, i, p + 1, m);
        } else {
            lemma_moves_shared(s, schedule, i, p + 1, q);
        }
    }
}

/// While some move is still to be made, some move is made later on.
proof fn lemma_some_move(s: DeliveryModel, schedule: spec_fn(nat) -> int, p: nat)
    requires
        s.inv(),
        fair(schedule),
        delivery_run(s, schedule, p).remaining() > 0,
    ensures
        exists|n: nat| n > p && #[trigger] delivery_run(s, schedule, n).remaining() < delivery_run(s, schedule, p).remaining(),
{
    let t = delivery_run(s, schedule, p);
    lemma_delivery_run_inv(s, schedule, p);
    assert(t.consumed.len() + t.buffer.len() == t.produced) by {
        assert((t.consumed + numbers(t.buffer)).len() == products(t.produced).len());
    }
    let i: int = if t.buffer.len() > 0 { 1 } else { 0 };
    assert(move_possible(t, i));
    assert(t.count_of(i) < TASK_DEKKER_SIZE);
    if t.done(1 - i) {
        assert(steps_again(schedule, p, i));
        let q = choose|m: nat| m >= p && #[trigger] schedule(m) == i;
        lemma_moves_alone(s, schedule, i, p, q);
    } else {
        let h = helper_for(t.lock, i);
        if t.lock.phase_of(i) == LockPhase::Critical {
            lemma_critical_rank(t.lock, i);
        } else {
            lemma_progress_step(t.lock, i, 0);
        }
        assert(steps_again(schedule, p, h));
        let q = choose|m: nat| m >= p && #[trigger] schedule(m) == h;
        lemma_moves_shared(s, schedule, i, p, q);
    }
}

/// Under a fair schedule all moves get made.
proof fn lemma_all_moves_made(s: DeliveryModel, schedule: spec_fn(nat) -> int, p: nat)
    requires
        s.inv(),
        fair(schedule),
    ensures
        exists|n: nat| n >= p && #[trigger] delivery_run(s, schedule, n).remaining() == 0,
    decreases delivery_run(s, schedule, p).remaining(),
{
    if delivery_run(s, schedule, p).remaining() > 0 {
        lemma_some_move(s, schedule, p);
        let n = choose|n: nat| n > p && #[trigger] delivery_run(s, schedule, n).remaining() < delivery_run(s, schedule, p).remaining();
        lemma_all_moves_made(s, schedule, n);
    } else {
        assert(delivery_run(s, schedule, p).remaining() == 0);
    }
}

/// Once all moves are made, none is left later.
proof fn lemma_no_moves_left(s: DeliveryModel, schedule: spec_fn(nat) -> int, p: nat, m: nat)
    requires
        s.inv(),
        fair(schedule),
        delivery_run(s, schedule, p).remaining() == 0,
        m >= p,
    ensures
        delivery_run(s, schedule, m).remaining() == 0,
    decreases m - p,
{
    if m > p {
        lemma_no_moves_left(s, schedule, p, (m - 1) as nat);
        lemma_delivery_run_inv(s, schedule, (m - 1) as nat);
        assert(schedule((m - 1) as nat) == 0 || schedule((m - 1) as nat) == 1);
        lemma_delivery_step(delivery_run(s, schedule, (m - 1) as nat), schedule((m - 1) as nat));
    }
}

/// A thread that is done stays done.
proof fn lemma_done_stays(s: DeliveryModel, schedule: spec_fn(nat) -> int, id: int, p: nat, m: nat)
    requires
        s.inv(),
        fair(schedule),
        id == 0 || id == 1,
        delivery_run(s, schedule, p).done(id),
        m >= p,
    ensures
        delivery_run(s, schedule, m).done(id),
    decreases m - p,
{
    if m > p {
        lemma_done_stays(s, schedule, id, p, (m - 1) as nat);
        lemma_delivery_run_inv(s, schedule, (m - 1) as nat);
        let k = schedule((m - 1) as nat);
        assert(k == 0 || k == 1);
        lemma_delivery_step(delivery_run(s, schedule, (m - 1) as nat), k);
        if k != id {
            assert(1 - k == id);
        }
    }
}

/// With all moves made, a thread is done after its next step.
proof fn lemma_done_after_step(s: DeliveryModel, schedule: spec_fn(nat) -> int, id: int, p: nat, q: nat)
    requires
        s.inv(),
        fair(schedule),
        id == 0 || id == 1,
        delivery_run(s, schedule, p).remaining() == 0,
        q >= p,
        schedule(q) == id,
    ensures
        delivery_run(s, schedule, q + 1).done(id),
{
    lemma_no_moves_left(s, schedule, p, q);
    lemma_delivery_run_inv(s, schedule, q);
    let t = delivery_run(s, schedule, q);
    assert(t.consumed.len() + t.buffer.len() == t.produced) by {
        assert((t.consumed + numbers(t.buffer)).len() == products(t.produced).len());
    }
    lemma_delivery_step(t, id);
}

/// Products are delivered once each and in order: whatever the interleaving
/// of the two threads, the consumer has taken exactly the first products made,
/// in the order they were made, and the buffer holds the ones made after them.
pub proof fn lemma_delivered_in_order(schedule: spec_fn(nat) -> int, n: nat)
    requires
        forall|m: nat| #[trigger] schedule(m) == 0 || schedule(m) == 1,
    ensures
        delivery_run(delivery_initial(), schedule, n).consumed
            == products(delivery_run(delivery_initial(), schedule, n).consumed.len()),
        delivery_run(delivery_initial(), schedule, n).consumed + numbers(delivery_run(delivery_initial(), schedule, n).buffer)
            == products(delivery_run(delivery_initial(), schedule, n).produced),
{
    lemma_delivery_initial_inv();
    lemma_delivery_run_inv(delivery_initial(), schedule, n);
    let t = delivery_run(delivery_initial(), schedule, n);
    let whole = t.consumed + numbers(t.buffer);
    assert(whole.len() == t.produced);
    assert forall|x: int| 0 <= x < t.consumed.len() implies t.consumed[x] == products(t.consumed.len())[x] by {
        assert(whole[x] == t.consumed[x]);
        assert(whole[x] == products(t.produced)[x]);
    }
    assert(t.consumed =~= products(t.consumed.len()));
}

/// Both threads are done, every product was delivered once and in order, and
/// the buffer is empty.
pub open spec fn finished(s: DeliveryModel) -> bool {
    &&& s.done(0)
    &&& s.done(1)
    &&& s.consumed == products(TASK_DEKKER_SIZE as nat)
    &&& s.buffer.len() == 0
}

/// From step `n` of the schedule on, the run from the start stays finished.
pub open spec fn finished_from(schedule: spec_fn(nat) -> int, n: nat) -> bool {
    forall|m: nat| m >= n ==> finished(#[trigger] delivery_run(delivery_initial(), schedule, m))
}

/// Both threads finish: under any fair schedule there is a point from which on
/// the producer and the consumer are both done, every product having been
/// delivered once and in order, and the buffer is empty.
pub proof fn lemma_delivery_completes(schedule: spec_fn(nat) -> int)
    requires
        fair(schedule),
    ensures
        exists|n: nat| #[trigger] finished_from(schedule, n),
{
    let s = delivery_initial();
    lemma_delivery_initial_inv();
    lemma_all_moves_made(s, schedule, 0);
    let p = choose|n: nat| n >= 0 && #[trigger] delivery_run(s, schedule, n).remaining() == 0;
    assert(steps_again(schedule, p, 0));
    let q0 = choose|m: nat| m >= p && #[trigger] schedule(m) == 0;
    lemma_done_after_step(s, schedule, 0, p, q0);
    assert(steps_again(schedule, q0 + 1, 1));
    let q1 = choose|m: nat| m >= q0 + 1 && #[trigger] schedule(m) == 1;
    lemma_done_after_step(s, schedule, 1, p, q1);
    let n = q1 + 1;
    assert forall|m: nat| m >= n implies finished(#[trigger] delivery_run(s, schedule, m)) by {
        lemma_done_stays(s, schedule, 0, q0 + 1, m);
        lemma_done_stays(s, schedule, 1, n, m);
        lemma_delivery_run_inv(s, schedule, m);
        let t = delivery_run(s, schedule, m);
        assert(t.consumed.len() + t.buffer.len() == t.produced) by {
            assert((t.consumed + numbers(t.buffer)).len() == products(t.produced).len());
        }
        assert(t.consumed =~= products(TASK_DEKKER_SIZE as nat)) by {
            assert(numbers(t.buffer) =~= Seq::<usize>::empty());
            assert(t.consumed + numbers(t.buffer) =~= t.consumed);
        }
    }
    assert(finished_from(schedule, n));
}

} // verus!

//! The decisions of the producer and the consumer that share a ring of cells
//! (a `LimitedVec` of products) under a Dekker lock.
//!
//! A product is a pair (number, cell): its number and the index of the cell it
//! was placed in, which is how many products were waiting when it arrived.
//! The threads themselves (taking the lock, sleeping while the buffer is full or
//! empty, logging) call these functions while holding the lock.
use vstd::prelude::*;
use crate::limited_vec::LimitedVec;

verus! {

/// How many products the shared buffer holds at most.
pub const BUFFER_DEKKER_SIZE: usize = 6;

/// How many products the producer makes and the consumer takes.
pub const TASK_DEKKER_SIZE: usize = 100;

/// The buffer and the answer after the producer's move with product `number`
/// on buffer `buf`: a full buffer stays as it is (`None`); otherwise the
/// product goes into the next cell, whose index is answered.
pub open spec fn place_effect(buf: Seq<(usize, usize)>, number: usize) -> (Seq<(usize, usize)>, Option<usize>) {
    if buf.len() == BUFFER_DEKKER_SIZE {
        (buf, None)
    } else {
        (buf.push((number, buf.len() as usize)), Some(buf.len() as usize))
    }
}

/// The buffer and the answer after the consumer's move on buffer `buf`: an
/// empty buffer stays as it is (`None`); otherwise the oldest product is taken
/// out and answered with how many are left.
pub open spec fn take_effect(buf: Seq<(usize, usize)>) -> (Seq<(usize, usize)>, Option<((usize, usize), usize)>) {
    if buf.len() == 0 {
        (buf, None)
    } else {
        (buf.remove(0), Some((buf[0], (buf.len() - 1) as usize)))
    }
}

/// The producer's move while holding the lock: when the buffer holds
/// `BUFFER_DEKKER_SIZE` products it must wait (`None`, buffer unchanged);
/// otherwise product `number` goes into the next cell, whose index is
/// answered.
pub fn place_product(buffer: &mut LimitedVec<(usize, usize)>, number: usize) -> (r: Option<usize>)
    requires
        old(buffer)@.len() != BUFFER_DEKKER_SIZE ==> old(buffer)@.len() < old(buffer).limit(),
    ensures
        final(buffer).limit() == old(buffer).limit(),
        (final(buffer)@, r) == place_effect(old(buffer)@, number),
        old(buffer)@.len() == BUFFER_DEKKER_SIZE ==> r is None && final(buffer)@ == old(buffer)@,
        old(buffer)@.len() != BUFFER_DEKKER_SIZE ==> {
            &&& r == Some(old(buffer)@.len() as usize)
            &&& final(buffer)@ == old(buffer)@.push((number, old(buffer)@.len() as usize))
        },
{
    if buffer.len() == BUFFER_DEKKER_SIZE {
        return None;
    }
    let length = buffer.len();
    let pushed = buffer.push((number, length));
    assert(pushed is Ok);
    Some(length)
}

/// The consumer's move while holding the lock: when the buffer is empty it
/// must wait (`None`, buffer unchanged); otherwise the oldest product is taken
/// out and answered together with how many products are left.
pub fn take_product(buffer: &mut LimitedVec<(usize, usize)>) -> (r: Option<((usize, usize), usize)>)
    ensures
        final(buffer).limit() == old(buffer).limit(),
        (final(buffer)@, r) == take_effect(old(buffer)@),
        old(buffer)@.len() == 0 ==> r is None && final(buffer)@ == old(buffer)@,
        old(buffer)@.len() > 0 ==> {
            &&& r == Some((old(buffer)@[0], (old(buffer)@.len() - 1) as usize))
            &&& final(buffer)@ == old(buffer)@.remove(0)
        },
{
    if buffer.is_empty() {
        return None;
    }
    let taken = buffer.remove(0);
    let length = buffer.len();
    match taken {
        Ok(product) => Some((product, length)),
        Err(_) => None,
    }
}

} // verus!

//! The pieces of the task model that endpoints share: the outcome of a poll
//! and the wakers that park and resume a task.

use vstd::prelude::*;

verus! {

/// `std::task::Waker`: the handle that resumes a parked task.
#[verifier::external_type_specification]
#[verifier::external_body]
pub struct ExWaker(std::task::Waker);

/// `futures::task::AtomicWaker`: a cell that holds at most one waker.
#[verifier::external_type_specification]
#[verifier::external_body]
pub struct ExAtomicWaker(futures::task::AtomicWaker);

/// Whether the cell holds a waker.
pub uninterp spec fn waker_armed(cell: futures::task::AtomicWaker) -> bool;

/// The outcome of polling an endpoint once.
#[derive(Debug, PartialEq, Eq)]
pub enum Poll<T> {
    /// The operation finished with this value.
    Ready(T),
    /// The operation cannot finish yet.
    Pending,
}

impl<T: Clone> Clone for Poll<T> {
    fn clone(&self) -> (copy: Self)
        ensures
            match (*self, copy) {
                (Poll::Pending, Poll::Pending) => true,
                (Poll::Ready(value), Poll::Ready(copied)) => vstd::pervasive::cloned(
                    value,
                    copied,
                ),
                _ => false,
            },
    {
        match self {
            Poll::Ready(value) => Poll::Ready(value.clone()),
            Poll::Pending => Poll::Pending,
        }
    }
}

impl<T: Copy> Copy for Poll<T> {

}

/// `Waker::clone`: a second handle to the same task. Nothing is claimed of it.
#[verifier::external_body]
pub(crate) fn waker_clone(waker: &std::task::Waker) -> (copy: std::task::Waker) {
    waker.clone()
}

/// `Waker::wake`: resumes the task. Nothing is claimed of it.
#[verifier::external_body]
pub(crate) fn waker_wake(waker: std::task::Waker) {
    waker.wake()
}

/// `AtomicWaker::new`: the cell starts out empty.
#[verifier::external_body]
pub(crate) fn cell_new() -> (cell: futures::task::AtomicWaker)
    ensures
        !waker_armed(cell),
{
    futures::task::AtomicWaker::new()
}

/// `AtomicWaker::register`: called with no other access to the cell, it
/// leaves a waker in it.
#[verifier::external_body]
pub(crate) fn cell_register(cell: &mut futures::task::AtomicWaker, waker: &std::task::Waker)
    ensures
        waker_armed(*final(cell)),
{
    cell.register(waker)
}

/// `AtomicWaker::wake`: takes the waker out, if there is one, and wakes it;
/// the cell is empty afterwards.
#[verifier::external_body]
pub(crate) fn cell_wake(cell: &mut futures::task::AtomicWaker)
    ensures
        !waker_armed(*final(cell)),
{
    cell.wake()
}

} // verus!

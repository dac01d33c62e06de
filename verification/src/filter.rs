//! What the stages of a run have in common.

use std::sync::mpsc::{Receiver, Sender};
use vstd::prelude::*;

verus! {

/// The receiving end of a queue of std.  What it will hand out is not
/// known before it does.
#[verifier::external_type_specification]
#[verifier::external_body]
#[verifier::reject_recursive_types(T)]
pub struct ExReceiver<T>(Receiver<T>);

/// The sending end of a queue of std.
#[verifier::external_type_specification]
#[verifier::external_body]
#[verifier::reject_recursive_types(T)]
pub struct ExSender<T>(Sender<T>);

/// Options handed unchanged to every stage of a run.
#[derive(Clone, Copy, Debug)]
pub struct RunOptions {
    /// Give up at the first line that cannot be decoded, instead of warning
    /// and going on with the next.
    pub strict_mode: bool,
}

/// A stage of a run: it takes items of type `From` off one queue, works on
/// them in the background, and puts items of type `To` on the next.
pub trait Filter<From, To>: Sized {
    /// Starts the stage on the queue `previous`.
    fn with_receiver(previous: Receiver<From>, options: RunOptions) -> Self;

    /// Hands out the receiving end of the queue that the stage fills.  It
    /// can be had once.
    fn get_receiver(&mut self) -> Receiver<To>;

    /// The work of the stage: runs until `reader` is exhausted or nobody
    /// listens to `tx` any more.
    fn worker(reader: Receiver<From>, tx: Sender<To>, options: RunOptions);
}

} // verus!

use vstd::prelude::*;

use std::sync::atomic::{AtomicBool, Ordering};
use std::sync::mpsc::Sender;
use std::sync::Arc;

verus! {

/// `std::sync::mpsc::Sender`, the sending half of a channel; the library only
/// stores it and hands it on.
#[verifier::external_type_specification]
#[verifier::external_body]
#[verifier::reject_recursive_types(Message)]
pub struct ExSender<Message>(std::sync::mpsc::Sender<Message>);

/// Receives text messages on a local UDP port and forwards them to a channel,
/// while its running flag is set.
#[derive(Debug)]
pub struct MsgReceiver {
    is_running: Arc<AtomicBool>,
    port: usize,
    sender: Sender<String>,
}

impl MsgReceiver {
    /// The port the receiver listens on.
    pub closed spec fn spec_port(&self) -> usize {
        self.port
    }

    /// The channel the receiver forwards to.
    pub closed spec fn spec_sender(&self) -> Sender<String> {
        self.sender
    }

    /// The running flag the receiver shares with its thread.
    pub closed spec fn spec_running_flag(&self) -> Arc<AtomicBool> {
        self.is_running
    }

    /// A receiver for `port` that forwards to `sender`; it is not running.
    pub fn new(port: usize, sender: Sender<String>) -> (r: Self)
        ensures
            r.spec_port() == port,
            r.spec_sender() == sender,
    {
        MsgReceiver { is_running: Arc::new(AtomicBool::new(false)), port, sender }
    }

    /// Clears the running flag; a running receiver stops after its current
    /// wait. The flag is an atomic that Verus does not model, so no clause
    /// states its value.
    pub fn stop(&self) {
        self.is_running.store(false, Ordering::SeqCst);
    }

    /// The port the receiver listens on.
    pub fn port(&self) -> (p: usize)
        ensures
            p == self.spec_port(),
    {
        self.port
    }

    /// The channel the receiver forwards to.
    pub fn sender(&self) -> (s: &Sender<String>)
        ensures
            *s == self.spec_sender(),
    {
        &self.sender
    }

    /// The running flag, shared with the thread that receives.
    pub fn running_flag(&self) -> (f: &Arc<AtomicBool>)
        ensures
            *f == self.spec_running_flag(),
    {
        &self.is_running
    }
}

} // verus!

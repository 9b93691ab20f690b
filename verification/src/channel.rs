//! The bounded channels between the control side and the audio side.
//!
//! The channels come from the `flume` crate and cross threads, so their
//! contents cannot be modeled here: another thread may drain or fill them
//! at any moment.  Each wrapper therefore promises nothing about what
//! comes back; the verified code handles every possible answer.

use vstd::prelude::*;

verus! {

use crate::backend::Resource;
use crate::command::Command;

#[verifier::external_type_specification]
#[verifier::external_body]
#[verifier::reject_recursive_types(T)]
pub struct ExSender<T>(flume::Sender<T>);

#[verifier::external_type_specification]
#[verifier::external_body]
#[verifier::reject_recursive_types(T)]
pub struct ExReceiver<T>(flume::Receiver<T>);

/// Relies on `flume::bounded`: a connected channel pair holding at most
/// `cap` queued messages.
#[verifier::external_body]
pub fn command_channel(cap: usize) -> (r: (flume::Sender<Command>, flume::Receiver<Command>)) {
    flume::bounded(cap)
}

/// Relies on `flume::Sender::try_send`: the command is queued unless the
/// channel is full or the receiver is gone; either failure reports `false`.
#[verifier::external_body]
pub fn send_command(s: &flume::Sender<Command>, c: Command) -> (r: bool) {
    match s.try_send(c) {
        Ok(()) => true,
        Err(_) => false,
    }
}

/// Relies on `flume::Receiver::try_recv`: a queued command, if one was
/// waiting.
#[verifier::external_body]
pub fn recv_command(r: &flume::Receiver<Command>) -> (c: Option<Command>) {
    match r.try_recv() {
        Ok(cmd) => Some(cmd),
        Err(_) => None,
    }
}

/// Relies on `flume::bounded`: the channel carrying retired resources
/// back to the control side for destruction off the audio thread.
#[verifier::external_body]
pub fn resource_channel(cap: usize) -> (r: (flume::Sender<Resource>, flume::Receiver<Resource>)) {
    flume::bounded(cap)
}

/// Relies on `flume::Sender::try_send`: the resource is queued unless the
/// channel is full or the receiver is gone; either way it leaves this
/// thread.
#[verifier::external_body]
pub fn send_resource(s: &flume::Sender<Resource>, v: Resource) -> (r: bool) {
    match s.try_send(v) {
        Ok(()) => true,
        Err(_) => false,
    }
}

/// Relies on `flume::Receiver::try_recv`: a retired resource, if one was
/// waiting.
#[verifier::external_body]
pub fn recv_resource(r: &flume::Receiver<Resource>) -> (c: Option<Resource>) {
    match r.try_recv() {
        Ok(v) => Some(v),
        Err(_) => None,
    }
}

} // verus!

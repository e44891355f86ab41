//! The calls that leave this crate, each with the contract that the verified
//! code relies on. Nothing in this file is proved: every contract restates
//! what the called function documents.

use crate::event::input::ReceiveError;
use crossbeam_channel::{Receiver, Sender, TryRecvError};
use vstd::prelude::*;
use vstd::utf8::{decode_utf8, valid_utf8};

verus! {

/// `std::io::Error`, carried through untouched: the library hands back the
/// error of a failed read and never looks inside it.
#[verifier::external_type_specification]
#[verifier::external_body]
pub struct ExIoError(std::io::Error);

/// `crossbeam_channel::Sender`, the sending end of a channel. A channel is
/// shared with whoever holds its other handles, so nothing is said of what
/// it holds.
#[verifier::external_type_specification]
#[verifier::external_body]
#[verifier::reject_recursive_types(T)]
pub struct ExSender<T>(Sender<T>);

/// `crossbeam_channel::Receiver`, the receiving end of a channel.
#[verifier::external_type_specification]
#[verifier::external_body]
#[verifier::reject_recursive_types(T)]
pub struct ExReceiver<T>(Receiver<T>);

/// `crossbeam_channel::unbounded`: a new channel without a limit on what
/// it holds.
#[verifier::external_body]
pub(crate) fn open_channel<T>() -> (ends: (Sender<T>, Receiver<T>)) {
    crossbeam_channel::unbounded()
}

/// `Sender::clone`: one more handle on the same channel.
pub assume_specification<T>[ <Sender<T> as Clone>::clone ](sender: &Sender<T>) -> Sender<T>;

/// `Receiver::clone`: one more handle on the same channel.
pub assume_specification<T>[ <Receiver<T> as Clone>::clone ](receiver: &Receiver<T>) -> Receiver<T>;

/// `Sender::send`: the message is put on the channel, or, where every
/// receiver is gone, handed back as it was given. The call waits while a
/// channel is full; it is made only on channels from `open_channel`, which
/// never are.
#[verifier::external_body]
pub(crate) fn send<T>(sender: &Sender<T>, message: T) -> (sent: Result<(), T>)
    ensures
        sent matches Err(back) ==> back == message,
{
    sender.send(message).map_err(|refused| refused.0)
}

/// `Receiver::try_recv`: one attempt to take a message, without waiting.
/// Whether there is one depends on the other ends of the channel.
#[verifier::external_body]
pub(crate) fn try_receive<T>(receiver: &Receiver<T>) -> (received: Result<T, ReceiveError>) {
    match receiver.try_recv() {
        Ok(message) => Ok(message),
        Err(TryRecvError::Empty) => Err(ReceiveError::Empty),
        Err(TryRecvError::Disconnected) => Err(ReceiveError::Disconnected),
    }
}

/// `String::push`: the text grows by exactly the given character, at its end.
#[verifier::external_body]
pub(crate) fn push_char(text: &mut String, c: char)
    ensures
        final(text)@ == old(text)@.push(c),
{
    text.push(c);
}

/// `String::from_utf8`: bytes that are valid UTF-8 come back as the text they
/// encode; any other byte sequence is refused.
#[verifier::external_body]
pub(crate) fn text_from_utf8(bytes: Vec<u8>) -> (text: Option<String>)
    ensures
        text is Some <==> valid_utf8(bytes@),
        text matches Some(t) ==> t@ == decode_utf8(bytes@),
{
    String::from_utf8(bytes).ok()
}

} // verus!

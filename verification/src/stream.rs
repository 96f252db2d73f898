//! The channel over which background scans and searches hand rows to a list.

use vstd::prelude::*;
use std::sync::mpsc::{Receiver, Sender};
use crate::model::ContentEntry;

verus! {

#[verifier::external_type_specification]
#[verifier::external_body]
#[verifier::reject_recursive_types(T)]
pub struct ExSender<T>(Sender<T>);

#[verifier::external_type_specification]
#[verifier::external_body]
#[verifier::reject_recursive_types(T)]
pub struct ExReceiver<T>(Receiver<T>);

/// An update that a background task sends to a content list.
#[derive(Debug)]
pub enum ContentStreamUpdate {
    /// A new row.
    Entry(ContentEntry),
    /// A row that replaces the row with the same file stem, or is appended.
    Upsert(ContentEntry),
    /// Keep only the rows with these file stems.
    Retain(Vec<String>),
    /// Icon bytes for the row with this stem and path.
    Icon { file_stem: String, path: String, bytes: Vec<u8> },
    /// The row with this stem and path has no icon to load.
    IconUnavailable { file_stem: String, path: String },
}

/// What polling the channel gave.
pub enum StreamPoll {
    Received(ContentStreamUpdate),
    Empty,
    Disconnected,
}

/// `std::sync::mpsc::channel`: a new connected sender and receiver.
#[verifier::external_body]
pub(crate) fn new_channel() -> (Sender<ContentStreamUpdate>, Receiver<ContentStreamUpdate>) {
    std::sync::mpsc::channel()
}

/// `Sender::send`: whether the receiving list still exists. Whether it does depends
/// on the receiver's owner, so nothing is stated about the result.
#[verifier::external_body]
fn send_update(sender: &Sender<ContentStreamUpdate>, update: ContentStreamUpdate) -> bool {
    sender.send(update).is_ok()
}

/// `Receiver::try_recv`, with its outcomes told apart. What arrives depends on the
/// senders, so nothing is stated about the result.
#[verifier::external_body]
pub(crate) fn poll_update(receiver: &Receiver<ContentStreamUpdate>) -> StreamPoll {
    match receiver.try_recv() {
        Ok(update) => StreamPoll::Received(update),
        Err(std::sync::mpsc::TryRecvError::Empty) => StreamPoll::Empty,
        Err(std::sync::mpsc::TryRecvError::Disconnected) => StreamPoll::Disconnected,
    }
}

/// `Sender::clone`: another sender into the same channel.
#[verifier::external_body]
fn clone_sender(sender: &Sender<ContentStreamUpdate>) -> Sender<ContentStreamUpdate> {
    sender.clone()
}

/// The sending end handed to a background task; each method returns whether the
/// list that receives still exists.
pub struct ContentStream {
    sender: Sender<ContentStreamUpdate>,
    /// The updates this handle has handed to the channel, in order.
    handed: Ghost<Seq<ContentStreamUpdate>>,
}

impl Clone for ContentStream {
    /// Another handle on the same channel, that has handed nothing yet.
    fn clone(&self) -> Self {
        ContentStream { sender: clone_sender(&self.sender), handed: Ghost(Seq::empty()) }
    }
}

impl ContentStream {
    /// The channel this stream sends into.
    pub closed spec fn channel(self) -> Sender<ContentStreamUpdate> {
        self.sender
    }

    /// The updates this handle has handed to the channel, in order.
    pub closed spec fn sent(self) -> Seq<ContentStreamUpdate> {
        self.handed@
    }

    /// A stream that sends into the channel of `sender`, having sent nothing.
    pub(crate) fn from_sender(sender: Sender<ContentStreamUpdate>) -> (r: ContentStream)
        ensures
            r.channel() == sender,
            r.sent() == Seq::<ContentStreamUpdate>::empty(),
    {
        ContentStream { sender, handed: Ghost(Seq::empty()) }
    }

    /// Hands `update` to the receiving list; returns whether the list still exists.
    pub fn push(&mut self, update: ContentStreamUpdate) -> (accepted: bool)
        ensures
            final(self).sent() == old(self).sent().push(update),
            final(self).channel() == old(self).channel(),
    {
        proof {
            self.handed = Ghost(self.handed@.push(update));
        }
        send_update(&self.sender, update)
    }

    /// Sends a new row (the update `entry_update` builds).
    pub fn send(&mut self, entry: ContentEntry) -> (accepted: bool)
        ensures
            final(self).sent() == old(self).sent().push(ContentStreamUpdate::Entry(entry)),
            final(self).channel() == old(self).channel(),
    {
        self.push(entry_update(entry))
    }

    /// Sends the icon bytes of a row (the update `icon_update` builds).
    pub fn send_icon(&mut self, file_stem: String, path: String, bytes: Vec<u8>) -> (accepted: bool)
        ensures
            final(self).sent() == old(self).sent().push((ContentStreamUpdate::Icon { file_stem, path, bytes })),
            final(self).channel() == old(self).channel(),
    {
        self.push(icon_update(file_stem, path, bytes))
    }

    /// Reports that a row has no icon (the update `icon_unavailable_update` builds).
    pub fn send_icon_unavailable(&mut self, file_stem: String, path: String) -> (accepted: bool)
        ensures
            final(self).sent() == old(self).sent().push((ContentStreamUpdate::IconUnavailable { file_stem, path })),
            final(self).channel() == old(self).channel(),
    {
        self.push(icon_unavailable_update(file_stem, path))
    }

    /// Sends a row that replaces the row with the same stem (the update `upsert_update` builds).
    pub fn upsert(&mut self, entry: ContentEntry) -> (accepted: bool)
        ensures
            final(self).sent() == old(self).sent().push(ContentStreamUpdate::Upsert(entry)),
            final(self).channel() == old(self).channel(),
    {
        self.push(upsert_update(entry))
    }

    /// Asks the list to keep only the rows with these stems (the update `retain_update` builds).
    pub fn retain(&mut self, file_stems: Vec<String>) -> (accepted: bool)
        ensures
            final(self).sent() == old(self).sent().push(ContentStreamUpdate::Retain(file_stems)),
            final(self).channel() == old(self).channel(),
    {
        self.push(retain_update(file_stems))
    }
}

/// The update carrying a new row.
pub fn entry_update(entry: ContentEntry) -> (u: ContentStreamUpdate)
    ensures
        u == ContentStreamUpdate::Entry(entry),
{
    ContentStreamUpdate::Entry(entry)
}

/// The update carrying a row that replaces the row with its stem.
pub fn upsert_update(entry: ContentEntry) -> (u: ContentStreamUpdate)
    ensures
        u == ContentStreamUpdate::Upsert(entry),
{
    ContentStreamUpdate::Upsert(entry)
}

/// The update asking the list to keep only the rows with these stems.
pub fn retain_update(file_stems: Vec<String>) -> (u: ContentStreamUpdate)
    ensures
        u == ContentStreamUpdate::Retain(file_stems),
{
    ContentStreamUpdate::Retain(file_stems)
}

/// The update carrying the icon bytes of a row.
pub fn icon_update(file_stem: String, path: String, bytes: Vec<u8>) -> (u: ContentStreamUpdate)
    ensures
        u == (ContentStreamUpdate::Icon { file_stem, path, bytes }),
{
    ContentStreamUpdate::Icon { file_stem, path, bytes }
}

/// The update reporting that a row has no icon.
pub fn icon_unavailable_update(file_stem: String, path: String) -> (u: ContentStreamUpdate)
    ensures
        u == (ContentStreamUpdate::IconUnavailable { file_stem, path }),
{
    ContentStreamUpdate::IconUnavailable { file_stem, path }
}


} // verus!

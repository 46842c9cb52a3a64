//! What the updater needs to know of a chat message.
use crate::icon_updater::state::Timestamp;
use vstd::prelude::*;

verus! {

/// The size that the chat service reports for an attachment; both are
/// present exactly for the attachments that are images.
#[derive(Clone, Copy, Debug, PartialEq, Eq, Structural)]
pub struct Attachment {
    pub width: Option<u32>,
    pub height: Option<u32>,
}

impl Attachment {
    /// Whether the attachment is an image.
    pub open spec fn is_image(self) -> bool {
        self.width is Some && self.height is Some
    }

    /// Whether the attachment is an image.
    pub fn image(&self) -> (b: bool)
        ensures
            b == self.is_image(),
    {
        self.width.is_some() && self.height.is_some()
    }
}

/// The positions in `attachments` that hold an image, in order.
pub open spec fn image_positions(attachments: Seq<Attachment>) -> Seq<usize>
    decreases attachments.len(),
{
    if attachments.len() == 0 {
        Seq::empty()
    } else {
        let rest = image_positions(attachments.drop_last());
        if attachments.last().is_image() {
            rest.push((attachments.len() - 1) as usize)
        } else {
            rest
        }
    }
}

/// The positions of the images among a message's attachments, in order.
pub fn images(attachments: &Vec<Attachment>) -> (found: Vec<usize>)
    ensures
        found@ == image_positions(attachments@),
{
    let mut found: Vec<usize> = Vec::new();
    let mut i: usize = 0;
    while i < attachments.len()
        invariant
            i <= attachments@.len(),
            found@ == image_positions(attachments@.take(i as int)),
        decreases attachments@.len() - i,
    {
        proof {
            let next = attachments@.take(i as int + 1);
            assert(next.drop_last() == attachments@.take(i as int));
            assert(next.last() == attachments@[i as int]);
        }
        if attachments[i].image() {
            found.push(i);
        }
        i = i + 1;
    }
    assert(attachments@.take(attachments@.len() as int) == attachments@);
    found
}

/// What came of looking a message up in its channel.
#[derive(Clone, Copy, Debug, PartialEq, Eq, Structural)]
pub enum Lookup {
    /// The message exists.
    Found {
        /// Who wrote it.
        author: u64,
        /// When it was sent.
        sent_at: Timestamp,
        /// Whether it still carries an image.
        has_image: bool,
    },
    /// The service answered that there is no such message.
    NotFound,
    /// The service could not be asked, or answered with another error.
    Failed,
}

/// What a lookup answers for each message.
pub type World = spec_fn(u64) -> Lookup;

/// Whether `world` tells what `lookup` answers: whatever the function
/// returns for a message is what `world` holds for it.
pub open spec fn answers_as<F: Fn(u64) -> Lookup>(lookup: F, world: World) -> bool {
    forall|message: u64, outcome: Lookup| #[trigger]
        call_ensures(lookup, (message,), outcome) ==> outcome == world(message)
}

} // verus!

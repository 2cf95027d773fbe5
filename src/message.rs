use vstd::prelude::*;

verus! {

/// An addressed message: sender, recipient and body.
#[derive(Clone, Debug)]
pub struct Message<Payload> {
    pub src: String,
    pub dest: String,
    pub body: Body<Payload>,
}

/// The correlation identifiers of a message and what it carries.
#[derive(Clone, Debug)]
pub struct Body<Payload> {
    pub msg_id: Option<usize>,
    pub in_reply_to: Option<usize>,
    pub payload: Payload,
}

/// The identifier that a reply to a request with identifier `id` carries:
/// the next integer, where it fits in a `usize`.
pub open spec fn next_msg_id(id: Option<usize>) -> Option<usize> {
    match id {
        Some(k) => if k < usize::MAX {
            Some((k + 1) as usize)
        } else {
            None
        },
        None => None,
    }
}

/// `r` answers `req`: the addresses are swapped and `in_reply_to` echoes the
/// request's identifier.
pub open spec fn is_reply_to<T, U>(r: Message<T>, req: Message<U>) -> bool {
    &&& r.src@ == req.dest@
    &&& r.dest@ == req.src@
    &&& r.body.in_reply_to == req.body.msg_id
    &&& r.body.msg_id == next_msg_id(req.body.msg_id)
}

impl<T> Message<T> {
    /// A fresh message, which answers no request.
    pub fn new(src: String, dest: String, payload: T) -> (r: Message<T>)
        ensures
            r.src == src,
            r.dest == dest,
            r.body.msg_id is None,
            r.body.in_reply_to is None,
            r.body.payload == payload,
    {
        Message { src, dest, body: Body { msg_id: None, in_reply_to: None, payload } }
    }

    /// The reply to this message that carries `payload`.
    pub fn reply<P>(&self, payload: P) -> (r: Message<P>)
        ensures
            is_reply_to(r, *self),
            r.body.payload == payload,
    {
        let msg_id = match self.body.msg_id {
            Some(id) => id.checked_add(1),
            None => None,
        };
        Message {
            src: self.dest.clone(),
            dest: self.src.clone(),
            body: Body { msg_id, in_reply_to: self.body.msg_id, payload },
        }
    }

    pub fn get_payload(&self) -> (r: &T)
        ensures
            *r == self.body.payload,
    {
        &self.body.payload
    }

    pub fn in_reply_to(&self) -> (r: Option<usize>)
        ensures
            r == self.body.in_reply_to,
    {
        self.body.in_reply_to
    }
}

} // verus!

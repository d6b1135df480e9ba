//! Identifiers of tasks.

use crate::id;
use vstd::prelude::*;

verus! {

/// Task identifier: a UUID, held by its 128 bits.
#[derive(Debug, Clone, Copy, PartialEq, Eq, Structural)]
pub struct TaskId {
    id: u128,
}

impl View for TaskId {
    type V = u128;

    closed spec fn view(&self) -> u128 {
        self.id
    }
}

impl TaskId {
    /// A random identifier.
    pub fn new() -> (r: TaskId)
        ensures
            id::is_random_uuid(r@),
    {
        TaskId { id: id::random_id() }
    }

    /// The identifier of the UUID with these 128 bits.
    pub fn from(uuid: u128) -> (r: TaskId)
        ensures
            r@ == uuid,
    {
        TaskId { id: uuid }
    }

    /// Reads an identifier from the text of a UUID.
    pub fn parse_str(uuid: &str) -> (r: Result<TaskId, ()>)
        ensures
            match r {
                Ok(t) => id::uuid_parse(uuid@) == Some(t@),
                Err(_) => id::uuid_parse(uuid@) is None,
            },
            forall|x: u128| uuid@ == id::hyphenated(x) ==> r == Ok::<TaskId, ()>(TaskId::from_spec(x)),
    {
        match id::parse_id(uuid) {
            Some(v) => Ok(TaskId { id: v }),
            None => Err(()),
        }
    }

    pub closed spec fn from_spec(uuid: u128) -> TaskId {
        TaskId { id: uuid }
    }

    /// The identifier of the UUID whose 16 bytes, the most significant first, are `bytes`.
    pub fn from_slice(bytes: &[u8]) -> (r: Result<TaskId, ()>)
        ensures
            r is Ok <==> bytes@.len() == 16,
            r matches Ok(t) ==> t@ == id::big_endian(bytes@),
    {
        match id::id_from_slice(bytes) {
            Some(v) => Ok(TaskId { id: v }),
            None => Err(()),
        }
    }

    /// The hyphenated lowercase text of the identifier.
    pub fn to_text(&self) -> (r: String)
        ensures
            r@ == id::hyphenated(self@),
    {
        id::format_id(self.id)
    }

    /// Writes the hyphenated lowercase text of the identifier into the first 36 bytes of
    /// `buffer`, which must hold at least 36, and returns that text.
    pub fn encode_lower<'buf>(&self, buffer: &'buf mut [u8]) -> (r: &'buf str)
        requires
            old(buffer)@.len() >= 36,
        ensures
            r@ == id::hyphenated(self@),
            final(buffer)@.len() == old(buffer)@.len(),
            forall|i: int| 0 <= i < 36 ==> final(buffer)@[i] == id::hyphenated(self@)[i] as u8,
            forall|i: int| 36 <= i < old(buffer)@.len() ==> final(buffer)@[i] == old(buffer)@[i],
    {
        id::encode_id(self.id, buffer)
    }

    /// A buffer large enough for `encode_lower`: 45 zero bytes.
    pub fn encode_buffer() -> (r: [u8; 45])
        ensures
            r@ == Seq::new(45, |i: int| 0u8),
    {
        let r = [0u8; 45];
        assert(r@ =~= Seq::new(45, |i: int| 0u8));
        r
    }

    /// The nil identifier.
    pub fn nil() -> (r: TaskId)
        ensures
            r@ == 0,
    {
        TaskId { id: 0 }
    }
}

impl Default for TaskId {
    fn default() -> (r: TaskId)
        ensures
            r@ == 0,
    {
        TaskId { id: 0 }
    }
}

} // verus!

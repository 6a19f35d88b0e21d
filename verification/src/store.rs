//! The persistent key/value store and its command pipeline.
//!
//! All mutation requests travel through a bounded FIFO command queue and
//! are serviced one at a time by a single consumer; each result is
//! delivered through a single-slot mailbox.  During any physical
//! erase/write/commit/format the sibling execution context is quiesced;
//! a read-only existence probe needs no quiescing.  On mount, a store
//! that fails its integrity check is formatted once before anything else
//! proceeds.

use vstd::prelude::*;
use crate::directory::Directory;

verus! {

/// One command against the store.
#[derive(Debug)]
pub enum FlashOperation {
    /// Durable upsert of a record
    Store(String, Vec<u8>),
    /// Remove the record for a key; removing an absent key succeeds
    Delete(String),
    /// Read-only probe: does the key have a record?
    Exists(String),
    /// Destructively erase and reinitialize the whole store
    Format,
}

/// How a command failed.
#[derive(Debug, Clone, Copy, PartialEq, Eq, Structural)]
pub enum FlashError {
    /// The write of a store or delete transaction failed
    WriteErr,
    /// The commit of a store or delete transaction failed
    CommitErr,
    /// A format failed
    FormatErr,
    /// The read behind an existence probe failed
    ReadErr,
}

/// What a successful command resolves to.
#[derive(Debug, Clone, Copy, PartialEq, Eq, Structural)]
pub enum FlashReply {
    /// The mutation took effect
    Done,
    /// The probe's answer
    Exists(bool),
}

/// Whether servicing an operation must quiesce the sibling execution
/// context: every physical mutation does, a read-only probe does not.
pub open spec fn spec_requires_quiesce(op: &FlashOperation) -> bool {
    !(op is Exists)
}

/// Whether servicing an operation must quiesce the sibling context.
pub fn requires_quiesce(op: &FlashOperation) -> (r: bool)
    ensures
        r == spec_requires_quiesce(op),
{
    match op {
        FlashOperation::Exists(_) => false,
        _ => true,
    }
}

/// The store's logical state: at most one record per key, writes are full
/// replacements.
#[derive(Debug)]
pub struct PersistentStore {
    records: Directory<Vec<u8>>,
}

impl PersistentStore {
    /// The records, as a map from keys to values.
    pub closed spec fn contents(&self) -> Map<Seq<char>, Vec<u8>> {
        self.records@
    }

    pub closed spec fn wf(&self) -> bool {
        self.records.wf()
    }

    /// A freshly formatted store holds nothing.
    pub fn new() -> (s: Self)
        ensures
            s.wf(),
            s.contents() == Map::<Seq<char>, Vec<u8>>::empty(),
    {
        PersistentStore { records: Directory::new() }
    }

    /// A read outside the command pipeline, as the sprite cache performs
    /// it while warming.
    pub fn lookup<'a>(&'a self, key: &String) -> (r: Option<&'a Vec<u8>>)
        requires
            self.wf(),
        ensures
            match r {
                Some(v) => self.contents().contains_key(key@) && *v == self.contents()[key@],
                None => !self.contents().contains_key(key@),
            },
    {
        self.records.get(key)
    }

    /// Services one command, with the outcome of the physical phases given
    /// by `io_ok` (the write, read or format itself) and `commit_ok` (the
    /// commit of a mutation).  Returns the caller's result and whether the
    /// sibling context was quiesced for the duration.
    pub fn service_operation(&mut self, op: FlashOperation, io_ok: bool, commit_ok: bool) -> (r: (
        Result<FlashReply, FlashError>,
        bool,
    ))
        requires
            old(self).wf(),
        ensures
            final(self).wf(),
            r.1 == spec_requires_quiesce(&op),
            match op {
                FlashOperation::Store(k, v) => {
                    if io_ok && commit_ok {
                        final(self).contents() == old(self).contents().insert(k@, v) && r.0 == Ok::<
                            FlashReply,
                            FlashError,
                        >(FlashReply::Done)
                    } else {
                        final(self).contents() == old(self).contents() && r.0 == Err::<
                            FlashReply,
                            FlashError,
                        >(
                            if !io_ok {
                                FlashError::WriteErr
                            } else {
                                FlashError::CommitErr
                            },
                        )
                    }
                },
                FlashOperation::Delete(k) => {
                    if io_ok && commit_ok {
                        final(self).contents() == old(self).contents().remove(k@) && r.0 == Ok::<
                            FlashReply,
                            FlashError,
                        >(FlashReply::Done)
                    } else {
                        final(self).contents() == old(self).contents() && r.0 == Err::<
                            FlashReply,
                            FlashError,
                        >(
                            if !io_ok {
                                FlashError::WriteErr
                            } else {
                                FlashError::CommitErr
                            },
                        )
                    }
                },
                FlashOperation::Exists(k) => {
                    final(self).contents() == old(self).contents() && r.0 == (
                    if io_ok {
                        Ok::<FlashReply, FlashError>(
                            FlashReply::Exists(old(self).contents().contains_key(k@)),
                        )
                    } else {
                        Err::<FlashReply, FlashError>(FlashError::ReadErr)
                    })
                },
                FlashOperation::Format => {
                    if io_ok {
                        final(self).contents() == Map::<Seq<char>, Vec<u8>>::empty() && r.0 == Ok::<
                            FlashReply,
                            FlashError,
                        >(FlashReply::Done)
                    } else {
                        final(self).contents() == old(self).contents() && r.0 == Err::<
                            FlashReply,
                            FlashError,
                        >(FlashError::FormatErr)
                    }
                },
            },
    {
        match op {
            FlashOperation::Store(key, value) => {
                if !io_ok {
                    (Err(FlashError::WriteErr), true)
                } else if !commit_ok {
                    (Err(FlashError::CommitErr), true)
                } else {
                    self.records.insert(key, value);
                    (Ok(FlashReply::Done), true)
                }
            },
            FlashOperation::Delete(key) => {
                if !io_ok {
                    (Err(FlashError::WriteErr), true)
                } else if !commit_ok {
                    (Err(FlashError::CommitErr), true)
                } else {
                    self.records.remove(&key);
                    (Ok(FlashReply::Done), true)
                }
            },
            FlashOperation::Exists(key) => {
                if !io_ok {
                    (Err(FlashError::ReadErr), false)
                } else {
                    let present = self.records.contains(&key);
                    (Ok(FlashReply::Exists(present)), false)
                }
            },
            FlashOperation::Format => {
                if !io_ok {
                    (Err(FlashError::FormatErr), true)
                } else {
                    self.records = Directory::new();
                    (Ok(FlashReply::Done), true)
                }
            },
        }
    }

    /// Mount-time recovery: a store whose integrity check fails is
    /// formatted once, quiescing the sibling context; if even the format
    /// fails, the failure is fatal and needs outside intervention.
    pub fn mount_recovery(&mut self, mount_ok: bool, format_ok: bool) -> (r: (bool, bool))
        requires
            old(self).wf(),
        ensures
            final(self).wf(),
            mount_ok ==> final(self).contents() == old(self).contents() && r == (false, false),
            !mount_ok && format_ok ==> final(self).contents() == Map::<
                Seq<char>,
                Vec<u8>,
            >::empty() && r == (false, true),
            !mount_ok && !format_ok ==> final(self).contents() == old(self).contents() && r == (
                true,
                true,
            ),
    {
        if mount_ok {
            (false, false)
        } else if format_ok {
            self.records = Directory::new();
            (false, true)
        } else {
            (true, true)
        }
    }
}

/// How many commands the queue holds at most.
pub const FLASH_QUEUE_CAPACITY: usize = 3;

/// The bounded FIFO pipeline carrying commands to the store's single
/// consumer: sending appends (unless full), receiving takes the oldest.
#[derive(Debug)]
pub struct CommandQueue {
    items: Vec<FlashOperation>,
}

impl CommandQueue {
    /// The queued commands, oldest first.
    pub closed spec fn view(&self) -> Seq<FlashOperation> {
        self.items@
    }

    pub open spec fn wf(&self) -> bool {
        self@.len() <= FLASH_QUEUE_CAPACITY
    }

    pub fn new() -> (q: Self)
        ensures
            q@ == Seq::<FlashOperation>::empty(),
            q.wf(),
    {
        CommandQueue { items: Vec::new() }
    }

    pub fn len(&self) -> (n: usize)
        ensures
            n == self@.len(),
    {
        self.items.len()
    }

    /// Appends a command unless the queue is full; reports acceptance.
    pub fn try_send(&mut self, op: FlashOperation) -> (accepted: bool)
        requires
            old(self).wf(),
        ensures
            final(self).wf(),
            old(self)@.len() < FLASH_QUEUE_CAPACITY ==> accepted && final(self)@ == old(
                self,
            )@.push(op),
            old(self)@.len() >= FLASH_QUEUE_CAPACITY ==> !accepted && final(self)@ == old(self)@,
    {
        if self.items.len() < FLASH_QUEUE_CAPACITY {
            self.items.push(op);
            true
        } else {
            false
        }
    }

    /// Takes the oldest command, if any: strict submission order, no
    /// reordering or batching.
    pub fn receive(&mut self) -> (r: Option<FlashOperation>)
        requires
            old(self).wf(),
        ensures
            final(self).wf(),
            old(self)@.len() == 0 ==> r is None && final(self)@ == old(self)@,
            old(self)@.len() > 0 ==> (r matches Some(op) && op == old(self)@[0] && final(self)@
                == old(self)@.drop_first()),
    {
        if self.items.len() == 0 {
            None
        } else {
            let op = self.items.remove(0);
            proof {
                assert(self@ =~= old(self)@.drop_first());
            }
            Some(op)
        }
    }
}

/// The store round trip: after a store of a key it exists; after a delete
/// it does not; a never-written key does not exist in an empty store.
pub proof fn lemma_store_exists_roundtrip(m: Map<Seq<char>, Vec<u8>>, k: Seq<char>, v: Vec<u8>)
    ensures
        m.insert(k, v).contains_key(k),
        !m.remove(k).contains_key(k),
        !Map::<Seq<char>, Vec<u8>>::empty().contains_key(k),
{
}

} // verus!

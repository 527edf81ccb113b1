//! The registration of robust lists with the kernel.
//!
//! A thread registers the head of its list once. The registry keeps what each
//! thread has registered, refuses a second registration, tells apart what the
//! registration and query calls of the platform reported, and answers queries
//! from its own record.

use vstd::prelude::*;
use crate::futex::PRIMITIVE_FAILED;
use crate::word::ThreadId;

verus! {

/// The size in bytes of a list head as the kernel expects it: the link to the
/// first entry, the offset of the lock words and the pending slot, of eight
/// bytes each.
pub const ROBUST_LIST_HEAD_SIZE: usize = 24;

/// A registration failed.
#[derive(Clone, Copy, Debug, PartialEq, Eq, Structural)]
pub enum RegistrationError {
    /// The thread has registered a list before.
    AlreadyRegistered,
    /// The platform refused, with this error number.
    Platform { code: i32 },
}

/// A query failed.
#[derive(Clone, Copy, Debug, PartialEq, Eq, Structural)]
pub enum QueryError {
    /// No list is registered for the thread that was asked about.
    NotRegistered,
    /// The platform refused, with this error number.
    Platform { code: i32 },
}

/// The list head of one thread, as it was registered.
#[derive(Clone, Copy, Debug, PartialEq, Eq, Structural)]
pub struct Registration {
    /// The thread that registered.
    pub thread: u32,
    /// The address of the list head.
    pub address: u64,
    /// The size of the list head in bytes.
    pub size: usize,
}

/// What a return value and error number of the registration call mean.
pub open spec fn registration_result_of(status: i64, errno: i32) -> Result<(), RegistrationError> {
    if status == PRIMITIVE_FAILED {
        Err(RegistrationError::Platform { code: errno })
    } else {
        Ok(())
    }
}

/// What the answer of the platform's query call means: an error, no list
/// where the head's address is null, or the address and size of the head.
pub open spec fn query_result_of(status: i64, errno: i32, address: u64, size: usize) -> Result<
    (u64, usize),
    QueryError,
> {
    if status == PRIMITIVE_FAILED {
        Err(QueryError::Platform { code: errno })
    } else if address == 0 {
        Err(QueryError::NotRegistered)
    } else {
        Ok((address, size))
    }
}

/// The thread that a query for `pid` by `caller` is about: the caller itself
/// for 0, no thread for a negative number.
pub open spec fn query_target(caller: u32, pid: i32) -> Option<u32> {
    if pid == 0 {
        Some(caller)
    } else if pid > 0 {
        Some(pid as u32)
    } else {
        None
    }
}

/// The answer to a query for `pid` by `caller`, given what is registered.
pub open spec fn query_of(registered: Map<u32, (u64, usize)>, caller: u32, pid: i32) -> Result<
    (u64, usize),
    QueryError,
> {
    match query_target(caller, pid) {
        Some(thread) => if registered.contains_key(thread) {
            Ok(registered[thread])
        } else {
            Err(QueryError::NotRegistered)
        },
        None => Err(QueryError::NotRegistered),
    }
}

/// What is registered after the registrations of `records`, in their order.
pub open spec fn registered_by(records: Seq<Registration>) -> Map<u32, (u64, usize)>
    decreases records.len(),
{
    if records.len() == 0 {
        Map::empty()
    } else {
        registered_by(records.drop_last()).insert(
            records.last().thread,
            (records.last().address, records.last().size),
        )
    }
}

/// Tells apart how the registration call of the platform ended.
pub fn registration_result(status: i64, errno: i32) -> (result: Result<(), RegistrationError>)
    ensures
        result == registration_result_of(status, errno),
{
    if status == PRIMITIVE_FAILED {
        Err(RegistrationError::Platform { code: errno })
    } else {
        Ok(())
    }
}

/// Tells apart how the query call of the platform ended. `address` and `size`
/// are what the call wrote.
pub fn query_result(status: i64, errno: i32, address: u64, size: usize) -> (result: Result<
    (u64, usize),
    QueryError,
>)
    ensures
        result == query_result_of(status, errno, address, size),
{
    if status == PRIMITIVE_FAILED {
        Err(QueryError::Platform { code: errno })
    } else if address == 0 {
        Err(QueryError::NotRegistered)
    } else {
        Ok((address, size))
    }
}

/// The registrations of the threads of a process.
pub struct RobustListRegistry {
    records: Vec<Registration>,
}

impl View for RobustListRegistry {
    type V = Map<u32, (u64, usize)>;

    /// The address and size of the list head that each thread has registered.
    closed spec fn view(&self) -> Map<u32, (u64, usize)> {
        registered_by(self.records@)
    }
}

impl RobustListRegistry {
    /// A registry in which no thread has registered.
    pub fn new() -> (registry: RobustListRegistry)
        ensures
            registry@ == Map::<u32, (u64, usize)>::empty(),
    {
        RobustListRegistry { records: Vec::new() }
    }

    /// What `thread` has registered, if anything.
    fn lookup(&self, thread: u32) -> (found: Option<(u64, usize)>)
        ensures
            found is Some <==> self@.contains_key(thread),
            found is Some ==> found.unwrap() == self@[thread],
    {
        let mut found: Option<(u64, usize)> = None;
        let mut done: usize = 0;
        assert(self.records@.take(0) =~= Seq::empty());
        while done < self.records.len()
            invariant
                done <= self.records@.len(),
                found is Some <==> registered_by(self.records@.take(done as int)).contains_key(
                    thread,
                ),
                found is Some ==> found.unwrap() == registered_by(
                    self.records@.take(done as int),
                )[thread],
            decreases self.records@.len() - done,
        {
            let record = self.records[done];
            assert(self.records@.take(done + 1).drop_last() =~= self.records@.take(done as int));
            assert(self.records@.take(done + 1).last() == record);
            if record.thread == thread {
                found = Some((record.address, record.size));
            }
            done = done + 1;
        }
        assert(self.records@.take(done as int) =~= self.records@);
        found
    }

    /// Whether `tid` has registered a list.
    pub fn is_registered(&self, tid: ThreadId) -> (registered: bool)
        ensures
            registered == self@.contains_key(tid@),
    {
        self.lookup(tid.get()).is_some()
    }

    /// Whether `tid` may call the registration of the platform: a thread that
    /// has registered must not call it again.
    pub fn may_register(&self, tid: ThreadId) -> (result: Result<(), RegistrationError>)
        ensures
            result == if self@.contains_key(tid@) {
                Err::<(), RegistrationError>(RegistrationError::AlreadyRegistered)
            } else {
                Ok(())
            },
    {
        if self.lookup(tid.get()).is_some() {
            Err(RegistrationError::AlreadyRegistered)
        } else {
            Ok(())
        }
    }

    /// Records that `tid` registered the list head at `address` of `size`
    /// bytes, where `status` and `errno` are what the registration call of the
    /// platform reported. A thread registers once: a second registration is
    /// refused whatever the platform said. Nothing is recorded on failure.
    pub fn register(
        &mut self,
        tid: ThreadId,
        address: u64,
        size: usize,
        status: i64,
        errno: i32,
    ) -> (result: Result<(), RegistrationError>)
        ensures
            result == if old(self)@.contains_key(tid@) {
                Err(RegistrationError::AlreadyRegistered)
            } else {
                registration_result_of(status, errno)
            },
            final(self)@ == if result is Ok {
                old(self)@.insert(tid@, (address, size))
            } else {
                old(self)@
            },
    {
        if self.lookup(tid.get()).is_some() {
            return Err(RegistrationError::AlreadyRegistered);
        }
        match registration_result(status, errno) {
            Err(error) => Err(error),
            Ok(()) => {
                self.records.push(Registration { thread: tid.get(), address, size });
                assert(self.records@.drop_last() =~= old(self).records@);
                Ok(())
            },
        }
    }

    /// The address and size of the list head that is registered for `pid`,
    /// asked by `caller`. 0 stands for the caller.
    pub fn query(&self, caller: ThreadId, pid: i32) -> (result: Result<(u64, usize), QueryError>)
        ensures
            result == query_of(self@, caller@, pid),
    {
        let thread: u32 = if pid == 0 {
            caller.get()
        } else if pid > 0 {
            pid as u32
        } else {
            return Err(QueryError::NotRegistered);
        };
        match self.lookup(thread) {
            Some(found) => Ok(found),
            None => Err(QueryError::NotRegistered),
        }
    }
}

/// Round trip: once a thread has registered a list head, a query for that
/// thread, by itself under 0 or by any thread under its identifier, returns
/// the address and the size that were registered.
pub proof fn lemma_register_then_query(
    registered: Map<u32, (u64, usize)>,
    thread: u32,
    address: u64,
    size: usize,
    caller: u32,
)
    requires
        crate::word::valid_thread_id(thread as int),
    ensures
        query_of(registered.insert(thread, (address, size)), thread, 0) == Ok::<
            (u64, usize),
            QueryError,
        >((address, size)),
        query_of(registered.insert(thread, (address, size)), caller, thread as i32) == Ok::<
            (u64, usize),
            QueryError,
        >((address, size)),
{
}

} // verus!

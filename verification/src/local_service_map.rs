//! The local service map: routes inbound frames to handler actors that
//! live in this process.
//!
//! Registration stores, per service id, an opaque handle (`u64`) naming
//! the handler's address in the surrounding runtime. Dispatch looks the
//! frame's sid up and names the handler the runtime must deliver to; the
//! payload codec and the mailbox itself live outside the crate, so
//! deserialization failures come back to the peer as dispatch outcomes.

use crate::error::{PeerErr, PeerErrCtx};
use crate::ids::ServiceID;
use crate::service_map::{DispatchTask, ServiceMap};
use crate::thes_wf::{frame_sid, ThesWF};
use vstd::prelude::*;

verus! {

/// One registration: a service id and the handle of its handler.
#[derive(Clone, Copy, PartialEq, Eq, Structural, Debug)]
pub struct LocalEntry {
    pub sid: ServiceID,
    pub handler: u64,
}

/// The handler registered first for `sid`, if any.
pub open spec fn spec_lookup(entries: Seq<LocalEntry>, sid: ServiceID) -> Option<u64>
    decreases entries.len(),
{
    if entries.len() == 0 {
        None
    } else if entries[0].sid == sid {
        Some(entries[0].handler)
    } else {
        spec_lookup(entries.drop_first(), sid)
    }
}

/// The position of the first registration for `sid`, or -1.
pub open spec fn spec_index_of(entries: Seq<LocalEntry>, sid: ServiceID) -> int
    decreases entries.len(),
{
    if entries.len() == 0 {
        -1
    } else if entries[0].sid == sid {
        0
    } else {
        let rest = spec_index_of(entries.drop_first(), sid);
        if rest == -1 {
            -1
        } else {
            rest + 1
        }
    }
}

/// What the first-match index says about the table: a miss means no
/// entry carries the sid; a hit names the entry the lookup returns.
pub proof fn lemma_index_of_properties(entries: Seq<LocalEntry>, sid: ServiceID)
    ensures
        spec_index_of(entries, sid) == -1 ==> spec_lookup(entries, sid) is None && (forall|j: int|
            0 <= j < entries.len() ==> entries[j].sid != sid),
        spec_index_of(entries, sid) != -1 ==> {
            let i = spec_index_of(entries, sid);
            &&& 0 <= i < entries.len()
            &&& entries[i].sid == sid
            &&& forall|j: int| 0 <= j < i ==> entries[j].sid != sid
            &&& spec_lookup(entries, sid) == Some(entries[i].handler)
        },
    decreases entries.len(),
{
    if entries.len() > 0 && entries[0].sid != sid {
        lemma_index_of_properties(entries.drop_first(), sid);
        if spec_index_of(entries, sid) == -1 {
            assert forall|j: int| 0 <= j < entries.len() implies entries[j].sid != sid by {
                if j > 0 {
                    assert(entries.drop_first()[j - 1] == entries[j]);
                }
            }
        } else {
            let i = spec_index_of(entries, sid);
            assert(entries.drop_first()[i - 1] == entries[i]);
            assert forall|j: int| 0 <= j < i implies entries[j].sid != sid by {
                if j > 0 {
                    assert(entries.drop_first()[j - 1] == entries[j]);
                }
            }
        }
    }
}

/// Overwriting the first registration for `sid` makes the lookup return
/// the new handler.
proof fn lemma_lookup_update_first(entries: Seq<LocalEntry>, sid: ServiceID, handler: u64)
    requires
        spec_index_of(entries, sid) != -1,
    ensures
        spec_lookup(
            entries.update(spec_index_of(entries, sid), LocalEntry { sid, handler }),
            sid,
        ) == Some(handler),
    decreases entries.len(),
{
    let i = spec_index_of(entries, sid);
    lemma_index_of_properties(entries, sid);
    let updated = entries.update(i, LocalEntry { sid, handler });
    if entries[0].sid == sid {
        assert(updated[0] == LocalEntry { sid, handler });
    } else {
        assert(updated[0] == entries[0]);
        assert(updated.drop_first() =~= entries.drop_first().update(
            i - 1,
            LocalEntry { sid, handler },
        ));
        lemma_lookup_update_first(entries.drop_first(), sid, handler);
    }
}

/// Appending a registration for a sid the table lacks makes the lookup
/// return the new handler.
proof fn lemma_lookup_push_new(entries: Seq<LocalEntry>, sid: ServiceID, handler: u64)
    requires
        spec_index_of(entries, sid) == -1,
    ensures
        spec_lookup(entries.push(LocalEntry { sid, handler }), sid) == Some(handler),
    decreases entries.len(),
{
    let pushed = entries.push(LocalEntry { sid, handler });
    if entries.len() == 0 {
        assert(pushed[0] == LocalEntry { sid, handler });
    } else {
        assert(entries[0].sid != sid);
        assert(pushed[0] == entries[0]);
        assert(pushed.drop_first() =~= entries.drop_first().push(LocalEntry { sid, handler }));
        assert(spec_index_of(entries.drop_first(), sid) == -1) by {
            lemma_index_of_properties(entries.drop_first(), sid);
        }
        lemma_lookup_push_new(entries.drop_first(), sid, handler);
    }
}

/// No service id occurs twice in a registration table.
pub open spec fn entries_unique(entries: Seq<LocalEntry>) -> bool {
    forall|i: int, j: int| 0 <= i < j < entries.len() ==> entries[i].sid != entries[j].sid
}

/// Handler table keyed by service id.
#[derive(Debug)]
pub struct LocalServiceMap {
    entries: Vec<LocalEntry>,
}

impl LocalServiceMap {
    /// The registrations, in registration order.
    pub closed spec fn entries(&self) -> Seq<LocalEntry> {
        self.entries@
    }

    /// No service id is registered twice.
    pub open spec fn inv(&self) -> bool {
        entries_unique(self.entries())
    }

    /// An empty map.
    pub fn new() -> (r: LocalServiceMap)
        ensures
            r.inv(),
            r.entries() == Seq::<LocalEntry>::empty(),
    {
        LocalServiceMap { entries: Vec::new() }
    }

    /// Register a handler for a service id. Registering the same id
    /// twice overrides the first handler; afterwards the lookup returns
    /// the new one.
    pub fn register_handler(&mut self, sid: ServiceID, handler: u64)
        requires
            old(self).inv(),
        ensures
            final(self).inv(),
            spec_index_of(old(self).entries(), sid) == -1 ==> final(self).entries() == old(
                self,
            ).entries().push(LocalEntry { sid, handler }),
            spec_index_of(old(self).entries(), sid) != -1 ==> final(self).entries() == old(
                self,
            ).entries().update(spec_index_of(old(self).entries(), sid), LocalEntry { sid, handler }),
            spec_lookup(final(self).entries(), sid) == Some(handler),
    {
        proof {
            lemma_index_of_properties(old(self).entries(), sid);
        }
        let ghost entries0 = self.entries@;
        let mut i: usize = 0;
        while i < self.entries.len()
            invariant
                self.entries@ == entries0,
                old(self).entries() == entries0,
                old(self).inv(),
                0 <= i <= entries0.len(),
                forall|j: int| 0 <= j < i ==> entries0[j].sid != sid,
            decreases entries0.len() - i,
        {
            if self.entries[i].sid == sid {
                proof {
                    assert(spec_index_of(entries0, sid) == i) by {
                        lemma_index_of_properties(entries0, sid);
                        if spec_index_of(entries0, sid) == -1 {
                            assert(entries0[i as int].sid != sid);
                        } else {
                            let idx = spec_index_of(entries0, sid);
                            if idx < i {
                                assert(entries0[idx].sid != sid);
                            }
                            if idx > i {
                                assert(entries0[i as int].sid != sid);
                            }
                        }
                    }
                    lemma_lookup_update_first(entries0, sid, handler);
                }
                self.entries[i] = LocalEntry { sid, handler };
                proof {
                    assert(forall|j: int|
                        0 <= j < self.entries@.len() ==> self.entries@[j].sid == entries0[j].sid);
                }
                return ;
            }
            i = i + 1;
        }
        proof {
            assert(spec_index_of(entries0, sid) == -1) by {
                lemma_index_of_properties(entries0, sid);
                if spec_index_of(entries0, sid) != -1 {
                    assert(entries0[spec_index_of(entries0, sid)].sid == sid);
                }
            }
            lemma_lookup_push_new(entries0, sid, handler);
        }
        self.entries.push(LocalEntry { sid, handler });
    }

    /// The handler registered for `sid`, if any.
    pub fn lookup(&self, sid: &ServiceID) -> (r: Option<u64>)
        ensures
            r == spec_lookup(self.entries(), *sid),
    {
        let ghost entries0 = self.entries@;
        let mut i: usize = 0;
        proof {
            assert(entries0.skip(0) =~= entries0);
        }
        while i < self.entries.len()
            invariant
                self.entries@ == entries0,
                0 <= i <= entries0.len(),
                spec_lookup(entries0, *sid) == spec_lookup(entries0.skip(i as int), *sid),
            decreases entries0.len() - i,
        {
            proof {
                assert(entries0.skip(i as int)[0] == entries0[i as int]);
                assert(entries0.skip(i as int).drop_first() =~= entries0.skip(i as int + 1));
            }
            if self.entries[i].sid == *sid {
                return Some(self.entries[i].handler);
            }
            i = i + 1;
        }
        proof {
            assert(entries0.skip(entries0.len() as int) =~= Seq::<LocalEntry>::empty());
        }
        None
    }
}

impl ServiceMap for LocalServiceMap {
    /// No service id is registered twice.
    open spec fn spec_inv(&self) -> bool {
        self.inv()
    }

    /// The registered service ids, in registration order.
    open spec fn spec_services(&self) -> Seq<ServiceID> {
        self.entries().map_values(|e: LocalEntry| e.sid)
    }

    /// A local table routes exactly the sids it has handlers for.
    open spec fn spec_routes(&self, sid: ServiceID) -> bool {
        spec_lookup(self.entries(), sid) is Some
    }

    /// The task: deliver the frame to the registered handler.
    open spec fn spec_task(&self, frame: Seq<u8>, is_call: bool) -> crate::service_map::TaskModel {
        let h = match spec_lookup(self.entries(), frame_sid(frame)) {
            Some(h) => h,
            None => 0,
        };
        if is_call {
            crate::service_map::TaskModel::LocalCall { handler: h, frame }
        } else {
            crate::service_map::TaskModel::LocalSend { handler: h, frame }
        }
    }

    /// Dispatch never changes a local table.
    open spec fn spec_stepped(&self, post: &Self) -> bool {
        post.entries() == self.entries()
    }

    fn services(&self) -> (r: Vec<ServiceID>) {
        let mut out: Vec<ServiceID> = Vec::new();
        let mut i: usize = 0;
        while i < self.entries.len()
            invariant
                0 <= i <= self.entries().len(),
                out@ =~= self.entries().take(i as int).map_values(|e: LocalEntry| e.sid),
            decreases self.entries().len() - i,
        {
            proof {
                assert(self.entries().take(i as int + 1).map_values(|e: LocalEntry| e.sid)
                    =~= self.entries().take(i as int).map_values(|e: LocalEntry| e.sid).push(
                    self.entries()[i as int].sid,
                ));
            }
            out.push(self.entries[i].sid);
            i = i + 1;
        }
        proof {
            assert(self.entries().take(self.entries().len() as int) =~= self.entries());
        }
        out
    }

    /// Route a fire-and-forget frame: name the registered handler, or
    /// fail with `UnknownService` exactly when the sid is not registered.
    fn send_service(&mut self, frame: ThesWF, ctx: PeerErrCtx) -> Result<DispatchTask, PeerErr> {
        self.route(frame, ctx, false)
    }

    /// Route a call frame: name the registered handler, or fail with
    /// `UnknownService` exactly when the sid is not registered.
    fn call_service(&mut self, frame: ThesWF, ctx: PeerErrCtx) -> Result<DispatchTask, PeerErr> {
        self.route(frame, ctx, true)
    }
}

impl LocalServiceMap {
    /// Route one frame to its registered handler; `UnknownService`
    /// exactly when the frame's sid is not registered.
    pub fn route(&self, frame: ThesWF, ctx: PeerErrCtx, is_call: bool) -> (r: Result<
        DispatchTask,
        PeerErr,
    >)
        requires
            frame.wf(),
        ensures
            ({
                let looked = spec_lookup(self.entries(), frame_sid(frame@));
                match looked {
                    Some(h) => {
                        &&& r matches Ok(t)
                        &&& t@ == if is_call {
                            crate::service_map::TaskModel::LocalCall { handler: h, frame: frame@ }
                        } else {
                            crate::service_map::TaskModel::LocalSend { handler: h, frame: frame@ }
                        }
                        &&& t.frame_bytes() == frame@
                    },
                    None => {
                        &&& r matches Err(e)
                        &&& e matches PeerErr::UnknownService { sid, .. }
                        &&& sid == frame_sid(frame@)
                    },
                }
            }),
    {
        let sid = frame.sid();
        match self.lookup(&sid) {
            Some(handler) => {
                if is_call {
                    Ok(DispatchTask::LocalCall { handler, frame })
                } else {
                    Ok(DispatchTask::LocalSend { handler, frame })
                }
            },
            None => Err(PeerErr::UnknownService { ctx, sid }),
        }
    }
}

} // verus!

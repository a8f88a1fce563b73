use vstd::prelude::*;
use crate::types::CallError;
use crate::types::ConnectionStatus;
use crate::types::MCPServerConfig;
use crate::types::MCPServerState;
use crate::types::MCPTool;
use crate::types::MCPToolView;
use crate::types::RecordView;

verus! {

/// One stored connection: its identifier, its record, and whether a live
/// process handle is registered under the identifier.
struct RegEntry {
    id: String,
    state: MCPServerState,
    live: bool,
}

/// The authoritative mapping from connection identifier to record and to
/// handle bookkeeping. All lifecycle transitions go through its methods.
pub struct McpRegistry {
    entries: Vec<RegEntry>,
}

/// Every identifier other than `id` keeps its presence, its record, and its
/// handle bookkeeping.
pub open spec fn same_but(pre: McpRegistry, post: McpRegistry, id: Seq<char>) -> bool {
    forall|o: Seq<char>|
        #![trigger post.has(o)]
        #![trigger pre.has(o)]
        o != id ==> {
            &&& post.has(o) == pre.has(o)
            &&& (pre.has(o) ==> post.record_of(o) == pre.record_of(o))
            &&& (pre.has(o) ==> post.live_of(o) == pre.live_of(o))
        }
}

impl McpRegistry {
    /// Some record is stored under `id`.
    pub closed spec fn has(self, id: Seq<char>) -> bool {
        exists|i: int| 0 <= i < self.entries@.len() && (#[trigger] self.entries@[i].id@) == id
    }

    spec fn idx_of(self, id: Seq<char>) -> int {
        choose|i: int| 0 <= i < self.entries@.len() && (#[trigger] self.entries@[i].id@) == id
    }

    /// The record stored under `id` (meaningful only when `has(id)`).
    pub closed spec fn record_of(self, id: Seq<char>) -> RecordView {
        self.entries@[self.idx_of(id)].state@
    }

    /// Whether a live process handle is registered under `id`.
    pub closed spec fn live_of(self, id: Seq<char>) -> bool {
        self.entries@[self.idx_of(id)].live
    }

    /// All stored records, in the registry's order.
    pub closed spec fn records(self) -> Seq<RecordView> {
        self.entries@.map_values(|e: RegEntry| e.state@)
    }

    spec fn entry_inv(e: RegEntry) -> bool {
        &&& (e.state.status != ConnectionStatus::Connected ==> e.state.tools@.len() == 0)
        &&& (e.live <==> e.state.status == ConnectionStatus::Connected)
    }

    spec fn unique_ids(self) -> bool {
        forall|i: int, j: int|
            #![trigger self.entries@[i].id@, self.entries@[j].id@]
            0 <= i < j < self.entries@.len() ==> self.entries@[i].id@ != self.entries@[j].id@
    }

    /// Well-formed: identifiers are unique; tools are empty except while
    /// connected; and a live handle is registered exactly for records whose
    /// status is `connected`.
    pub closed spec fn wf(self) -> bool {
        &&& self.unique_ids()
        &&& forall|i: int|
            0 <= i < self.entries@.len() ==> Self::entry_inv(#[trigger] self.entries@[i])
    }

    proof fn lemma_at(self, i: int)
        requires
            self.unique_ids(),
            0 <= i < self.entries@.len(),
        ensures
            self.has(self.entries@[i].id@),
            self.idx_of(self.entries@[i].id@) == i,
    {
        assert(self.has(self.entries@[i].id@));
        let j = self.idx_of(self.entries@[i].id@);
        if j != i {
            assert(self.entries@[i].id@ != self.entries@[j].id@);
        }
    }

    proof fn lemma_update_keeps_others(pre: McpRegistry, post: McpRegistry, i: int)
        requires
            pre.unique_ids(),
            0 <= i < pre.entries@.len(),
            post.entries@.len() == pre.entries@.len(),
            post.entries@[i].id@ == pre.entries@[i].id@,
            forall|j: int|
                0 <= j < pre.entries@.len() && j != i ==> post.entries@[j] == pre.entries@[j],
        ensures
            post.unique_ids(),
            same_but(pre, post, pre.entries@[i].id@),
    {
        assert forall|j: int| 0 <= j < post.entries@.len() implies post.entries@[j].id@
            == pre.entries@[j].id@ by {}
        let id = pre.entries@[i].id@;
        assert forall|o: Seq<char>|
            #![trigger post.has(o)]
            #![trigger pre.has(o)]
            o != id implies {
            &&& post.has(o) == pre.has(o)
            &&& (pre.has(o) ==> post.record_of(o) == pre.record_of(o))
            &&& (pre.has(o) ==> post.live_of(o) == pre.live_of(o))
        } by {
            if pre.has(o) {
                let j = choose|j: int|
                    0 <= j < pre.entries@.len() && (#[trigger] pre.entries@[j].id@) == o;
                pre.lemma_at(j);
                assert(j != i);
                assert(post.entries@[j].id@ == o);
                post.lemma_at(j);
                assert(post.record_of(o) == pre.record_of(o));
            } else {
                if post.has(o) {
                    let j = choose|j: int|
                        0 <= j < post.entries@.len() && (#[trigger] post.entries@[j].id@) == o;
                    assert(j != i);
                    assert(pre.entries@[j].id@ == o);
                    assert(pre.has(o));
                }
            }
        }
    }

    proof fn lemma_push_keeps_others(pre: McpRegistry, post: McpRegistry)
        requires
            pre.unique_ids(),
            post.entries@.len() == pre.entries@.len() + 1,
            forall|j: int| 0 <= j < pre.entries@.len() ==> post.entries@[j] == pre.entries@[j],
            !pre.has(post.entries@[pre.entries@.len() as int].id@),
        ensures
            post.unique_ids(),
            post.has(post.entries@[pre.entries@.len() as int].id@),
            post.idx_of(post.entries@[pre.entries@.len() as int].id@) == pre.entries@.len(),
            same_but(pre, post, post.entries@[pre.entries@.len() as int].id@),
    {
        let n = pre.entries@.len() as int;
        let id = post.entries@[n].id@;
        assert forall|i: int, j: int|
            #![trigger post.entries@[i].id@, post.entries@[j].id@]
            0 <= i < j < post.entries@.len() implies post.entries@[i].id@
            != post.entries@[j].id@ by {
            if j < n {
                assert(pre.entries@[i].id@ != pre.entries@[j].id@);
            } else {
                pre.lemma_at(i);
            }
        }
        post.lemma_at(n);
        assert forall|o: Seq<char>|
            #![trigger post.has(o)]
            #![trigger pre.has(o)]
            o != id implies {
            &&& post.has(o) == pre.has(o)
            &&& (pre.has(o) ==> post.record_of(o) == pre.record_of(o))
            &&& (pre.has(o) ==> post.live_of(o) == pre.live_of(o))
        } by {
            if pre.has(o) {
                let j = choose|j: int|
                    0 <= j < pre.entries@.len() && (#[trigger] pre.entries@[j].id@) == o;
                pre.lemma_at(j);
                assert(post.entries@[j].id@ == o);
                post.lemma_at(j);
            } else {
                if post.has(o) {
                    let j = choose|j: int|
                        0 <= j < post.entries@.len() && (#[trigger] post.entries@[j].id@) == o;
                    assert(j != n);
                    assert(pre.entries@[j].id@ == o);
                    assert(pre.has(o));
                }
            }
        }
    }

    /// An empty registry: no identifier has a record.
    pub fn new() -> (r: McpRegistry)
        ensures
            r.wf(),
            forall|id: Seq<char>| !(#[trigger] r.has(id)),
            r.records() == Seq::<RecordView>::empty(),
    {
        let r = McpRegistry { entries: Vec::new() };
        proof {
            assert(r.records() =~= Seq::<RecordView>::empty());
        }
        r
    }

    fn find_index(&self, id: &String) -> (r: Option<usize>)
        requires
            self.wf(),
        ensures
            match r {
                Some(i) => i < self.entries@.len() && self.entries@[i as int].id@ == id@
                    && self.has(id@) && self.idx_of(id@) == i,
                None => !self.has(id@),
            },
    {
        let mut i: usize = 0;
        while i < self.entries.len()
            invariant
                self.wf(),
                i <= self.entries@.len(),
                forall|j: int| 0 <= j < i ==> (#[trigger] self.entries@[j].id@) != id@,
            decreases self.entries@.len() - i,
        {
            if self.entries[i].id == *id {
                proof {
                    self.lemma_at(i as int);
                }
                return Some(i);
            }
            i = i + 1;
        }
        proof {
            if self.has(id@) {
                let j = choose|j: int|
                    0 <= j < self.entries@.len() && (#[trigger] self.entries@[j].id@) == id@;
                assert(self.entries@[j].id@ != id@);
            }
        }
        None
    }

    /// Publishes the provisional record for a connection attempt: status
    /// `connecting`, no tools, no error, no handle. Returns whether a live
    /// handle had been registered under `id`, so that the caller can take the
    /// superseded process down.
    pub fn begin_connect(&mut self, id: String, config: MCPServerConfig) -> (had_live: bool)
        requires
            old(self).wf(),
        ensures
            final(self).wf(),
            final(self).has(id@),
            final(self).record_of(id@).config == config@,
            final(self).record_of(id@).status == ConnectionStatus::Connecting,
            final(self).record_of(id@).tools == Seq::<MCPToolView>::empty(),
            final(self).record_of(id@).error == None::<Seq<char>>,
            !final(self).live_of(id@),
            had_live == (old(self).has(id@) && old(self).live_of(id@)),
            same_but(*old(self), *final(self), id@),
    {
        let ghost pre = *self;
        let state = MCPServerState {
            config,
            status: ConnectionStatus::Connecting,
            tools: Vec::new(),
            error: None,
        };
        let found = self.find_index(&id);
        match found {
            Some(i) => {
                let old_entry = self.entries.remove(i);
                let had = old_entry.live;
                self.entries.insert(i, RegEntry { id, state, live: false });
                proof {
                    assert(self.entries@.len() == pre.entries@.len());
                    assert forall|j: int|
                        0 <= j < pre.entries@.len() && j != i implies self.entries@[j]
                        == pre.entries@[j] by {}
                    Self::lemma_update_keeps_others(pre, *self, i as int);
                    self.lemma_at(i as int);
                    assert(self.record_of(self.entries@[i as int].id@).tools =~= Seq::<
                        MCPToolView,
                    >::empty());
                    assert forall|j: int|
                        0 <= j < self.entries@.len() implies Self::entry_inv(
                        #[trigger] self.entries@[j],
                    ) by {
                        if j != i {
                            assert(Self::entry_inv(pre.entries@[j]));
                        }
                    }
                }
                had
            },
            None => {
                self.entries.push(RegEntry { id, state, live: false });
                proof {
                    Self::lemma_push_keeps_others(pre, *self);
                    let n = pre.entries@.len() as int;
                    assert(self.record_of(self.entries@[n].id@).tools =~= Seq::<
                        MCPToolView,
                    >::empty());
                    assert forall|j: int|
                        0 <= j < self.entries@.len() implies Self::entry_inv(
                        #[trigger] self.entries@[j],
                    ) by {
                        if j < n {
                            assert(Self::entry_inv(pre.entries@[j]));
                        }
                    }
                }
                false
            },
        }
    }

    /// Concludes a successful connection attempt: status `connected`, the
    /// discovered tools stored, the error cleared, and a live handle
    /// registered. Returns whether a record for `id` existed; without one
    /// nothing changes.
    pub fn finish_connect_ok(&mut self, id: &String, tools: Vec<MCPTool>) -> (found: bool)
        requires
            old(self).wf(),
        ensures
            final(self).wf(),
            found == old(self).has(id@),
            !found ==> *final(self) == *old(self),
            found ==> {
                &&& final(self).has(id@)
                &&& final(self).record_of(id@).config == old(self).record_of(id@).config
                &&& final(self).record_of(id@).status == ConnectionStatus::Connected
                &&& final(self).record_of(id@).tools == tools@.map_values(|t: MCPTool| t@)
                &&& final(self).record_of(id@).error == None::<Seq<char>>
                &&& final(self).live_of(id@)
                &&& same_but(*old(self), *final(self), id@)
            },
    {
        let ghost pre = *self;
        match self.find_index(id) {
            None => false,
            Some(i) => {
                let mut e = self.entries.remove(i);
                e.state.status = ConnectionStatus::Connected;
                e.state.tools = tools;
                e.state.error = None;
                e.live = true;
                self.entries.insert(i, e);
                proof {
                    assert forall|j: int|
                        0 <= j < pre.entries@.len() && j != i implies self.entries@[j]
                        == pre.entries@[j] by {}
                    Self::lemma_update_keeps_others(pre, *self, i as int);
                    self.lemma_at(i as int);
                    assert forall|j: int|
                        0 <= j < self.entries@.len() implies Self::entry_inv(
                        #[trigger] self.entries@[j],
                    ) by {
                        if j != i {
                            assert(Self::entry_inv(pre.entries@[j]));
                        }
                    }
                }
                true
            },
        }
    }

    /// Concludes a failed connection attempt: status `error`, the message
    /// stored, tools cleared, no handle. Returns whether a record for `id`
    /// existed; without one nothing changes.
    pub fn finish_connect_err(&mut self, id: &String, message: String) -> (found: bool)
        requires
            old(self).wf(),
        ensures
            final(self).wf(),
            found == old(self).has(id@),
            !found ==> *final(self) == *old(self),
            found ==> {
                &&& final(self).has(id@)
                &&& final(self).record_of(id@).config == old(self).record_of(id@).config
                &&& final(self).record_of(id@).status == ConnectionStatus::Failed
                &&& final(self).record_of(id@).tools == Seq::<MCPToolView>::empty()
                &&& final(self).record_of(id@).error == Some(message@)
                &&& !final(self).live_of(id@)
                &&& same_but(*old(self), *final(self), id@)
            },
    {
        let ghost pre = *self;
        match self.find_index(id) {
            None => false,
            Some(i) => {
                let mut e = self.entries.remove(i);
                e.state.status = ConnectionStatus::Failed;
                e.state.tools = Vec::new();
                e.state.error = Some(message);
                e.live = false;
                self.entries.insert(i, e);
                proof {
                    assert forall|j: int|
                        0 <= j < pre.entries@.len() && j != i implies self.entries@[j]
                        == pre.entries@[j] by {}
                    Self::lemma_update_keeps_others(pre, *self, i as int);
                    self.lemma_at(i as int);
                    assert(self.record_of(id@).tools =~= Seq::<MCPToolView>::empty());
                    assert forall|j: int|
                        0 <= j < self.entries@.len() implies Self::entry_inv(
                        #[trigger] self.entries@[j],
                    ) by {
                        if j != i {
                            assert(Self::entry_inv(pre.entries@[j]));
                        }
                    }
                }
                true
            },
        }
    }

    /// Tears a connection down in the registry: whatever the prior status,
    /// the record (if any) ends `disconnected` with no tools and no handle.
    /// Returns whether a live handle was registered, so that the caller can
    /// kill the process after releasing the registry. Unknown identifiers are
    /// not an error.
    pub fn disconnect(&mut self, id: &String) -> (had_live: bool)
        requires
            old(self).wf(),
        ensures
            final(self).wf(),
            !old(self).has(id@) ==> *final(self) == *old(self) && !had_live,
            old(self).has(id@) ==> {
                &&& had_live == old(self).live_of(id@)
                &&& final(self).has(id@)
                &&& final(self).record_of(id@).config == old(self).record_of(id@).config
                &&& final(self).record_of(id@).status == ConnectionStatus::Disconnected
                &&& final(self).record_of(id@).tools == Seq::<MCPToolView>::empty()
                &&& final(self).record_of(id@).error == old(self).record_of(id@).error
                &&& !final(self).live_of(id@)
                &&& same_but(*old(self), *final(self), id@)
            },
    {
        let ghost pre = *self;
        match self.find_index(id) {
            None => false,
            Some(i) => {
                let mut e = self.entries.remove(i);
                let had = e.live;
                e.state.status = ConnectionStatus::Disconnected;
                e.state.tools = Vec::new();
                e.live = false;
                self.entries.insert(i, e);
                proof {
                    assert forall|j: int|
                        0 <= j < pre.entries@.len() && j != i implies self.entries@[j]
                        == pre.entries@[j] by {}
                    Self::lemma_update_keeps_others(pre, *self, i as int);
                    self.lemma_at(i as int);
                    assert(self.record_of(id@).tools =~= Seq::<MCPToolView>::empty());
                    assert forall|j: int|
                        0 <= j < self.entries@.len() implies Self::entry_inv(
                        #[trigger] self.entries@[j],
                    ) by {
                        if j != i {
                            assert(Self::entry_inv(pre.entries@[j]));
                        }
                    }
                }
                had
            },
        }
    }

    /// Validates a tool call before any process is touched: an unknown
    /// identifier is `NotFound`, a record whose status is not exactly
    /// `connected` is `InvalidState`, and only a connected record passes.
    pub fn check_call(&self, id: &String) -> (r: Result<(), CallError>)
        requires
            self.wf(),
        ensures
            r == Ok::<(), CallError>(()) <==> (self.has(id@) && self.record_of(id@).status
                == ConnectionStatus::Connected),
            r == Err::<(), CallError>(CallError::NotFound) <==> !self.has(id@),
            r == Err::<(), CallError>(CallError::InvalidState) <==> (self.has(id@)
                && self.record_of(id@).status != ConnectionStatus::Connected),
    {
        match self.find_index(id) {
            None => Err(CallError::NotFound),
            Some(i) => {
                if self.entries[i].state.status == ConnectionStatus::Connected {
                    Ok(())
                } else {
                    Err(CallError::InvalidState)
                }
            },
        }
    }

    /// The stored record under `id`, by value.
    pub fn record(&self, id: &String) -> (r: Option<MCPServerState>)
        requires
            self.wf(),
        ensures
            match r {
                Some(s) => self.has(id@) && s@ == self.record_of(id@),
                None => !self.has(id@),
            },
    {
        match self.find_index(id) {
            None => None,
            Some(i) => Some(self.entries[i].state.duplicate()),
        }
    }

    /// A snapshot of all records at the time of the call, in the registry's
    /// order.
    pub fn list(&self) -> (r: Vec<MCPServerState>)
        requires
            self.wf(),
        ensures
            r@.len() == self.records().len(),
            forall|i: int| 0 <= i < r@.len() ==> (#[trigger] r@[i]@) == self.records()[i],
    {
        let mut out: Vec<MCPServerState> = Vec::new();
        let mut i: usize = 0;
        while i < self.entries.len()
            invariant
                i <= self.entries@.len(),
                out@.len() == i,
                forall|j: int| 0 <= j < i ==> (#[trigger] out@[j]@) == self.entries@[j].state@,
            decreases self.entries@.len() - i,
        {
            out.push(self.entries[i].state.duplicate());
            i = i + 1;
        }
        out
    }

    /// The registry half of a health check: `false` whenever no live handle
    /// is registered under `id`, in particular for identifiers never
    /// connected.
    pub fn health_precheck(&self, id: &String) -> (r: bool)
        requires
            self.wf(),
        ensures
            r == (self.has(id@) && self.live_of(id@)),
    {
        match self.find_index(id) {
            None => false,
            Some(i) => self.entries[i].live,
        }
    }
}

/// A well-formed registry keeps its records and its handle bookkeeping
/// coherent: a record has status `connected` exactly when a live handle is
/// registered under its identifier, and a record whose status is anything
/// else holds no tools.
pub proof fn lemma_registry_coherent(r: McpRegistry, id: Seq<char>)
    requires
        r.wf(),
        r.has(id),
    ensures
        (r.record_of(id).status == ConnectionStatus::Connected) <==> r.live_of(id),
        r.record_of(id).status != ConnectionStatus::Connected ==> r.record_of(id).tools.len() == 0,
{
    let i = r.idx_of(id);
    assert(0 <= i < r.entries@.len() && r.entries@[i].id@ == id);
}

} // verus!

use vstd::prelude::*;

verus! {

// ---------------------------------------------------------------------------
// Messages: the typed requests in the registry's mailbox, and the payload
// frame pushed to a session's outbound channel.
// ---------------------------------------------------------------------------

/// One opaque text payload pushed to a session's outbound channel.  The text
/// is a bare event tag ("tasks-updated", "topic-updated"); viewers re-fetch
/// the state instead of reading a payload.
pub struct Message(pub String);

impl View for Message {
    type V = Seq<char>;

    open spec fn view(&self) -> Seq<char> {
        self.0@
    }
}

/// Ask the registry to accept a new session and hand back its fresh id.
pub struct Connect;

/// Ask the registry to forget the session with this id.  Dropping an id that
/// is absent is a no-op, so a close frame and a heartbeat timeout may race.
pub struct Disconnect {
    pub id: u128,
}

/// The task list was replaced: fan the "tasks-updated" tag out to every live
/// session.
pub struct TasksUpdated;

/// The topic was replaced: fan the "topic-updated" tag out to every live
/// session.
pub struct TopicUpdated;

/// A typed request for the registry: all registry mutations arrive through
/// these, one at a time, so the registry stays the single serialization
/// point.
pub enum Request {
    Connect(Connect),
    Disconnect(Disconnect),
    TasksUpdated(TasksUpdated),
    TopicUpdated(TopicUpdated),
}

/// The event tag broadcast after the task list was replaced.
pub open spec fn tasks_updated_tag() -> Seq<char> {
    "tasks-updated"@
}

/// The event tag broadcast after the topic was replaced.
pub open spec fn topic_updated_tag() -> Seq<char> {
    "topic-updated"@
}

// ---------------------------------------------------------------------------
// The registry's mathematical model: a sequence of entries, one per live
// session, each with its id, the state of its send-capability, and the
// payloads delivered to it and not yet drained by its connection.
// ---------------------------------------------------------------------------

/// What the registry knows of one live session.
pub struct EntryModel {
    /// The session's identity, unique among live sessions.
    pub id: u128,
    /// Whether the session's send-capability still accepts payloads.
    pub open: bool,
    /// The payloads delivered to the session and not yet drained.
    pub inbox: Seq<Seq<char>>,
}

/// No two live sessions share an id.
pub open spec fn distinct_ids(m: Seq<EntryModel>) -> bool {
    forall|i: int, j: int| 0 <= i < j < m.len() ==> m[i].id != m[j].id
}

/// Whether some live session has this id.
pub open spec fn has_id(m: Seq<EntryModel>, id: u128) -> bool {
    exists|i: int| 0 <= i < m.len() && m[i].id == id
}

/// The position of the live session with this id (meaningful only when
/// `has_id` holds).
pub open spec fn idx_of(m: Seq<EntryModel>, id: u128) -> int {
    choose|i: int| 0 <= i < m.len() && m[i].id == id
}

/// Registration: a fresh entry with an open capability and an empty inbox is
/// appended.
pub open spec fn reg_op(m: Seq<EntryModel>, id: u128) -> Seq<EntryModel> {
    m.push(EntryModel { id, open: true, inbox: Seq::empty() })
}

/// Deregistration: the entry with this id is removed if present; otherwise
/// nothing changes.
pub open spec fn dereg_op(m: Seq<EntryModel>, id: u128) -> Seq<EntryModel> {
    if has_id(m, id) {
        m.remove(idx_of(m, id))
    } else {
        m
    }
}

/// What one broadcast does to one entry: an open capability receives exactly
/// one copy of the event tag, a broken one is left as it is.
pub open spec fn notified_entry(e: EntryModel, event: Seq<char>) -> EntryModel {
    EntryModel {
        id: e.id,
        open: e.open,
        inbox: if e.open {
            e.inbox.push(event)
        } else {
            e.inbox
        },
    }
}

/// Broadcast: every entry whose capability is open receives exactly one copy
/// of the event tag; entries with a broken capability are left as they are,
/// and no entry is added or removed.
pub open spec fn notify_op(m: Seq<EntryModel>, event: Seq<char>) -> Seq<EntryModel> {
    m.map_values(|e: EntryModel| notified_entry(e, event))
}

// ---------------------------------------------------------------------------
// The registry itself.
// ---------------------------------------------------------------------------

struct SessionEntry {
    id: u128,
    open: bool,
    inbox: Vec<Message>,
}

impl SessionEntry {
    spec fn model(self) -> EntryModel {
        EntryModel { id: self.id, open: self.open, inbox: self.inbox@.map_values(|m: Message| m@) }
    }
}

/// The connection registry and broadcast coordinator: the single authoritative
/// map of live sessions.  It assigns identity on registration, forgets a
/// session on deregistration, and fans event tags out to every live session.
/// It owns only each session's outbound channel, never the socket.
pub struct SessionManager {
    sessions: Vec<SessionEntry>,
}

impl SessionManager {
    /// The registry's model: one entry per live session, in registration
    /// order.
    pub closed spec fn model(self) -> Seq<EntryModel> {
        self.sessions@.map_values(|e: SessionEntry| e.model())
    }

    /// Registry invariant: live sessions have pairwise distinct ids.
    pub open spec fn wf(self) -> bool {
        distinct_ids(self.model())
    }

    /// An empty registry: the process starts with no live sessions, and no
    /// session survives a restart.
    pub fn new() -> (m: SessionManager)
        ensures
            m.model() == Seq::<EntryModel>::empty(),
            m.wf(),
    {
        SessionManager { sessions: Vec::new() }
    }

    /// The number of live sessions.
    pub fn count(&self) -> (n: usize)
        ensures
            n == self.model().len(),
    {
        self.sessions.len()
    }

    /// Whether a session with this id is live.
    pub fn contains(&self, id: u128) -> (b: bool)
        ensures
            b == has_id(self.model(), id),
    {
        let r = self.find_index(id);
        r.is_some()
    }

    /// The position of the live session with this id, if any.
    fn find_index(&self, id: u128) -> (r: Option<usize>)
        ensures
            match r {
                Some(i) => i < self.model().len() && self.model()[i as int].id == id,
                None => !has_id(self.model(), id),
            },
    {
        let n = self.sessions.len();
        let mut i: usize = 0;
        while i < n
            invariant
                i <= n,
                n == self.sessions@.len(),
                forall|k: int| 0 <= k < i ==> self.model()[k].id != id,
            decreases n - i,
        {
            if self.sessions[i].id == id {
                assert(self.model()[i as int].id == id);
                return Some(i);
            }
            i = i + 1;
        }
        None
    }

    /// Accept a new session: allocate a fresh unique id, store an entry with
    /// an open capability and an empty inbox, and return the id.  On the
    /// (negligibly likely) collision of a random id with a live one, a new id
    /// is drawn; should the random source keep colliding, the smallest unused
    /// id is taken, so a fresh id comes back either way.
    pub fn register(&mut self) -> (id: u128)
        requires
            old(self).wf(),
        ensures
            final(self).wf(),
            !has_id(old(self).model(), id),
            final(self).model() == reg_op(old(self).model(), id),
    {
        let mut attempts: usize = 0;
        while attempts < 16
            invariant
                *self == *old(self),
                old(self).wf(),
            decreases 16 - attempts,
        {
            let id = random_session_id();
            if self.find_index(id).is_none() {
                self.install(id);
                return id;
            }
            attempts = attempts + 1;
        }
        let n = self.sessions.len();
        let mut c: u128 = 0;
        while c <= n as u128
            invariant
                *self == *old(self),
                old(self).wf(),
                n == self.model().len(),
                c <= n as u128 + 1,
                forall|k: u128| k < c ==> has_id(self.model(), k),
            decreases n as u128 + 1 - c,
        {
            if self.find_index(c).is_none() {
                self.install(c);
                return c;
            }
            c = c + 1;
        }
        proof {
            lemma_small_id_free(self.model());
            let k = choose|k: u128| k <= self.model().len() && !has_id(self.model(), k);
            assert(k < c);
            assert(has_id(self.model(), k));
        }
        unreached()
    }

    /// Fan one event tag out to every live session: each session whose
    /// send-capability is open receives exactly one copy of `msg` on its
    /// outbound channel.  A broken capability is skipped and swallowed: it
    /// neither aborts delivery to the remaining sessions nor removes the
    /// entry, since deregistration belongs to the session's own lifecycle.
    pub fn notify_update(&mut self, msg: &str)
        requires
            old(self).wf(),
        ensures
            final(self).wf(),
            final(self).model() == notify_op(old(self).model(), msg@),
    {
        let n = self.sessions.len();
        let mut i: usize = 0;
        while i < n
            invariant
                i <= n,
                n == self.sessions@.len(),
                n == old(self).sessions@.len(),
                forall|k: int|
                    0 <= k < i ==> (#[trigger] self.sessions@[k]).model() == notified_entry(
                        old(self).sessions@[k].model(),
                        msg@,
                    ),
                forall|k: int| i <= k < n ==> self.sessions@[k] == old(self).sessions@[k],
            decreases n - i,
        {
            let is_open = self.sessions[i].open;
            if is_open {
                let payload = Message(msg.to_owned());
                let entry = &mut self.sessions[i];
                entry.inbox.push(payload);
            }
            proof {
                let before = old(self).sessions@[i as int].model();
                if is_open {
                    assert(self.sessions@[i as int].model().inbox =~= before.inbox.push(msg@));
                }
                assert(self.sessions@[i as int].model() == notified_entry(before, msg@));
            }
            i = i + 1;
        }
        proof {
            let om = old(self).model();
            let goal = notify_op(om, msg@);
            assert(self.model() =~= goal) by {
                assert forall|k: int| 0 <= k < n implies self.model()[k] == goal[k] by {
                    assert(self.sessions@[k].model() == notified_entry(
                        old(self).sessions@[k].model(),
                        msg@,
                    ));
                }
            }
            let nm = self.model();
            assert forall|a: int, b: int| 0 <= a < b < nm.len() implies nm[a].id != nm[b].id by {
                assert(nm[a].id == om[a].id && nm[b].id == om[b].id);
            }
        }
    }

    /// Hand out the payloads delivered to this session and not yet drained:
    /// the per-connection task relays each of them to its peer.  An id that
    /// is not live yields nothing.
    pub fn take_messages(&mut self, id: u128) -> (msgs: Vec<Message>)
        requires
            old(self).wf(),
        ensures
            final(self).wf(),
            has_id(old(self).model(), id) ==> {
                let ix = idx_of(old(self).model(), id);
                &&& msgs@.map_values(|m: Message| m@) == old(self).model()[ix].inbox
                &&& final(self).model() == old(self).model().update(
                    ix,
                    EntryModel { id, open: old(self).model()[ix].open, inbox: Seq::empty() },
                )
            },
            !has_id(old(self).model(), id) ==> {
                &&& msgs@.len() == 0
                &&& final(self).model() == old(self).model()
            },
    {
        let ghost om = old(self).model();
        match self.find_index(id) {
            None => {
                Vec::new()
            },
            Some(i) => {
                proof {
                    lemma_idx_of_unique(om, id, i as int);
                }
                let mut out: Vec<Message> = Vec::new();
                let entry = &mut self.sessions[i];
                core::mem::swap(&mut entry.inbox, &mut out);
                proof {
                    let ix = idx_of(om, id);
                    assert(self.model() =~= om.update(
                        ix,
                        EntryModel { id, open: om[ix].open, inbox: Seq::empty() },
                    )) by {
                        assert forall|k: int| 0 <= k < self.sessions@.len() implies self.model()[k]
                            == om.update(
                            ix,
                            EntryModel { id, open: om[ix].open, inbox: Seq::empty() },
                        )[k] by {
                            if k != ix {
                                assert(self.sessions@[k] == old(self).sessions@[k]);
                            } else {
                                assert(self.model()[k].inbox =~= Seq::<Seq<char>>::empty());
                            }
                        }
                    }
                    let nm = self.model();
                    assert forall|a: int, b: int|
                        0 <= a < b < nm.len() implies nm[a].id != nm[b].id by {
                        assert(nm[a].id == om[a].id && nm[b].id == om[b].id);
                    }
                }
                out
            },
        }
    }

    /// Mark this session's send-capability broken: later broadcasts skip it.
    /// This records the peer end of the channel going away; the entry itself
    /// stays until the session's own lifecycle deregisters it.
    pub fn fail_capability(&mut self, id: u128)
        requires
            old(self).wf(),
        ensures
            final(self).wf(),
            has_id(old(self).model(), id) ==> {
                let ix = idx_of(old(self).model(), id);
                final(self).model() == old(self).model().update(
                    ix,
                    EntryModel { id, open: false, inbox: old(self).model()[ix].inbox },
                )
            },
            !has_id(old(self).model(), id) ==> final(self).model() == old(self).model(),
    {
        let ghost om = old(self).model();
        match self.find_index(id) {
            None => {},
            Some(i) => {
                proof {
                    lemma_idx_of_unique(om, id, i as int);
                }
                let entry = &mut self.sessions[i];
                entry.open = false;
                proof {
                    let ix = idx_of(om, id);
                    assert(self.model() =~= om.update(
                        ix,
                        EntryModel { id, open: false, inbox: om[ix].inbox },
                    )) by {
                        assert forall|k: int| 0 <= k < self.sessions@.len() implies self.model()[k]
                            == om.update(
                            ix,
                            EntryModel { id, open: false, inbox: om[ix].inbox },
                        )[k] by {
                            if k != ix {
                                assert(self.sessions@[k] == old(self).sessions@[k]);
                            }
                        }
                    }
                    let nm = self.model();
                    assert forall|a: int, b: int|
                        0 <= a < b < nm.len() implies nm[a].id != nm[b].id by {
                        assert(nm[a].id == om[a].id && nm[b].id == om[b].id);
                    }
                }
            },
        }
    }

    /// Process one typed request from the mailbox: accept a session, forget
    /// one, or broadcast one of the two event tags.  Only a `Connect` answers
    /// with a value: the fresh session id.
    pub fn handle(&mut self, req: Request) -> (r: Option<u128>)
        requires
            old(self).wf(),
        ensures
            final(self).wf(),
            req is Connect ==> r is Some && !has_id(old(self).model(), r->0) && final(self).model()
                == reg_op(old(self).model(), r->0),
            req is Disconnect ==> r is None && final(self).model() == dereg_op(
                old(self).model(),
                req->Disconnect_0.id,
            ),
            req is TasksUpdated ==> r is None && final(self).model() == notify_op(
                old(self).model(),
                tasks_updated_tag(),
            ),
            req is TopicUpdated ==> r is None && final(self).model() == notify_op(
                old(self).model(),
                topic_updated_tag(),
            ),
    {
        match req {
            Request::Connect(_) => Some(self.register()),
            Request::Disconnect(d) => {
                self.deregister(d.id);
                None
            },
            Request::TasksUpdated(_) => {
                self.notify_update("tasks-updated");
                None
            },
            Request::TopicUpdated(_) => {
                self.notify_update("topic-updated");
                None
            },
        }
    }

    /// Store the entry for a session whose id is known to be fresh.
    fn install(&mut self, id: u128)
        requires
            old(self).wf(),
            !has_id(old(self).model(), id),
        ensures
            final(self).wf(),
            final(self).model() == reg_op(old(self).model(), id),
    {
        let inbox: Vec<Message> = Vec::new();
        let entry = SessionEntry { id, open: true, inbox };
        self.sessions.push(entry);
        proof {
            let om = old(self).model();
            assert(self.model() =~= reg_op(om, id)) by {
                assert(self.sessions@ == old(self).sessions@.push(entry));
                assert forall|k: int| 0 <= k < self.sessions@.len() implies self.model()[k]
                    == reg_op(om, id)[k] by {
                    if k < om.len() {
                        assert(self.sessions@[k] == old(self).sessions@[k]);
                    } else {
                        assert(self.sessions@[k] == entry);
                        assert(entry.model().inbox =~= Seq::<Seq<char>>::empty());
                    }
                }
            }
            let nm = self.model();
            assert forall|i: int, j: int| 0 <= i < j < nm.len() implies nm[i].id != nm[j].id by {
                if j == om.len() {
                    assert(!has_id(om, id));
                    assert(nm[i] == om[i]);
                }
            }
        }
    }

    /// Forget the session with this id.  Absent ids are ignored: an explicit
    /// close and a heartbeat timeout may both ask for the same removal.
    pub fn deregister(&mut self, id: u128)
        requires
            old(self).wf(),
        ensures
            final(self).wf(),
            final(self).model() == dereg_op(old(self).model(), id),
    {
        match self.find_index(id) {
            None => {
                assert(final(self).model() =~= dereg_op(old(self).model(), id));
            },
            Some(i) => {
                self.sessions.remove(i);
                proof {
                    let om = old(self).model();
                    assert(has_id(om, id)) by {
                        assert(om[i as int].id == id);
                    }
                    let ix = idx_of(om, id);
                    assert(0 <= ix < om.len() && om[ix].id == id);
                    assert(ix == i as int) by {
                        if ix != i as int {
                            assert(om[ix].id == om[i as int].id);
                        }
                    }
                    assert(self.model() =~= om.remove(i as int)) by {
                        assert(self.sessions@ == old(self).sessions@.remove(i as int));
                        assert forall|k: int| 0 <= k < self.sessions@.len() implies self.model()[k]
                            == om.remove(i as int)[k] by {
                            if k < i as int {
                                assert(self.sessions@[k] == old(self).sessions@[k]);
                            } else {
                                assert(self.sessions@[k] == old(self).sessions@[k + 1]);
                            }
                        }
                    }
                    let nm = self.model();
                    assert forall|a: int, b: int|
                        0 <= a < b < nm.len() implies nm[a].id != nm[b].id by {
                        let oa = if a < i as int { a } else { a + 1 };
                        let ob = if b < i as int { b } else { b + 1 };
                        assert(nm[a] == om[oa]);
                        assert(nm[b] == om[ob]);
                    }
                }
            },
        }
    }
}

/// With pairwise distinct ids, a position holding `id` is the one `idx_of`
/// picks.
proof fn lemma_idx_of_unique(m: Seq<EntryModel>, id: u128, i: int)
    requires
        distinct_ids(m),
        0 <= i < m.len(),
        m[i].id == id,
    ensures
        has_id(m, id),
        idx_of(m, id) == i,
{
    assert(has_id(m, id));
    let ix = idx_of(m, id);
    if ix < i {
        assert(m[ix].id != m[i].id);
    } else if i < ix {
        assert(m[i].id != m[ix].id);
    }
}

/// Pigeonhole fact behind `register`'s fallback: a registry of `n` entries
/// cannot hold every id in `0 ..= n`, so the scan for the smallest unused id
/// always returns.
proof fn lemma_small_id_free(m: Seq<EntryModel>)
    requires
        m.len() < u128::MAX,
    ensures
        exists|k: u128| k <= m.len() && !has_id(m, k),
    decreases m.len(),
{
    if m.len() == 0 {
        assert(!has_id(m, 0));
    } else {
        let top = m.len() as u128;
        if !has_id(m, top) {
            assert(top <= m.len() && !has_id(m, top));
        } else {
            let i = idx_of(m, top);
            assert(0 <= i < m.len() && m[i].id == top);
            let m2 = m.remove(i);
            lemma_small_id_free(m2);
            let k = choose|k: u128| k <= m2.len() && !has_id(m2, k);
            assert(!has_id(m, k)) by {
                if has_id(m, k) {
                    let w = choose|w: int| 0 <= w < m.len() && m[w].id == k;
                    assert(w != i);
                    if w < i {
                        assert(m2[w] == m[w]);
                    } else {
                        assert(m2[w - 1] == m[w]);
                    }
                }
            }
        }
    }
}

// ---------------------------------------------------------------------------
// Laws of the registry: what every sequence of operations preserves.
// ---------------------------------------------------------------------------

/// One bookkeeping operation on the registry, for reasoning about whole
/// operation histories.
pub enum RegistryOp {
    Register(u128),
    Deregister(u128),
}

/// The registry model after one bookkeeping operation.
pub open spec fn apply_op(m: Seq<EntryModel>, op: RegistryOp) -> Seq<EntryModel> {
    match op {
        RegistryOp::Register(id) => reg_op(m, id),
        RegistryOp::Deregister(id) => dereg_op(m, id),
    }
}

/// The registry model after a whole history of bookkeeping operations.
pub open spec fn apply_ops(m: Seq<EntryModel>, ops: Seq<RegistryOp>) -> Seq<EntryModel>
    decreases ops.len(),
{
    if ops.len() == 0 {
        m
    } else {
        apply_ops(apply_op(m, ops[0]), ops.drop_first())
    }
}

/// How many registrations a history holds.
pub open spec fn count_registers(ops: Seq<RegistryOp>) -> nat
    decreases ops.len(),
{
    if ops.len() == 0 {
        0
    } else {
        (if ops[0] is Register {
            1nat
        } else {
            0nat
        }) + count_registers(ops.drop_first())
    }
}

/// How many deregistrations of a history hit a then-live id.  A
/// deregistration of an id that is not live at that moment is a no-op and is
/// not counted.
pub open spec fn count_effective_deregisters(m: Seq<EntryModel>, ops: Seq<RegistryOp>) -> nat
    decreases ops.len(),
{
    if ops.len() == 0 {
        0
    } else {
        (match ops[0] {
            RegistryOp::Deregister(id) => if has_id(m, id) {
                1nat
            } else {
                0nat
            },
            RegistryOp::Register(_) => 0nat,
        }) + count_effective_deregisters(apply_op(m, ops[0]), ops.drop_first())
    }
}

/// Law of the live-session count: over every history of registrations and
/// deregistrations, the count of live sessions equals the starting count plus
/// the registrations minus the deregistrations that hit a live id — and the
/// latter never outnumber the former, so the count never goes negative.
pub proof fn lemma_live_session_count(m: Seq<EntryModel>, ops: Seq<RegistryOp>)
    ensures
        apply_ops(m, ops).len() + count_effective_deregisters(m, ops) == m.len()
            + count_registers(ops),
        count_effective_deregisters(m, ops) <= m.len() + count_registers(ops),
    decreases ops.len(),
{
    if ops.len() > 0 {
        match ops[0] {
            RegistryOp::Deregister(id) => {
                if has_id(m, id) {
                    let i = idx_of(m, id);
                    assert(0 <= i < m.len() && m[i].id == id);
                }
            },
            RegistryOp::Register(_) => {},
        }
        lemma_live_session_count(apply_op(m, ops[0]), ops.drop_first());
    }
}

/// Law of idempotent deregistration: on a registry with distinct ids, asking
/// twice for the removal of the same id leaves exactly the state that asking
/// once leaves.  This is what lets an explicit close and a heartbeat timeout
/// race without harm.
pub proof fn lemma_deregister_idempotent(m: Seq<EntryModel>, id: u128)
    requires
        distinct_ids(m),
    ensures
        dereg_op(dereg_op(m, id), id) == dereg_op(m, id),
{
    if has_id(m, id) {
        let i = idx_of(m, id);
        assert(0 <= i < m.len() && m[i].id == id);
        let m2 = m.remove(i);
        assert(!has_id(m2, id)) by {
            if has_id(m2, id) {
                let w = choose|w: int| 0 <= w < m2.len() && m2[w].id == id;
                let ow = if w < i {
                    w
                } else {
                    w + 1
                };
                assert(m2[w] == m[ow]);
                if ow < i {
                    assert(m[ow].id != m[i].id);
                } else {
                    assert(m[i].id != m[ow].id);
                }
            }
        }
    }
}

/// Law of fan-out completeness: one broadcast delivers the event tag exactly
/// once to every session whose send-capability is open, delivers nothing to a
/// broken one, and neither adds, removes nor re-identifies a session.
pub proof fn lemma_fanout_completeness(m: Seq<EntryModel>, event: Seq<char>)
    ensures
        notify_op(m, event).len() == m.len(),
        forall|i: int|
            0 <= i < m.len() && m[i].open ==> (#[trigger] notify_op(m, event)[i]).inbox
                == m[i].inbox.push(event),
        forall|i: int| 0 <= i < m.len() && !m[i].open ==> notify_op(m, event)[i] == m[i],
        forall|i: int|
            0 <= i < m.len() ==> (#[trigger] notify_op(m, event)[i]).id == m[i].id
                && notify_op(m, event)[i].open == m[i].open,
{
    let nm = notify_op(m, event);
    assert forall|i: int| 0 <= i < m.len() && !m[i].open implies nm[i] == m[i] by {
        assert(notified_entry(m[i], event) =~= m[i]);
    }
}

/// Law of the late joiner: a session registered after a broadcast returns
/// starts with an empty inbox, so it holds no delivery of that event.
pub proof fn lemma_late_joiner(m: Seq<EntryModel>, event: Seq<char>, id: u128)
    ensures
        reg_op(notify_op(m, event), id).last().inbox == Seq::<Seq<char>>::empty(),
        reg_op(notify_op(m, event), id).len() == m.len() + 1,
{
}

/// Law of isolation: if one session's send-capability is broken before a
/// broadcast, that session receives nothing and every other session with an
/// open capability still receives exactly one delivery.
pub proof fn lemma_isolation(m: Seq<EntryModel>, event: Seq<char>, broken: int)
    requires
        0 <= broken < m.len(),
        !m[broken].open,
    ensures
        notify_op(m, event)[broken] == m[broken],
        forall|j: int|
            0 <= j < m.len() && j != broken && m[j].open ==> (#[trigger] notify_op(m, event)[j]).inbox
                == m[j].inbox.push(event),
{
    assert(notified_entry(m[broken], event) =~= m[broken]);
}

/// Law of per-session order: two broadcasts reach every session whose
/// capability stays open in the order they were issued.
pub proof fn lemma_notify_order(m: Seq<EntryModel>, first: Seq<char>, second: Seq<char>)
    ensures
        forall|i: int|
            0 <= i < m.len() && m[i].open ==> (#[trigger] notify_op(notify_op(m, first), second)[i]).inbox
                == m[i].inbox.push(first).push(second),
{
    let once = notify_op(m, first);
    let twice = notify_op(once, second);
    assert forall|i: int|
        0 <= i < m.len() && m[i].open implies (#[trigger] twice[i]).inbox
            == m[i].inbox.push(first).push(second) by {
        assert(once[i] == notified_entry(m[i], first));
        assert(twice[i] == notified_entry(once[i], second));
    }
}

/// Relies on `uuid::Uuid::new_v4`: a version-4 identifier drawn from the
/// operating system's random source, returned as its 128-bit value.  Nothing
/// is promised of the value: the registry checks freshness itself.
#[verifier::external_body]
fn random_session_id() -> u128 {
    uuid::Uuid::new_v4().as_u128()
}

} // verus!

use vstd::prelude::*;
use crate::schema::Topic;
use crate::session::{notify_op, tasks_updated_tag, topic_updated_tag, EntryModel, SessionManager};

verus! {

/// The server's authoritative state behind its single lock, as far as it is
/// plain data: the topic, the key writers must present, and the session
/// registry.  The task list itself is foreign data and lives beside this,
/// under the same serialization discipline.
pub struct AppState {
    pub topic: Topic,
    pub api_key: String,
    pub manager: SessionManager,
}

impl AppState {
    /// A fresh server state: the empty topic, an empty registry, this key.
    pub fn new(api_key: String) -> (s: AppState)
        ensures
            s.topic.title@ == Seq::<char>::empty(),
            s.topic.description@ == Seq::<char>::empty(),
            s.api_key@ == api_key@,
            s.manager.model() == Seq::<EntryModel>::empty(),
            s.manager.wf(),
    {
        AppState { topic: Topic::default(), api_key, manager: SessionManager::new() }
    }

    /// Whether a writer's bearer token authorizes a mutation: exactly when
    /// it reads like the configured key.
    pub fn authorize(&self, token: &String) -> (ok: bool)
        ensures
            ok == (token@ == self.api_key@),
    {
        *token == self.api_key
    }

    /// The topic-replacement boundary: with the right key the topic is
    /// replaced and every live session hears "topic-updated"; with a wrong
    /// key nothing changes and nothing is broadcast.
    pub fn set_topic(&mut self, token: &String, topic: Topic) -> (ok: bool)
        requires
            old(self).manager.wf(),
        ensures
            final(self).manager.wf(),
            final(self).api_key == old(self).api_key,
            ok == (token@ == old(self).api_key@),
            ok ==> final(self).topic == topic && final(self).manager.model() == notify_op(
                old(self).manager.model(),
                topic_updated_tag(),
            ),
            !ok ==> final(self).topic == old(self).topic && final(self).manager.model() == old(
                self,
            ).manager.model(),
    {
        if self.authorize(token) {
            self.topic = topic;
            self.manager.notify_update("topic-updated");
            true
        } else {
            false
        }
    }

    /// The task-list side of the mutation boundary.  The list itself is
    /// foreign data installed by the caller; this is the broadcast owed once
    /// the replacement is durably visible: every live session hears
    /// "tasks-updated".  A rejected replacement must never reach here —
    /// `authorize` decides that first.
    pub fn tasks_replaced(&mut self)
        requires
            old(self).manager.wf(),
        ensures
            final(self).manager.wf(),
            final(self).api_key == old(self).api_key,
            final(self).topic == old(self).topic,
            final(self).manager.model() == notify_op(
                old(self).manager.model(),
                tasks_updated_tag(),
            ),
    {
        self.manager.notify_update("tasks-updated");
    }
}

} // verus!

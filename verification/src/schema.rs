use vstd::prelude::*;

verus! {

/// The topic shown beside the task list: a short title and a free-form
/// description.  Both fields are opaque text; the server only stores and
/// republishes them.
#[derive(Debug, Clone)]
pub struct Topic {
    pub title: String,
    pub description: String,
}

impl Topic {
    /// Build a topic from its two fields.
    pub fn new(title: String, description: String) -> (t: Topic)
        ensures
            t.title@ == title@,
            t.description@ == description@,
    {
        Topic { title, description }
    }
}

impl Default for Topic {
    /// The empty topic: both fields are the empty string.
    fn default() -> (t: Topic)
        ensures
            t.title@ == Seq::<char>::empty(),
            t.description@ == Seq::<char>::empty(),
    {
        Topic { title: String::new(), description: String::new() }
    }
}

} // verus!

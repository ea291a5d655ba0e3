//! `KnowledgeNote` — a permanently stored memory, full-text searchable.

use vstd::prelude::*;

verus! {

#[derive(Debug)]
pub struct KnowledgeNote {
    pub title: String,
    pub content: String,
    pub tags: String,
}

impl KnowledgeNote {
    pub fn new(title: String, content: String, tags: String) -> (r: Self)
        ensures
            r.title == title,
            r.content == content,
            r.tags == tags,
    {
        KnowledgeNote { title, content, tags }
    }
}

} // verus!

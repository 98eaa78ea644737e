//! The documents fetched from the engine, by file name.
use vstd::prelude::*;

use crate::xml::str_equal;

verus! {

/// A source document.
#[derive(Debug)]
pub struct Document {
    pub filename: String,
    pub text: String,
}

/// The cache of documents of one connection.
pub struct Workspace {
    pub documents: Vec<Document>,
}

impl Workspace {
    /// No two documents share a file name.
    pub open spec fn wf(&self) -> bool {
        forall|i: int, j: int|
            0 <= i < j < self.documents@.len() ==> #[trigger] self.documents@[i].filename@
                != #[trigger] self.documents@[j].filename@
    }

    /// The cached text of `filename`.
    pub open spec fn text_of(&self, filename: Seq<char>) -> Option<Seq<char>> {
        if exists|i: int| 0 <= i < self.documents@.len() && #[trigger] self.documents@[i].filename@ == filename {
            let i = choose|i: int| 0 <= i < self.documents@.len() && #[trigger] self.documents@[i].filename@ == filename;
            Some(self.documents@[i].text@)
        } else {
            None
        }
    }

    /// An empty cache.
    pub fn new() -> (r: Workspace)
        ensures
            r.wf(),
            r.documents@.len() == 0,
    {
        Workspace { documents: Vec::new() }
    }

    /// Empties the cache.
    pub fn reset(&mut self)
        ensures
            final(self).wf(),
            final(self).documents@.len() == 0,
    {
        self.documents = Vec::new();
    }

    /// The cached document of `filename`, if there is one.
    pub fn get(&self, filename: &str) -> (r: Option<&Document>)
        requires
            self.wf(),
        ensures
            match r {
                Some(d) => d.filename@ == filename@ && self.text_of(filename@) == Some(d.text@),
                None => self.text_of(filename@).is_none(),
            },
    {
        let mut i: usize = 0;
        while i < self.documents.len()
            invariant
                0 <= i <= self.documents@.len(),
                self.wf(),
                forall|j: int| 0 <= j < i ==> #[trigger] self.documents@[j].filename@ != filename@,
            decreases self.documents@.len() - i,
        {
            if str_equal(self.documents[i].filename.as_str(), filename) {
                proof {
                    let k = choose|k: int| 0 <= k < self.documents@.len() && #[trigger] self.documents@[k].filename@ == filename@;
                    if k < i {
                        assert(self.documents@[k].filename@ != self.documents@[i as int].filename@);
                    } else if k > i {
                        assert(self.documents@[i as int].filename@ != self.documents@[k].filename@);
                    }
                }
                return Some(&self.documents[i]);
            }
            i = i + 1;
        }
        None
    }

    /// Caches a fetched document, unless one of that name is cached already.
    pub fn store(&mut self, filename: String, text: String)
        requires
            old(self).wf(),
        ensures
            final(self).wf(),
            match old(self).text_of(filename@) {
                Some(t) => final(self).text_of(filename@) == Some(t) && final(self).documents@
                    == old(self).documents@,
                None => final(self).text_of(filename@) == Some(text@) && final(self).documents@
                    == old(self).documents@.push(Document { filename, text }),
            },
    {
        if self.get(filename.as_str()).is_some() {
            return;
        }
        let ghost name = filename@;
        let ghost t = text@;
        self.documents.push(Document { filename, text });
        let ghost last = (self.documents@.len() - 1) as int;
        assert(self.documents@[last].filename@ == name);
        proof {
            assert forall|i: int| 0 <= i < self.documents@.len() && #[trigger] self.documents@[i].filename@ == name implies i == last by {
                if i < last {
                    assert(old(self).documents@[i] == self.documents@[i]);
                }
            }
        }
    }
}

} // verus!

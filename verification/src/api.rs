//! The typed records of the library: a tracked fiction, a lightweight chapter
//! reference, and a fully fetched chapter.

use vstd::prelude::*;

verus! {

/// A serialized work tracked by the reader.
#[derive(Debug)]
pub struct Fiction {
    pub title: String,
    pub id: usize,
    pub chapters: Vec<ChapterReference>,
}

/// A pointer to one chapter, with its display metadata; ordered within a
/// fiction in source-page order (oldest first) and never re-sorted.
#[derive(Debug)]
pub struct ChapterReference {
    /// Opaque remote locator of the chapter page.
    pub path: String,
    pub title: String,
    /// Publication time in unix seconds.
    pub time: u64,
}

/// The fetched content of one chapter.
#[derive(Debug)]
pub struct Chapter {
    pub name: String,
    pub path: String,
    /// The ordered paragraphs of the chapter body.
    pub content: Vec<String>,
    /// Publication time in unix seconds.
    pub published: u64,
    /// Last-edit time in unix seconds; equals `published` when the page
    /// carries no edit marker.
    pub edited: u64,
}

impl ChapterReference {
    /// An equal copy of this reference.
    pub fn duplicate(&self) -> (r: ChapterReference)
        ensures
            r == *self,
    {
        ChapterReference { path: self.path.clone(), title: self.title.clone(), time: self.time }
    }
}

/// An equal copy of a chapter list.
pub fn copy_chapters(v: &Vec<ChapterReference>) -> (r: Vec<ChapterReference>)
    ensures
        r@ == v@,
{
    let mut out: Vec<ChapterReference> = Vec::new();
    let n = v.len();
    let mut i: usize = 0;
    while i < n
        invariant
            i <= n,
            n == v@.len(),
            out@ =~= v@.take(i as int),
        decreases n - i,
    {
        out.push(v[i].duplicate());
        proof {
            assert(out@ =~= v@.take(i as int + 1));
        }
        i += 1;
    }
    proof {
        assert(v@.take(n as int) =~= v@);
    }
    out
}

} // verus!

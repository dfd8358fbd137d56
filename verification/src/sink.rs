//! Persistence-sink framing: the on-disk snapshot log is one JSON array,
//! kept syntactically complete after every append. The file starts as an
//! empty array; each append overwrites the two closing bytes with a
//! separator (from the second element on), the new element, and a fresh
//! closing bracket, so a run interrupted at any point leaves a parseable
//! array of all completed ticks.

use vstd::prelude::*;

verus! {

/// `"[\n"`: the opening bytes of the array.
pub open spec fn sink_header() -> Seq<u8> {
    seq![91u8, 10u8]
}

/// `"\n]\n"`: the closing bytes after the last element.
pub open spec fn sink_footer() -> Seq<u8> {
    seq![10u8, 93u8, 10u8]
}

/// `"\n,\n"`: the separator standing between two consecutive elements.
pub open spec fn sink_sep() -> Seq<u8> {
    seq![10u8, 44u8, 10u8]
}

/// The elements joined by the separator.
pub open spec fn sink_body(elems: Seq<Seq<u8>>) -> Seq<u8>
    decreases elems.len(),
{
    if elems.len() == 0 {
        Seq::empty()
    } else if elems.len() == 1 {
        elems[0]
    } else {
        sink_body(elems.drop_last()) + sink_sep() + elems.last()
    }
}

/// The whole file after the given elements were appended: an empty array
/// marker, or the framed, separated elements.
pub open spec fn sink_content(elems: Seq<Seq<u8>>) -> Seq<u8> {
    if elems.len() == 0 {
        seq![91u8, 10u8, 93u8, 10u8]
    } else {
        sink_header() + sink_body(elems) + sink_footer()
    }
}

/// The bytes one append writes over the two closing bytes of the file:
/// a separator when this is not the first element, the element, and the
/// closing bytes again.
pub fn sink_patch(first: bool, elem: &Vec<u8>) -> (r: Vec<u8>)
    ensures
        first ==> r@ == elem@ + sink_footer(),
        !first ==> r@ == seq![44u8, 10u8] + elem@ + sink_footer(),
{
    let mut r: Vec<u8> = Vec::new();
    if !first {
        r.push(44u8);
        r.push(10u8);
    }
    r.extend_from_slice(elem.as_slice());
    r.push(10u8);
    r.push(93u8);
    r.push(10u8);
    proof {
        if first {
            assert(r@ =~= elem@ + sink_footer());
        } else {
            assert(r@ =~= seq![44u8, 10u8] + elem@ + sink_footer());
        }
    }
    r
}

/// The file contents for the empty array: what the sink writes on open.
pub fn sink_init_bytes() -> (r: Vec<u8>)
    ensures
        r@ == sink_content(Seq::<Seq<u8>>::empty()),
{
    let mut r: Vec<u8> = Vec::new();
    r.push(91u8);
    r.push(10u8);
    r.push(93u8);
    r.push(10u8);
    proof {
        assert(r@ =~= sink_content(Seq::<Seq<u8>>::empty()));
    }
    r
}

/// Overwriting the last two bytes of a complete file with the append
/// patch yields exactly the complete file with one more element: the file
/// is a valid array after every append, in tick order.
pub proof fn lemma_sink_append(elems: Seq<Seq<u8>>, e: Seq<u8>)
    ensures
        sink_content(elems).len() >= 2,
        sink_content(elems.push(e)) == sink_content(elems).take(
            sink_content(elems).len() - 2,
        ) + if elems.len() == 0 {
            e + sink_footer()
        } else {
            seq![44u8, 10u8] + e + sink_footer()
        },
{
    let pushed = elems.push(e);
    assert(pushed.last() == e);
    if elems.len() == 0 {
        assert(sink_body(pushed) == e);
        assert(sink_content(elems).take(sink_content(elems).len() - 2) =~= sink_header());
        assert(sink_content(pushed) =~= sink_content(elems).take(sink_content(elems).len() - 2)
            + (e + sink_footer()));
    } else {
        assert(pushed.drop_last() =~= elems);
        assert(sink_body(pushed) == sink_body(elems) + sink_sep() + e);
        assert(sink_content(elems).take(sink_content(elems).len() - 2) =~= sink_header()
            + sink_body(elems) + seq![10u8]);
        assert(sink_content(pushed) =~= sink_content(elems).take(sink_content(elems).len() - 2)
            + (seq![44u8, 10u8] + e + sink_footer()));
    }
}

/// An in-memory image of the sink file, maintained element by element
/// exactly as the on-disk file is.
pub struct JsonSink {
    buf: Vec<u8>,
    count: usize,
    elems: Ghost<Seq<Seq<u8>>>,
}

impl JsonSink {
    /// The elements appended so far, in tick order.
    pub closed spec fn elems(&self) -> Seq<Seq<u8>> {
        self.elems@
    }

    /// The file image is the framed content of the appended elements.
    pub closed spec fn wf(&self) -> bool {
        self.buf@ == sink_content(self.elems@) && self.count == self.elems@.len()
    }

    /// A fresh sink: the empty array.
    pub fn new() -> (r: JsonSink)
        ensures
            r.wf(),
            r.elems() == Seq::<Seq<u8>>::empty(),
    {
        JsonSink { buf: sink_init_bytes(), count: 0, elems: Ghost(Seq::empty()) }
    }

    /// The current file image.
    pub fn bytes(&self) -> (r: &Vec<u8>)
        requires
            self.wf(),
        ensures
            r@ == sink_content(self.elems()),
    {
        &self.buf
    }

    /// Appends one element: the two closing bytes are replaced by the
    /// append patch, leaving a complete array again.
    pub fn append(&mut self, elem: &Vec<u8>)
        requires
            old(self).wf(),
            old(self).elems().len() < usize::MAX,
        ensures
            final(self).wf(),
            final(self).elems() == old(self).elems().push(elem@),
    {
        proof {
            lemma_sink_append(self.elems@, elem@);
        }
        let first = self.count == 0;
        let n = self.buf.len();
        self.buf.truncate(n - 2);
        let patch = sink_patch(first, elem);
        self.buf.extend_from_slice(patch.as_slice());
        self.count = self.count + 1;
        proof {
            self.elems@ = self.elems@.push(elem@);
            assert(old(self).buf@.subrange(0, old(self).buf@.len() - 2) =~= sink_content(
                old(self).elems(),
            ).take(sink_content(old(self).elems()).len() - 2));
            assert(self.buf@ =~= sink_content(self.elems@));
        }
    }
}

} // verus!

//! The path from the root of a query to what is being resolved, and the
//! identity of each step of the resolution.

use vstd::prelude::*;
use crate::text::{decimal, push_char, push_decimal, push_text};

verus! {

/// One segment of the path to what is being resolved.
#[derive(Debug, Clone, Copy)]
pub enum QueryPathSegment<'a> {
    /// An item of a list, by its index.
    Index(usize),
    /// A field of an object, by its key in the response.
    Name(&'a str),
}

/// The mathematical model of a [`QueryPathSegment`].
pub enum SegmentView {
    Index(int),
    Name(Seq<char>),
}

impl<'a> View for QueryPathSegment<'a> {
    type V = SegmentView;

    open spec fn view(&self) -> SegmentView {
        match self {
            QueryPathSegment::Index(index) => SegmentView::Index(*index as int),
            QueryPathSegment::Name(name) => SegmentView::Name(name@),
        }
    }
}

/// The text of a segment: the key of a field, the decimal numeral of an
/// index.
pub open spec fn segment_text(segment: SegmentView) -> Seq<char> {
    match segment {
        SegmentView::Index(index) => decimal(index as nat),
        SegmentView::Name(name) => name,
    }
}

/// The texts of `segments`, joined by dots.
pub open spec fn dotted(segments: Seq<SegmentView>) -> Seq<char>
    decreases segments.len(),
{
    if segments.len() == 0 {
        Seq::empty()
    } else if segments.len() == 1 {
        segment_text(segments[0])
    } else {
        dotted(segments.drop_last()) + seq!['.'] + segment_text(segments.last())
    }
}

impl<'a> QueryPathSegment<'a> {
    /// Appends the text of the segment to `out`.
    pub fn write_to(&self, out: &mut String)
        ensures
            final(out)@ == old(out)@ + segment_text(self@),
    {
        match self {
            QueryPathSegment::Index(index) => push_decimal(out, *index as u128),
            QueryPathSegment::Name(name) => push_text(out, name),
        }
    }

    /// The text of the segment.
    pub fn to_string(&self) -> (r: String)
        ensures
            r@ == segment_text(self@),
    {
        let mut out = String::new();
        self.write_to(&mut out);
        assert(out@ =~= segment_text(self@));
        out
    }
}

/// The path to what is being resolved, as a list linked from its last
/// segment back to the root. A node borrows its parent and owns nothing.
#[derive(Debug, Clone, Copy)]
pub struct QueryPathNode<'a> {
    /// The node of the segment before this one, if there is one.
    pub parent: Option<&'a QueryPathNode<'a>>,
    /// The last segment of the path.
    pub segment: QueryPathSegment<'a>,
}

impl<'a> QueryPathNode<'a> {
    /// The segments of the path, from the root to this node.
    pub open spec fn segments(&self) -> Seq<SegmentView>
        decreases self,
    {
        match self.parent {
            None => seq![self.segment@],
            Some(parent) => parent.segments().push(self.segment@),
        }
    }

    /// The key of the nearest field on the way from this node back to the
    /// root, if the path holds a field.
    pub open spec fn nearest_name(&self) -> Option<Seq<char>>
        decreases self,
    {
        match self.segment {
            QueryPathSegment::Name(name) => Some(name@),
            QueryPathSegment::Index(_) => match self.parent {
                None => None,
                Some(parent) => parent.nearest_name(),
            },
        }
    }

    /// The key of the field that is being resolved: the nearest field on
    /// the way from this node back to the root.
    pub fn field_name(&self) -> (r: &'a str)
        requires
            self.nearest_name() is Some,
        ensures
            Some(r@) == self.nearest_name(),
        decreases self,
    {
        match self.segment {
            QueryPathSegment::Name(name) => name,
            QueryPathSegment::Index(_) => match self.parent {
                Some(parent) => parent.field_name(),
                None => {
                    assert(false);
                    ""
                },
            },
        }
    }

    /// The key of the field that is being resolved, if the path holds a
    /// field.
    pub fn field_name_opt(&self) -> (r: Option<&'a str>)
        ensures
            match self.nearest_name() {
                Some(name) => r is Some && r->Some_0@ == name,
                None => r is None,
            },
        decreases self,
    {
        match self.segment {
            QueryPathSegment::Name(name) => Some(name),
            QueryPathSegment::Index(_) => match self.parent {
                Some(parent) => parent.field_name_opt(),
                None => None,
            },
        }
    }

    fn collect(&self, out: &mut Vec<String>)
        ensures
            final(out)@.len() == old(out)@.len() + self.segments().len(),
            forall|i: int| 0 <= i < old(out)@.len() ==> final(out)@[i] == old(out)@[i],
            forall|k: int|
                old(out)@.len() <= k < final(out)@.len() ==> (#[trigger] final(out)@[k])@
                    == segment_text(self.segments()[k - old(out)@.len()]),
        decreases self,
    {
        if let Some(parent) = self.parent {
            parent.collect(out);
        }
        out.push(self.segment.to_string());
    }

    fn gather(&self, out: &mut Vec<QueryPathSegment<'a>>)
        ensures
            final(out)@.len() == old(out)@.len() + self.segments().len(),
            forall|k: int| 0 <= k < old(out)@.len() ==> final(out)@[k] == old(out)@[k],
            forall|k: int|
                old(out)@.len() <= k < final(out)@.len() ==> (#[trigger] final(out)@[k])@
                    == self.segments()[k - old(out)@.len()],
        decreases self,
    {
        if let Some(parent) = self.parent {
            parent.gather(out);
        }
        out.push(self.segment);
    }

    /// The segments of the path, from the root to this node.
    pub fn to_segments(&self) -> (r: Vec<QueryPathSegment<'a>>)
        ensures
            r@.len() == self.segments().len(),
            forall|i: int| 0 <= i < r@.len() ==> (#[trigger] r@[i])@ == self.segments()[i],
    {
        let mut out: Vec<QueryPathSegment<'a>> = Vec::new();
        self.gather(&mut out);
        out
    }

    /// The segments of the path as strings, from the root to this node; an
    /// index is written as its decimal numeral.
    pub fn to_string_vec(&self) -> (r: Vec<String>)
        ensures
            r@.len() == self.segments().len(),
            forall|i: int|
                0 <= i < r@.len() ==> (#[trigger] r@[i])@ == segment_text(self.segments()[i]),
    {
        let mut out: Vec<String> = Vec::new();
        self.collect(&mut out);
        out
    }

    fn write_to(&self, out: &mut String)
        ensures
            final(out)@ == old(out)@ + dotted(self.segments()),
        decreases self,
    {
        match self.parent {
            Some(parent) => {
                parent.write_to(out);
                push_char(out, '.');
                self.segment.write_to(out);
                proof {
                    parent.lemma_segments_len();
                    assert(self.segments().drop_last() =~= parent.segments());
                    assert(out@ =~= old(out)@ + dotted(self.segments()));
                }
            },
            None => {
                self.segment.write_to(out);
            },
        }
    }

    /// The path as text: its segments from the root to this node, joined by
    /// dots.
    pub fn to_string(&self) -> (r: String)
        ensures
            r@ == dotted(self.segments()),
    {
        let mut out = String::new();
        self.write_to(&mut out);
        assert(out@ =~= dotted(self.segments()));
        out
    }

    /// A path has at least one segment.
    pub proof fn lemma_segments_len(&self)
        ensures
            self.segments().len() >= 1,
        decreases self,
    {
        if let Some(parent) = self.parent {
            parent.lemma_segments_len();
        }
    }

    /// The parents of the node, from the nearest to the root.
    pub fn parents(&self) -> (r: Parents<'_>)
        ensures
            *r.current_node() == *self,
    {
        Parents(self)
    }
}

/// A walk over the parents of a [`QueryPathNode`], from the nearest to the
/// root.
#[derive(Debug, Clone)]
pub struct Parents<'a>(&'a QueryPathNode<'a>);

impl<'a> Parents<'a> {
    /// The node whose parent the next step of the walk gives.
    pub closed spec fn current_node(&self) -> &'a QueryPathNode<'a> {
        self.0
    }

    /// The node whose parent the next call of `next` gives.
    pub fn current(&self) -> (r: &'a QueryPathNode<'a>)
        ensures
            r == self.current_node(),
    {
        self.0
    }

    /// Steps to the parent of the current node and returns it. At the root
    /// the walk stays where it is and returns none.
    pub fn next(&mut self) -> (r: Option<&'a QueryPathNode<'a>>)
        ensures
            r == old(self).current_node().parent,
            match r {
                Some(parent) => final(self).current_node() == parent,
                None => final(self).current_node() == old(self).current_node(),
            },
    {
        let parent = self.0.parent;
        if let Some(parent) = parent {
            self.0 = parent;
        }
        parent
    }
}

/// The identity of one step of the resolution.
#[derive(Debug, Clone, Copy, PartialEq, Eq, Structural)]
pub struct ResolveId {
    /// The identity of the step that this one descends from, if there is
    /// one.
    pub parent: Option<usize>,
    /// The identity of this step.
    pub current: usize,
}

/// The text of a [`ResolveId`]: `parent:current`, or `current` alone at the
/// root.
pub open spec fn resolve_id_text(id: ResolveId) -> Seq<char> {
    match id.parent {
        Some(parent) => decimal(parent as nat) + seq![':'] + decimal(id.current as nat),
        None => decimal(id.current as nat),
    }
}

impl ResolveId {
    /// The identity of the root: number zero, without a parent.
    pub fn root() -> (r: ResolveId)
        ensures
            r == (ResolveId { parent: None, current: 0 }),
    {
        ResolveId { parent: None, current: 0 }
    }

    /// The identity of a step below `self`, given the value that the
    /// counter of the query held before it was incremented.
    pub fn child(&self, counter_before: usize) -> (r: ResolveId)
        ensures
            r.parent == Some(self.current),
            r.current as int == if counter_before == usize::MAX {
                0
            } else {
                counter_before + 1
            },
    {
        ResolveId { parent: Some(self.current), current: counter_before.wrapping_add(1) }
    }

    /// The text of the identity.
    pub fn to_string(&self) -> (r: String)
        ensures
            r@ == resolve_id_text(*self),
    {
        let mut out = String::new();
        if let Some(parent) = self.parent {
            push_decimal(&mut out, parent as u128);
            push_char(&mut out, ':');
        }
        push_decimal(&mut out, self.current as u128);
        assert(out@ =~= resolve_id_text(*self));
        out
    }
}

} // verus!

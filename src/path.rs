//! Paths as they appear in type positions and in the annotation.
use vstd::prelude::*;

verus! {

/// One segment of a path: its identifier and the text of its generic
/// arguments, empty when the segment carries none.
pub struct PathSegment {
    pub ident: String,
    pub args: String,
}

/// A path such as `i32`, `std::string::String` or `Vec<u8>`.
pub struct TypePath {
    pub leading_colon: bool,
    pub segments: Vec<PathSegment>,
}

/// A path is bare when it has at least one segment and none of its segments
/// carries generic arguments.
pub open spec fn is_bare(segs: Seq<PathSegment>) -> bool {
    &&& segs.len() > 0
    &&& forall|i: int| 0 <= i < segs.len() ==> (#[trigger] segs[i]).args@.len() == 0
}

/// The simple name of a path: the identifier of its final segment, defined
/// only for a bare path. Qualifiers in front of it play no part.
pub open spec fn simple_name_of(segs: Seq<PathSegment>) -> Option<Seq<char>> {
    if is_bare(segs) {
        Some(segs.last().ident@)
    } else {
        None
    }
}

/// Two paths name the same type for this facility when both have a simple name
/// and the names are the same text.
pub open spec fn same_simple_name(a: Seq<PathSegment>, b: Seq<PathSegment>) -> bool {
    &&& simple_name_of(a) is Some
    &&& simple_name_of(a) == simple_name_of(b)
}

/// The text of a segment: its identifier followed by its arguments.
pub open spec fn segment_text(s: PathSegment) -> Seq<char> {
    s.ident@ + s.args@
}

/// The segments' texts joined by `::`.
pub open spec fn segments_text(segs: Seq<PathSegment>) -> Seq<char>
    decreases segs.len(),
{
    if segs.len() == 0 {
        Seq::empty()
    } else if segs.len() == 1 {
        segment_text(segs[0])
    } else {
        segments_text(segs.drop_last()) + "::"@ + segment_text(segs.last())
    }
}

impl TypePath {
    pub open spec fn segs(&self) -> Seq<PathSegment> {
        self.segments@
    }

    /// The source text of the path.
    pub open spec fn text(&self) -> Seq<char> {
        if self.leading_colon {
            "::"@ + segments_text(self.segs())
        } else {
            segments_text(self.segs())
        }
    }

    /// Whether the path is bare (see `is_bare`).
    pub fn is_bare(&self) -> (r: bool)
        ensures
            r == is_bare(self.segs()),
    {
        if self.segments.len() == 0 {
            return false;
        }
        let mut i: usize = 0;
        while i < self.segments.len()
            invariant
                i <= self.segs().len(),
                forall|k: int| 0 <= k < i ==> (#[trigger] self.segs()[k]).args@.len() == 0,
            decreases self.segs().len() - i,
        {
            if !(self.segments[i].args == String::new()) {
                proof {
                    if self.segs()[i as int].args@.len() == 0 {
                        assert(self.segs()[i as int].args@ =~= Seq::<char>::empty());
                    }
                }
                return false;
            }
            i = i + 1;
        }
        true
    }

    /// The simple name of the path, if it is bare.
    pub fn simple_name(&self) -> (r: Option<&String>)
        ensures
            match r {
                Some(s) => simple_name_of(self.segs()) == Some(s@),
                None => simple_name_of(self.segs()) is None,
            },
    {
        if self.is_bare() {
            Some(&self.segments[self.segments.len() - 1].ident)
        } else {
            None
        }
    }

    /// Whether this path and `other` have the same simple name.
    pub fn same_simple_name(&self, other: &TypePath) -> (r: bool)
        ensures
            r == same_simple_name(self.segs(), other.segs()),
    {
        match (self.simple_name(), other.simple_name()) {
            (Some(a), Some(b)) => *a == *b,
            _ => false,
        }
    }

    /// The source text of the path, segments joined by `::`.
    pub fn render(&self) -> (r: String)
        ensures
            r@ == self.text(),
    {
        let mut out = if self.leading_colon {
            String::from_str("::")
        } else {
            String::new()
        };
        let ghost prefix = out@;
        let mut i: usize = 0;
        while i < self.segments.len()
            invariant
                i <= self.segs().len(),
                out@ == prefix + segments_text(self.segs().subrange(0, i as int)),
            decreases self.segs().len() - i,
        {
            if i > 0 {
                out.append("::");
            }
            out.append(self.segments[i].ident.as_str());
            out.append(self.segments[i].args.as_str());
            proof {
                let s = self.segs().subrange(0, i + 1);
                assert(s.drop_last() =~= self.segs().subrange(0, i as int));
            }
            i = i + 1;
        }
        proof {
            assert(self.segs().subrange(0, i as int) =~= self.segs());
        }
        out
    }
}

} // verus!

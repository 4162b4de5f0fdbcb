use vstd::prelude::*;

verus! {

/// A unique identifier for a code source, handed out by the
/// [`SourceManager`](crate::source::SourceManager).
///
/// The identifier `u32::MAX` is reserved: it stands for the absence of a source.
#[derive(Debug, Clone, Copy, PartialEq, Eq, Structural, Hash)]
pub struct CodeSourceId(u32);

impl CodeSourceId {
    pub closed spec fn spec_zero() -> CodeSourceId {
        CodeSourceId(0)
    }

    /// The identifier of the first source registered in a manager.
    pub fn zero() -> (r: Self)
        ensures
            r.spec_value() == 0,
            r == CodeSourceId::spec_zero(),
    {
        CodeSourceId(0)
    }

    /// The identifier `id`.
    pub closed spec fn spec_value(self) -> u32 {
        self.0
    }

    /// Two identifiers are equal exactly when their values are.
    pub broadcast proof fn lemma_value_injective(a: CodeSourceId, b: CodeSourceId)
        ensures
            #[trigger] a.spec_value() == #[trigger] b.spec_value() <==> a == b,
    {
    }

    pub fn new(id: u32) -> (r: Self)
        ensures
            r.spec_value() == id,
    {
        CodeSourceId(id)
    }

    /// The reserved identifier that stands for "no source".
    pub fn void() -> (r: Self)
        ensures
            r.spec_value() == u32::MAX,
    {
        CodeSourceId(u32::MAX)
    }

    pub fn value(&self) -> (r: u32)
        ensures
            r == self.spec_value(),
    {
        self.0
    }
}

impl CodeSourceId {
    /// The identifier whose value is `id`.
    pub closed spec fn spec_from_value(id: u32) -> CodeSourceId {
        CodeSourceId(id)
    }

    /// An identifier made from a value gives that value back.
    pub proof fn lemma_from_value(id: u32)
        ensures
            CodeSourceId::spec_from_value(id).spec_value() == id,
    {
    }
}

impl From<u32> for CodeSourceId {
    fn from(id: u32) -> (r: CodeSourceId) {
        CodeSourceId(id)
    }
}

impl vstd::std_specs::convert::FromSpecImpl<u32> for CodeSourceId {
    open spec fn obeys_from_spec() -> bool {
        true
    }

    open spec fn from_spec(id: u32) -> CodeSourceId {
        CodeSourceId::spec_from_value(id)
    }
}

impl From<CodeSourceId> for u32 {
    fn from(id: CodeSourceId) -> (r: u32) {
        id.0
    }
}

impl vstd::std_specs::convert::FromSpecImpl<CodeSourceId> for u32 {
    open spec fn obeys_from_spec() -> bool {
        true
    }

    open spec fn from_spec(id: CodeSourceId) -> u32 {
        id.spec_value()
    }
}

/// A line / column position in a source file (both counted from 1).
#[derive(Debug, Clone, Copy, PartialEq, Eq, Structural, Hash)]
pub struct Cursor {
    pub line: usize,
    pub column: usize,
}

impl Cursor {
    pub fn new(line: usize, column: usize) -> (r: Self)
        ensures
            r == (Cursor { line, column }),
    {
        Cursor { line, column }
    }

    /// The cursor at line 0, column 0, used where no position is known.
    pub fn zero() -> (r: Self)
        ensures
            r == (Cursor { line: 0, column: 0 }),
    {
        Cursor { line: 0, column: 0 }
    }
}

/// A half-open byte range `start..end` inside the source `source_id`.
#[derive(Debug, Clone, Copy, PartialEq, Eq, Structural, Hash)]
pub struct Span {
    pub source_id: CodeSourceId,
    pub start: u32,
    pub end: u32,
}

pub open spec fn min_u32(a: u32, b: u32) -> u32 {
    if a <= b { a } else { b }
}

pub open spec fn max_u32(a: u32, b: u32) -> u32 {
    if a >= b { a } else { b }
}

impl Span {
    /// The smallest span with the source of `self` that covers `self` and `other`.
    pub open spec fn spec_merged(self, other: Span) -> Span {
        Span {
            source_id: self.source_id,
            start: min_u32(self.start, other.start),
            end: max_u32(self.end, other.end),
        }
    }

    pub open spec fn spec_maybe_merged(self, other: Option<Span>) -> Span {
        match other {
            Some(o) => self.spec_merged(o),
            None => self,
        }
    }

    /// `self` covers every byte that `other` covers (in the same source).
    pub open spec fn covers(self, other: Span) -> bool {
        self.start <= other.start && other.end <= self.end
    }

    pub fn new(source_id: CodeSourceId, start: u32, end: u32) -> (r: Self)
        ensures
            r == (Span { source_id, start, end }),
    {
        Span { source_id, start, end }
    }

    /// The empty span at offset 0 of the absent source.
    pub fn void() -> (r: Self)
        ensures
            r.source_id.spec_value() == u32::MAX,
            r.start == 0,
            r.end == 0,
    {
        Span { source_id: CodeSourceId::void(), start: 0, end: 0 }
    }

    pub fn merge(&mut self, other: &Span)
        ensures
            *final(self) == old(self).spec_merged(*other),
    {
        let start = if self.start <= other.start { self.start } else { other.start };
        let end = if self.end >= other.end { self.end } else { other.end };
        self.start = start;
        self.end = end;
    }

    pub fn merged(&self, other: &Span) -> (r: Span)
        ensures
            r == self.spec_merged(*other),
    {
        Span {
            source_id: self.source_id,
            start: if self.start <= other.start { self.start } else { other.start },
            end: if self.end >= other.end { self.end } else { other.end },
        }
    }

    pub fn maybe_merge(&mut self, other: Option<&Span>)
        ensures
            *final(self) == old(self).spec_maybe_merged(
                match other {
                    Some(o) => Some(*o),
                    None => None,
                },
            ),
    {
        if let Some(other) = other {
            self.merge(other);
        }
    }

    pub fn maybe_merged(&self, other: Option<&Span>) -> (r: Span)
        ensures
            r == self.spec_maybe_merged(
                match other {
                    Some(o) => Some(*o),
                    None => None,
                },
            ),
    {
        if let Some(other) = other {
            self.merged(other)
        } else {
            *self
        }
    }

    /// The number of bytes the span covers; a span never ends before it starts.
    pub fn len(&self) -> (r: u32)
        requires
            self.start <= self.end,
        ensures
            r == self.end - self.start,
    {
        self.end - self.start
    }

    pub fn as_range(&self) -> (r: std::ops::Range<usize>)
        ensures
            r.start == self.start as usize,
            r.end == self.end as usize,
    {
        (self.start as usize)..(self.end as usize)
    }
}

/// Merging two spans gives a span that covers both.
pub proof fn lemma_merged_covers(a: Span, b: Span)
    ensures
        a.spec_merged(b).covers(a),
        a.spec_merged(b).covers(b),
        a.spec_merged(b).source_id == a.source_id,
{
}

/// Merging is associative, and merging in the other order covers the same bytes.
pub proof fn lemma_merged_associative_commutative(a: Span, b: Span, c: Span)
    ensures
        a.spec_merged(b).spec_merged(c) == a.spec_merged(b.spec_merged(c)),
        a.spec_merged(b).start == b.spec_merged(a).start,
        a.spec_merged(b).end == b.spec_merged(a).end,
{
}

/// Merging a span into a span that already covers it changes nothing.
pub proof fn lemma_merged_absorbs(a: Span, b: Span)
    requires
        a.covers(b),
    ensures
        a.spec_merged(b) == a,
{
}

} // verus!

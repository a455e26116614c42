use vstd::prelude::*;

verus! {

/// Identifier of a module of the project (an index into the project's module list).
pub type ModuleId = usize;

/// A half-open byte range `start..end` in a module's source text.
#[derive(Clone, Copy, Debug, PartialEq, Eq, Structural)]
pub struct Span {
    pub start: u32,
    pub end: u32,
}

impl Span {
    pub fn new(start: u32, end: u32) -> (r: Span)
        ensures
            r.start == start,
            r.end == end,
    {
        Span { start, end }
    }
}

/// A span together with the module it belongs to.
#[derive(Clone, Copy, Debug, PartialEq, Eq, Structural)]
pub struct Location {
    pub module: ModuleId,
    pub span: Span,
}

/// The smaller of two offsets.
pub open spec fn min_u32(a: u32, b: u32) -> u32 {
    if a <= b { a } else { b }
}

/// The larger of two offsets.
pub open spec fn max_u32(a: u32, b: u32) -> u32 {
    if a >= b { a } else { b }
}

/// The smallest location covering `a` and `b`, in `a`'s module.
pub open spec fn merged(a: Location, b: Location) -> Location {
    Location {
        module: a.module,
        span: Span { start: min_u32(a.span.start, b.span.start), end: max_u32(a.span.end, b.span.end) },
    }
}

/// The one-byte location right after `l`.
pub open spec fn incremented(l: Location) -> Location {
    Location { module: l.module, span: Span { start: l.span.end, end: (l.span.end + 1) as u32 } }
}

/// The one-byte location right before `l`.
pub open spec fn decremented(l: Location) -> Location {
    Location { module: l.module, span: Span { start: (l.span.start - 1) as u32, end: l.span.start } }
}

impl Location {
    pub fn new(module: ModuleId, span: Span) -> (r: Location)
        ensures
            r.module == module,
            r.span == span,
    {
        Location { module, span }
    }

    /// The placeholder location.
    pub open spec fn dummy_spec() -> Location {
        Location { module: 0, span: Span { start: 0, end: 0 } }
    }

    /// A placeholder location, used where no source position exists.
    pub fn dummy() -> (r: Location)
        ensures
            r == Location::dummy_spec(),
    {
        Location { module: 0, span: Span { start: 0, end: 0 } }
    }

    /// A span is well formed when it does not end before it starts.
    pub open spec fn wf(self) -> bool {
        self.span.start <= self.span.end
    }

    /// The smallest location covering both `a` and `b` (in `a`'s module).
    pub fn merge(a: Location, b: Location) -> (r: Location)
        ensures
            r.module == a.module,
            r.span.start == min_u32(a.span.start, b.span.start),
            r.span.end == max_u32(a.span.end, b.span.end),
            r == merged(a, b),
    {
        let start = if a.span.start <= b.span.start { a.span.start } else { b.span.start };
        let end = if a.span.end >= b.span.end { a.span.end } else { b.span.end };
        Location { module: a.module, span: Span { start, end } }
    }

    /// The one-byte location right after this one.
    pub fn increment(self) -> (r: Location)
        requires
            self.span.end < u32::MAX,
        ensures
            r.module == self.module,
            r.span.start == self.span.end,
            r.span.end == self.span.end + 1,
            r == incremented(self),
    {
        Location { module: self.module, span: Span { start: self.span.end, end: self.span.end + 1 } }
    }

    /// The one-byte location right before this one.
    pub fn decrement(self) -> (r: Location)
        requires
            self.span.start > 0,
        ensures
            r.module == self.module,
            r.span.start == self.span.start - 1,
            r.span.end == self.span.start,
            r == decremented(self),
    {
        Location {
            module: self.module,
            span: Span { start: self.span.start - 1, end: self.span.start },
        }
    }

    /// The location of the `n`-th byte of this location.
    pub fn nth_char(self, n: u32) -> (r: Location)
        requires
            self.span.start + n + 1 <= u32::MAX,
        ensures
            r.module == self.module,
            r.span.start == self.span.start + n,
            r.span.end == self.span.start + n + 1,
    {
        Location {
            module: self.module,
            span: Span { start: self.span.start + n, end: self.span.start + n + 1 },
        }
    }

    /// Whether this location lies inside `other`.
    pub fn is_within(&self, other: Location) -> (r: bool)
        ensures
            r == (self.module == other.module && other.span.start <= self.span.start
                && self.span.end <= other.span.end),
    {
        self.module == other.module && other.span.start <= self.span.start
            && self.span.end <= other.span.end
    }
}

} // verus!

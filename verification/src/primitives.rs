use vstd::prelude::*;

verus! {

/// Seed value that identifies one organism's genome.
#[derive(Clone, Copy, Debug, PartialEq, Eq, Structural, Hash)]
pub struct GenomeSeed(pub u64);

/// All scalar geometry in this crate is fixed-point: one spatial unit is
/// `SCALE` ticks, so `1500` means one and a half units.
pub const SCALE: i64 = 1000;

/// Largest magnitude a bone length may take, in ticks.
pub const MAX_LENGTH: i64 = 1_000_000_000;

/// A strictly positive bone length in fixed-point ticks, capped so that
/// sums and scaled products of lengths stay inside `i64`.
#[derive(Clone, Copy, Debug, PartialEq, Eq, Structural, Hash)]
pub struct Length(i64);

impl Length {
    #[verifier::type_invariant]
    pub closed spec fn inv(self) -> bool {
        0 < self.0 <= MAX_LENGTH
    }

    pub closed spec fn spec_value(self) -> i64 {
        self.0
    }

    /// The length value with the given tick count, for use in specifications.
    pub closed spec fn spec_new(value: i64) -> Length {
        Length(value)
    }

    pub fn new(value: i64) -> (r: Option<Length>)
        ensures
            r is Some <==> 0 < value <= MAX_LENGTH,
            r is Some ==> r->0 == Length::spec_new(value),
            r is Some ==> r->0.spec_value() == value,
    {
        if 0 < value && value <= MAX_LENGTH {
            Some(Length(value))
        } else {
            None
        }
    }

    pub fn value(self) -> (r: i64)
        ensures
            r == self.spec_value(),
            0 < r <= MAX_LENGTH,
    {
        proof {
            use_type_invariant(self);
        }
        self.0
    }

    /// What `spec_new` denotes, made visible outside this module.
    pub proof fn lemma_spec_new_value(value: i64)
        ensures
            Length::spec_new(value).spec_value() == value,
    {
    }

}

/// A value in the closed unit interval, in fixed-point ticks (`0 ..= SCALE`).
#[derive(Clone, Copy, Debug, PartialEq, Eq, Structural, Hash)]
pub struct Normalized(i64);

impl Normalized {
    pub closed spec fn spec_value(self) -> i64 {
        self.0
    }

    pub fn new(value: i64) -> (r: Option<Normalized>)
        ensures
            r is Some <==> 0 <= value <= SCALE,
            r is Some ==> r->0.spec_value() == value,
    {
        if 0 <= value && value <= SCALE {
            Some(Normalized(value))
        } else {
            None
        }
    }

    pub fn value(self) -> (r: i64)
        ensures
            r == self.spec_value(),
    {
        self.0
    }
}

/// An angle in fixed-point milliradians.
#[derive(Clone, Copy, Debug, PartialEq, Eq, Structural, Hash)]
pub struct Radians(i64);

impl Radians {
    pub closed spec fn spec_value(self) -> i64 {
        self.0
    }

    pub fn new(value: i64) -> (r: Radians)
        ensures
            r.spec_value() == value,
    {
        Radians(value)
    }

    pub fn value(self) -> (r: i64)
        ensures
            r == self.spec_value(),
    {
        self.0
    }
}

/// A small cardinality, as used for vertebra and branch counts.
#[derive(Clone, Copy, Debug, PartialEq, Eq, Structural, Hash)]
pub struct Count(u8);

impl Count {
    pub closed spec fn spec_value(self) -> u8 {
        self.0
    }

    pub fn new(value: u8) -> (r: Count)
        ensures
            r.spec_value() == value,
    {
        Count(value)
    }

    pub fn value(self) -> (r: u8)
        ensures
            r == self.spec_value(),
    {
        self.0
    }
}

/// An inclusive pair of bounds for sampling a value.
#[derive(Clone, Copy, Debug)]
pub struct ValueRange<T> {
    pub min: T,
    pub max: T,
}

/// Position of a vertebra within the spine, counted from the head.
#[derive(Clone, Copy, Debug, PartialEq, Eq, Structural, Hash)]
pub struct VertebraIndex(pub u8);

/// An inclusive range of positions, kept as its two endpoints.
#[derive(Clone, Copy, Debug, PartialEq, Eq, Structural, Hash)]
pub struct InclusiveRange<T> {
    pub start: T,
    pub end: T,
}

impl<T: Copy> InclusiveRange<T> {
    pub fn new(start: T, end: T) -> (r: InclusiveRange<T>)
        ensures
            r.start == start,
            r.end == end,
    {
        InclusiveRange { start, end }
    }

    pub fn start(&self) -> (r: T)
        ensures
            r == self.start,
    {
        self.start
    }

    pub fn end(&self) -> (r: T)
        ensures
            r == self.end,
    {
        self.end
    }
}

impl InclusiveRange<Count> {
    pub fn contains(&self, value: Count) -> (r: bool)
        ensures
            r == (self.start.spec_value() <= value.spec_value() <= self.end.spec_value()),
    {
        self.start.value() <= value.value() && value.value() <= self.end.value()
    }

    /// Every count from `start` to `end`, in order.
    pub fn iter(&self) -> (r: Vec<Count>)
        ensures
            self.start.spec_value() <= self.end.spec_value() ==> r@.len()
                == self.end.spec_value() - self.start.spec_value() + 1,
            self.start.spec_value() > self.end.spec_value() ==> r@.len() == 0,
            forall|k: int|
                0 <= k < r@.len() ==> (#[trigger] r@[k]).spec_value() == self.start.spec_value()
                    + k,
    {
        let mut out: Vec<Count> = Vec::new();
        let lo: u16 = self.start.value() as u16;
        let hi: u16 = self.end.value() as u16;
        if lo > hi {
            return out;
        }
        let mut v: u16 = lo;
        while v <= hi
            invariant
                lo <= v <= hi + 1,
                hi <= 255,
                lo == self.start.spec_value(),
                hi == self.end.spec_value(),
                out@.len() == v - lo,
                forall|k: int|
                    0 <= k < out@.len() ==> (#[trigger] out@[k]).spec_value() == lo + k,
            decreases hi + 1 - v,
        {
            out.push(Count::new(v as u8));
            v = v + 1;
        }
        out
    }
}

impl InclusiveRange<VertebraIndex> {
    pub fn contains(&self, value: VertebraIndex) -> (r: bool)
        ensures
            r == (self.start.0 <= value.0 <= self.end.0),
    {
        self.start.0 <= value.0 && value.0 <= self.end.0
    }

    /// Every index from `start` to `end`, in order.
    pub fn iter(&self) -> (r: Vec<VertebraIndex>)
        ensures
            self.start.0 <= self.end.0 ==> r@.len() == self.end.0 - self.start.0 + 1,
            self.start.0 > self.end.0 ==> r@.len() == 0,
            forall|k: int| 0 <= k < r@.len() ==> (#[trigger] r@[k]).0 == self.start.0 + k,
    {
        let mut out: Vec<VertebraIndex> = Vec::new();
        let lo: u16 = self.start.0 as u16;
        let hi: u16 = self.end.0 as u16;
        if lo > hi {
            return out;
        }
        let mut v: u16 = lo;
        while v <= hi
            invariant
                lo <= v <= hi + 1,
                hi <= 255,
                lo == self.start.0,
                hi == self.end.0,
                out@.len() == v - lo,
                forall|k: int| 0 <= k < out@.len() ==> (#[trigger] out@[k]).0 == lo + k,
            decreases hi + 1 - v,
        {
            out.push(VertebraIndex(v as u8));
            v = v + 1;
        }
        out
    }
}

/// A list that always holds at least one element.
#[derive(Clone, Debug)]
pub struct NonEmpty<T> {
    first: T,
    rest: Vec<T>,
}

impl<T> View for NonEmpty<T> {
    type V = Seq<T>;

    closed spec fn view(&self) -> Seq<T> {
        seq![self.first] + self.rest@
    }
}

impl<T> NonEmpty<T> {
    pub fn new(first: T) -> (r: NonEmpty<T>)
        ensures
            r@ =~= seq![first],
    {
        NonEmpty { first, rest: Vec::new() }
    }

    pub fn from_vec(vec: Vec<T>) -> (r: Option<NonEmpty<T>>)
        ensures
            r is Some <==> vec@.len() > 0,
            r is Some ==> r->0@ =~= vec@,
    {
        let mut vec = vec;
        if vec.len() == 0 {
            None
        } else {
            let first = vec.remove(0);
            Some(NonEmpty { first, rest: vec })
        }
    }

    pub fn push(&mut self, item: T)
        ensures
            final(self)@ =~= old(self)@.push(item),
    {
        self.rest.push(item);
    }

    pub fn first(&self) -> (r: &T)
        ensures
            *r == self@[0],
    {
        &self.first
    }

    /// Borrow the element at `index`.
    pub fn get(&self, index: usize) -> (r: &T)
        requires
            index < self@.len(),
        ensures
            *r == self@[index as int],
    {
        if index == 0 {
            &self.first
        } else {
            &self.rest[index - 1]
        }
    }

    /// All elements in order, borrowed.
    pub fn iter(&self) -> (r: Vec<&T>)
        ensures
            r@.len() == self@.len(),
            forall|k: int| 0 <= k < r@.len() ==> *(#[trigger] r@[k]) == self@[k],
    {
        let mut out: Vec<&T> = Vec::new();
        out.push(&self.first);
        let mut i: usize = 0;
        while i < self.rest.len()
            invariant
                i <= self.rest@.len(),
                out@.len() == i + 1,
                forall|k: int| 0 <= k < out@.len() ==> *(#[trigger] out@[k]) == self@[k],
            decreases self.rest@.len() - i,
        {
            out.push(&self.rest[i]);
            i = i + 1;
        }
        out
    }

    pub fn len(&self) -> (r: usize)
        requires
            self@.len() <= usize::MAX,
        ensures
            r == self@.len(),
    {
        1 + self.rest.len()
    }
}

} // verus!

//! Texts with numeric slots.
//!
//! A fault explains itself in words and in numbers that come out of
//! floating-point arithmetic or of a random distribution. The library fixes the
//! words, the quantities and the precision; whoever shows the text fills the
//! slots in.

use crate::faults::network::NoiseType;
use crate::scalar::Scalar;
use vstd::prelude::*;

verus! {

/// A random quantity, given by its distribution and the seed it is drawn with.
#[derive(Clone, Copy, Debug, PartialEq, Eq, Structural)]
pub enum Sample {
    /// Power law with the given exponent.
    PowerLaw { alpha: Scalar, seed: u64 },
    /// Pareto distribution.
    Pareto { alpha: Scalar, x_min: Scalar, seed: u64 },
    /// Log-normal distribution.
    LogNormal { mu: Scalar, sigma: Scalar, seed: u64 },
    /// Latency: log-normal around `base_ms`, with jitter from a noise generator.
    Latency { base_ms: Scalar, sigma: Scalar, noise: NoiseType, seed: u64 },
}

/// One piece of a [`Message`].
#[derive(Debug, PartialEq, Eq)]
pub enum Part {
    /// Literal text.
    Text(String),
    /// `value` with the given number of decimals.
    Fixed { value: Scalar, decimals: u8 },
    /// `value` times one hundred with the given number of decimals.
    Percent { value: Scalar, decimals: u8 },
    /// `value` times one hundred, bounded to `[0, 100]`, without decimals.
    BoundedPercent { value: Scalar },
    /// Natural logarithm of `value` with the given number of decimals.
    Log { value: Scalar, decimals: u8 },
    /// `left` times `right` with the given number of decimals.
    Product { left: Scalar, right: Scalar, decimals: u8 },
    /// Whole part of `ratio` times `whole`, zero if that is negative.
    Share { ratio: Scalar, whole: u64 },
    /// A random quantity with the given number of decimals.
    Sampled { sample: Sample, decimals: u8 },
}

/// Model of a [`Part`].
pub enum PartView {
    Text(Seq<char>),
    Fixed { value: Scalar, decimals: u8 },
    Percent { value: Scalar, decimals: u8 },
    BoundedPercent { value: Scalar },
    Log { value: Scalar, decimals: u8 },
    Product { left: Scalar, right: Scalar, decimals: u8 },
    Share { ratio: Scalar, whole: u64 },
    Sampled { sample: Sample, decimals: u8 },
}

impl View for Part {
    type V = PartView;

    open spec fn view(&self) -> PartView {
        match *self {
            Part::Text(s) => PartView::Text(s@),
            Part::Fixed { value, decimals } => PartView::Fixed { value, decimals },
            Part::Percent { value, decimals } => PartView::Percent { value, decimals },
            Part::BoundedPercent { value } => PartView::BoundedPercent { value },
            Part::Log { value, decimals } => PartView::Log { value, decimals },
            Part::Product { left, right, decimals } => PartView::Product { left, right, decimals },
            Part::Share { ratio, whole } => PartView::Share { ratio, whole },
            Part::Sampled { sample, decimals } => PartView::Sampled { sample, decimals },
        }
    }
}

impl Clone for Part {
    fn clone(&self) -> (r: Part)
        ensures
            r == *self,
    {
        match self {
            Part::Text(s) => Part::Text(s.clone()),
            Part::Fixed { value, decimals } => Part::Fixed { value: *value, decimals: *decimals },
            Part::Percent { value, decimals } => Part::Percent {
                value: *value,
                decimals: *decimals,
            },
            Part::BoundedPercent { value } => Part::BoundedPercent { value: *value },
            Part::Log { value, decimals } => Part::Log { value: *value, decimals: *decimals },
            Part::Product { left, right, decimals } => Part::Product {
                left: *left,
                right: *right,
                decimals: *decimals,
            },
            Part::Share { ratio, whole } => Part::Share { ratio: *ratio, whole: *whole },
            Part::Sampled { sample, decimals } => Part::Sampled {
                sample: *sample,
                decimals: *decimals,
            },
        }
    }
}

/// A text whose numbers are still to be filled in.
#[derive(Debug, PartialEq, Eq)]
pub struct Message {
    /// The pieces of the text in order.
    pub parts: Vec<Part>,
}

impl View for Message {
    type V = Seq<PartView>;

    open spec fn view(&self) -> Seq<PartView> {
        Seq::new(self.parts@.len(), |i: int| self.parts@[i]@)
    }
}

impl Clone for Message {
    fn clone(&self) -> (r: Message)
        ensures
            r@ == self@,
    {
        let r = Message { parts: self.parts.clone() };
        assert(r@ =~= self@);
        r
    }
}

impl Message {
    /// A message without pieces.
    pub fn new() -> (r: Message)
        ensures
            r@ == Seq::<PartView>::empty(),
    {
        let r = Message { parts: Vec::new() };
        assert(r@ =~= Seq::empty());
        r
    }

    /// A message that is one literal text.
    pub fn text(s: &str) -> (r: Message)
        ensures
            r@ == seq![PartView::Text(s@)],
    {
        let mut r = Message::new();
        r.push_text(s);
        assert(r@ =~= seq![PartView::Text(s@)]);
        r
    }

    /// Appends one piece.
    pub fn push(&mut self, part: Part)
        ensures
            final(self)@ == old(self)@.push(part@),
    {
        self.parts.push(part);
        assert(self@ =~= old(self)@.push(part@));
    }

    /// Appends literal text.
    pub fn push_text(&mut self, s: &str)
        ensures
            final(self)@ == old(self)@.push(PartView::Text(s@)),
    {
        self.push(Part::Text(s.to_owned()));
    }

    /// Appends all pieces of another message.
    pub fn extend(&mut self, other: &Message)
        ensures
            final(self)@ == old(self)@ + other@,
    {
        let mut i: usize = 0;
        while i < other.parts.len()
            invariant
                i <= other.parts@.len(),
                self@ =~= old(self)@ + other@.take(i as int),
            decreases other.parts@.len() - i,
        {
            let part = other.parts[i].clone();
            self.push(part);
            assert(other@.take(i + 1) =~= other@.take(i as int).push(other@[i as int]));
            i += 1;
        }
        assert(other@.take(other@.len() as int) =~= other@);
    }
}

} // verus!

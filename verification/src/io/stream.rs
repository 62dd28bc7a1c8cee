//! The mathematical model of a byte source: the bytes it has yet to yield.

use vstd::prelude::*;

verus! {

/// A finite run of bytes, as the specifications see it. Code that is not
/// verified names the type by this alias where it implements a source or a
/// sink.
pub type Data = Seq<u8>;

/// A length, as the specifications see it.
pub type Length = nat;

/// The bytes a source will yield from now on, in order: finitely many, or
/// one for every index.
pub enum Stream {
    Finite(Seq<u8>),
    Endless(spec_fn(nat) -> u8),
}

impl Stream {
    /// The stream that yields nothing.
    pub open spec fn empty() -> Stream {
        Stream::Finite(Seq::empty())
    }

    /// The stream that yields `byte` forever.
    pub open spec fn repeating(byte: u8) -> Stream {
        Stream::Endless(|i: nat| byte)
    }

    /// No byte is left.
    pub open spec fn at_end(self) -> bool {
        self matches Stream::Finite(s) && s.len() == 0
    }

    /// How many bytes are left, for a finite stream.
    pub open spec fn remaining(self) -> nat {
        match self {
            Stream::Finite(s) => s.len(),
            Stream::Endless(_) => 0,
        }
    }

    /// At least `n` bytes are left.
    pub open spec fn has(self, n: nat) -> bool {
        match self {
            Stream::Finite(s) => n <= s.len(),
            Stream::Endless(_) => true,
        }
    }

    /// The next `n` bytes.
    pub open spec fn prefix(self, n: nat) -> Seq<u8>
        recommends
            self.has(n),
    {
        match self {
            Stream::Finite(s) => s.take(n as int),
            Stream::Endless(f) => Seq::new(n, |i: int| f(i as nat)),
        }
    }

    /// What is left once the next `n` bytes are gone.
    pub open spec fn skip(self, n: nat) -> Stream
        recommends
            self.has(n),
    {
        match self {
            Stream::Finite(s) => Stream::Finite(s.skip(n as int)),
            Stream::Endless(f) => Stream::Endless(|i: nat| f(i + n)),
        }
    }

    /// The stream cut off after `limit` bytes.
    pub open spec fn capped(self, limit: nat) -> Stream {
        if self.has(limit) {
            Stream::Finite(self.prefix(limit))
        } else {
            self
        }
    }

    /// This stream followed, once it has ended, by `next`.
    pub open spec fn chain(self, next: Stream) -> Stream {
        match self {
            Stream::Finite(s) => match next {
                Stream::Finite(t) => Stream::Finite(s + t),
                Stream::Endless(g) => Stream::Endless(
                    |i: nat|
                        if i < s.len() {
                            s[i as int]
                        } else {
                            g((i - s.len()) as nat)
                        },
                ),
            },
            Stream::Endless(_) => self,
        }
    }

    /// `data` is what the stream yields on its way from `self` to `after`.
    pub open spec fn yields(self, data: Seq<u8>, after: Stream) -> bool {
        &&& self.has(data.len())
        &&& self.prefix(data.len()) == data
        &&& after == self.skip(data.len())
    }

    /// Skipping nothing changes nothing.
    pub proof fn lemma_skip_none(self)
        ensures
            self.skip(0) == self,
            self.prefix(0) == Seq::<u8>::empty(),
            self.has(0),
    {
        match self {
            Stream::Finite(s) => {
                assert(s.skip(0) =~= s);
            },
            Stream::Endless(f) => {
                assert((|i: nat| f(i + 0)) =~= f);
            },
        }
    }

    /// Two skips in a row are one skip of the sum, and the prefixes join.
    pub proof fn lemma_skip_twice(self, a: nat, b: nat)
        requires
            self.has(a),
            self.skip(a).has(b),
        ensures
            self.has(a + b),
            self.skip(a).skip(b) == self.skip(a + b),
            self.prefix(a + b) == self.prefix(a) + self.skip(a).prefix(b),
    {
        match self {
            Stream::Finite(s) => {
                assert(s.skip(a as int).skip(b as int) =~= s.skip((a + b) as int));
            },
            Stream::Endless(f) => {
                let g = |i: nat| f(i + a);
                assert((|i: nat| g(i + b)) =~= (|i: nat| f(i + (a + b) as nat)));
            },
        }
    }

    /// A stream that has `n` bytes has every smaller number of them, and the
    /// shorter prefix is the start of the longer.
    pub proof fn lemma_prefix_shorter(self, m: nat, n: nat)
        requires
            m <= n,
            self.has(n),
        ensures
            self.has(m),
            self.prefix(m) == self.prefix(n).take(m as int),
            self.skip(m).has((n - m) as nat),
    {
    }

    /// A capped stream is finite and no longer than its limit; cut from an
    /// endless stream it is exactly as long.
    pub proof fn lemma_capped_length(self, limit: nat)
        ensures
            self.capped(limit) matches Stream::Finite(t) && t.len() <= limit && (self.has(limit)
                ==> t.len() == limit),
            !self.capped(limit).has(limit + 1),
    {
    }

    /// The start of a capped stream is the start of the stream itself.
    pub proof fn lemma_capped_prefix(self, limit: nat, n: nat)
        requires
            n <= limit,
            self.has(n),
        ensures
            self.capped(limit).has(n),
            self.capped(limit).prefix(n) == self.prefix(n),
            self.capped(limit).skip(n) == self.skip(n).capped((limit - n) as nat),
    {
        if self.has(limit) {
            self.lemma_prefix_shorter(n, limit);
            self.lemma_skip_twice(n, (limit - n) as nat);
            assert(self.prefix(limit).skip(n as int) =~= self.skip(n).prefix((limit - n) as nat));
        }
    }

    /// While the first stream lasts, the chain yields what the first yields.
    pub proof fn lemma_chain_prefix(self, next: Stream, n: nat)
        requires
            self.has(n),
        ensures
            self.chain(next).has(n),
            self.chain(next).prefix(n) == self.prefix(n),
            self.chain(next).skip(n) == self.skip(n).chain(next),
    {
        match self {
            Stream::Finite(s) => match next {
                Stream::Finite(t) => {
                    assert((s + t).skip(n as int) =~= s.skip(n as int) + t);
                },
                Stream::Endless(g) => {
                    let joined = |i: nat|
                        if i < s.len() {
                            s[i as int]
                        } else {
                            g((i - s.len()) as nat)
                        };
                    let rest = s.skip(n as int);
                    let lhs = |i: nat| joined(i + n);
                    let rhs = |i: nat|
                        if i < rest.len() {
                            rest[i as int]
                        } else {
                            g((i - rest.len()) as nat)
                        };
                    assert(lhs =~= rhs);
                },
            },
            Stream::Endless(f) => {},
        }
    }

    /// Once the first stream has ended, the chain is the second stream.
    pub proof fn lemma_chain_ended(self, next: Stream)
        requires
            self.at_end(),
        ensures
            self.chain(next) == next,
    {
        if let (Stream::Finite(s), Stream::Endless(g)) = (self, next) {
            let joined = |i: nat|
                if i < s.len() {
                    s[i as int]
                } else {
                    g((i - s.len()) as nat)
                };
            assert(joined =~= g);
        }
    }

    /// A stream yields nothing on the way to itself.
    pub proof fn lemma_yields_nothing(self)
        ensures
            self.yields(Seq::empty(), self),
    {
        self.lemma_skip_none();
    }

    /// What a stream yields in two stretches, one after the other, it yields
    /// in one: however the bytes are split into reads, they come out the same.
    pub proof fn lemma_yields_joined(
        self,
        first: Seq<u8>,
        mid: Stream,
        second: Seq<u8>,
        after: Stream,
    )
        requires
            self.yields(first, mid),
            mid.yields(second, after),
        ensures
            self.yields(first + second, after),
    {
        self.lemma_skip_twice(first.len(), second.len());
    }
}

} // verus!

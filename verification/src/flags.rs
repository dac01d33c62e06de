//! The four kinds of activity a timestamp can stand for.

use vstd::prelude::*;
use vstd::string::StringExecFns;

verus! {

/// A subset of the timestamp kinds modified, accessed, changed and born.
#[derive(Clone, Copy, Debug, PartialEq, Eq, Structural)]
pub struct MACBFlags {
    /// The content was modified.
    pub m: bool,
    /// The object was accessed.
    pub a: bool,
    /// The metadata was changed.
    pub c: bool,
    /// The object was born (created).
    pub b: bool,
}

/// Mask bit of the modification time.
pub const M: u8 = 0b0001;

/// Mask bit of the access time.
pub const A: u8 = 0b0010;

/// Mask bit of the metadata change time.
pub const C: u8 = 0b0100;

/// Mask bit of the creation time.
pub const B: u8 = 0b1000;

impl MACBFlags {
    /// The value of the 4-bit mask in which `M`, `A`, `C` and `B` stand for
    /// the four kinds.
    pub open spec fn mask(self) -> int {
        (if self.m { 1int } else { 0 }) + (if self.a { 2int } else { 0 })
            + (if self.c { 4int } else { 0 }) + (if self.b { 8int } else { 0 })
    }

    /// No kind is set.
    pub open spec fn is_none(self) -> bool {
        !self.m && !self.a && !self.c && !self.b
    }

    /// How many kinds are set.
    pub open spec fn count(self) -> nat {
        ((if self.m { 1int } else { 0 }) + (if self.a { 1int } else { 0 })
            + (if self.c { 1int } else { 0 }) + (if self.b { 1int } else { 0 })) as nat
    }

    /// Every kind of `other` is a kind of `self`.
    pub open spec fn includes(self, other: MACBFlags) -> bool {
        &&& other.m ==> self.m
        &&& other.a ==> self.a
        &&& other.c ==> self.c
        &&& other.b ==> self.b
    }

    /// The kinds of `self` together with those of `other`.
    pub open spec fn join(self, other: MACBFlags) -> MACBFlags {
        MACBFlags {
            m: self.m || other.m,
            a: self.a || other.a,
            c: self.c || other.c,
            b: self.b || other.b,
        }
    }

    /// The four characters that render the set: the letter of each kind that
    /// is set, a dot for each that is not.
    pub open spec fn rendering(self) -> Seq<char> {
        seq![
            if self.m { 'm' } else { '.' },
            if self.a { 'a' } else { '.' },
            if self.c { 'c' } else { '.' },
            if self.b { 'b' } else { '.' },
        ]
    }

    /// The empty set.
    pub fn none() -> (res: MACBFlags)
        ensures
            res.is_none(),
    {
        MACBFlags { m: false, a: false, c: false, b: false }
    }

    /// The set holding all four kinds.
    pub fn all() -> (res: MACBFlags)
        ensures
            res == (MACBFlags { m: true, a: true, c: true, b: true }),
    {
        MACBFlags { m: true, a: true, c: true, b: true }
    }

    /// The set whose members are the kinds whose bit is set in `bits`;
    /// `None` if a bit outside the four is set.
    pub fn from_bits(bits: u8) -> (res: Option<MACBFlags>)
        ensures
            res is Some <==> bits < 16,
            res matches Some(f) ==> f.mask() == bits,
    {
        if bits >= 16 {
            return None;
        }
        let m = bits % 2 == 1;
        let a = (bits / 2) % 2 == 1;
        let c = (bits / 4) % 2 == 1;
        let b = (bits / 8) % 2 == 1;
        Some(MACBFlags { m, a, c, b })
    }

    /// The set as a 4-bit mask.
    pub fn bits(&self) -> (res: u8)
        ensures
            res == self.mask(),
            res < 16,
    {
        let mut bits: u8 = 0;
        if self.m {
            bits = bits + M;
        }
        if self.a {
            bits = bits + A;
        }
        if self.c {
            bits = bits + C;
        }
        if self.b {
            bits = bits + B;
        }
        bits
    }

    /// Whether no kind is set.
    pub fn is_empty(&self) -> (res: bool)
        ensures
            res == self.is_none(),
    {
        !self.m && !self.a && !self.c && !self.b
    }

    /// Whether every kind of `other` is set in `self`.
    pub fn contains(&self, other: MACBFlags) -> (res: bool)
        ensures
            res == self.includes(other),
    {
        (!other.m || self.m) && (!other.a || self.a) && (!other.c || self.c) && (!other.b
            || self.b)
    }

    /// The union of the two sets.
    pub fn union(self, other: MACBFlags) -> (res: MACBFlags)
        ensures
            res == self.join(other),
    {
        MACBFlags {
            m: self.m || other.m,
            a: self.a || other.a,
            c: self.c || other.c,
            b: self.b || other.b,
        }
    }

    /// Adds the kinds of `other` to `self`.
    pub fn insert(&mut self, other: MACBFlags)
        ensures
            *final(self) == old(self).join(other),
    {
        self.m = self.m || other.m;
        self.a = self.a || other.a;
        self.c = self.c || other.c;
        self.b = self.b || other.b;
    }

    /// Renders the set as four characters, `m`, `a`, `c` and `b` in this
    /// order, with a dot in the place of each kind that is not set.
    pub fn to_string(&self) -> (res: String)
        ensures
            res@ == self.rendering(),
    {
        proof {
            reveal_strlit("m");
            reveal_strlit("a");
            reveal_strlit("c");
            reveal_strlit("b");
            reveal_strlit(".");
        }
        let mut s = String::new();
        s.append(if self.m { "m" } else { "." });
        s.append(if self.a { "a" } else { "." });
        s.append(if self.c { "c" } else { "." });
        s.append(if self.b { "b" } else { "." });
        assert(s@ =~= self.rendering());
        s
    }
}

} // verus!

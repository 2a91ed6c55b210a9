use crate::numbers::{check_real, is_real, string_of};
use vstd::prelude::*;

verus! {

/// A real number of a geometry or material file, kept as the decimal text that the file
/// wrote for it; the text is always a real number in the sense of `is_real`, or `0`.
#[derive(Clone, Debug, PartialEq)]
pub struct Real {
    text: String,
}

impl View for Real {
    type V = Seq<char>;

    closed spec fn view(&self) -> Seq<char> {
        self.text@
    }
}

/// The texts of a sequence of reals.
pub open spec fn texts(a: Seq<Real>) -> Seq<Seq<char>> {
    a.map_values(|r: Real| r@)
}

/// The text `0`, which stands for an absent coordinate.
pub open spec fn zero_text() -> Seq<char> {
    seq!['0']
}

impl Real {
    /// Zero, the value of every coordinate of an absent attribute.
    pub fn zero() -> (r: Real)
        ensures
            r@ == zero_text(),
    {
        let z: Vec<char> = vec!['0'];
        Real { text: string_of(z.as_slice()) }
    }

    /// The real number that a token writes, if it writes one.
    pub fn from_token(tok: &[char]) -> (r: Option<Real>)
        ensures
            r is Some <==> is_real(tok@),
            r matches Some(x) ==> x@ == tok@,
    {
        if check_real(tok) {
            Some(Real { text: string_of(tok) })
        } else {
            None
        }
    }

    /// The decimal text of this number.
    pub fn as_str(&self) -> (r: &str)
        ensures
            r@ == self@,
    {
        self.text.as_str()
    }

    /// A second value with the same text.
    pub fn duplicate(&self) -> (r: Real)
        ensures
            r@ == self@,
    {
        Real { text: self.text.clone() }
    }
}

} // verus!

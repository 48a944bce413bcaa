use vstd::prelude::*;
use vstd::string::StringExecFns;

verus! {

/// Declared tensor shape: a vector of n elements, or an r-by-c matrix
/// stored in row-major order.
#[derive(PartialEq, Eq, Structural, Clone, Copy, Debug)]
pub enum Shape {
    D1(usize),
    D2(usize, usize),
}

impl Shape {
    /// How many scalar cells a tensor of this shape holds.
    pub open spec fn count(self) -> int {
        match self {
            Shape::D1(n) => n as int,
            Shape::D2(r, c) => r as int * c as int,
        }
    }

    /// Element count as a machine integer; `None` when the product does
    /// not fit in `usize`.
    pub fn element_count(&self) -> (r: Option<usize>)
        ensures
            match r {
                Some(n) => n == self.count(),
                None => self.count() > usize::MAX,
            },
    {
        match self {
            Shape::D1(n) => Some(*n),
            Shape::D2(r, c) => r.checked_mul(*c),
        }
    }

    /// Decimal digits of `n`, most significant first.
    pub open spec fn dec_digits(n: int) -> Seq<char>
        decreases n,
    {
        if n <= 9 {
            seq![digit_char(n)]
        } else {
            Self::dec_digits(n / 10).push(digit_char(n % 10))
        }
    }

    /// The textual rendering this type's `to_string` produces.
    pub open spec fn rendered(self) -> Seq<char> {
        match self {
            Shape::D1(n) => "Shape::D1("@ + Self::dec_digits(n as int) + ")"@,
            Shape::D2(r, c) => "Shape::D2("@ + Self::dec_digits(r as int) + ", "@
                + Self::dec_digits(c as int) + ")"@,
        }
    }

    /// Renders the shape for diagnostics, e.g. `Shape::D2(2, 3)`.
    pub fn to_string(&self) -> (r: String)
        ensures
            r@ == self.rendered(),
    {
        let mut s = String::new();
        match self {
            Shape::D1(n) => {
                s.append("Shape::D1(");
                append_usize(&mut s, *n);
                s.append(")");
                proof {
                    assert(s@ =~= self.rendered());
                }
            },
            Shape::D2(rr, cc) => {
                s.append("Shape::D2(");
                append_usize(&mut s, *rr);
                s.append(", ");
                append_usize(&mut s, *cc);
                s.append(")");
                proof {
                    assert(s@ =~= self.rendered());
                }
            },
        }
        s
    }
}

/// The character for one decimal digit.
pub open spec fn digit_char(d: int) -> char {
    if d == 0 { '0' }
    else if d == 1 { '1' }
    else if d == 2 { '2' }
    else if d == 3 { '3' }
    else if d == 4 { '4' }
    else if d == 5 { '5' }
    else if d == 6 { '6' }
    else if d == 7 { '7' }
    else if d == 8 { '8' }
    else { '9' }
}

/// Appends the textual form of one decimal digit.
fn append_digit(s: &mut String, d: usize)
    requires
        d <= 9,
    ensures
        final(s)@ == old(s)@.push(digit_char(d as int)),
{
    let lit: &str = match d {
        0 => "0",
        1 => "1",
        2 => "2",
        3 => "3",
        4 => "4",
        5 => "5",
        6 => "6",
        7 => "7",
        8 => "8",
        _ => "9",
    };
    proof {
        reveal_strlit("0");
        reveal_strlit("1");
        reveal_strlit("2");
        reveal_strlit("3");
        reveal_strlit("4");
        reveal_strlit("5");
        reveal_strlit("6");
        reveal_strlit("7");
        reveal_strlit("8");
        reveal_strlit("9");
    }
    s.append(lit);
    proof {
        assert(s@ =~= old(s)@.push(digit_char(d as int)));
    }
}

/// Appends the decimal rendering of `n`, most significant digit first.
pub(crate) fn append_usize(s: &mut String, n: usize)
    ensures
        final(s)@ == old(s)@ + Shape::dec_digits(n as int),
    decreases n,
{
    if n <= 9 {
        append_digit(s, n);
        proof {
            assert(s@ =~= old(s)@ + Shape::dec_digits(n as int));
        }
    } else {
        append_usize(s, n / 10);
        append_digit(s, n % 10);
        proof {
            assert(s@ =~= old(s)@ + Shape::dec_digits(n as int));
        }
    }
}

// Marker types naming storage/device flavours that a fuller numeric
// backend would dispatch on; only the dense CPU flavour is implemented.
pub struct Sf16;

pub struct Sf32;

pub struct Sf64;

pub struct Gf16;

pub struct Gf32;

pub struct Gf64;

pub struct GSf16;

} // verus!

//! Random 128-bit enrollment identifiers and their canonical text form.
//!
//! An identifier is assigned exactly once, at the transition into the
//! `Enrolled` state, and is preserved verbatim across later transitions so
//! that telemetry events can be correlated.  The value is random; the text
//! form is the usual hyphenated lower-case hexadecimal rendering of the
//! 128 bits, specified exactly by [`uuid_text`].

use vstd::prelude::*;
use vstd::string::StringExecFns;

verus! {

/// A 128-bit identifier, stored as its big-endian integer value.
#[derive(Clone, Copy, PartialEq, Eq, Structural, Debug, Hash)]
pub struct Uuid {
    pub bits: u128,
}

/// Relies on `uuid::Uuid::new_v4` and `uuid::Uuid::as_u128`: a freshly
/// generated random version-4 identifier, returned as its big-endian
/// 128-bit value.  Nothing is promised of the value, since it is random.
#[verifier::external_body]
fn random_uuid_bits() -> u128 {
    ::uuid::Uuid::new_v4().as_u128()
}

/// The lower-case hexadecimal digit for a value below 16.
pub open spec fn hex_char(n: u128) -> char {
    if n == 0 {
        '0'
    } else if n == 1 {
        '1'
    } else if n == 2 {
        '2'
    } else if n == 3 {
        '3'
    } else if n == 4 {
        '4'
    } else if n == 5 {
        '5'
    } else if n == 6 {
        '6'
    } else if n == 7 {
        '7'
    } else if n == 8 {
        '8'
    } else if n == 9 {
        '9'
    } else if n == 10 {
        'a'
    } else if n == 11 {
        'b'
    } else if n == 12 {
        'c'
    } else if n == 13 {
        'd'
    } else if n == 14 {
        'e'
    } else {
        'f'
    }
}

/// The `i`-th hexadecimal digit (most significant first) of a 128-bit value.
pub open spec fn uuid_nibble(bits: u128, i: int) -> u128 {
    (bits >> (((31 - i) * 4) as u128)) & 0xf
}

/// How many hyphens precede position `j` of the 36-character text form.
pub open spec fn hyphens_before(j: int) -> int {
    if j < 8 {
        0
    } else if j < 13 {
        1
    } else if j < 18 {
        2
    } else if j < 23 {
        3
    } else {
        4
    }
}

/// Whether position `j` of the text form holds a hyphen.
pub open spec fn is_hyphen_pos(j: int) -> bool {
    j == 8 || j == 13 || j == 18 || j == 23
}

/// The character at position `j` of the text form.
pub open spec fn uuid_char(bits: u128, j: int) -> char {
    if is_hyphen_pos(j) {
        '-'
    } else {
        hex_char(uuid_nibble(bits, j - hyphens_before(j)))
    }
}

/// The canonical 36-character text form of a 128-bit identifier: 32
/// lower-case hexadecimal digits, most significant first, with hyphens
/// after the 8th, 12th, 16th and 20th digit.
pub open spec fn uuid_text(bits: u128) -> Seq<char> {
    Seq::new(36, |j: int| uuid_char(bits, j))
}

/// A one-character string slice holding the hexadecimal digit for `d`.
fn hex_digit_str(d: u128) -> (r: &'static str)
    requires
        d < 16,
    ensures
        r@ =~= seq![hex_char(d)],
{
    if d == 0 {
        proof {
            reveal_strlit("0");
        }
        "0"
    } else if d == 1 {
        proof {
            reveal_strlit("1");
        }
        "1"
    } else if d == 2 {
        proof {
            reveal_strlit("2");
        }
        "2"
    } else if d == 3 {
        proof {
            reveal_strlit("3");
        }
        "3"
    } else if d == 4 {
        proof {
            reveal_strlit("4");
        }
        "4"
    } else if d == 5 {
        proof {
            reveal_strlit("5");
        }
        "5"
    } else if d == 6 {
        proof {
            reveal_strlit("6");
        }
        "6"
    } else if d == 7 {
        proof {
            reveal_strlit("7");
        }
        "7"
    } else if d == 8 {
        proof {
            reveal_strlit("8");
        }
        "8"
    } else if d == 9 {
        proof {
            reveal_strlit("9");
        }
        "9"
    } else if d == 10 {
        proof {
            reveal_strlit("a");
        }
        "a"
    } else if d == 11 {
        proof {
            reveal_strlit("b");
        }
        "b"
    } else if d == 12 {
        proof {
            reveal_strlit("c");
        }
        "c"
    } else if d == 13 {
        proof {
            reveal_strlit("d");
        }
        "d"
    } else if d == 14 {
        proof {
            reveal_strlit("e");
        }
        "e"
    } else {
        proof {
            reveal_strlit("f");
        }
        "f"
    }
}

impl Uuid {
    /// A fresh random identifier.  Nothing is known of its value.
    pub fn new_v4() -> Self {
        Uuid { bits: random_uuid_bits() }
    }

    /// The identifier with the given 128-bit value.
    pub fn from_u128(bits: u128) -> (r: Self)
        ensures
            r.bits == bits,
    {
        Uuid { bits }
    }

    /// The canonical hyphenated text form of this identifier.
    pub fn hyphenated(&self) -> (s: String)
        ensures
            s@ == uuid_text(self.bits),
    {
        let mut s = String::new();
        let mut j: usize = 0;
        while j < 36
            invariant
                0 <= j <= 36,
                s@ == uuid_text(self.bits).take(j as int),
            decreases 36 - j,
        {
            if j == 8 || j == 13 || j == 18 || j == 23 {
                proof {
                    reveal_strlit("-");
                }
                s.append("-");
                proof {
                    assert(("-")@ =~= seq!['-']);
                    assert(uuid_char(self.bits, j as int) == '-');
                    assert(s@ =~= uuid_text(self.bits).take(j as int + 1));
                }
            } else {
                let hyphens: usize = if j < 8 {
                    0
                } else if j < 13 {
                    1
                } else if j < 18 {
                    2
                } else if j < 23 {
                    3
                } else {
                    4
                };
                let i: usize = j - hyphens;
                let sh: u128 = ((31 - i) * 4) as u128;
                let bits = self.bits;
                let d: u128 = (bits >> sh) & 0xf;
                proof {
                    assert((bits >> sh) & 0xf < 16) by (bit_vector);
                    assert(i as int == j as int - hyphens_before(j as int));
                    assert(sh as int == (31 - i as int) * 4);
                    assert(d == uuid_nibble(bits, i as int));
                }
                let digit = hex_digit_str(d);
                s.append(digit);
                proof {
                    assert(uuid_char(self.bits, j as int) == hex_char(d));
                    assert(s@ =~= uuid_text(self.bits).take(j as int + 1));
                }
            }
            j += 1;
        }
        proof {
            assert(uuid_text(self.bits).take(36) =~= uuid_text(self.bits));
        }
        s
    }
}

} // verus!

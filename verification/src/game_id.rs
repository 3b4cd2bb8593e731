//! Short human-typable game identifiers: five octal digits, drawn from the
//! closed-open interval `[0o10000, 0o100000)`.

use vstd::prelude::*;
use vstd::string::StrSliceExecFns;
use vstd::string::StringExecFns;

verus! {

/// The smallest game identifier value.
pub const MIN_GAME_ID: u16 = 0o10000;

/// One past the largest game identifier value.
pub const MAX_GAME_ID: u16 = 0o100000;

/// A five-octal-digit game identifier.
#[derive(Debug, Clone, Copy, PartialEq, Eq, Hash, Structural)]
pub struct GameId {
    value: u16,
}

/// Relies on `fastrand::u16`: returns a uniformly random value of the given
/// non-empty range; nothing more is promised of which one.
#[verifier::external_body]
fn random_u16_in(lo: u16, hi: u16) -> (r: u16)
    requires
        lo < hi,
    ensures
        lo <= r < hi,
{
    fastrand::u16(lo..hi)
}

/// The character for one octal digit.
pub open spec fn octal_char(d: int) -> char {
    if d == 0 {
        '0'
    } else if d == 1 {
        '1'
    } else if d == 2 {
        '2'
    } else if d == 3 {
        '3'
    } else if d == 4 {
        '4'
    } else if d == 5 {
        '5'
    } else if d == 6 {
        '6'
    } else {
        '7'
    }
}

/// The digit denoted by one character, or `-1` if it is not octal.
pub open spec fn octal_digit(c: char) -> int {
    if c == '0' {
        0
    } else if c == '1' {
        1
    } else if c == '2' {
        2
    } else if c == '3' {
        3
    } else if c == '4' {
        4
    } else if c == '5' {
        5
    } else if c == '6' {
        6
    } else if c == '7' {
        7
    } else {
        -1
    }
}

/// The number denoted by a string of octal digits (most significant first).
pub open spec fn octal_value(s: Seq<char>) -> int
    decreases s.len(),
{
    if s.len() == 0 {
        0
    } else {
        octal_value(s.drop_last()) * 8 + octal_digit(s.last())
    }
}

/// Whether every character is an octal digit.
pub open spec fn all_octal_digits(s: Seq<char>) -> bool {
    forall|i: int| 0 <= i < s.len() ==> octal_digit(#[trigger] s[i]) >= 0
}

/// A string of octal digits denotes a non-negative number.
proof fn lemma_octal_nonneg(s: Seq<char>)
    requires
        all_octal_digits(s),
    ensures
        octal_value(s) >= 0,
    decreases s.len(),
{
    if s.len() > 0 {
        assert(forall|i: int| 0 <= i < s.len() - 1 ==> s.drop_last()[i] == (#[trigger] s[i]));
        lemma_octal_nonneg(s.drop_last());
        assert(octal_digit(s.last()) >= 0);
    }
}

/// Appending one digit multiplies the value by eight and adds the digit.
proof fn lemma_octal_push(s: Seq<char>, d: int)
    requires
        0 <= d < 8,
    ensures
        octal_value(s.push(octal_char(d))) == octal_value(s) * 8 + d,
        octal_digit(octal_char(d)) == d,
{
    assert(s.push(octal_char(d)).drop_last() =~= s);
    assert(s.push(octal_char(d)).last() == octal_char(d));
}

/// Extending a string of octal digits can only grow its value.
proof fn lemma_octal_prefix_le(s: Seq<char>, i: int)
    requires
        all_octal_digits(s),
        0 <= i <= s.len(),
    ensures
        octal_value(s.take(i)) <= octal_value(s),
    decreases s.len() - i,
{
    assert(forall|j: int| 0 <= j < s.len() ==> s.take(s.len() as int)[j] == (#[trigger] s[j]));
    if i == s.len() {
        assert(s.take(i) =~= s);
    } else {
        assert(forall|j: int| 0 <= j <= i ==> s.take(i + 1)[j] == (#[trigger] s[j]));
        assert(s.take(i + 1).drop_last() =~= s.take(i));
        assert(forall|j: int| 0 <= j < i ==> s.take(i)[j] == (#[trigger] s[j]));
        assert(all_octal_digits(s.take(i)));
        lemma_octal_nonneg(s.take(i));
        assert(octal_value(s.take(i + 1)) == octal_value(s.take(i)) * 8 + octal_digit(s[i]));
        assert(octal_digit(s[i]) >= 0);
        lemma_octal_prefix_le(s, i + 1);
    }
}

impl GameId {
    /// The identifier's numeric value.
    pub closed spec fn spec_value(self) -> u16 {
        self.value
    }

    /// The value lies in the identifier space.
    pub open spec fn wf(self) -> bool {
        MIN_GAME_ID <= self.spec_value() < MAX_GAME_ID
    }

    /// Identifiers are their values: equal values are the same identifier.
    pub proof fn lemma_value_injective(a: GameId, b: GameId)
        requires
            a.spec_value() == b.spec_value(),
        ensures
            a == b,
    {
    }

    /// The identifier's numeric value.
    pub fn value(&self) -> (r: u16)
        ensures
            r == self.spec_value(),
    {
        self.value
    }

    /// Draw a random identifier from the identifier space.
    pub fn new() -> (r: GameId)
        ensures
            r.wf(),
    {
        GameId { value: random_u16_in(MIN_GAME_ID, MAX_GAME_ID) }
    }

    /// The identifier with a given numeric value, if it lies in the space.
    pub fn from_value(value: u16) -> (r: Option<GameId>)
        ensures
            match r {
                Some(g) => MIN_GAME_ID <= value < MAX_GAME_ID && g.spec_value() == value && g.wf(),
                None => !(MIN_GAME_ID <= value < MAX_GAME_ID),
            },
    {
        if MIN_GAME_ID <= value && value < MAX_GAME_ID {
            Some(GameId { value })
        } else {
            None
        }
    }

    /// Render the identifier as its five octal digits.
    pub fn to_octal_string(&self) -> (r: String)
        requires
            self.wf(),
        ensures
            r@.len() == 5,
            all_octal_digits(r@),
            octal_value(r@) == self.spec_value(),
    {
        let v = self.value;
        let d4 = v / 4096;
        let r4 = v % 4096;
        let d3 = r4 / 512;
        let r3 = r4 % 512;
        let d2 = r3 / 64;
        let r2 = r3 % 64;
        let d1 = r2 / 8;
        let d0 = r2 % 8;
        let mut s = String::from_str("");
        proof {
            reveal_strlit("");
        }
        let ghost s0 = s@;
        push_octal_digit(&mut s, d4);
        let ghost s1 = s@;
        push_octal_digit(&mut s, d3);
        let ghost s2 = s@;
        push_octal_digit(&mut s, d2);
        let ghost s3 = s@;
        push_octal_digit(&mut s, d1);
        let ghost s4 = s@;
        push_octal_digit(&mut s, d0);
        proof {
            assert(octal_value(s0) == 0);
            lemma_octal_push(s0, d4 as int);
            assert(s1 == s0.push(octal_char(d4 as int)));
            lemma_octal_push(s1, d3 as int);
            lemma_octal_push(s2, d2 as int);
            lemma_octal_push(s3, d1 as int);
            lemma_octal_push(s4, d0 as int);
            assert(octal_value(s@) == (((d4 * 8 + d3) * 8 + d2) * 8 + d1) * 8 + d0);
            assert(v == d4 * 4096 + r4);
            assert(r4 == d3 * 512 + r3);
            assert(r3 == d2 * 64 + r2);
            assert(r2 == d1 * 8 + d0);
        }
        s
    }

    /// Parse a string of octal digits back into an identifier.
    ///
    /// Returns the identifier exactly when the string is non-empty, holds
    /// octal digits only, and denotes a value in the identifier space.
    #[verifier::loop_isolation(false)]
    pub fn from_octal_str(s: &str) -> (r: Option<GameId>)
        ensures
            match r {
                Some(g) => {
                    &&& s@.len() > 0
                    &&& all_octal_digits(s@)
                    &&& octal_value(s@) == g.spec_value()
                    &&& g.wf()
                },
                None => s@.len() == 0 || !all_octal_digits(s@) || !(MIN_GAME_ID <= octal_value(s@)
                    < MAX_GAME_ID),
            },
    {
        let len = s.unicode_len();
        if len == 0 {
            return None;
        }
        let mut value: u32 = 0;
        let mut i: usize = 0;
        while i < len
            invariant
                0 <= i <= len,
                len == s@.len(),
                all_octal_digits(s@.take(i as int)),
                value == octal_value(s@.take(i as int)),
                value < 0x8000,
            decreases len - i,
        {
            let c = s.get_char(i);
            let d: u32 = match c {
                '0' => 0,
                '1' => 1,
                '2' => 2,
                '3' => 3,
                '4' => 4,
                '5' => 5,
                '6' => 6,
                '7' => 7,
                _ => {
                    proof {
                        assert(octal_digit(s@[i as int]) < 0);
                    }
                    return None;
                },
            };
            proof {
                assert(forall|j: int| 0 <= j <= i ==> s@.take(i + 1)[j] == (#[trigger] s@[j]));
                assert(s@.take(i + 1).drop_last() =~= s@.take(i as int));
            }
            value = value * 8 + d;
            i += 1;
            if value >= MAX_GAME_ID as u32 {
                proof {
                    if all_octal_digits(s@) {
                        lemma_octal_prefix_le(s@, i as int);
                        assert(octal_value(s@) >= octal_value(s@.take(i as int)));
                    }
                }
                return None;
            }
        }
        proof {
            assert(s@.take(len as int) =~= s@);
        }
        if value < MIN_GAME_ID as u32 {
            return None;
        }
        Some(GameId { value: value as u16 })
    }
}

/// Append one octal digit's character.
fn push_octal_digit(s: &mut String, digit: u16)
    requires
        digit < 8,
    ensures
        final(s)@ == old(s)@.push(octal_char(digit as int)),
{
    proof {
        reveal_strlit("0");
        reveal_strlit("1");
        reveal_strlit("2");
        reveal_strlit("3");
        reveal_strlit("4");
        reveal_strlit("5");
        reveal_strlit("6");
        reveal_strlit("7");
    }
    let piece: &str = match digit {
        0 => "0",
        1 => "1",
        2 => "2",
        3 => "3",
        4 => "4",
        5 => "5",
        6 => "6",
        _ => "7",
    };
    s.append(piece);
    proof {
        assert(s@ =~= old(s)@.push(octal_char(digit as int)));
    }
}

} // verus!

//! The canonical location grammar `P<floor>.<space>`: a validated location
//! value, a parser for the grammar and the canonical renderer, together with
//! the law that rendering followed by parsing gives the value back.
use vstd::prelude::*;

use crate::errors::DustyError;
use crate::text::digit_char;
use crate::text::digit_of;
use crate::text::digit_str;
use crate::text::digit_val;
use crate::text::first_where;
use crate::text::is_digit_char;
use crate::text::lemma_digit_char_val;
use crate::text::lemma_first_where;

verus! {

/// Every character of `s` is a decimal digit.
pub open spec fn all_digits(s: Seq<char>) -> bool {
    forall|k: int| 0 <= k < s.len() ==> is_digit_char(s[k])
}

/// The value of a run of decimal digit characters, most significant first.
pub open spec fn digits_val(s: Seq<char>) -> nat
    decreases s.len(),
{
    if s.len() == 0 {
        0
    } else {
        digits_val(s.drop_last()) * 10 + digit_val(s.last())
    }
}

/// Index of the first dot of `s`, or its length if there is none.
pub open spec fn dot_idx(s: Seq<char>) -> int {
    first_where(s, |c: char| c == '.')
}

/// Whether the floor part carries a leading minus sign.
pub open spec fn neg_floor(s: Seq<char>) -> bool {
    s.len() >= 2 && s[1] == '-'
}

/// Index of the first floor digit.
pub open spec fn floor_start(s: Seq<char>) -> int {
    if neg_floor(s) {
        2
    } else {
        1
    }
}

/// The digit run between the prefix and the dot.
pub open spec fn floor_digits(s: Seq<char>) -> Seq<char> {
    s.subrange(floor_start(s), dot_idx(s))
}

/// The digit run after the dot.
pub open spec fn space_digits(s: Seq<char>) -> Seq<char> {
    s.subrange(dot_idx(s) + 1, s.len() as int)
}

/// The location grammar: a literal `P`, an optionally signed non-empty digit
/// run, a dot, and a non-empty digit run, covering the whole text.
pub open spec fn matches_grammar(s: Seq<char>) -> bool {
    &&& s.len() >= 1
    &&& s[0] == 'P'
    &&& floor_start(s) < dot_idx(s)
    &&& dot_idx(s) + 1 < s.len()
    &&& all_digits(floor_digits(s))
    &&& all_digits(space_digits(s))
}

/// The floor value a grammatical text denotes.
pub open spec fn floor_of(s: Seq<char>) -> int {
    if neg_floor(s) {
        -(digits_val(floor_digits(s)) as int)
    } else {
        digits_val(floor_digits(s)) as int
    }
}

/// The space value a grammatical text denotes.
pub open spec fn space_of(s: Seq<char>) -> nat {
    digits_val(space_digits(s))
}

/// What parsing returns on any text: the grammar is checked first, then the
/// floor range, then the space range; the first failing check names the error.
pub open spec fn parse_spec(s: Seq<char>) -> Result<(int, nat), DustyError> {
    if !matches_grammar(s) {
        Err(DustyError::InvalidFormat)
    } else if !(-4 <= floor_of(s) <= 4) {
        Err(DustyError::InvalidFloor)
    } else if space_of(s) > 400 {
        Err(DustyError::InvalidSpace)
    } else {
        Ok((floor_of(s), space_of(s)))
    }
}

/// Minimal decimal rendering of a value, most significant digit first.
pub open spec fn dec_digits(n: nat) -> Seq<char>
    decreases n,
{
    if n < 10 {
        seq![digit_char(n)]
    } else {
        dec_digits(n / 10).push(digit_char(n % 10))
    }
}

/// Left-pad a digit run with zeros to at least three characters.
pub open spec fn pad3(s: Seq<char>) -> Seq<char> {
    if s.len() >= 3 {
        s
    } else if s.len() == 2 {
        seq!['0'] + s
    } else if s.len() == 1 {
        seq!['0', '0'] + s
    } else {
        seq!['0', '0', '0']
    }
}

/// The magnitude of an integer.
pub open spec fn abs_val(x: int) -> nat {
    if x < 0 {
        (-x) as nat
    } else {
        x as nat
    }
}

/// The canonical rendering `P<floor>.<space>` with the space zero-padded to
/// three digits.
pub open spec fn canon_text(floor: int, space: nat) -> Seq<char> {
    seq!['P'] + (if floor < 0 {
        seq!['-']
    } else {
        Seq::<char>::empty()
    }) + dec_digits(abs_val(floor)) + seq!['.'] + pad3(dec_digits(space))
}

/// A validated location: a floor between -4 and 4 and a space between 0 and
/// 400.  Construction is the only validation gate; no value of this type can
/// exist out of range.
#[derive(Debug, Clone, Copy)]
pub struct DustyLocation {
    floor: i8,
    space: u32,
}

impl DustyLocation {
    /// Both fields are within their documented ranges.
    #[verifier::type_invariant]
    pub closed spec fn wf(self) -> bool {
        -4 <= self.floor <= 4 && self.space <= 400
    }

    pub closed spec fn spec_floor(self) -> int {
        self.floor as int
    }

    pub closed spec fn spec_space(self) -> nat {
        self.space as nat
    }

    /// Build a location from its parts, rejecting out-of-range values; the
    /// floor is checked first.
    pub fn new(floor: i8, space: u32) -> (r: Result<DustyLocation, DustyError>)
        ensures
            match r {
                Ok(loc) => -4 <= floor <= 4 && space <= 400 && loc.spec_floor() == floor as int
                    && loc.spec_space() == space as nat,
                Err(e) => if !(-4 <= floor <= 4) {
                    e == DustyError::InvalidFloor
                } else {
                    space > 400 && e == DustyError::InvalidSpace
                },
            },
    {
        if floor < -4 || floor > 4 {
            Err(DustyError::InvalidFloor)
        } else if space > 400 {
            Err(DustyError::InvalidSpace)
        } else {
            Ok(DustyLocation { floor, space })
        }
    }

    pub fn floor(&self) -> (r: i8)
        ensures
            r as int == self.spec_floor(),
            -4 <= r <= 4,
    {
        proof {
            use_type_invariant(self);
        }
        self.floor
    }

    pub fn space(&self) -> (r: u32)
        ensures
            r as nat == self.spec_space(),
            r <= 400,
    {
        proof {
            use_type_invariant(self);
        }
        self.space
    }

    /// Parse a location text.  The result is exactly what `parse_spec` says
    /// of the input: `InvalidFormat` when the grammar does not match,
    /// `InvalidFloor` and then `InvalidSpace` when a value is out of range.
    pub fn from_str(s: &str) -> (r: Result<DustyLocation, DustyError>)
        ensures
            match r {
                Ok(loc) => parse_spec(s@) == Ok::<(int, nat), DustyError>(
                    (loc.spec_floor(), loc.spec_space()),
                ),
                Err(e) => parse_spec(s@) == Err::<(int, nat), DustyError>(e),
            },
    {
        let n = s.unicode_len();
        if n == 0 || s.get_char(0) != 'P' {
            return Err(DustyError::InvalidFormat);
        }
        let neg = n >= 2 && s.get_char(1) == '-';
        let i: usize = if neg {
            2
        } else {
            1
        };
        let mut d: usize = 0;
        while d < n && !dot_at(s, d)
            invariant
                0 <= d <= n,
                n == s@.len(),
                forall|k: int| 0 <= k < d ==> s@[k] != '.',
            decreases n - d,
        {
            d += 1;
        }
        proof {
            lemma_first_where(s@, |c: char| c == '.', d as int);
        }
        if d <= i || d >= n - 1 {
            return Err(DustyError::InvalidFormat);
        }
        let fl = match scan_digits(s, i, d) {
            None => {
                return Err(DustyError::InvalidFormat);
            },
            Some(v) => v,
        };
        let sp = match scan_digits(s, d + 1, n) {
            None => {
                return Err(DustyError::InvalidFormat);
            },
            Some(v) => v,
        };
        proof {
            assert(matches_grammar(s@));
        }
        if fl > 4 {
            return Err(DustyError::InvalidFloor);
        }
        if sp > 400 {
            return Err(DustyError::InvalidSpace);
        }
        let floor: i8 = if neg {
            -(fl as i8)
        } else {
            fl as i8
        };
        Ok(DustyLocation { floor, space: sp })
    }

    /// Render the location in the canonical form.
    pub fn to_text(&self) -> (r: String)
        ensures
            r@ == canon_text(self.spec_floor(), self.spec_space()),
    {
        proof {
            use_type_invariant(self);
        }
        let mut out = String::from_str("P");
        let mag: u32 = if self.floor < 0 {
            out.append("-");
            (-(self.floor)) as u32
        } else {
            self.floor as u32
        };
        out.append(digit_str(mag));
        out.append(".");
        out.append(digit_str(self.space / 100));
        out.append(digit_str((self.space / 10) % 10));
        out.append(digit_str(self.space % 10));
        proof {
            reveal_strlit("P");
            reveal_strlit("-");
            reveal_strlit(".");
            lemma_pad3_digits(self.space as nat);
            assert(out@ =~= canon_text(self.spec_floor(), self.spec_space()));
        }
        out
    }
}

/// Two locations with the same floor and space are the same value.
pub proof fn lemma_loc_eq(a: DustyLocation, b: DustyLocation)
    requires
        a.spec_floor() == b.spec_floor(),
        a.spec_space() == b.spec_space(),
    ensures
        a == b,
{
}

/// Whether the character of `s` at `i` is a dot.
fn dot_at(s: &str, i: usize) -> (r: bool)
    requires
        i < s@.len(),
    ensures
        r == (s@[i as int] == '.'),
{
    s.get_char(i) == '.'
}

/// Read the digit run of `s` between `from` and `to`.  Values above 9999 are
/// reported only as being above 9999, which the range checks need no more
/// precision for.
fn scan_digits(s: &str, from: usize, to: usize) -> (r: Option<u32>)
    requires
        from <= to <= s@.len(),
    ensures
        r is Some <==> all_digits(s@.subrange(from as int, to as int)),
        r is Some ==> {
            let v = digits_val(s@.subrange(from as int, to as int));
            (v <= 9999 ==> r->0 as nat == v) && (v > 9999 ==> r->0 > 9999)
        },
{
    let mut acc: u32 = 0;
    let mut j: usize = from;
    while j < to
        invariant
            from <= j <= to <= s@.len(),
            all_digits(s@.subrange(from as int, j as int)),
            digits_val(s@.subrange(from as int, j as int)) <= 9999 ==> acc as nat == digits_val(
                s@.subrange(from as int, j as int),
            ),
            digits_val(s@.subrange(from as int, j as int)) > 9999 ==> acc > 9999,
            acc <= 99999,
        decreases to - j,
    {
        match digit_of(s.get_char(j)) {
            None => {
                proof {
                    assert(s@.subrange(from as int, to as int)[j - from] == s@[j as int]);
                }
                return None;
            },
            Some(dv) => {
                proof {
                    let pref = s@.subrange(from as int, j as int);
                    let next = s@.subrange(from as int, j + 1);
                    assert(next =~= pref.push(s@[j as int]));
                    assert(next.drop_last() =~= pref);
                    assert(digits_val(next) == digits_val(pref) * 10 + digit_val(s@[j as int]));
                }
                if acc <= 9999 {
                    acc = acc * 10 + dv;
                }
                j += 1;
            },
        }
    }
    Some(acc)
}

/// The three-digit zero-padded rendering of a value up to 999, digit by digit.
proof fn lemma_pad3_digits(n: nat)
    requires
        n <= 999,
    ensures
        pad3(dec_digits(n)) =~= seq![
            digit_char(n / 100),
            digit_char((n / 10) % 10),
            digit_char(n % 10),
        ],
{
    reveal_with_fuel(dec_digits, 4);
    vstd::arithmetic::div_mod::lemma_fundamental_div_mod(n as int, 10);
    vstd::arithmetic::div_mod::lemma_fundamental_div_mod(n as int / 10, 10);
    vstd::arithmetic::div_mod::lemma_div_denominator(n as int, 10, 10);
    if n < 10 {
        assert(n / 100 == 0 && (n / 10) % 10 == 0 && n % 10 == n);
    } else if n < 100 {
        assert(dec_digits(n) =~= seq![digit_char(n / 10), digit_char(n % 10)]);
        assert(n / 100 == 0 && (n / 10) % 10 == n / 10);
    } else {
        assert(dec_digits(n / 10) =~= seq![digit_char(n / 100), digit_char((n / 10) % 10)]);
        assert(dec_digits(n) =~= seq![
            digit_char(n / 100),
            digit_char((n / 10) % 10),
            digit_char(n % 10),
        ]);
    }
}

/// The value that a three-digit rendering denotes is the value rendered.
proof fn lemma_three_digit_val(n: nat)
    requires
        n <= 999,
    ensures
        digits_val(
            seq![digit_char(n / 100), digit_char((n / 10) % 10), digit_char(n % 10)],
        ) == n,
{
    reveal_with_fuel(digits_val, 4);
    let s = seq![digit_char(n / 100), digit_char((n / 10) % 10), digit_char(n % 10)];
    lemma_digit_char_val(n / 100);
    lemma_digit_char_val((n / 10) % 10);
    lemma_digit_char_val(n % 10);
    assert(s.drop_last() =~= seq![digit_char(n / 100), digit_char((n / 10) % 10)]);
    assert(s.drop_last().drop_last() =~= seq![digit_char(n / 100)]);
    assert(s.drop_last().drop_last().drop_last() =~= Seq::<char>::empty());
    vstd::arithmetic::div_mod::lemma_fundamental_div_mod(n as int, 10);
    vstd::arithmetic::div_mod::lemma_fundamental_div_mod(n as int / 10, 10);
    vstd::arithmetic::div_mod::lemma_div_denominator(n as int, 10, 10);
}

/// The canonical rendering uses only the prefix letter, the sign, the dot
/// and decimal digits.
pub proof fn lemma_canon_chars(floor: int, space: nat)
    requires
        -4 <= floor <= 4,
        space <= 400,
    ensures
        forall|k: int|
            0 <= k < canon_text(floor, space).len() ==> {
                let c = #[trigger] canon_text(floor, space)[k];
                c == 'P' || c == '-' || c == '.' || is_digit_char(c)
            },
{
    let s = canon_text(floor, space);
    let mag = abs_val(floor);
    lemma_pad3_digits(space);
    lemma_digit_char_val(mag);
    lemma_digit_char_val(space / 100);
    lemma_digit_char_val((space / 10) % 10);
    lemma_digit_char_val(space % 10);
    if floor < 0 {
        assert(s =~= seq![
            'P',
            '-',
            digit_char(mag),
            '.',
            digit_char(space / 100),
            digit_char((space / 10) % 10),
            digit_char(space % 10),
        ]);
    } else {
        assert(s =~= seq![
            'P',
            digit_char(mag),
            '.',
            digit_char(space / 100),
            digit_char((space / 10) % 10),
            digit_char(space % 10),
        ]);
    }
}

/// Round trip: parsing the canonical rendering of any in-range pair gives
/// that pair back, with no error.
pub proof fn lemma_location_roundtrip(floor: int, space: nat)
    requires
        -4 <= floor <= 4,
        space <= 400,
    ensures
        parse_spec(canon_text(floor, space)) == Ok::<(int, nat), DustyError>((floor, space)),
{
    reveal_with_fuel(digits_val, 4);
    let s = canon_text(floor, space);
    let mag = abs_val(floor);
    let h = digit_char(space / 100);
    let t = digit_char((space / 10) % 10);
    let o = digit_char(space % 10);
    lemma_pad3_digits(space);
    lemma_three_digit_val(space);
    lemma_digit_char_val(mag);
    lemma_digit_char_val(space / 100);
    lemma_digit_char_val((space / 10) % 10);
    lemma_digit_char_val(space % 10);
    assert(!is_digit_char('.') && !is_digit_char('-') && !is_digit_char('P'));
    if floor < 0 {
        assert(s =~= seq!['P', '-', digit_char(mag), '.', h, t, o]);
        lemma_first_where(s, |c: char| c == '.', 3);
        assert(neg_floor(s));
        assert(floor_digits(s) =~= seq![digit_char(mag)]);
        assert(space_digits(s) =~= seq![h, t, o]);
        assert(floor_digits(s).drop_last() =~= Seq::<char>::empty());
        assert(digits_val(floor_digits(s)) == mag);
        assert(matches_grammar(s));
        assert(floor_of(s) == floor);
        assert(space_of(s) == space);
    } else {
        assert(s =~= seq!['P', digit_char(mag), '.', h, t, o]);
        lemma_first_where(s, |c: char| c == '.', 2);
        assert(!neg_floor(s));
        assert(floor_digits(s) =~= seq![digit_char(mag)]);
        assert(space_digits(s) =~= seq![h, t, o]);
        assert(floor_digits(s).drop_last() =~= Seq::<char>::empty());
        assert(digits_val(floor_digits(s)) == mag);
        assert(matches_grammar(s));
        assert(floor_of(s) == floor);
        assert(space_of(s) == space);
    }
}

} // verus!

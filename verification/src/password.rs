//! The password specification: eight coordinate pairs plus a literal
//! suffix, decoded from and encoded to a fixed-width text form, and
//! evaluated against a matrix into the final secret.

use vstd::prelude::*;
use vstd::string::StrSliceExecFns;
use vstd::string::StringExecFns;
use crate::coord::MatrixPosition;
use crate::digits::{
    dec_char, dec_val, hex_char, hex_val, is_dec_digit, is_hex_digit, parse_dec_digit,
    parse_hex_digit, render_dec_digit, render_hex_digit,
};
use crate::error::Error;
use crate::matrix::Matrix;

verus! {

/// Relies on String::push: appends exactly the one character.
#[verifier::external_body]
fn push_char(s: &mut String, c: char)
    ensures
        final(s)@ == old(s)@.push(c),
{
    s.push(c);
}

/// The two characters at pair `i` of the fixed-width prefix decode to an
/// in-range coordinate pair: a base-10 table digit at most 2 and a base-16
/// position digit.
pub open spec fn pair_ok(s: Seq<char>, i: int) -> bool {
    &&& is_dec_digit(s[2 * i])
    &&& dec_val(s[2 * i]) <= 2
    &&& is_hex_digit(s[2 * i + 1])
}

/// Every pair before `i` decodes to an in-range coordinate pair.
pub open spec fn pairs_ok_upto(s: Seq<char>, i: int) -> bool {
    forall|k: int| 0 <= k < i ==> pair_ok(s, k)
}

/// The coordinate pair the two characters at pair `i` decode to.
pub open spec fn pair_at(s: Seq<char>, i: int) -> MatrixPosition {
    MatrixPosition { table: dec_val(s[2 * i]) as u8, position: hex_val(s[2 * i + 1]) as u8 }
}

/// The fixed-width text that encodes a sequence of coordinate pairs: two
/// characters per pair, the table index as a base-10 digit and the position
/// as a lower-case base-16 digit.
pub open spec fn coords_encoding(es: Seq<MatrixPosition>) -> Seq<char> {
    Seq::new(
        es.len() * 2,
        |i: int|
            if i % 2 == 0 {
                dec_char(es[i / 2].table)
            } else {
                hex_char(es[i / 2].position)
            },
    )
}

/// The full text encoding of a specification: the 16-character coordinate
/// prefix, then the suffix verbatim.
pub open spec fn spec_encode(p: Password) -> Seq<char> {
    coords_encoding(p.spec_entries()) + p.spec_suffix()
}

/// The eight digit characters a specification selects from a grid, in entry
/// order.
pub open spec fn eval_digits(p: Password, m: Matrix) -> Seq<char> {
    Seq::new(
        8,
        |i: int|
            dec_char(
                m.grid()[p.spec_entries()[i].table as int][p.spec_entries()[i].position as int],
            ),
    )
}

/// The secret a specification evaluates to against a grid: the eight
/// selected digit characters, then the suffix verbatim.
pub open spec fn spec_evaluate(p: Password, m: Matrix) -> Seq<char> {
    eval_digits(p, m) + p.spec_suffix()
}

/// A password specification: exactly eight coordinate pairs, in an order
/// that determines the order of the secret's digits, plus a literal suffix.
/// Decoded once from configuration text and immutable thereafter.
#[derive(Debug)]
pub struct Password {
    entries: Vec<MatrixPosition>,
    suffix: String,
}

impl Password {
    /// The coordinate pairs, in order.
    pub closed spec fn spec_entries(self) -> Seq<MatrixPosition> {
        self.entries@
    }

    /// The literal suffix.
    pub closed spec fn spec_suffix(self) -> Seq<char> {
        self.suffix@
    }

    /// Exactly eight coordinate pairs, each in range.
    pub open spec fn wf(self) -> bool {
        &&& self.spec_entries().len() == 8
        &&& forall|i: int| 0 <= i < 8 ==> (#[trigger] self.spec_entries()[i]).wf()
    }

    /// The coordinate pair at `i`.
    pub fn entry(&self, i: usize) -> (e: MatrixPosition)
        requires
            i < self.spec_entries().len(),
        ensures
            e == self.spec_entries()[i as int],
    {
        self.entries[i]
    }

    /// The suffix.
    pub fn suffix(&self) -> (s: &String)
        ensures
            s@ == self.spec_suffix(),
    {
        &self.suffix
    }

    /// Decodes a specification from its fixed-width text form. The first 16
    /// characters are consumed in pairs; everything after them becomes the
    /// suffix verbatim. Fails with `FormatError` exactly when the text is
    /// shorter than 16 characters, with `DigitError` at the first character
    /// that is not a digit in its radix, and with `RangeError` at the first
    /// table digit above 2; checks run pair by pair, the table digit before
    /// the position digit.
    pub fn from_str(s: &str) -> (r: Result<Password, Error>)
        ensures
            match r {
                Ok(p) => {
                    &&& s@.len() >= 16
                    &&& pairs_ok_upto(s@, 8)
                    &&& p.wf()
                    &&& forall|i: int|
                        0 <= i < 8 ==> #[trigger] p.spec_entries()[i] == pair_at(s@, i)
                    &&& p.spec_suffix() == s@.skip(16)
                },
                Err(e) => match e {
                    Error::FormatError => s@.len() < 16,
                    Error::DigitError { ch, radix } => s@.len() >= 16 && exists|i: int|
                        0 <= i < 8 && #[trigger] pairs_ok_upto(s@, i) && ((!is_dec_digit(
                            s@[2 * i],
                        ) && ch == s@[2 * i] && radix == 10) || (is_dec_digit(s@[2 * i]) && dec_val(
                            s@[2 * i],
                        ) <= 2 && !is_hex_digit(s@[2 * i + 1]) && ch == s@[2 * i + 1] && radix
                            == 16)),
                    Error::RangeError { value, max } => s@.len() >= 16 && max == 2 && exists|i: int|
                        0 <= i < 8 && #[trigger] pairs_ok_upto(s@, i) && is_dec_digit(s@[2 * i])
                            && dec_val(s@[2 * i]) > 2 && value == dec_val(s@[2 * i]),
                    _ => false,
                },
            },
    {
        let n = s.unicode_len();
        if n < 16 {
            return Err(Error::FormatError);
        }
        let mut entries: Vec<MatrixPosition> = Vec::new();
        let mut i: usize = 0;
        while i < 8
            invariant
                s@.len() >= 16,
                i <= 8,
                entries@.len() == i,
                pairs_ok_upto(s@, i as int),
                forall|k: int| 0 <= k < i ==> #[trigger] entries@[k] == pair_at(s@, k),
                forall|k: int| 0 <= k < i ==> (#[trigger] entries@[k]).wf(),
            decreases 8 - i,
        {
            let x = s.get_char(2 * i);
            let y = s.get_char(2 * i + 1);
            let table: u8 = match parse_dec_digit(x) {
                Some(v) => v,
                None => {
                    return Err(Error::DigitError { ch: x, radix: 10 });
                },
            };
            if table > 2 {
                return Err(Error::RangeError { value: table, max: 2 });
            }
            let position: u8 = match parse_hex_digit(y) {
                Some(v) => v,
                None => {
                    return Err(Error::DigitError { ch: y, radix: 16 });
                },
            };
            let e = MatrixPosition { table, position };
            proof {
                assert(e == pair_at(s@, i as int));
                assert(pair_ok(s@, i as int));
            }
            entries.push(e);
            i += 1;
        }
        let suffix = s.substring_char(16, n).to_owned();
        proof {
            assert(suffix@ =~= s@.skip(16));
        }
        Ok(Password { entries, suffix })
    }

    /// Renders the specification back to its fixed-width text form: each
    /// coordinate pair as its two digit characters, the position digit in
    /// lower case, then the suffix verbatim.
    pub fn encode(&self) -> (r: String)
        requires
            self.wf(),
        ensures
            r@ == spec_encode(*self),
    {
        let mut out = String::new();
        let mut i: usize = 0;
        while i < 8
            invariant
                self.wf(),
                i <= 8,
                out@.len() == 2 * i,
                forall|k: int|
                    0 <= k < 2 * i ==> #[trigger] out@[k] == coords_encoding(self.spec_entries())[k],
            decreases 8 - i,
        {
            let e = self.entries[i];
            push_char(&mut out, render_dec_digit(e.table));
            push_char(&mut out, render_hex_digit(e.position));
            proof {
                assert(coords_encoding(self.spec_entries())[2 * i as int] == dec_char(e.table));
                assert(coords_encoding(self.spec_entries())[2 * i as int + 1] == hex_char(
                    e.position,
                ));
            }
            i += 1;
        }
        proof {
            assert(out@ =~= coords_encoding(self.spec_entries()));
        }
        out.concat(self.suffix.as_str())
    }

    /// Evaluates the specification against a matrix: for each coordinate
    /// pair in order, the selected grid digit's character, then the suffix
    /// verbatim. Pure and total over well-formed inputs -- the result is a
    /// function of the specification and the grid alone, so two calls on
    /// the same values return the same secret.
    pub fn generate(&self, matrix: &Matrix) -> (r: String)
        requires
            self.wf(),
            matrix.wf(),
        ensures
            r@ == spec_evaluate(*self, *matrix),
            r@.len() == 8 + self.spec_suffix().len(),
    {
        let mut out = String::new();
        let mut i: usize = 0;
        while i < 8
            invariant
                self.wf(),
                matrix.wf(),
                i <= 8,
                out@.len() == i,
                forall|k: int| 0 <= k < i ==> #[trigger] out@[k] == eval_digits(*self, *matrix)[k],
            decreases 8 - i,
        {
            let e = self.entries[i];
            let d = matrix.get(e);
            push_char(&mut out, render_dec_digit(d));
            i += 1;
        }
        proof {
            assert(out@ =~= eval_digits(*self, *matrix));
        }
        out.concat(self.suffix.as_str())
    }
}

/// Round trip: encoding a well-formed specification yields a text whose
/// fixed-width prefix decodes, pair by pair, to the original entries, and
/// whose remainder is the original suffix. Together with the contract of
/// `Password::from_str` this says that decoding an encoded specification
/// returns it unchanged.
pub proof fn lemma_round_trip(p: Password)
    requires
        p.wf(),
    ensures
        spec_encode(p).len() == 16 + p.spec_suffix().len(),
        pairs_ok_upto(spec_encode(p), 8),
        forall|i: int| 0 <= i < 8 ==> #[trigger] pair_at(spec_encode(p), i) == p.spec_entries()[i],
        spec_encode(p).skip(16) == p.spec_suffix(),
{
    let s = spec_encode(p);
    let pre = coords_encoding(p.spec_entries());
    assert forall|i: int| 0 <= i < 8 implies pair_ok(s, i) && #[trigger] pair_at(s, i)
        == p.spec_entries()[i] by {
        let e = p.spec_entries()[i];
        assert(s[2 * i] == pre[2 * i]);
        assert(s[2 * i + 1] == pre[2 * i + 1]);
        assert(pre[2 * i] == dec_char(e.table));
        assert(pre[2 * i + 1] == hex_char(e.position));
        crate::digits::lemma_dec_digit_round_trip(e.table);
        crate::digits::lemma_hex_digit_round_trip(e.position);
    }
    assert(s.skip(16) =~= p.spec_suffix());
}

/// Length law: the evaluated secret always has exactly 8 characters plus
/// the suffix's length.
pub proof fn lemma_evaluate_len(p: Password, m: Matrix)
    ensures
        spec_evaluate(p, m).len() == 8 + p.spec_suffix().len(),
{
}

} // verus!

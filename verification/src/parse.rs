//! Parsing a countdown duration: one to three colon-separated numeric
//! fields, read right-to-left as seconds, minutes, hours, summed in base 60.

use vstd::prelude::*;
use vstd::string::*;

verus! {

/// Largest value `parse_timer` can return: three fields of at most
/// `u32::MAX` each, summed in base 60 (`3661 * u32::MAX`).
pub const MAX_PARSE_SECONDS: u64 = 15_723_875_266_995;

/// The ASCII colon, the field separator.
pub const COLON: u8 = 58;

/// ASCII `'0'`.
pub const DIGIT_ZERO: u8 = 48;

/// ASCII `'9'`.
pub const DIGIT_NINE: u8 = 57;

/// The one parse failure: the string is not 1 to 3 colon-separated
/// non-negative integer fields.
#[derive(Clone, Copy, Debug, PartialEq, Eq, Structural)]
pub enum ParseError {
    InvalidFormat,
}

impl ParseError {
    /// The human-readable description of the failure.
    pub fn message(&self) -> (s: String)
        ensures
            s@ == "Invalid timer: countdown timer can only have 3 parts at most (hh:mm:ss)"@,
    {
        String::from_str("Invalid timer: countdown timer can only have 3 parts at most (hh:mm:ss)")
    }
}

/// An ASCII decimal digit.
pub open spec fn is_digit(b: u8) -> bool {
    DIGIT_ZERO <= b && b <= DIGIT_NINE
}

/// The numeric value of an ASCII digit.
pub open spec fn digit_val(b: u8) -> int {
    b - DIGIT_ZERO
}

/// The colon-separated fields of `s`: splitting the empty string gives one
/// empty field, every colon opens a new empty field, and every other byte
/// extends the last field.
pub open spec fn fields(s: Seq<u8>) -> Seq<Seq<u8>>
    decreases s.len(),
{
    if s.len() == 0 {
        seq![Seq::<u8>::empty()]
    } else {
        let rest = fields(s.drop_last());
        if s.last() == COLON {
            rest + seq![Seq::<u8>::empty()]
        } else {
            rest.update(rest.len() - 1, rest.last().push(s.last()))
        }
    }
}

/// Every byte of `f` is a decimal digit.
pub open spec fn all_digits(f: Seq<u8>) -> bool {
    forall|i: int| 0 <= i < f.len() ==> is_digit(f[i])
}

/// The decimal value of a digit field.
pub open spec fn field_val(f: Seq<u8>) -> int
    decreases f.len(),
{
    if f.len() == 0 {
        0
    } else {
        field_val(f.drop_last()) * 10 + digit_val(f.last())
    }
}

/// A field the parser accepts: non-empty, all digits, value within `u32`.
pub open spec fn numeric_field(f: Seq<u8>) -> bool {
    &&& f.len() > 0
    &&& all_digits(f)
    &&& field_val(f) <= u32::MAX
}

/// A parseable duration string: at most three fields, all numeric.
pub open spec fn valid_timer(s: Seq<u8>) -> bool {
    &&& fields(s).len() <= 3
    &&& forall|j: int| 0 <= j < fields(s).len() ==> numeric_field(fields(s)[j])
}

/// The base-60 positional sum of a field list, least-significant field last.
pub open spec fn fields_val(fs: Seq<Seq<u8>>) -> int
    decreases fs.len(),
{
    if fs.len() == 0 {
        0
    } else {
        fields_val(fs.drop_last()) * 60 + field_val(fs.last())
    }
}

/// The duration, in seconds, that a valid timer string denotes.
pub open spec fn timer_seconds(s: Seq<u8>) -> int {
    fields_val(fields(s))
}

/// Splitting always yields at least one field.
pub proof fn lemma_fields_nonempty(s: Seq<u8>)
    ensures
        fields(s).len() >= 1,
    decreases s.len(),
{
    if s.len() > 0 {
        lemma_fields_nonempty(s.drop_last());
    }
}

/// A digit field has a non-negative value.
pub proof fn lemma_field_val_nonneg(f: Seq<u8>)
    requires
        all_digits(f),
    ensures
        field_val(f) >= 0,
    decreases f.len(),
{
    if f.len() > 0 {
        lemma_field_val_nonneg(f.drop_last());
    }
}

/// Extending a digit field never lowers its value.
pub proof fn lemma_field_val_take_le(f: Seq<u8>, l: int)
    requires
        all_digits(f),
        0 <= l <= f.len(),
    ensures
        field_val(f.take(l)) <= field_val(f),
    decreases f.len() - l,
{
    if l == f.len() {
        assert(f.take(l) =~= f);
    } else {
        assert(f.take(l + 1).drop_last() =~= f.take(l));
        assert(f.take(l + 1).last() == f[l]);
        assert(all_digits(f.take(l)));
        lemma_field_val_nonneg(f.take(l));
        assert(field_val(f.take(l + 1)) == field_val(f.take(l)) * 10 + digit_val(f[l]));
        lemma_field_val_take_le(f, l + 1);
    }
}

/// Bound on the base-60 sum of at most three in-range fields.
pub proof fn lemma_fields_val_bound(fs: Seq<Seq<u8>>)
    requires
        fs.len() <= 3,
        forall|j: int| 0 <= j < fs.len() ==> all_digits(fs[j]) && field_val(fs[j]) <= u32::MAX,
    ensures
        0 <= fields_val(fs),
        fields_val(fs) <= (if fs.len() == 0 {
            0
        } else if fs.len() == 1 {
            u32::MAX as int
        } else if fs.len() == 2 {
            61 * (u32::MAX as int)
        } else {
            3661 * (u32::MAX as int)
        }),
    decreases fs.len(),
{
    if fs.len() > 0 {
        assert(all_digits(fs.last()) && field_val(fs.last()) <= u32::MAX);
        lemma_field_val_nonneg(fs.last());
        assert(forall|j: int|
            0 <= j < fs.drop_last().len() ==> all_digits(fs.drop_last()[j]) && field_val(
                fs.drop_last()[j],
            ) <= u32::MAX);
        lemma_fields_val_bound(fs.drop_last());
    }
}

/// How the fields of a prefix relate to the fields of the whole string: the
/// completed fields agree, and the prefix's unfinished last field is an
/// initial segment of the corresponding field of the whole.
pub proof fn lemma_fields_extend(p: Seq<u8>, s: Seq<u8>)
    requires
        p.len() <= s.len(),
        p == s.take(p.len() as int),
    ensures
        fields(s).len() >= fields(p).len(),
        forall|j: int| 0 <= j < fields(p).len() - 1 ==> fields(s)[j] == fields(p)[j],
        fields(p).last().len() <= fields(s)[fields(p).len() - 1].len(),
        fields(p).last() == fields(s)[fields(p).len() - 1].take(fields(p).last().len() as int),
    decreases s.len() - p.len(),
{
    lemma_fields_nonempty(p);
    lemma_fields_nonempty(s);
    let k = fields(p).len() - 1;
    if p.len() == s.len() {
        assert(p =~= s);
        assert(fields(p).last() =~= fields(s)[k].take(fields(p).last().len() as int));
    } else {
        let s0 = s.drop_last();
        assert(p == s0.take(p.len() as int)) by {
            assert(s0.take(p.len() as int) =~= s.take(p.len() as int));
        }
        lemma_fields_extend(p, s0);
        lemma_fields_nonempty(s0);
        let m = fields(s0).len() - 1;
        if s.last() == COLON {
            assert(fields(s) == fields(s0) + seq![Seq::<u8>::empty()]);
            assert(fields(s)[k] == fields(s0)[k]);
        } else {
            assert(fields(s) == fields(s0).update(m, fields(s0).last().push(s.last())));
            if k < m {
                assert(fields(s)[k] == fields(s0)[k]);
            } else {
                assert(k == m);
                assert(fields(s)[k] == fields(s0)[k].push(s.last()));
                assert(fields(s0)[k].push(s.last()).take(fields(p).last().len() as int)
                    =~= fields(s0)[k].take(fields(p).last().len() as int));
            }
        }
    }
}

/// Parse a duration string: 1 to 3 colon-separated numeric fields, summed in
/// base 60 from the rightmost (seconds) field.  Every other shape, including
/// the empty string, an empty field, a non-digit byte or an over-long field,
/// fails with `InvalidFormat`.
pub fn parse_timer(value: &str) -> (r: Result<u64, ParseError>)
    ensures
        r is Ok <==> valid_timer(value.spec_bytes()),
        r matches Ok(n) ==> n == timer_seconds(value.spec_bytes()) && n <= MAX_PARSE_SECONDS,
{
    let bytes: &[u8] = value.as_bytes();
    let ghost s = value.spec_bytes();
    let n = bytes.len();
    let mut total: u64 = 0;
    let mut cur: u64 = 0;
    let mut cur_len: usize = 0;
    let mut nfields: usize = 1;
    let mut i: usize = 0;
    proof {
        assert(s.take(0) =~= Seq::<u8>::empty());
    }
    while i < n
        invariant
            s == value.spec_bytes(),
            bytes@ == s,
            n == s.len(),
            i <= n,
            1 <= nfields <= 3,
            fields(s.take(i as int)).len() == nfields,
            forall|j: int| 0 <= j < nfields - 1 ==> numeric_field(fields(s.take(i as int))[j]),
            all_digits(fields(s.take(i as int)).last()),
            fields(s.take(i as int)).last().len() == cur_len,
            cur_len <= i,
            cur == field_val(fields(s.take(i as int)).last()),
            cur <= u32::MAX,
            total == fields_val(fields(s.take(i as int)).drop_last()),
            total <= 61 * (u32::MAX as u64),
        decreases n - i,
    {
        let b = bytes[i];
        let ghost pre = s.take(i as int);
        let ghost post = s.take(i + 1);
        proof {
            assert(post =~= pre.push(s[i as int]));
            assert(post.drop_last() =~= pre);
            lemma_fields_nonempty(pre);
        }
        if b == COLON {
            proof {
                assert(fields(post) == fields(pre) + seq![Seq::<u8>::empty()]);
                lemma_fields_extend(post, s);
            }
            if cur_len == 0 {
                proof {
                    assert(fields(s).len() >= nfields + 1);
                    assert(fields(s)[nfields - 1] == fields(pre).last());
                    assert(fields(s)[nfields - 1].len() == 0);
                    assert(!valid_timer(s)) by {
                        if valid_timer(s) {
                            assert(numeric_field(fields(s)[nfields - 1]));
                        }
                    }
                }
                return Err(ParseError::InvalidFormat);
            }
            if nfields == 3 {
                proof {
                    assert(fields(s).len() >= 4);
                    assert(!valid_timer(s));
                }
                return Err(ParseError::InvalidFormat);
            }
            proof {
                assert(fields(post).drop_last() =~= fields(pre));
                assert(fields(post).last() =~= Seq::<u8>::empty());
                assert(fields_val(fields(pre)) == total * 60 + cur);
                assert(forall|j: int| 0 <= j < nfields ==> numeric_field(fields(pre)[j]));
                lemma_fields_val_bound(fields(pre));
            }
            total = total * 60 + cur;
            cur = 0;
            cur_len = 0;
            nfields = nfields + 1;
        } else if DIGIT_ZERO <= b && b <= DIGIT_NINE {
            proof {
                assert(fields(post) == fields(pre).update(
                    nfields - 1,
                    fields(pre).last().push(s[i as int]),
                ));
                assert(fields(post).drop_last() =~= fields(pre).drop_last());
                assert(fields(post).last() == fields(pre).last().push(s[i as int]));
                assert(fields(post).last().drop_last() =~= fields(pre).last());
                assert(field_val(fields(post).last()) == cur * 10 + digit_val(s[i as int]));
            }
            let d = (b - DIGIT_ZERO) as u64;
            let next = cur * 10 + d;
            if next > u32::MAX as u64 {
                proof {
                    lemma_fields_extend(post, s);
                    let fv = fields(s)[nfields - 1];
                    let l = fields(post).last().len() as int;
                    assert(fields(post).len() == nfields);
                    assert(fields(post).last() == fv.take(l));
                    assert(digit_val(s[i as int]) == d);
                    assert(!valid_timer(s)) by {
                        if valid_timer(s) {
                            assert(numeric_field(fv));
                            lemma_field_val_take_le(fv, l);
                            assert(field_val(fv.take(l)) == field_val(fields(post).last()));
                            assert(field_val(fields(post).last()) == next);
                            assert(false);
                        }
                    }
                }
                return Err(ParseError::InvalidFormat);
            }
            cur = next;
            cur_len = cur_len + 1;
        } else {
            proof {
                assert(fields(post) == fields(pre).update(
                    nfields - 1,
                    fields(pre).last().push(s[i as int]),
                ));
                assert(fields(post).last() == fields(pre).last().push(s[i as int]));
                lemma_fields_extend(post, s);
                let fv = fields(s)[nfields - 1];
                let l = fields(post).last().len() as int;
                assert(fields(post).len() == nfields);
                assert(fields(post).last() == fv.take(l));
                assert(!valid_timer(s)) by {
                    if valid_timer(s) {
                        assert(numeric_field(fv));
                        assert(0 <= l - 1 < fv.len());
                        assert(fv.take(l)[l - 1] == fv[l - 1]);
                        assert(fv.take(l)[l - 1] == s[i as int]);
                        assert(is_digit(fv[l - 1]));
                        assert(false);
                    }
                }
            }
            return Err(ParseError::InvalidFormat);
        }
        i = i + 1;
    }
    proof {
        assert(s.take(n as int) =~= s);
    }
    if cur_len == 0 {
        proof {
            assert(fields(s)[nfields - 1] == fields(s).last());
            assert(!valid_timer(s)) by {
                if valid_timer(s) {
                    assert(numeric_field(fields(s)[nfields - 1]));
                }
            }
        }
        return Err(ParseError::InvalidFormat);
    }
    proof {
        lemma_fields_nonempty(s);
        assert(forall|j: int| 0 <= j < fields(s).len() ==> numeric_field(fields(s)[j])) by {
            assert forall|j: int| 0 <= j < fields(s).len() implies numeric_field(fields(s)[j]) by {
                if j == nfields - 1 {
                    assert(fields(s)[j] == fields(s).last());
                }
            }
        }
        assert(valid_timer(s));
        assert(fields_val(fields(s)) == total * 60 + cur);
        lemma_fields_val_bound(fields(s));
    }
    Ok(total * 60 + cur)
}

} // verus!

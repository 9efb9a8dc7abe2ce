use vstd::prelude::*;

verus! {

use vstd::string::StrSliceExecFns;

/// Largest money value the library accepts, in cents (ten trillion dollars).
/// The remote store reports prices far below this bound; anything larger is
/// rejected like any other malformed price.
pub const MAX_MONEY_CENTS: u64 = 1_000_000_000_000_000;

/// Largest whole-dollar part a money string may carry without exceeding
/// `MAX_MONEY_CENTS`.
const MAX_WHOLE_DOLLARS: u64 = 10_000_000_000_000;

pub open spec fn is_digit(c: char) -> bool {
    48 <= c as u32 && c as u32 <= 57
}

pub open spec fn digit_val(c: char) -> int {
    c as u32 - 48
}

pub open spec fn all_digits(s: Seq<char>) -> bool {
    forall|i: int| 0 <= i < s.len() ==> is_digit(#[trigger] s[i])
}

/// Value of a string of decimal digits, most significant digit first.
pub open spec fn digits_val(s: Seq<char>) -> int
    decreases s.len(),
{
    if s.len() == 0 {
        0
    } else {
        digits_val(s.drop_last()) * 10 + digit_val(s.last())
    }
}

/// Index of the first '.' in `s`, or `s.len()` if there is none.
pub open spec fn dot_index(s: Seq<char>) -> int
    decreases s.len(),
{
    if s.len() == 0 {
        0
    } else if s[0] == '.' {
        0
    } else {
        1 + dot_index(s.drop_first())
    }
}

/// The shape of a money string: one or more digits, optionally followed by a
/// dot and one or two further digits.
pub open spec fn money_format(s: Seq<char>) -> bool {
    let d = dot_index(s);
    &&& d >= 1
    &&& all_digits(s.take(d))
    &&& (d == s.len() || (1 <= s.len() - d - 1 <= 2 && all_digits(s.skip(d + 1))))
}

/// The number of cents a well-formed money string denotes.
pub open spec fn cents_of(s: Seq<char>) -> int {
    let d = dot_index(s);
    let frac = if d < s.len() {
        s.skip(d + 1)
    } else {
        Seq::<char>::empty()
    };
    let scale: int = if frac.len() == 1 {
        10
    } else {
        1
    };
    digits_val(s.take(d)) * 100 + digits_val(frac) * scale
}

/// A money string the library accepts: well-formed and within range.
pub open spec fn valid_money(s: Seq<char>) -> bool {
    money_format(s) && cents_of(s) <= MAX_MONEY_CENTS
}

pub proof fn lemma_digits_val_nonneg(s: Seq<char>)
    requires
        all_digits(s),
    ensures
        digits_val(s) >= 0,
    decreases s.len(),
{
    if s.len() > 0 {
        assert(all_digits(s.drop_last())) by {
            assert forall|i: int| 0 <= i < s.drop_last().len() implies is_digit(
                #[trigger] s.drop_last()[i],
            ) by {
                assert(s.drop_last()[i] == s[i]);
            }
        }
        lemma_digits_val_nonneg(s.drop_last());
        assert(is_digit(s.last()));
    }
}

/// The value of a digit string never shrinks when digits are appended.
pub proof fn lemma_digits_val_take_le(s: Seq<char>, i: int)
    requires
        all_digits(s),
        0 <= i <= s.len(),
    ensures
        digits_val(s.take(i)) <= digits_val(s),
    decreases s.len() - i,
{
    if i < s.len() {
        assert(s.take(i + 1).drop_last() =~= s.take(i));
        assert(s.take(i + 1).last() == s[i]);
        assert(all_digits(s.take(i))) by {
            assert forall|j: int| 0 <= j < s.take(i).len() implies is_digit(
                #[trigger] s.take(i)[j],
            ) by {
                assert(s.take(i)[j] == s[j]);
            }
        }
        lemma_digits_val_nonneg(s.take(i));
        assert(digits_val(s.take(i + 1)) == digits_val(s.take(i)) * 10 + digit_val(s[i]));
        assert(is_digit(s[i]));
        lemma_digits_val_take_le(s, i + 1);
    } else {
        assert(s.take(i) =~= s);
    }
}

/// A well-formed money string never denotes a negative number of cents.
pub proof fn lemma_cents_nonneg(s: Seq<char>)
    requires
        money_format(s),
    ensures
        cents_of(s) >= 0,
{
    let d = dot_index(s);
    lemma_digits_val_nonneg(s.take(d));
    if d < s.len() {
        lemma_digits_val_nonneg(s.skip(d + 1));
    }
}

/// `dot_index` points at the first dot: nothing before it is a dot, and the
/// index itself holds a dot unless the string has none.
pub proof fn lemma_dot_index_is_first(s: Seq<char>)
    ensures
        0 <= dot_index(s) <= s.len(),
        forall|j: int| 0 <= j < dot_index(s) ==> s[j] != '.',
        dot_index(s) < s.len() ==> s[dot_index(s)] == '.',
    decreases s.len(),
{
    if s.len() > 0 && s[0] != '.' {
        lemma_dot_index_is_first(s.drop_first());
        assert forall|j: int| 0 <= j < dot_index(s) implies s[j] != '.' by {
            if j > 0 {
                assert(s.drop_first()[j - 1] == s[j]);
            }
        }
        if dot_index(s) < s.len() {
            assert(s.drop_first()[dot_index(s) - 1] == s[dot_index(s)]);
        }
    }
}

/// Finds the first dot of `s`, agreeing with `dot_index`.
fn find_dot(s: &str) -> (d: usize)
    ensures
        d as int == dot_index(s@),
{
    let n = s.unicode_len();
    let mut i: usize = 0;
    while i < n
        invariant
            0 <= i <= n,
            n == s@.len(),
            forall|j: int| 0 <= j < i ==> s@[j] != '.',
        decreases n - i,
    {
        if s.get_char(i) == '.' {
            proof {
                lemma_dot_index_is_first(s@);
            }
            return i;
        }
        i += 1;
    }
    proof {
        lemma_dot_index_is_first(s@);
    }
    n
}

/// Parses a money string into cents.  Accepts one or more digits, optionally
/// followed by a dot and one or two digits, denoting at most
/// `MAX_MONEY_CENTS` cents; any other string is refused.
pub fn parse_money_cents(s: &str) -> (r: Option<u64>)
    ensures
        valid_money(s@) ==> r == Some((cents_of(s@)) as u64),
        !valid_money(s@) ==> r is None,
        r matches Some(v) ==> v <= MAX_MONEY_CENTS && v == cents_of(s@),
{
    let n = s.unicode_len();
    let d = find_dot(s);
    proof {
        lemma_dot_index_is_first(s@);
    }
    if d == 0 {
        return None;
    }
    let ghost whole = s@.take(d as int);

    // whole-dollar part
    let mut val: u64 = 0;
    let mut j: usize = 0;
    while j < d
        invariant
            0 <= j <= d,
            d as int == dot_index(s@),
            1 <= d <= n,
            n == s@.len(),
            whole == s@.take(d as int),
            all_digits(whole.take(j as int)),
            val == digits_val(whole.take(j as int)),
            val <= MAX_WHOLE_DOLLARS,
        decreases d - j,
    {
        proof {
            lemma_dot_index_is_first(s@);
        }
        let c = s.get_char(j);
        let cv = c as u32;
        if cv < 48 || cv > 57 {
            proof {
                assert(whole[j as int] == s@[j as int]);
                assert(!is_digit(whole[j as int]));
                assert(!all_digits(whole));
            }
            return None;
        }
        let dv: u64 = (cv - 48) as u64;
        let newval: u64 = val * 10 + dv;
        proof {
            assert(whole.take(j + 1).drop_last() =~= whole.take(j as int));
            assert(whole.take(j + 1).last() == s@[j as int]);
            assert(newval == digits_val(whole.take(j + 1)));
            assert(all_digits(whole.take(j + 1))) by {
                assert forall|k: int| 0 <= k < j + 1 implies is_digit(
                    #[trigger] whole.take(j + 1)[k],
                ) by {
                    if k < j {
                        assert(whole.take(j + 1)[k] == whole.take(j as int)[k]);
                    } else {
                        assert(whole.take(j + 1)[k] == s@[j as int]);
                    }
                }
            }
        }
        if newval > MAX_WHOLE_DOLLARS {
            proof {
                if money_format(s@) {
                    lemma_digits_val_take_le(whole, j + 1);
                    assert(digits_val(whole) >= newval > MAX_WHOLE_DOLLARS);
                    let frac = s@.skip(d as int + 1);
                    if d < n {
                        assert(all_digits(frac));
                        lemma_digits_val_nonneg(frac);
                        if frac.len() == 1 {
                            assert(cents_of(s@) == digits_val(whole) * 100 + digits_val(frac) * 10);
                        } else {
                            assert(cents_of(s@) == digits_val(whole) * 100 + digits_val(frac) * 1);
                        }
                    } else {
                        assert(cents_of(s@) == digits_val(whole) * 100 + digits_val(
                            Seq::<char>::empty(),
                        ) * 1);
                    }
                    assert(cents_of(s@) > MAX_MONEY_CENTS);
                }
                assert(!valid_money(s@));
            }
            return None;
        }
        val = newval;
        j += 1;
    }
    proof {
        assert(whole.take(d as int) =~= whole);
    }

    // fractional part
    let mut fv: u64 = 0;
    let mut flen: usize = 0;
    if d < n {
        flen = n - d - 1;
        if flen < 1 || flen > 2 {
            return None;
        }
        let ghost frac = s@.skip(d as int + 1);
        let mut k: usize = 0;
        while k < flen
            invariant
                0 <= k <= flen,
                1 <= flen <= 2,
                d as int == dot_index(s@),
                1 <= d < n,
                flen == n - d - 1,
                n == s@.len(),
                frac == s@.skip(d as int + 1),
                all_digits(frac.take(k as int)),
                fv == digits_val(frac.take(k as int)),
                fv <= 99,
            decreases flen - k,
        {
            let c = s.get_char(d + 1 + k);
            let cv = c as u32;
            proof {
                assert(frac[k as int] == s@[d + 1 + k]);
            }
            if cv < 48 || cv > 57 {
                proof {
                    assert(!is_digit(frac[k as int]));
                    assert(!all_digits(frac));
                }
                return None;
            }
            let dv: u64 = (cv - 48) as u64;
            proof {
                assert(frac.take(k + 1).drop_last() =~= frac.take(k as int));
                assert(frac.take(k + 1).last() == frac[k as int]);
                assert(all_digits(frac.take(k + 1))) by {
                    assert forall|m: int| 0 <= m < k + 1 implies is_digit(
                        #[trigger] frac.take(k + 1)[m],
                    ) by {
                        if m < k {
                            assert(frac.take(k + 1)[m] == frac.take(k as int)[m]);
                        } else {
                            assert(frac.take(k + 1)[m] == frac[k as int]);
                        }
                    }
                }
                if k == 0 {
                    assert(fv == 0);
                } else {
                    assert(fv <= 9) by {
                        let t = frac.take(1);
                        assert(frac.len() == flen);
                        assert(t.len() == 1);
                        assert(t.drop_last() =~= Seq::<char>::empty());
                        assert(digits_val(Seq::<char>::empty()) == 0);
                        assert(t.last() == frac[0]);
                        assert(digits_val(t) == digits_val(t.drop_last()) * 10 + digit_val(
                            t.last(),
                        ));
                        assert(frac.take(k as int) == t);
                        assert(t[0] == frac[0]);
                        assert(is_digit(frac[0]));
                    }
                }
            }
            fv = fv * 10 + dv;
            k += 1;
        }
        proof {
            assert(frac.take(flen as int) =~= frac);
        }
    }

    // assemble
    let scale: u64 = if d < n && n - d - 1 == 1 {
        10
    } else {
        1
    };
    let cents: u64 = val * 100 + fv * scale;
    proof {
        assert(cents == cents_of(s@));
        assert(money_format(s@));
    }
    if cents > MAX_MONEY_CENTS {
        return None;
    }
    Some(cents)
}

} // verus!

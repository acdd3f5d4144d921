//! The way an amount is written: a run of digits, which a point and another
//! run of digits may follow. No sign, no exponent, no separators.

use vstd::prelude::*;

verus! {

/// Whether `c` is one of the digits 0 to 9.
pub open spec fn is_digit(c: char) -> bool {
    '0' <= c <= '9'
}

/// Whether `text` is a run of digits: at least one, and nothing else.
pub open spec fn is_digits(text: Seq<char>) -> bool {
    text.len() > 0 && forall|i: int| 0 <= i < text.len() ==> is_digit(#[trigger] text[i])
}

/// Whether `text` is an amount with its point at `point`: digits in front of
/// the point and digits behind it.
pub open spec fn has_point_at(text: Seq<char>, point: int) -> bool {
    &&& 0 <= point < text.len()
    &&& text[point] == '.'
    &&& is_digits(text.take(point))
    &&& is_digits(text.skip(point + 1))
}

/// Whether `text` is written as an amount.
pub open spec fn is_amount(text: Seq<char>) -> bool {
    is_digits(text) || exists|point: int| has_point_at(text, point)
}

/// An amount starts and ends with a digit.
pub proof fn lemma_amount_ends_in_digit(text: Seq<char>)
    requires
        is_amount(text),
    ensures
        text.len() > 0,
        is_digit(text[0]),
        is_digit(text.last()),
{
    if !is_digits(text) {
        let point = choose|point: int| has_point_at(text, point);
        let behind = text.skip(point + 1);
        assert(text.take(point)[0] == text[0]);
        assert(behind[behind.len() - 1] == text.last());
    }
}

/// How far the reading of an amount has come.
enum Seen {
    /// Nothing yet.
    Nothing,
    /// Digits, and no point.
    Whole,
    /// Digits and the point.
    Point,
    /// Digits, the point, and digits again.
    Fraction,
    /// Something that no amount holds at this place.
    Other,
}

/// What is known of the first `n` characters of `text` once they were read,
/// `point` being where the point stands if one was seen.
spec fn read_so_far(text: Seq<char>, n: int, seen: Seen, point: int) -> bool {
    match seen {
        Seen::Nothing => n == 0,
        Seen::Whole => is_digits(text.take(n)),
        Seen::Point => 0 < point == n - 1 < text.len() && text[point] == '.' && is_digits(
            text.take(point),
        ),
        Seen::Fraction => has_point_at(text.take(n), point),
        Seen::Other => !is_amount(text),
    }
}

/// Where the run of digits at the start of `text` ends at `run`, the text
/// is no amount if the run is empty, if something other than the point
/// follows it, if nothing follows the point, or if something that is no digit
/// stands at `at`, behind the point.
proof fn lemma_no_amount(text: Seq<char>, run: int, at: int)
    requires
        0 <= run <= at <= text.len(),
        run == 0 || is_digits(text.take(run)),
        run < text.len() ==> !is_digit(text[run]),
        ({
            ||| run == 0
            ||| run < text.len() && text[run] != '.'
            ||| run + 1 == at == text.len()
            ||| run < at < text.len() && !is_digit(text[at])
        }),
    ensures
        !is_amount(text),
{
    assert forall|i: int| 0 <= i < run implies is_digit(#[trigger] text[i]) by {
        assert(text.take(run)[i] == text[i]);
    }
    assert forall|point: int| !has_point_at(text, point) by {
        if run < point < text.len() {
            assert(text.take(point)[run] == text[run]);
        } else if point == run && run < at < text.len() {
            assert(text.skip(point + 1)[at - point - 1] == text[at]);
        }
    }
}

/// Whether `text` is written as an amount.
pub fn is_amount_text(text: &str) -> (ok: bool)
    ensures
        ok == is_amount(text@),
{
    let mut seen = Seen::Nothing;
    let ghost mut point: int = 0;
    for c in it: text.chars()
        invariant
            it.seq() == text@,
            read_so_far(text@, it.index() as int, seen, point),
    {
        let ghost n = it.index() as int;
        let ghost now = text@.take(n);
        let ghost next = text@.take(n + 1);
        assert(c == text@[n]);
        assert(next.drop_last() =~= now);
        assert(next.last() == c);
        let digit = '0' <= c && c <= '9';
        match seen {
            Seen::Nothing => {
                if digit {
                    seen = Seen::Whole;
                } else {
                    proof {
                        lemma_no_amount(text@, 0, 0);
                    }
                    seen = Seen::Other;
                }
            },
            Seen::Whole => {
                if digit {
                    assert(is_digits(next)) by {
                        assert forall|i: int| 0 <= i < next.len() implies is_digit(
                            #[trigger] next[i],
                        ) by {
                            if i < n {
                                assert(now[i] == next[i]);
                            }
                        }
                    }
                } else if c == '.' {
                    proof {
                        point = n;
                    }
                    seen = Seen::Point;
                } else {
                    proof {
                        lemma_no_amount(text@, n, n);
                    }
                    seen = Seen::Other;
                }
            },
            Seen::Point => {
                if digit {
                    assert(has_point_at(next, point)) by {
                        assert(next.take(point) =~= text@.take(point));
                        assert(next.skip(point + 1) =~= seq![c]);
                    }
                    seen = Seen::Fraction;
                } else {
                    proof {
                        lemma_no_amount(text@, point, n);
                    }
                    seen = Seen::Other;
                }
            },
            Seen::Fraction => {
                if digit {
                    assert(has_point_at(next, point)) by {
                        assert(next.take(point) =~= now.take(point));
                        assert(next.skip(point + 1).drop_last() =~= now.skip(point + 1));
                        assert forall|i: int| 0 <= i < next.skip(point + 1).len() implies is_digit(
                            #[trigger] next.skip(point + 1)[i],
                        ) by {
                            if i < n - point - 1 {
                                assert(now.skip(point + 1)[i] == next.skip(point + 1)[i]);
                            }
                        }
                    }
                } else {
                    proof {
                        assert(now.take(point) =~= text@.take(point));
                        lemma_no_amount(text@, point, n);
                    }
                    seen = Seen::Other;
                }
            },
            Seen::Other => {},
        }
    }
    proof {
        assert(text@.take(text@.len() as int) =~= text@);
        if seen is Point {
            lemma_no_amount(text@, point, text@.len() as int);
        }
    }
    match seen {
        Seen::Whole => true,
        Seen::Fraction => true,
        _ => false,
    }
}

} // verus!

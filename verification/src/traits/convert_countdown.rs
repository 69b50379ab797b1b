use vstd::prelude::*;

use crate::text::{digit_value, all_digits, digits_value, format_two_digits, two_digits, decimal, lemma_decimal_digits};

verus! {

/// The text of a countdown as `mm:ss`: whole minutes and the seconds left over,
/// each at least two digits wide.
pub open spec fn countdown_label(countdown: nat) -> Seq<char> {
    two_digits(countdown / 60) + seq![':'] + two_digits(countdown % 60)
}

/// Splits a number of seconds into the text of its minutes and of its seconds.
pub trait ConvertCountdown {
    fn to_minutes_seconds(&self, countdown: u32) -> (r: (String, String))
        ensures
            r.0@ == two_digits(countdown as nat / 60),
            r.1@ == two_digits(countdown as nat % 60),
    {
        let mut seconds = countdown;
        let mut minutes: u32 = 0;

        if seconds >= 60 {
            minutes = seconds / 60;
        }
        assert(minutes * 60 <= countdown) by (nonlinear_arith)
            requires
                minutes == 0 || minutes == countdown / 60,
        ;
        seconds = seconds - minutes * 60;

        (format_two_digits(minutes), format_two_digits(seconds))
    }
}

/// A number written with a leading zero still denotes the number.
pub proof fn lemma_two_digits_value(n: nat)
    ensures
        all_digits(two_digits(n)),
        digits_value(two_digits(n)) == n,
        two_digits(n).len() >= 2,
        n < 100 ==> two_digits(n).len() == 2,
{
    lemma_decimal_digits(n);
    if n < 10 {
        let t = seq!['0'] + decimal(n);
        assert(decimal(n) =~= seq![decimal(n)[0]]);
        assert(t.drop_last() =~= seq!['0']);
        assert(seq!['0'].drop_last() =~= Seq::<char>::empty());
        assert(digits_value(Seq::<char>::empty()) == 0);
        assert(digits_value(seq!['0']) == 0);
        assert(t.last() == decimal(n)[0]);
        assert(digits_value(decimal(n)) == digits_value(decimal(n).drop_last()) * 10 + digit_value(decimal(n)[0]));
        assert(decimal(n).drop_last() =~= Seq::<char>::empty());
        assert(digits_value(t) == digits_value(seq!['0']) * 10 + digit_value(decimal(n)[0]));
    } else {
        assert(decimal(n / 10).len() > 0);
        if n < 100 {
            assert(decimal(n / 10) =~= seq![decimal(n / 10)[0]]);
        }
    }
}

/// The minutes and seconds shown for a countdown read back to the countdown: the
/// minutes times sixty plus the seconds, with the seconds below sixty and two
/// digits wide.
pub proof fn lemma_minutes_seconds_read_back(countdown: u32)
    ensures
        all_digits(two_digits(countdown as nat / 60)),
        all_digits(two_digits(countdown as nat % 60)),
        digits_value(two_digits(countdown as nat / 60)) * 60 + digits_value(
            two_digits(countdown as nat % 60),
        ) == countdown,
        digits_value(two_digits(countdown as nat % 60)) < 60,
        two_digits(countdown as nat % 60).len() == 2,
{
    lemma_two_digits_value(countdown as nat / 60);
    lemma_two_digits_value(countdown as nat % 60);
}

/// The label of a countdown is minutes, a colon and two digits of seconds: the
/// minutes times sixty plus the seconds give the countdown back, the seconds are
/// below sixty, and the minutes take at least two digits.
pub proof fn lemma_label_reads_back(countdown: nat)
    ensures
        ({
            let l = countdown_label(countdown);
            let k = l.len() - 3;
            &&& l.len() >= 5
            &&& l[k] == ':'
            &&& all_digits(l.subrange(0, k))
            &&& all_digits(l.subrange(k + 1, l.len() as int))
            &&& digits_value(l.subrange(0, k)) * 60 + digits_value(
                l.subrange(k + 1, l.len() as int),
            ) == countdown
            &&& digits_value(l.subrange(k + 1, l.len() as int)) < 60
        }),
{
    lemma_two_digits_value(countdown / 60);
    lemma_two_digits_value(countdown % 60);
    let a = two_digits(countdown / 60);
    let b = two_digits(countdown % 60);
    let l = countdown_label(countdown);
    assert(l == a + seq![':'] + b);
    assert(l.subrange(0, a.len() as int) =~= a);
    assert(l.subrange((a.len() + 1) as int, l.len() as int) =~= b);
}

} // verus!

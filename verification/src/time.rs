//! Wall-clock reading and `HH:MM:SS` display formatting.
//!
//! Formatting works on whole seconds, so the decomposition into hours,
//! minutes and seconds is exact integer arithmetic; nothing is rounded.
use vstd::prelude::*;
use vstd::string::StringExecFns;

verus! {

/// The decimal digit character for `n` (0 through 9).
pub open spec fn digit(n: int) -> char {
    if n == 0 {
        '0'
    } else if n == 1 {
        '1'
    } else if n == 2 {
        '2'
    } else if n == 3 {
        '3'
    } else if n == 4 {
        '4'
    } else if n == 5 {
        '5'
    } else if n == 6 {
        '6'
    } else if n == 7 {
        '7'
    } else if n == 8 {
        '8'
    } else {
        '9'
    }
}

/// The decimal digits of `n`, most significant first, without leading
/// zeros (zero itself is a single '0').
pub open spec fn decimal_digits(n: int) -> Seq<char>
    recommends
        n >= 0,
    decreases n,
{
    if n < 10 {
        seq![digit(n)]
    } else {
        decimal_digits(n / 10).push(digit(n % 10))
    }
}

/// The decimal digits of `n`, zero-padded on the left to at least two.
pub open spec fn two_padded(n: int) -> Seq<char> {
    if 0 <= n < 10 {
        seq!['0'] + decimal_digits(n)
    } else {
        decimal_digits(n)
    }
}

/// `total` whole seconds rendered as `HH:MM:SS`: whole hours, then minutes
/// and seconds of the remainder, each zero-padded to two digits. The hour
/// field grows to three or more digits rather than clip.
pub open spec fn clock_format(total: int) -> Seq<char> {
    two_padded(total / 3600) + seq![':'] + two_padded((total % 3600) / 60) + seq![':'] + two_padded(
        total % 60,
    )
}

/// The one-character string for the digit `n`.
fn digit_str(n: u64) -> (r: &'static str)
    requires
        n < 10,
    ensures
        r@ == seq![digit(n as int)],
{
    match n {
        0 => {
            proof {
                reveal_strlit("0");
                assert("0"@ =~= seq![digit(0)]);
            }
            "0"
        }
        1 => {
            proof {
                reveal_strlit("1");
                assert("1"@ =~= seq![digit(1)]);
            }
            "1"
        }
        2 => {
            proof {
                reveal_strlit("2");
                assert("2"@ =~= seq![digit(2)]);
            }
            "2"
        }
        3 => {
            proof {
                reveal_strlit("3");
                assert("3"@ =~= seq![digit(3)]);
            }
            "3"
        }
        4 => {
            proof {
                reveal_strlit("4");
                assert("4"@ =~= seq![digit(4)]);
            }
            "4"
        }
        5 => {
            proof {
                reveal_strlit("5");
                assert("5"@ =~= seq![digit(5)]);
            }
            "5"
        }
        6 => {
            proof {
                reveal_strlit("6");
                assert("6"@ =~= seq![digit(6)]);
            }
            "6"
        }
        7 => {
            proof {
                reveal_strlit("7");
                assert("7"@ =~= seq![digit(7)]);
            }
            "7"
        }
        8 => {
            proof {
                reveal_strlit("8");
                assert("8"@ =~= seq![digit(8)]);
            }
            "8"
        }
        _ => {
            proof {
                reveal_strlit("9");
                assert("9"@ =~= seq![digit(n as int)]);
            }
            "9"
        }
    }
}

/// The decimal digits of `n`, most significant first.
fn decimal_string(n: u64) -> (r: String)
    ensures
        r@ == decimal_digits(n as int),
    decreases n,
{
    if n < 10 {
        String::from_str(digit_str(n))
    } else {
        let mut s = decimal_string(n / 10);
        s.append(digit_str(n % 10));
        proof {
            assert(s@ =~= decimal_digits(n as int));
        }
        s
    }
}

/// The decimal digits of `n`, zero-padded on the left to at least two.
fn two_padded_string(n: u64) -> (r: String)
    ensures
        r@ == two_padded(n as int),
{
    if n < 10 {
        let mut s = String::from_str("0");
        s.append(digit_str(n));
        proof {
            reveal_strlit("0");
            assert(s@ =~= two_padded(n as int));
        }
        s
    } else {
        decimal_string(n)
    }
}

/// Renders `total` whole seconds as `HH:MM:SS` for display: hours, minutes
/// and seconds, each zero-padded to two digits, the hour field growing
/// beyond two digits for a hundred hours or more. Display only; stored
/// values stay in whole seconds.
pub fn fmt(total: u64) -> (r: String)
    ensures
        r@ == clock_format(total as int),
{
    let hours = total / 3600;
    let minutes = (total % 3600) / 60;
    let seconds = total % 60;
    let mut s = two_padded_string(hours);
    s.append(":");
    let mid = two_padded_string(minutes);
    s.append(mid.as_str());
    s.append(":");
    let last = two_padded_string(seconds);
    s.append(last.as_str());
    proof {
        reveal_strlit(":");
        assert(s@ =~= clock_format(total as int));
    }
    s
}

/// Relies on std::time::SystemTime for the wall clock: the seconds elapsed
/// since the Unix epoch, as the system clock reports them. A clock set
/// before the epoch reads as zero. Nothing is promised of the value: the
/// callers state what holds whatever the clock returned.
#[verifier::external_body]
fn system_clock_seconds() -> u64 {
    std::time::SystemTime::now().duration_since(std::time::UNIX_EPOCH).map(|d| d.as_secs())
        .unwrap_or(0)
}

/// The current wall-clock reading, in whole seconds since the Unix epoch.
/// The value depends on the machine's clock, so nothing is promised of it;
/// every function that folds time into the ledger takes the reading as an
/// argument and states what holds whatever it was.
pub fn now() -> u64 {
    system_clock_seconds()
}

} // verus!

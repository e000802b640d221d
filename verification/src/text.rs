//! Normalisation and matching of the loosely typed names that the solver
//! echoes back.

use vstd::prelude::*;
use vstd::string::StringExecFns;

verus! {

/// What `str::trim` leaves of a text: the text without its leading and
/// trailing Unicode white space.
pub uninterp spec fn trimmed(text: Seq<char>) -> Seq<char>;

/// What `str::to_lowercase` makes of a text: its Unicode lower-case mapping.
pub uninterp spec fn lowercased(text: Seq<char>) -> Seq<char>;

/// `str::trim` is a function of the characters of its argument alone; its
/// result is named `trimmed`.
pub assume_specification[ str::trim ](s: &str) -> (r: &str)
    ensures
        r@ == trimmed(s@),
;

/// `str::to_lowercase` is a function of the characters of its argument
/// alone; its result is named `lowercased`.
pub assume_specification[ str::to_lowercase ](s: &str) -> (r: String)
    ensures
        r@ == lowercased(s@),
;

/// The key under which a name is stored and looked up: trimmed, then
/// lower-cased.
pub open spec fn normalized(text: Seq<char>) -> Seq<char> {
    lowercased(trimmed(text))
}

/// Normalises a name for lookup.
pub fn norm(s: &str) -> (key: String)
    ensures
        key@ == normalized(s@),
{
    s.trim().to_lowercase()
}

/// Whether `needle` stands somewhere in `hay`, character for character.
pub open spec fn occurs_in(needle: Seq<char>, hay: Seq<char>) -> bool {
    exists|i: int|
        0 <= i && i + needle.len() <= hay.len() && #[trigger] hay.subrange(i, i + needle.len())
            == needle
}

/// The characters of a text.
fn chars_of(s: &str) -> (v: Vec<char>)
    ensures
        v@ == s@,
{
    let mut v: Vec<char> = Vec::new();
    for c in it: s.chars()
        invariant
            it.seq() == s@,
            v@ == s@.take(it.index() as int),
    {
        proof {
            assert(s@.take(it.index() + 1) =~= s@.take(it.index() as int).push(c));
        }
        v.push(c);
    }
    proof {
        assert(s@.take(s@.len() as int) =~= s@);
    }
    v
}

/// Whether `needle` stands in `hay` at the place `at`.
fn stands_at(hay: &Vec<char>, needle: &Vec<char>, at: usize) -> (m: bool)
    requires
        at + needle.len() <= hay.len(),
    ensures
        m == (hay@.subrange(at as int, at + needle.len()) == needle@),
{
    let mut j: usize = 0;
    while j < needle.len()
        invariant
            j <= needle.len(),
            at + needle.len() <= hay.len(),
            forall|k: int| 0 <= k < j ==> hay@[at + k] == needle@[k],
        decreases needle.len() - j,
    {
        if hay[at + j] != needle[j] {
            proof {
                assert(hay@.subrange(at as int, at + needle.len())[j as int] == hay@[at + j]);
            }
            return false;
        }
        j += 1;
    }
    proof {
        assert(hay@.subrange(at as int, at + needle.len()) =~= needle@);
    }
    true
}

/// Whether a text holds another somewhere.
pub fn contains_text(hay: &str, needle: &str) -> (found: bool)
    ensures
        found == occurs_in(needle@, hay@),
{
    let hay_chars = chars_of(hay);
    let needle_chars = chars_of(needle);
    if needle_chars.len() == 0 {
        proof {
            let start: int = 0;
            assert(hay@.subrange(start, start + needle@.len()) =~= needle@);
        }
        return true;
    }
    if needle_chars.len() > hay_chars.len() {
        return false;
    }
    let last: usize = hay_chars.len() - needle_chars.len();
    let mut i: usize = 0;
    while i <= last
        invariant
            i <= last + 1,
            needle_chars.len() > 0,
            last + needle_chars.len() == hay_chars.len(),
            hay_chars@ == hay@,
            needle_chars@ == needle@,
            forall|k: int|
                0 <= k < i ==> #[trigger] hay@.subrange(k, k + needle@.len()) != needle@,
        decreases last + 1 - i,
    {
        if stands_at(&hay_chars, &needle_chars, i) {
            return true;
        }
        i += 1;
    }
    false
}

/// The status of a run whose solver reported `solver_status`: failed where
/// the report, in lower case, holds the letters "fail", succeeded otherwise.
pub open spec fn run_status_for(solver_status: Seq<char>) -> Seq<char> {
    if occurs_in("fail"@, lowercased(solver_status)) {
        "failed"@
    } else {
        "succeeded"@
    }
}

/// The status of a run, given whether the solver's report speaks of a
/// failure.
pub fn status_for_report(speaks_of_failure: bool) -> (status: String)
    ensures
        status@ == if speaks_of_failure {
            "failed"@
        } else {
            "succeeded"@
        },
{
    if speaks_of_failure {
        "failed".to_owned()
    } else {
        "succeeded".to_owned()
    }
}

/// Classifies the solver's own status text as the status of the run.
pub fn classify_status(solver_status: &str) -> (status: String)
    ensures
        status@ == run_status_for(solver_status@),
{
    let lowered = solver_status.to_lowercase();
    status_for_report(contains_text(lowered.as_str(), "fail"))
}

/// The ten digits.
pub open spec fn decimal_digits() -> Seq<char> {
    "0123456789"@
}

/// A natural number in decimal, without leading zeros.
pub open spec fn digits_of(n: nat) -> Seq<char>
    decreases n,
{
    if n < 10 {
        seq![decimal_digits()[n as int]]
    } else {
        digits_of(n / 10).push(decimal_digits()[(n % 10) as int])
    }
}

/// An integer in decimal, with a minus sign where it is negative.
pub open spec fn decimal(n: int) -> Seq<char> {
    if n < 0 {
        seq!['-'] + digits_of((-n) as nat)
    } else {
        digits_of(n as nat)
    }
}

/// One digit as a text.
fn digit_text(d: u64) -> (t: &'static str)
    requires
        d < 10,
    ensures
        t@ == seq![decimal_digits()[d as int]],
{
    proof {
        reveal_strlit("0123456789");
        reveal_strlit("0");
        reveal_strlit("1");
        reveal_strlit("2");
        reveal_strlit("3");
        reveal_strlit("4");
        reveal_strlit("5");
        reveal_strlit("6");
        reveal_strlit("7");
        reveal_strlit("8");
        reveal_strlit("9");
    }
    let t = match d {
        0 => "0",
        1 => "1",
        2 => "2",
        3 => "3",
        4 => "4",
        5 => "5",
        6 => "6",
        7 => "7",
        8 => "8",
        _ => "9",
    };
    assert(t@ =~= seq![decimal_digits()[d as int]]);
    t
}

/// Appends a natural number in decimal.
fn push_digits(out: &mut String, n: u64)
    ensures
        final(out)@ == old(out)@ + digits_of(n as nat),
    decreases n,
{
    if n >= 10 {
        push_digits(out, n / 10);
    }
    out.append(digit_text(n % 10));
    proof {
        assert(out@ =~= old(out)@ + digits_of(n as nat));
    }
}

/// Writes an integer in decimal.
pub fn decimal_text(n: i64) -> (text: String)
    ensures
        text@ == decimal(n as int),
{
    let mut text = String::new();
    if n < 0 {
        proof {
            reveal_strlit("-");
            assert("-"@ =~= seq!['-']);
        }
        text.append("-");
        let magnitude: u64 = (-(n as i128)) as u64;
        push_digits(&mut text, magnitude);
    } else {
        push_digits(&mut text, n as u64);
        proof {
            assert(text@ =~= digits_of(n as nat));
        }
    }
    text
}

} // verus!

//! Characters, runs of characters and runs of digits.

use vstd::prelude::*;

verus! {

/// Whether `c` is white space: a blank, a tab, a line feed or a carriage return.
pub open spec fn is_space(c: char) -> bool {
    c == ' ' || c == '\t' || c == '\n' || c == '\r'
}

/// Whether `c` is one of the ten ASCII digits.
pub open spec fn is_digit(c: char) -> bool {
    '0' <= c <= '9'
}

/// Whether `c` can stand in a unit word: an ASCII letter or the micro sign.
pub open spec fn is_letter(c: char) -> bool {
    'a' <= c <= 'z' || 'A' <= c <= 'Z' || c == 'µ'
}

/// Whether `c` is a plus or a minus sign.
pub open spec fn is_sign(c: char) -> bool {
    c == '+' || c == '-'
}

/// A class of characters that a run is made of.
#[derive(Clone, Copy, Debug, PartialEq, Eq, Structural)]
pub enum CharClass {
    Space,
    Digit,
    Letter,
}

impl CharClass {
    /// Whether `c` belongs to the class.
    pub open spec fn has(self, c: char) -> bool {
        match self {
            CharClass::Space => is_space(c),
            CharClass::Digit => is_digit(c),
            CharClass::Letter => is_letter(c),
        }
    }

    /// Whether `c` belongs to the class.
    pub fn contains(self, c: char) -> (r: bool)
        ensures
            r == self.has(c),
    {
        match self {
            CharClass::Space => c == ' ' || c == '\t' || c == '\n' || c == '\r',
            CharClass::Digit => '0' <= c && c <= '9',
            CharClass::Letter => ('a' <= c && c <= 'z') || ('A' <= c && c <= 'Z') || c == 'µ',
        }
    }
}

/// Where the longest run of characters of `class` that starts at `i` ends:
/// the first position from `i` on that holds no character of the class.
pub open spec fn run_end(s: Seq<char>, i: int, class: CharClass) -> int
    decreases s.len() - i,
{
    if 0 <= i < s.len() && class.has(s[i]) {
        run_end(s, i + 1, class)
    } else {
        i
    }
}

/// A run ends at or after its start.
pub proof fn lemma_run_end_from(s: Seq<char>, i: int, class: CharClass)
    ensures
        i <= run_end(s, i, class),
    decreases s.len() - i,
{
    if 0 <= i < s.len() && class.has(s[i]) {
        lemma_run_end_from(s, i + 1, class);
    }
}

/// A run lies within the text, holds only characters of its class, and is
/// followed by none.
pub proof fn lemma_run_end(s: Seq<char>, i: int, class: CharClass)
    requires
        0 <= i <= s.len(),
    ensures
        i <= run_end(s, i, class) <= s.len(),
        forall|k: int| i <= k < run_end(s, i, class) ==> class.has(#[trigger] s[k]),
        run_end(s, i, class) < s.len() ==> !class.has(s[run_end(s, i, class)]),
    decreases s.len() - i,
{
    if i < s.len() && class.has(s[i]) {
        lemma_run_end(s, i + 1, class);
    }
}

/// A stretch of characters of one class, followed by the end of the text or
/// by a character of another class, is a run.
pub proof fn lemma_run_end_is(s: Seq<char>, i: int, j: int, class: CharClass)
    requires
        0 <= i <= j <= s.len(),
        forall|k: int| i <= k < j ==> class.has(#[trigger] s[k]),
        j < s.len() ==> !class.has(s[j]),
    ensures
        run_end(s, i, class) == j,
    decreases j - i,
{
    if i < j {
        lemma_run_end_is(s, i + 1, j, class);
    }
}

/// The end of the longest run of characters of `class` that starts at `i`.
pub fn scan_run(s: &[char], i: usize, class: CharClass) -> (j: usize)
    requires
        i <= s.len(),
    ensures
        j == run_end(s@, i as int, class),
        i <= j <= s.len(),
{
    let mut j: usize = i;
    while j < s.len() && class.contains(s[j])
        invariant
            i <= j <= s.len(),
            run_end(s@, j as int, class) == run_end(s@, i as int, class),
        decreases s.len() - j,
    {
        j = j + 1;
    }
    j
}

/// The number that the digit `c` stands for.
pub open spec fn digit_value(c: char) -> nat {
    (c as u8 - '0' as u8) as nat
}

/// The number `init` with the decimal digits `d` written after it.
pub open spec fn append_digits(init: nat, d: Seq<char>) -> nat
    decreases d.len(),
{
    if d.len() == 0 {
        init
    } else {
        10 * append_digits(init, d.drop_last()) + digit_value(d.last())
    }
}

/// Writing more digits after a number never makes it smaller.
pub proof fn lemma_append_digits_grows(init: nat, d: Seq<char>, n: int)
    requires
        0 <= n <= d.len(),
    ensures
        append_digits(init, d.take(n)) <= append_digits(init, d),
    decreases d.len(),
{
    if n == d.len() {
        assert(d.take(n) =~= d);
    } else {
        assert(d.drop_last().take(n) =~= d.take(n));
        lemma_append_digits_grows(init, d.drop_last(), n);
    }
}

/// The number `init` with the digits `s[from..to]` written after it, or
/// `None` if that number is beyond `u64`.
pub fn read_digits(s: &[char], from: usize, to: usize, init: u64) -> (r: Option<u64>)
    requires
        from <= to <= s.len(),
        forall|k: int| from <= k < to ==> is_digit(#[trigger] s@[k]),
    ensures
        match r {
            Some(v) => v == append_digits(init as nat, s@.subrange(from as int, to as int)),
            None => append_digits(init as nat, s@.subrange(from as int, to as int)) > u64::MAX,
        },
{
    let ghost all = s@.subrange(from as int, to as int);
    let mut acc: u64 = init;
    let mut k: usize = from;
    assert(s@.subrange(from as int, from as int) =~= Seq::<char>::empty());
    while k < to
        invariant
            from <= k <= to <= s.len(),
            all == s@.subrange(from as int, to as int),
            forall|j: int| from <= j < to ==> is_digit(#[trigger] s@[j]),
            acc == append_digits(init as nat, s@.subrange(from as int, k as int)),
        decreases to - k,
    {
        let c = s[k];
        let digit: u64 = (c as u8 - '0' as u8) as u64;
        proof {
            let next = s@.subrange(from as int, k + 1);
            assert(next.drop_last() =~= s@.subrange(from as int, k as int));
            assert(next.last() == c);
            assert(all.take(k + 1 - from) =~= next);
            lemma_append_digits_grows(init as nat, all, k + 1 - from);
        }
        let tenfold: u64 = match acc.checked_mul(10) {
            Some(t) => t,
            None => {
                return None;
            },
        };
        acc = match tenfold.checked_add(digit) {
            Some(t) => t,
            None => {
                return None;
            },
        };
        k = k + 1;
    }
    Some(acc)
}

} // verus!

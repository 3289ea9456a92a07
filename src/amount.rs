//! Decimal amounts, held as the digits that were read, so that no precision
//! is lost and no arithmetic can overflow.
use vstd::prelude::*;
use vstd::string::StrSliceExecFns;
use vstd::string::StringExecFns;

verus! {

pub open spec fn is_digit(c: char) -> bool {
    '0' <= c && c <= '9'
}

/// Reads a decimal body (digits with at most one '.') from the left. The
/// first component says whether the text read so far is well formed, the
/// second where its '.' stands (-1 where it has none).
pub open spec fn scan_decimal(body: Seq<char>) -> (bool, int)
    decreases body.len(),
{
    if body.len() == 0 {
        (true, -1)
    } else {
        let prev = scan_decimal(body.drop_last());
        let c = body.last();
        if !prev.0 {
            prev
        } else if is_digit(c) {
            prev
        } else if c == '.' && prev.1 < 0 {
            (true, body.len() - 1)
        } else {
            (false, prev.1)
        }
    }
}

/// How many characters of sign stand in front of the number.
pub open spec fn sign_len(s: Seq<char>) -> int {
    if s.len() > 0 && (s[0] == '-' || s[0] == '+') {
        1
    } else {
        0
    }
}

/// The amount a text denotes: an optional sign, then digits with at most one
/// decimal point, and at least one digit. The model is (negative, digits
/// before the point, digits after it).
pub open spec fn decimal_of(s: Seq<char>) -> Option<(bool, Seq<char>, Seq<char>)> {
    let body = s.subrange(sign_len(s), s.len() as int);
    let scanned = scan_decimal(body);
    let whole = if scanned.1 < 0 { body } else { body.take(scanned.1) };
    let fraction = if scanned.1 < 0 { Seq::<char>::empty() } else { body.skip(scanned.1 + 1) };
    if scanned.0 && whole.len() + fraction.len() > 0 {
        Some((s.len() > 0 && s[0] == '-', whole, fraction))
    } else {
        None
    }
}

/// Number of '0' characters that open the sequence.
pub open spec fn leading_zeros(s: Seq<char>) -> nat
    decreases s.len(),
{
    if s.len() > 0 && s[0] == '0' {
        1 + leading_zeros(s.drop_first())
    } else {
        0
    }
}

/// Number of '0' characters that close the sequence.
pub open spec fn trailing_zeros(s: Seq<char>) -> nat
    decreases s.len(),
{
    if s.len() > 0 && s.last() == '0' {
        1 + trailing_zeros(s.drop_last())
    } else {
        0
    }
}

/// The value of a sequence of digits, read as a natural number.
pub open spec fn digits_value(s: Seq<char>) -> int
    decreases s.len(),
{
    if s.len() == 0 {
        0
    } else {
        digits_value(s.drop_last()) * 10 + (s.last() as int - '0' as int)
    }
}

/// A signed decimal amount: `whole` and `fraction` hold decimal digits.
pub struct Amount {
    pub negative: bool,
    pub whole: String,
    pub fraction: String,
}

impl View for Amount {
    type V = (bool, Seq<char>, Seq<char>);

    open spec fn view(&self) -> (bool, Seq<char>, Seq<char>) {
        (self.negative, self.whole@, self.fraction@)
    }
}

pub open spec fn amount_model(a: Option<Amount>) -> Option<(bool, Seq<char>, Seq<char>)> {
    match a {
        Some(x) => Some(x@),
        None => None,
    }
}

/// The amount as an integer count of units of `10^-scale`, where the scale
/// is the number of fraction digits.
pub open spec fn units(m: (bool, Seq<char>, Seq<char>)) -> int {
    let v = digits_value(m.1 + m.2);
    if m.0 {
        -v
    } else {
        v
    }
}

pub open spec fn scale(m: (bool, Seq<char>, Seq<char>)) -> nat {
    m.2.len()
}

pub open spec fn is_zero(m: (bool, Seq<char>, Seq<char>)) -> bool {
    leading_zeros(m.1) == m.1.len() && trailing_zeros(m.2) == m.2.len()
}

pub open spec fn negated(m: (bool, Seq<char>, Seq<char>)) -> (bool, Seq<char>, Seq<char>) {
    (!m.0, m.1, m.2)
}

/// Amount text in its shortest form: no leading zeros before the point (one
/// '0' where nothing else is left), no trailing zeros after it, no point
/// without digits after it, and a '-' only in front of a value other than 0.
pub open spec fn amount_text(m: (bool, Seq<char>, Seq<char>)) -> Seq<char> {
    let lead = leading_zeros(m.1);
    let tail = trailing_zeros(m.2);
    let whole = if lead == m.1.len() { seq!['0'] } else { m.1.skip(lead as int) };
    let fraction = m.2.take(m.2.len() - tail);
    let sign = if m.0 && !is_zero(m) { seq!['-'] } else { Seq::<char>::empty() };
    let point = if fraction.len() > 0 { seq!['.'] + fraction } else { Seq::<char>::empty() };
    sign + whole + point
}

proof fn lemma_leading_zeros(s: Seq<char>, i: int)
    requires
        0 <= i <= s.len(),
        forall|j: int| 0 <= j < i ==> s[j] == '0',
        i == s.len() || s[i] != '0',
    ensures
        leading_zeros(s) == i,
    decreases i,
{
    if i > 0 {
        lemma_leading_zeros(s.drop_first(), i - 1);
    }
}

proof fn lemma_trailing_zeros(s: Seq<char>, k: int)
    requires
        0 <= k <= s.len(),
        forall|j: int| s.len() - k <= j < s.len() ==> s[j] == '0',
        k == s.len() || s[s.len() - k - 1] != '0',
    ensures
        trailing_zeros(s) == k,
    decreases k,
{
    if k > 0 {
        lemma_trailing_zeros(s.drop_last(), k - 1);
    }
}

pub fn char_is_digit(c: char) -> (r: bool)
    ensures
        r == is_digit(c),
{
    '0' <= c && c <= '9'
}

fn count_leading_zeros(s: &str) -> (k: usize)
    ensures
        k == leading_zeros(s@),
        k <= s@.len(),
{
    let n = s.unicode_len();
    let mut i: usize = 0;
    let mut stop = false;
    while i < n && !stop
        invariant
            n == s@.len(),
            i <= n,
            forall|j: int| 0 <= j < i ==> s@[j] == '0',
            stop ==> i < n && s@[i as int] != '0',
        decreases n - i + if stop { 0int } else { 1int },
    {
        if s.get_char(i) != '0' {
            stop = true;
        } else {
            i = i + 1;
        }
    }
    proof {
        lemma_leading_zeros(s@, i as int);
    }
    i
}

fn count_trailing_zeros(s: &str) -> (k: usize)
    ensures
        k == trailing_zeros(s@),
        k <= s@.len(),
{
    let n = s.unicode_len();
    let mut k: usize = 0;
    let mut stop = false;
    while k < n && !stop
        invariant
            n == s@.len(),
            k <= n,
            forall|j: int| n - k <= j < n ==> s@[j] == '0',
            stop ==> k < n && s@[n - k - 1] != '0',
        decreases n - k + if stop { 0int } else { 1int },
    {
        if s.get_char(n - k - 1) != '0' {
            stop = true;
        } else {
            k = k + 1;
        }
    }
    proof {
        lemma_trailing_zeros(s@, k as int);
    }
    k
}

/// Reads a decimal amount such as `12.50`, `-3`, `+.5` or `7.`.
pub fn parse_amount(text: &str) -> (r: Option<Amount>)
    ensures
        amount_model(r) == decimal_of(text@),
{
    let n = text.unicode_len();
    let mut start: usize = 0;
    let mut negative = false;
    if n > 0 {
        let c = text.get_char(0);
        if c == '-' || c == '+' {
            start = 1;
            negative = c == '-';
        }
    }
    let ghost body = text@.subrange(start as int, n as int);
    let mut ok = true;
    let mut has_dot = false;
    let mut dot: usize = start;
    let mut i: usize = start;
    while i < n
        invariant
            n == text@.len(),
            start <= i <= n,
            start == sign_len(text@),
            body == text@.subrange(start as int, n as int),
            scan_decimal(body.take(i - start)) == (ok, if has_dot { dot - start } else { -1 }),
            has_dot ==> start <= dot < i && text@[dot as int] == '.',
        decreases n - i,
    {
        let c = text.get_char(i);
        proof {
            assert(body.take(i - start + 1).drop_last() == body.take(i - start));
        }
        if ok {
            if char_is_digit(c) {
            } else if c == '.' && !has_dot {
                has_dot = true;
                dot = i;
            } else {
                ok = false;
            }
        }
        i = i + 1;
    }
    proof {
        assert(body.take(n - start) == body);
    }
    if !ok {
        return None;
    }
    let whole_end = if has_dot { dot } else { n };
    let whole = text.substring_char(start, whole_end).to_owned();
    let fraction = if has_dot {
        text.substring_char(dot + 1, n).to_owned()
    } else {
        String::new()
    };
    proof {
        if has_dot {
            assert(whole@ == body.take(dot - start));
            assert(fraction@ == body.skip(dot - start + 1));
        }
    }
    if whole.unicode_len() == 0 && fraction.unicode_len() == 0 {
        return None;
    }
    Some(Amount { negative, whole, fraction })
}

impl Amount {
    /// The same amount with the opposite sign.
    pub fn negate(self) -> (r: Amount)
        ensures
            r@ == negated(self@),
    {
        Amount { negative: !self.negative, whole: self.whole, fraction: self.fraction }
    }

    /// The amount's text in its shortest form (`4.50` reads `4.5`).
    pub fn to_text(&self) -> (r: String)
        ensures
            r@ == amount_text(self@),
    {
        let w = self.whole.as_str();
        let f = self.fraction.as_str();
        let wl = w.unicode_len();
        let fl = f.unicode_len();
        let lead = count_leading_zeros(w);
        let tail = count_trailing_zeros(f);
        proof {
            reveal_strlit("-");
            reveal_strlit("0");
            reveal_strlit(".");
        }
        let mut r = String::new();
        if self.negative && !(lead == wl && tail == fl) {
            r.append("-");
        }
        if lead == wl {
            r.append("0");
        } else {
            r.append(w.substring_char(lead, wl));
        }
        if tail < fl {
            r.append(".");
            r.append(f.substring_char(0, fl - tail));
        }
        proof {
            let m = self@;
            assert(m.1.skip(lead as int) == w@.subrange(lead as int, wl as int));
            assert(m.2.take(m.2.len() - tail) == f@.subrange(0, fl - tail));
            assert(r@ == amount_text(m));
        }
        r
    }
}

/// The two postings of a transaction, a magnitude and its negation, sum to
/// zero: they have the same scale and units that cancel, whatever the amount.
pub proof fn lemma_postings_balance(m: (bool, Seq<char>, Seq<char>))
    ensures
        units(m) + units(negated(m)) == 0,
        scale(m) == scale(negated(m)),
        is_zero(m) == is_zero(negated(m)),
{
}

} // verus!

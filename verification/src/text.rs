//! Character-sequence utilities with exact specifications.
use vstd::prelude::*;

verus! {

/// Unicode `White_Space` property, the set that `char::is_whitespace` tests.
pub open spec fn is_white_space(c: char) -> bool {
    let u = c as u32;
    ||| (0x09 <= u && u <= 0x0d)
    ||| u == 0x20
    ||| u == 0x85
    ||| u == 0xa0
    ||| u == 0x1680
    ||| (0x2000 <= u && u <= 0x200a)
    ||| u == 0x2028
    ||| u == 0x2029
    ||| u == 0x202f
    ||| u == 0x205f
    ||| u == 0x3000
}

/// A class of characters that trimming removes.
#[derive(Clone, Copy)]
pub enum CharClass {
    WhiteSpace,
    Exactly(char),
}

impl CharClass {
    pub open spec fn holds(self, c: char) -> bool {
        match self {
            CharClass::WhiteSpace => is_white_space(c),
            CharClass::Exactly(x) => c == x,
        }
    }

    pub fn test(&self, c: char) -> (b: bool)
        ensures
            b == self.holds(c),
    {
        match self {
            CharClass::WhiteSpace => {
                let u = c as u32;
                (0x09 <= u && u <= 0x0d) || u == 0x20 || u == 0x85 || u == 0xa0 || u == 0x1680
                    || (0x2000 <= u && u <= 0x200a) || u == 0x2028 || u == 0x2029 || u == 0x202f
                    || u == 0x205f || u == 0x3000
            },
            CharClass::Exactly(x) => c == *x,
        }
    }
}

/// Number of leading characters of `s` in class `k`.
pub open spec fn leading_count(s: Seq<char>, k: CharClass) -> nat
    decreases s.len(),
{
    if s.len() > 0 && k.holds(s[0]) {
        1 + leading_count(s.drop_first(), k)
    } else {
        0
    }
}

/// Number of trailing characters of `s` in class `k`.
pub open spec fn trailing_count(s: Seq<char>, k: CharClass) -> nat
    decreases s.len(),
{
    if s.len() > 0 && k.holds(s.last()) {
        1 + trailing_count(s.drop_last(), k)
    } else {
        0
    }
}

/// `s` without its leading characters of class `k` (`str::trim_start_matches`).
pub open spec fn trim_start_of(s: Seq<char>, k: CharClass) -> Seq<char> {
    s.skip(leading_count(s, k) as int)
}

/// `s` without its trailing characters of class `k` (`str::trim_end_matches`).
pub open spec fn trim_end_of(s: Seq<char>, k: CharClass) -> Seq<char> {
    s.take(s.len() - trailing_count(s, k))
}

/// `s` without leading and trailing characters of class `k` (`str::trim_matches`).
pub open spec fn trim_of(s: Seq<char>, k: CharClass) -> Seq<char> {
    trim_end_of(trim_start_of(s, k), k)
}

/// `str::trim`.
pub open spec fn trim_ws(s: Seq<char>) -> Seq<char> {
    trim_of(s, CharClass::WhiteSpace)
}

/// `str::trim().is_empty()`.
pub open spec fn is_blank(s: Seq<char>) -> bool {
    trim_ws(s).len() == 0
}

/// Every character `from` replaced by `to` (`str::replace` of one character by one).
pub open spec fn replace_char(s: Seq<char>, from: char, to: char) -> Seq<char> {
    s.map_values(|c: char| if c == from { to } else { c })
}

/// Backslashes turned into forward slashes.
pub open spec fn slashes(s: Seq<char>) -> Seq<char> {
    replace_char(s, '\\', '/')
}

pub proof fn lemma_leading_count(s: Seq<char>, k: CharClass)
    ensures
        leading_count(s, k) <= s.len(),
        forall|i: int| 0 <= i < leading_count(s, k) ==> k.holds(#[trigger] s[i]),
        leading_count(s, k) < s.len() ==> !k.holds(s[leading_count(s, k) as int]),
    decreases s.len(),
{
    if s.len() > 0 && k.holds(s[0]) {
        lemma_leading_count(s.drop_first(), k);
        assert forall|i: int| 0 <= i < leading_count(s, k) implies k.holds(#[trigger] s[i]) by {
            if i > 0 {
                assert(s[i] == s.drop_first()[i - 1]);
            }
        }
    }
}

pub proof fn lemma_leading_count_unique(s: Seq<char>, k: CharClass, n: int)
    requires
        0 <= n <= s.len(),
        forall|i: int| 0 <= i < n ==> k.holds(#[trigger] s[i]),
        n < s.len() ==> !k.holds(s[n]),
    ensures
        leading_count(s, k) == n,
    decreases s.len(),
{
    if n > 0 {
        assert(k.holds(s[0]));
        assert forall|i: int| 0 <= i < n - 1 implies k.holds(#[trigger] s.drop_first()[i]) by {
            assert(k.holds(s[i + 1]));
        }
        lemma_leading_count_unique(s.drop_first(), k, n - 1);
    }
}

pub proof fn lemma_trailing_count(s: Seq<char>, k: CharClass)
    ensures
        trailing_count(s, k) <= s.len(),
        forall|i: int| s.len() - trailing_count(s, k) <= i < s.len() ==> k.holds(#[trigger] s[i]),
        trailing_count(s, k) < s.len() ==> !k.holds(s[s.len() - trailing_count(s, k) - 1]),
    decreases s.len(),
{
    if s.len() > 0 && k.holds(s.last()) {
        lemma_trailing_count(s.drop_last(), k);
        assert forall|i: int| s.len() - trailing_count(s, k) <= i < s.len() implies k.holds(
            #[trigger] s[i],
        ) by {
            if i < s.len() - 1 {
                assert(s[i] == s.drop_last()[i]);
            }
        }
    }
}

pub proof fn lemma_trailing_count_unique(s: Seq<char>, k: CharClass, n: int)
    requires
        0 <= n <= s.len(),
        forall|i: int| s.len() - n <= i < s.len() ==> k.holds(#[trigger] s[i]),
        n < s.len() ==> !k.holds(s[s.len() - n - 1]),
    ensures
        trailing_count(s, k) == n,
    decreases s.len(),
{
    if n > 0 {
        assert(k.holds(s[s.len() - 1]));
        let t = s.drop_last();
        assert forall|i: int| t.len() - (n - 1) <= i < t.len() implies k.holds(#[trigger] t[i]) by {
            assert(t[i] == s[i]);
        }
        if n - 1 < t.len() {
            assert(t[t.len() - (n - 1) - 1] == s[s.len() - n - 1]);
        }
        lemma_trailing_count_unique(t, k, n - 1);
    }
}

/// Wraps `String::push`.
#[verifier::external_body]
pub(crate) fn push_char(s: &mut String, c: char)
    ensures
        final(s)@ == old(s)@.push(c),
{
    s.push(c);
}

/// The characters of `s`.
pub fn chars_of(s: &str) -> (v: Vec<char>)
    ensures
        v@ == s@,
{
    let mut v: Vec<char> = Vec::new();
    for c in it: s.chars()
        invariant
            v@ == it.seq().take(it.index() as int),
            it.seq() == s@,
    {
        v.push(c);
    }
    v
}

/// The string made of the characters `v[from..to]`.
pub fn string_of_range(v: &Vec<char>, from: usize, to: usize) -> (s: String)
    requires
        from <= to <= v.len(),
    ensures
        s@ == v@.subrange(from as int, to as int),
{
    let mut s = String::new();
    let mut i = from;
    while i < to
        invariant
            from <= i <= to <= v.len(),
            s@ == v@.subrange(from as int, i as int),
        decreases to - i,
    {
        push_char(&mut s, v[i]);
        i = i + 1;
        assert(s@ =~= v@.subrange(from as int, i as int));
    }
    s
}

/// The string made of the characters of `v`.
pub fn string_of(v: &Vec<char>) -> (s: String)
    ensures
        s@ == v@,
{
    let s = string_of_range(v, 0, v.len());
    assert(v@.subrange(0, v@.len() as int) =~= v@);
    s
}

/// Bounds `[start, end)` of `v` once the leading and trailing characters of class `k` are removed.
fn trim_bounds(v: &Vec<char>, k: CharClass) -> (r: (usize, usize))
    ensures
        r.0 <= r.1 <= v.len(),
        v@.subrange(r.0 as int, r.1 as int) == trim_of(v@, k),
{
    let n = v.len();
    let mut i: usize = 0;
    while i < n && k.test(v[i])
        invariant
            i <= n == v.len(),
            forall|j: int| 0 <= j < i ==> k.holds(#[trigger] v@[j]),
        decreases n - i,
    {
        i = i + 1;
    }
    proof {
        lemma_leading_count_unique(v@, k, i as int);
    }
    let ghost rest = v@.skip(i as int);
    let mut j: usize = n;
    while j > i && k.test(v[j - 1])
        invariant
            i <= j <= n == v.len(),
            rest == v@.skip(i as int),
            forall|m: int| j <= m < n ==> k.holds(#[trigger] v@[m]),
        decreases j - i,
    {
        j = j - 1;
    }
    proof {
        let t = (n - j) as int;
        assert forall|m: int| rest.len() - t <= m < rest.len() implies k.holds(#[trigger] rest[m]) by {
            assert(rest[m] == v@[m + i]);
        }
        if t < rest.len() {
            assert(rest[rest.len() - t - 1] == v@[j - 1]);
        }
        lemma_trailing_count_unique(rest, k, t);
        assert(v@.subrange(i as int, j as int) =~= rest.take(rest.len() - t));
    }
    (i, j)
}

/// `s` with leading and trailing characters of class `k` removed.
pub fn trim_class(s: &str, k: CharClass) -> (r: String)
    ensures
        r@ == trim_of(s@, k),
{
    let v = chars_of(s);
    let (a, b) = trim_bounds(&v, k);
    string_of_range(&v, a, b)
}

/// `str::trim`.
pub fn trim(s: &str) -> (r: String)
    ensures
        r@ == trim_ws(s@),
{
    trim_class(s, CharClass::WhiteSpace)
}

} // verus!

verus! {

/// The decimal digit `d`.
pub open spec fn digit_char(d: nat) -> char {
    if d == 0 { '0' } else if d == 1 { '1' } else if d == 2 { '2' } else if d == 3 { '3' }
    else if d == 4 { '4' } else if d == 5 { '5' } else if d == 6 { '6' } else if d == 7 { '7' }
    else if d == 8 { '8' } else { '9' }
}

/// Decimal notation of `n`, as `{}` writes it.
pub open spec fn decimal(n: nat) -> Seq<char>
    decreases n,
{
    if n < 10 {
        seq![digit_char(n)]
    } else {
        decimal(n / 10).push(digit_char(n % 10))
    }
}

/// Decimal notation of a signed number, as `{}` writes it.
pub open spec fn signed_decimal(n: int) -> Seq<char> {
    if n < 0 {
        seq!['-'] + decimal((-n) as nat)
    } else {
        decimal(n as nat)
    }
}

fn digit(d: u64) -> (c: char)
    requires
        d < 10,
    ensures
        c == digit_char(d as nat),
{
    if d == 0 { '0' } else if d == 1 { '1' } else if d == 2 { '2' } else if d == 3 { '3' }
    else if d == 4 { '4' } else if d == 5 { '5' } else if d == 6 { '6' } else if d == 7 { '7' }
    else if d == 8 { '8' } else { '9' }
}

/// Decimal notation of `n`.
pub fn decimal_string(n: u64) -> (s: String)
    ensures
        s@ == decimal(n as nat),
    decreases n,
{
    if n < 10 {
        let mut s = String::new();
        push_char(&mut s, digit(n));
        assert(s@ =~= seq![digit_char(n as nat)]);
        s
    } else {
        let mut s = decimal_string(n / 10);
        push_char(&mut s, digit(n % 10));
        s
    }
}

/// Decimal notation of a signed number.
pub fn signed_decimal_string(n: i64) -> (s: String)
    ensures
        s@ == signed_decimal(n as int),
{
    if n < 0 {
        let m: u64 = (0i128 - n as i128) as u64;
        let digits = decimal_string(m);
        let s = String::from_str("-").concat(digits.as_str());
        assert(s@ =~= seq!['-'] + decimal((-n) as nat)) by {
            reveal_strlit("-");
        }
        s
    } else {
        decimal_string(n as u64)
    }
}

} // verus!

verus! {

/// `s` with every `from` replaced by `to`.
pub fn replace_char_in(s: &str, from: char, to: char) -> (r: String)
    ensures
        r@ == replace_char(s@, from, to),
{
    let v = chars_of(s);
    let mut r = String::new();
    let mut i: usize = 0;
    while i < v.len()
        invariant
            i <= v@.len(),
            v@ == s@,
            r@ == replace_char(s@, from, to).take(i as int),
        decreases v@.len() - i,
    {
        let c = v[i];
        push_char(&mut r, if c == from { to } else { c });
        i = i + 1;
        assert(r@ =~= replace_char(s@, from, to).take(i as int));
    }
    assert(replace_char(s@, from, to).take(i as int) =~= replace_char(s@, from, to));
    r
}

/// `s` with backslashes turned into forward slashes.
pub fn to_forward_slashes(s: &str) -> (r: String)
    ensures
        r@ == slashes(s@),
{
    replace_char_in(s, '\\', '/')
}

/// ASCII letters of `s` in lower case (`str::to_ascii_lowercase`).
pub open spec fn ascii_lower(s: Seq<char>) -> Seq<char> {
    s.map_values(|c: char| if 'A' <= c && c <= 'Z' { ((c as u32) + 32) as char } else { c })
}

/// ASCII letters of `s` in lower case.
pub fn to_ascii_lower(s: &str) -> (r: String)
    ensures
        r@ == ascii_lower(s@),
{
    let v = chars_of(s);
    let mut r = String::new();
    let mut i: usize = 0;
    while i < v.len()
        invariant
            i <= v@.len(),
            v@ == s@,
            r@ == ascii_lower(s@).take(i as int),
        decreases v@.len() - i,
    {
        let c = v[i];
        let d = if 'A' <= c && c <= 'Z' {
            ((c as u8) + 32) as char
        } else {
            c
        };
        push_char(&mut r, d);
        i = i + 1;
        assert(r@ =~= ascii_lower(s@).take(i as int));
    }
    assert(ascii_lower(s@).take(i as int) =~= ascii_lower(s@));
    r
}

/// `s.trim().is_empty()`.
pub fn blank(s: &str) -> (b: bool)
    ensures
        b == is_blank(s@),
{
    let v = chars_of(s);
    let (a, z) = trim_bounds(&v, CharClass::WhiteSpace);
    a == z
}

} // verus!

verus! {

/// An ASCII decimal digit.
pub open spec fn is_digit(c: char) -> bool {
    '0' <= c && c <= '9'
}

/// The value of a string of decimal digits.
pub open spec fn digits_value(s: Seq<char>) -> nat
    decreases s.len(),
{
    if s.len() == 0 {
        0
    } else {
        digits_value(s.drop_last()) * 10 + ((s.last() as u32) - 48) as nat
    }
}

/// What `str::parse::<u64>` gives: an optional `+`, then at least one digit and nothing else,
/// and a value that fits.
pub open spec fn parse_u64_spec(s: Seq<char>) -> Option<u64> {
    if unsigned_body(s).len() > 0 && all_digits(unsigned_body(s)) && digits_value(unsigned_body(s))
        <= u64::MAX {
        Some(digits_value(unsigned_body(s)) as u64)
    } else {
        None
    }
}

/// `s` without a leading `+`.
pub open spec fn unsigned_body(s: Seq<char>) -> Seq<char> {
    if s.len() > 0 && s[0] == '+' {
        s.drop_first()
    } else {
        s
    }
}

/// Every character of `s` is a decimal digit.
pub open spec fn all_digits(s: Seq<char>) -> bool {
    forall|i: int| 0 <= i < s.len() ==> is_digit(#[trigger] s[i])
}

/// `str::parse::<u64>`, as a verified function.
pub fn parse_u64(s: &str) -> (r: Option<u64>)
    ensures
        r == parse_u64_spec(s@),
{
    let v = chars_of(s);
    let start: usize = if v.len() > 0 && v[0] == '+' { 1 } else { 0 };
    let ghost body = unsigned_body(s@);
    proof {
        assert(body =~= s@.skip(start as int));
    }
    if start == v.len() {
        return None;
    }
    let mut value: u64 = 0;
    let mut i: usize = start;
    while i < v.len()
        invariant
            start <= i <= v@.len(),
            v@ == s@,
            body == s@.skip(start as int),
            body == unsigned_body(s@),
            body.len() > 0,
            forall|j: int| 0 <= j < i - start ==> is_digit(#[trigger] body[j]),
            value as nat == digits_value(body.take(i - start)),
        decreases v@.len() - i,
    {
        let c = v[i];
        proof {
            assert(body[i - start] == c);
            assert(body.take(i - start + 1).drop_last() =~= body.take(i - start));
        }
        if !('0' <= c && c <= '9') {
            assert(!is_digit(body[i - start]));
            return None;
        }
        let d = ((c as u32) - 48) as u64;
        if value > (u64::MAX - d) / 10 {
            proof {
                let k = i - start + 1;
                assert(body.take(k).last() == c);
                assert(digits_value(body.take(k)) == digits_value(body.take(k - 1)) * 10 + d);
                assert(digits_value(body.take(k)) > u64::MAX) by (nonlinear_arith)
                    requires
                        digits_value(body.take(k)) == value * 10 + d,
                        value > (u64::MAX - d) / 10,
                        d <= 9,
                ;
                lemma_digits_prefix_bound(body, k);
            }
            return None;
        }
        value = value * 10 + d;
        i = i + 1;
    }
    proof {
        assert(body.take(i - start) =~= body);
    }
    Some(value)
}

/// A prefix of digits is worth no more than the whole digit string.
pub proof fn lemma_digits_prefix_bound(s: Seq<char>, k: int)
    requires
        0 <= k <= s.len(),
    ensures
        (forall|i: int| 0 <= i < s.len() ==> is_digit(#[trigger] s[i])) ==> digits_value(s.take(k))
            <= digits_value(s),
    decreases s.len() - k,
{
    if k == s.len() {
        assert(s.take(k) =~= s);
    }
    if k < s.len() && (forall|i: int| 0 <= i < s.len() ==> is_digit(#[trigger] s[i])) {
        lemma_digits_prefix_bound(s, k + 1);
        assert(s.take(k + 1).drop_last() =~= s.take(k));
        assert(is_digit(s[k]));
        assert(s.take(k + 1).last() == s[k]);
        assert(digits_value(s.take(k + 1)) == digits_value(s.take(k)) * 10 + ((s[k] as u32) - 48) as nat);
        assert(digits_value(s.take(k)) <= digits_value(s.take(k)) * 10) by (nonlinear_arith);
    }
}

} // verus!

verus! {

/// `s` without trailing characters of class `k`.
pub fn trim_end_class(s: &str, k: CharClass) -> (r: String)
    ensures
        r@ == trim_end_of(s@, k),
{
    let v = chars_of(s);
    let n = v.len();
    let mut j: usize = n;
    while j > 0 && k.test(v[j - 1])
        invariant
            j <= n == v@.len(),
            v@ == s@,
            forall|m: int| j <= m < n ==> k.holds(#[trigger] v@[m]),
        decreases j,
    {
        j = j - 1;
    }
    proof {
        let t = (n - j) as int;
        if t < n {
            assert(v@[n - t - 1] == v@[j - 1]);
        }
        lemma_trailing_count_unique(v@, k, t);
        assert(v@.subrange(0, j as int) =~= v@.take(j as int));
    }
    string_of_range(&v, 0, j)
}

} // verus!

verus! {

/// A sequence that neither starts nor ends with a character of class `k` is its own trim.
pub proof fn lemma_trim_of_fixed(t: Seq<char>, k: CharClass)
    requires
        t.len() > 0 ==> !k.holds(t[0]) && !k.holds(t.last()),
    ensures
        trim_of(t, k) == t,
{
    lemma_leading_count_unique(t, k, 0);
    assert(t.skip(0) =~= t);
    lemma_trailing_count_unique(t, k, 0);
    assert(t.take(t.len() as int) =~= t);
}

/// Trimming twice trims no more than trimming once.
pub proof fn lemma_trim_of_idempotent(s: Seq<char>, k: CharClass)
    ensures
        trim_of(trim_of(s, k), k) == trim_of(s, k),
        trim_of(s, k).len() > 0 ==> !k.holds(trim_of(s, k)[0]) && !k.holds(trim_of(s, k).last()),
{
    lemma_leading_count(s, k);
    let l = leading_count(s, k);
    let u = s.skip(l as int);
    lemma_trailing_count(u, k);
    let tr = trailing_count(u, k);
    let t = trim_of(s, k);
    if t.len() > 0 {
        assert(t[0] == s[l as int]);
        assert(t.last() == u[u.len() - tr - 1]);
    }
    lemma_trim_of_fixed(t, k);
}

/// Turning backslashes into slashes twice changes nothing more.
pub proof fn lemma_slashes_idempotent(s: Seq<char>)
    ensures
        slashes(slashes(s)) == slashes(s),
{
    assert(slashes(slashes(s)) =~= slashes(s));
}

/// A trimmed path with forward slashes is its own trim.
pub proof fn lemma_trim_slashes_of_trimmed(s: Seq<char>)
    ensures
        trim_ws(slashes(trim_ws(s))) == slashes(trim_ws(s)),
        slashes(trim_ws(s)).len() == trim_ws(s).len(),
{
    let t = trim_ws(s);
    lemma_trim_of_idempotent(s, CharClass::WhiteSpace);
    let u = slashes(t);
    if u.len() > 0 {
        assert(u[0] == (if t[0] == '\\' { '/' } else { t[0] }));
        assert(u.last() == (if t.last() == '\\' { '/' } else { t.last() }));
    }
    lemma_trim_of_fixed(u, CharClass::WhiteSpace);
}

} // verus!

//! Decimal rendering and parsing of integers, and small string helpers.
use vstd::prelude::*;

verus! {

/// `String::push` appends one character.
pub assume_specification[ std::string::String::push ](s: &mut std::string::String, ch: char)
    ensures
        final(s)@ == old(s)@.push(ch),
;

/// The character of a decimal digit.
pub open spec fn digit_char(d: int) -> char {
    if d == 0 {
        '0'
    } else if d == 1 {
        '1'
    } else if d == 2 {
        '2'
    } else if d == 3 {
        '3'
    } else if d == 4 {
        '4'
    } else if d == 5 {
        '5'
    } else if d == 6 {
        '6'
    } else if d == 7 {
        '7'
    } else if d == 8 {
        '8'
    } else {
        '9'
    }
}

/// The decimal representation of a natural number, most significant digit first,
/// without leading zeros.
pub open spec fn decimal(n: nat) -> Seq<char>
    decreases n,
{
    if n < 10 {
        seq![digit_char(n as int)]
    } else {
        decimal(n / 10).push(digit_char((n % 10) as int))
    }
}

/// The decimal representation of an integer, with a leading `-` when negative.
pub open spec fn signed_decimal(n: int) -> Seq<char> {
    if n < 0 {
        seq!['-'] + decimal((-n) as nat)
    } else {
        decimal(n as nat)
    }
}

fn exec_digit_char(d: u64) -> (c: char)
    requires
        d < 10,
    ensures
        c == digit_char(d as int),
{
    if d == 0 {
        '0'
    } else if d == 1 {
        '1'
    } else if d == 2 {
        '2'
    } else if d == 3 {
        '3'
    } else if d == 4 {
        '4'
    } else if d == 5 {
        '5'
    } else if d == 6 {
        '6'
    } else if d == 7 {
        '7'
    } else if d == 8 {
        '8'
    } else {
        '9'
    }
}

/// Appends the decimal digits of `n` to `s`.
pub fn push_decimal(s: &mut String, n: u64)
    ensures
        final(s)@ == old(s)@ + decimal(n as nat),
    decreases n,
{
    if n >= 10 {
        push_decimal(s, n / 10);
    }
    s.push(exec_digit_char(n % 10));
    proof {
        if n < 10 {
            assert(old(s)@ + decimal(n as nat) =~= old(s)@.push(digit_char(n as int)));
        } else {
            assert(old(s)@ + decimal(n as nat) =~= (old(s)@ + decimal((n / 10) as nat)).push(
                digit_char((n % 10) as int),
            ));
        }
    }
}

/// Appends the decimal form of a signed integer to `s`.
pub fn push_signed_decimal(s: &mut String, n: i64)
    ensures
        final(s)@ == old(s)@ + signed_decimal(n as int),
{
    if n < 0 {
        s.push('-');
        let m: i128 = -(n as i128);
        let mag: u64 = m as u64;
        push_decimal(s, mag);
        assert(old(s)@ + signed_decimal(n as int) =~= old(s)@.push('-') + decimal(mag as nat));
    } else {
        push_decimal(s, n as u64);
    }
}

/// Renders an unsigned integer in decimal.
pub fn u64_to_decimal(n: u64) -> (s: String)
    ensures
        s@ == decimal(n as nat),
{
    let mut s = String::new();
    push_decimal(&mut s, n);
    assert(s@ =~= decimal(n as nat));
    s
}

/// Renders a signed integer in decimal.
pub fn i64_to_decimal(n: i64) -> (s: String)
    ensures
        s@ == signed_decimal(n as int),
{
    let mut s = String::new();
    push_signed_decimal(&mut s, n);
    assert(s@ =~= signed_decimal(n as int));
    s
}

/// Appends the characters of `t` to `s`.
pub fn push_str(s: &mut String, t: &str)
    ensures
        final(s)@ == old(s)@ + t@,
{
    s.append(t);
}

// ---------------------------------------------------------------------------
// Parsing
// ---------------------------------------------------------------------------
pub open spec fn is_digit(c: char) -> bool {
    c == '0' || c == '1' || c == '2' || c == '3' || c == '4' || c == '5' || c == '6' || c == '7'
        || c == '8' || c == '9'
}

pub open spec fn digit_value(c: char) -> nat {
    if c == '1' {
        1
    } else if c == '2' {
        2
    } else if c == '3' {
        3
    } else if c == '4' {
        4
    } else if c == '5' {
        5
    } else if c == '6' {
        6
    } else if c == '7' {
        7
    } else if c == '8' {
        8
    } else if c == '9' {
        9
    } else {
        0
    }
}

fn exec_digit_value(c: char) -> (r: Option<u64>)
    ensures
        r is Some <==> is_digit(c),
        r matches Some(d) ==> d == digit_value(c) && d < 10,
{
    if c == '0' {
        Some(0)
    } else if c == '1' {
        Some(1)
    } else if c == '2' {
        Some(2)
    } else if c == '3' {
        Some(3)
    } else if c == '4' {
        Some(4)
    } else if c == '5' {
        Some(5)
    } else if c == '6' {
        Some(6)
    } else if c == '7' {
        Some(7)
    } else if c == '8' {
        Some(8)
    } else if c == '9' {
        Some(9)
    } else {
        None
    }
}

/// The value of a run of decimal digits.
pub open spec fn digits_value(s: Seq<char>) -> nat
    decreases s.len(),
{
    if s.len() == 0 {
        0
    } else {
        digits_value(s.drop_last()) * 10 + digit_value(s.last())
    }
}

/// Why text is not an unsigned integer.
#[derive(Clone, Copy, PartialEq, Eq, Structural, Debug)]
pub enum IntParseError {
    Empty,
    InvalidDigit,
    Overflow,
}

/// The digits after an optional leading `+`.
pub open spec fn unsigned_body(s: Seq<char>) -> Seq<char> {
    if s.len() > 0 && s[0] == '+' {
        s.drop_first()
    } else {
        s
    }
}

pub open spec fn all_digits(s: Seq<char>) -> bool {
    forall|i: int| 0 <= i < s.len() ==> is_digit(#[trigger] s[i])
}

/// What parsing text as a `u64` gives: an optional `+` followed by at least one digit,
/// with a value that fits.
pub open spec fn spec_parse_u64(s: Seq<char>) -> Result<u64, IntParseError> {
    let body = unsigned_body(s);
    if s.len() == 0 {
        Err(IntParseError::Empty)
    } else if body.len() == 0 || !all_digits(body) {
        Err(IntParseError::InvalidDigit)
    } else if digits_value(body) > u64::MAX {
        Err(IntParseError::Overflow)
    } else {
        Ok(digits_value(body) as u64)
    }
}

proof fn lemma_digits_value_monotone(s: Seq<char>, i: int)
    requires
        0 <= i <= s.len(),
        all_digits(s),
    ensures
        digits_value(s.take(i)) <= digits_value(s),
    decreases s.len() - i,
{
    if i < s.len() {
        lemma_digits_value_monotone(s, i + 1);
        assert(s.take(i + 1).drop_last() =~= s.take(i));
    }
    assert(s.take(s.len() as int) =~= s);
}

/// The characters of a string slice.
pub fn str_chars(s: &str) -> (v: Vec<char>)
    ensures
        v@ == s@,
{
    let n = s.unicode_len();
    let mut v: Vec<char> = Vec::new();
    let mut i: usize = 0;
    while i < n
        invariant
            n == s@.len(),
            i <= n,
            v@ == s@.take(i as int),
        decreases n - i,
    {
        let c = s.get_char(i);
        v.push(c);
        i = i + 1;
        assert(v@ =~= s@.take(i as int));
    }
    assert(s@.take(n as int) =~= s@);
    v
}

/// Parses decimal digits, as `str::parse::<u64>` does.
pub fn parse_u64_chars(s: &Vec<char>) -> (r: Result<u64, IntParseError>)
    ensures
        r == spec_parse_u64(s@),
{
    if s.len() == 0 {
        return Err(IntParseError::Empty);
    }
    let start: usize = if s[0] == '+' {
        1
    } else {
        0
    };
    let ghost body = unsigned_body(s@);
    assert(body =~= s@.skip(start as int));
    if start == s.len() {
        return Err(IntParseError::InvalidDigit);
    }
    // First check that every character is a digit.
    let mut k: usize = start;
    while k < s.len()
        invariant
            start <= k <= s.len(),
            s.len() > 0,
            body == unsigned_body(s@),
            body =~= s@.skip(start as int),
            forall|j: int| start <= j < k ==> is_digit(#[trigger] s@[j]),
        decreases s.len() - k,
    {
        let c = s[k];
        if exec_digit_value(c).is_none() {
            assert(body[k - start] == s@[k as int]);
            assert(!is_digit(body[k - start]));
            return Err(IntParseError::InvalidDigit);
        }
        k = k + 1;
    }
    assert(all_digits(body));
    let mut acc: u64 = 0;
    let mut i: usize = start;
    while i < s.len()
        invariant
            start <= i <= s.len(),
            s.len() > 0,
            body == unsigned_body(s@),
            body =~= s@.skip(start as int),
            all_digits(body),
            acc as nat == digits_value(body.take(i - start)),
        decreases s.len() - i,
    {
        let c = s[i];
        assert(body[i - start] == s@[i as int]);
        assert(is_digit(body[i - start]));
        let d: u64 = match exec_digit_value(c) {
            Some(d) => d,
            None => 0,
        };
        assert(body.take(i - start + 1).drop_last() =~= body.take(i - start));
        assert(body.take(i - start + 1).last() == c);
        assert(digits_value(body.take(i - start + 1)) == acc * 10 + d);
        if acc > (u64::MAX - d) / 10 {
            assert(acc * 10 + d > u64::MAX) by (nonlinear_arith)
                requires
                    acc > (u64::MAX - d) / 10,
                    d < 10,
            ;
            proof {
                lemma_digits_value_monotone(body, i - start + 1);
            }
            return Err(IntParseError::Overflow);
        }
        assert(acc * 10 + d <= u64::MAX) by (nonlinear_arith)
            requires
                acc <= (u64::MAX - d) / 10,
                d < 10,
        ;
        acc = acc * 10 + d;
        i = i + 1;
    }
    assert(body.take(body.len() as int) =~= body);
    Ok(acc)
}

/// Parses text as a `u64`, as `str::parse::<u64>` does.
pub fn parse_u64(s: &str) -> (r: Result<u64, IntParseError>)
    ensures
        r == spec_parse_u64(s@),
{
    let v = str_chars(s);
    parse_u64_chars(&v)
}

} // verus!

verus! {

/// Whether two string slices hold the same characters.
pub fn str_eq(a: &str, b: &str) -> (r: bool)
    ensures
        r == (a@ == b@),
{
    let n = a.unicode_len();
    if n != b.unicode_len() {
        return false;
    }
    let mut i: usize = 0;
    while i < n
        invariant
            n == a@.len(),
            n == b@.len(),
            i <= n,
            forall|j: int| 0 <= j < i ==> a@[j] == b@[j],
        decreases n - i,
    {
        if a.get_char(i) != b.get_char(i) {
            return false;
        }
        i = i + 1;
    }
    assert(a@ =~= b@);
    true
}

} // verus!

verus! {

/// `pat` stands in `s` from position `i` on.
pub open spec fn occurs_at(s: Seq<char>, pat: Seq<char>, i: int) -> bool {
    0 <= i && i + pat.len() <= s.len() && s.subrange(i, i + pat.len()) == pat
}

/// `i` is where `pat` first stands in `s`.
pub open spec fn first_occurrence_at(s: Seq<char>, pat: Seq<char>, i: int) -> bool {
    occurs_at(s, pat, i) && forall|j: int| 0 <= j < i ==> !occurs_at(s, pat, j)
}

/// Where `pat` first stands in `s`, if anywhere.
pub open spec fn spec_find(s: Seq<char>, pat: Seq<char>) -> Option<int> {
    if exists|i: int| occurs_at(s, pat, i) {
        Some(choose|i: int| first_occurrence_at(s, pat, i))
    } else {
        None
    }
}

pub proof fn lemma_first_occurrence_unique(s: Seq<char>, pat: Seq<char>, i: int)
    requires
        first_occurrence_at(s, pat, i),
    ensures
        spec_find(s, pat) == Some(i),
{
    assert(exists|k: int| occurs_at(s, pat, k));
    let c = choose|k: int| first_occurrence_at(s, pat, k);
    assert(first_occurrence_at(s, pat, c));
    if c < i {
        assert(!occurs_at(s, pat, c));
    } else if c > i {
        assert(!occurs_at(s, pat, i));
    }
}

proof fn lemma_first_occurrence_exists(s: Seq<char>, pat: Seq<char>, i: int)
    requires
        occurs_at(s, pat, i),
    ensures
        exists|k: int| first_occurrence_at(s, pat, k),
    decreases i,
{
    if exists|j: int| 0 <= j < i && occurs_at(s, pat, j) {
        let j = choose|j: int| 0 <= j < i && occurs_at(s, pat, j);
        lemma_first_occurrence_exists(s, pat, j);
    } else {
        assert(first_occurrence_at(s, pat, i));
    }
}

/// What `spec_find` gives is where `pat` first stands.
pub proof fn lemma_find_is_first(s: Seq<char>, pat: Seq<char>)
    ensures
        spec_find(s, pat) matches Some(k) ==> first_occurrence_at(s, pat, k),
{
    if exists|i: int| occurs_at(s, pat, i) {
        let i = choose|i: int| occurs_at(s, pat, i);
        lemma_first_occurrence_exists(s, pat, i);
    }
}

/// Where `pat` first stands in `s`, as `str::find` tells (counted in characters).
pub fn find_chars(s: &Vec<char>, pat: &Vec<char>) -> (r: Option<usize>)
    ensures
        r matches Some(i) ==> spec_find(s@, pat@) == Some(i as int) && occurs_at(s@, pat@, i as int),
        r is None ==> spec_find(s@, pat@) is None,
{
    if pat.len() > s.len() {
        assert forall|i: int| !occurs_at(s@, pat@, i) by {}
        return None;
    }
    let mut i: usize = 0;
    while s.len() - i >= pat.len()
        invariant
            i <= s@.len(),
            pat@.len() <= s@.len(),
            forall|j: int| 0 <= j < i ==> !occurs_at(s@, pat@, j),
        decreases s@.len() - i,
    {
        let mut k: usize = 0;
        let mut same = true;
        while k < pat.len()
            invariant
                i + pat@.len() <= s@.len(),
                s@.len() <= usize::MAX,
                k <= pat@.len(),
                same ==> forall|m: int| 0 <= m < k ==> s@[i + m] == pat@[m],
                !same ==> !occurs_at(s@, pat@, i as int),
            decreases pat.len() - k,
        {
            if s[i + k] != pat[k] {
                same = false;
                assert(s@.subrange(i as int, i + pat@.len())[k as int] != pat@[k as int]);
            }
            k = k + 1;
        }
        if same {
            assert(s@.subrange(i as int, i + pat@.len()) =~= pat@);
            proof {
                lemma_first_occurrence_unique(s@, pat@, i as int);
            }
            return Some(i);
        }
        assert(pat@.len() > 0) by {
            if pat@.len() == 0 {
                assert(s@.subrange(i as int, i as int) =~= pat@);
            }
        }
        i = i + 1;
    }
    assert forall|j: int| !occurs_at(s@, pat@, j) by {}
    None
}

/// The characters of `v` from `from` up to `to`, as a string.
pub fn chars_to_string(v: &Vec<char>, from: usize, to: usize) -> (r: String)
    requires
        from <= to <= v@.len(),
    ensures
        r@ == v@.subrange(from as int, to as int),
{
    let mut r = String::new();
    let mut i: usize = from;
    while i < to
        invariant
            from <= i <= to,
            to <= v@.len(),
            r@ == v@.subrange(from as int, i as int),
        decreases to - i,
    {
        r.push(v[i]);
        i = i + 1;
        assert(r@ =~= v@.subrange(from as int, i as int));
    }
    r
}

/// Reads `true` or `false`, as `str::parse::<bool>` does.
pub fn parse_bool(s: &str) -> (r: Option<bool>)
    ensures
        r == (if s@ == "true"@ {
            Some(true)
        } else if s@ == "false"@ {
            Some(false)
        } else {
            None
        }),
{
    if str_eq(s, "true") {
        Some(true)
    } else if str_eq(s, "false") {
        Some(false)
    } else {
        None
    }
}

/// The pieces of `s` between separators, the current piece having started as `cur`.
pub open spec fn split_acc(s: Seq<char>, sep: char, cur: Seq<char>) -> Seq<Seq<char>>
    decreases s.len(),
{
    if s.len() == 0 {
        seq![cur]
    } else if s[0] == sep {
        seq![cur] + split_acc(s.drop_first(), sep, Seq::empty())
    } else {
        split_acc(s.drop_first(), sep, cur.push(s[0]))
    }
}

/// The pieces of `s` between separators, as `str::split` gives them: one more piece
/// than there are separators, empty pieces included.
pub open spec fn spec_split(s: Seq<char>, sep: char) -> Seq<Seq<char>> {
    split_acc(s, sep, Seq::empty())
}

/// The pieces of `s` between the separators `sep` (see `spec_split`).
pub fn split_on(s: &str, sep: char) -> (r: Vec<String>)
    ensures
        r@.map_values(|x: String| x@) == spec_split(s@, sep),
{
    let chars = str_chars(s);
    let mut pieces: Vec<String> = Vec::new();
    let mut cur: Vec<char> = Vec::new();
    let mut i: usize = 0;
    assert(chars@.skip(0) =~= chars@);
    assert(pieces@.map_values(|x: String| x@) =~= Seq::<Seq<char>>::empty());
    while i < chars.len()
        invariant
            i <= chars@.len(),
            chars@ == s@,
            pieces@.map_values(|x: String| x@) + split_acc(chars@.skip(i as int), sep, cur@)
                == spec_split(s@, sep),
        decreases chars.len() - i,
    {
        let ghost rest = chars@.skip(i as int);
        assert(rest[0] == chars@[i as int]);
        assert(rest.drop_first() =~= chars@.skip(i + 1));
        let c = chars[i];
        if c == sep {
            let piece = chars_to_string(&cur, 0, cur.len());
            assert(piece@ =~= cur@);
            let ghost before = pieces@;
            pieces.push(piece);
            assert(pieces@.map_values(|x: String| x@) =~= before.map_values(|x: String| x@).push(cur@));
            cur = Vec::new();
            assert(cur@ =~= Seq::<char>::empty());
        } else {
            cur.push(c);
        }
        i = i + 1;
    }
    assert(chars@.skip(i as int) =~= Seq::<char>::empty());
    let piece = chars_to_string(&cur, 0, cur.len());
    assert(piece@ =~= cur@);
    let ghost before = pieces@;
    pieces.push(piece);
    assert(pieces@.map_values(|x: String| x@) =~= before.map_values(|x: String| x@).push(cur@));
    assert(seq![cur@] =~= Seq::<Seq<char>>::empty().push(cur@));
    pieces
}

} // verus!

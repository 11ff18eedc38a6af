//! Character-level text helpers: the character classes the parser needs,
//! whitespace trimming, ASCII case folding, decimal-comma normalisation,
//! and conversions between `&str`, `Vec<char>` and `String`.

use vstd::prelude::*;

verus! {

/// A Unicode white-space character, the set that `str::trim` removes.
pub open spec fn is_ws_char(c: char) -> bool {
    let u = c as int;
    u == 0x09 || u == 0x0A || u == 0x0B || u == 0x0C || u == 0x0D || u == 0x20 || u == 0x85
        || u == 0xA0 || u == 0x1680 || (0x2000 <= u && u <= 0x200A) || u == 0x2028 || u == 0x2029
        || u == 0x202F || u == 0x205F || u == 0x3000
}

/// An ASCII decimal digit.
pub open spec fn is_digit_char(c: char) -> bool {
    0x30 <= c as int && c as int <= 0x39
}

/// The numeric value of an ASCII digit.
pub open spec fn digit_val(c: char) -> int {
    c as int - 0x30
}

/// A character that may belong to the numeric prefix of a reading:
/// a digit, a decimal point, or a minus sign.
pub open spec fn is_numeric_shape_char(c: char) -> bool {
    is_digit_char(c) || c == '.' || c == '-'
}

/// ASCII case folding of one character: 'A'..'Z' map to 'a'..'z',
/// everything else is unchanged.
pub open spec fn lower_char(c: char) -> char {
    if 0x41 <= c as int && c as int <= 0x5A {
        (c as int + 0x20) as char
    } else {
        c
    }
}

/// ASCII case folding of a whole sequence.
pub open spec fn lower(s: Seq<char>) -> Seq<char> {
    Seq::new(s.len(), |i: int| lower_char(s[i]))
}

/// Every comma replaced by a decimal point.
pub open spec fn decommaed(s: Seq<char>) -> Seq<char> {
    Seq::new(s.len(), |i: int| if s[i] == ',' { '.' } else { s[i] })
}

/// The sequence with leading white space removed.
pub open spec fn trim_start(s: Seq<char>) -> Seq<char>
    decreases s.len(),
{
    if s.len() > 0 && is_ws_char(s[0]) {
        trim_start(s.drop_first())
    } else {
        s
    }
}

/// The sequence with trailing white space removed.
pub open spec fn trim_end(s: Seq<char>) -> Seq<char>
    decreases s.len(),
{
    if s.len() > 0 && is_ws_char(s[s.len() - 1]) {
        trim_end(s.drop_last())
    } else {
        s
    }
}

/// The sequence with leading and trailing white space removed,
/// as `str::trim` leaves it.
pub open spec fn trimmed(s: Seq<char>) -> Seq<char> {
    trim_end(trim_start(s))
}

proof fn lemma_trim_start_skip(s: Seq<char>, k: int)
    requires
        0 <= k <= s.len(),
        forall|i: int| 0 <= i < k ==> is_ws_char(s[i]),
        k < s.len() ==> !is_ws_char(s[k]),
    ensures
        trim_start(s) =~= s.skip(k),
    decreases k,
{
    if k == 0 {
        assert(s.skip(0) =~= s);
    } else {
        assert(is_ws_char(s[0]));
        let t = s.drop_first();
        assert(t =~= s.skip(1));
        lemma_trim_start_skip(t, k - 1);
        assert(t.skip(k - 1) =~= s.skip(k));
    }
}

proof fn lemma_trim_end_take(s: Seq<char>, k: int)
    requires
        0 <= k <= s.len(),
        forall|i: int| k <= i < s.len() ==> is_ws_char(s[i]),
        k > 0 ==> !is_ws_char(s[k - 1]),
    ensures
        trim_end(s) =~= s.take(k),
    decreases s.len() - k,
{
    if k == s.len() as int {
        assert(s.take(k) =~= s);
    } else {
        assert(is_ws_char(s[s.len() - 1]));
        let t = s.drop_last();
        lemma_trim_end_take(t, k);
        assert(t.take(k) =~= s.take(k));
    }
}

/// Case folding maps no character into or out of the white-space set.
proof fn lemma_lower_preserves_ws(c: char)
    ensures
        is_ws_char(lower_char(c)) == is_ws_char(c),
{
}

/// Comma replacement maps no character into or out of the white-space
/// set.
proof fn lemma_decomma_preserves_ws(c: char)
    ensures
        is_ws_char(if c == ',' {
            '.'
        } else {
            c
        }) == is_ws_char(c),
{
}

proof fn lemma_lower_trim_start(s: Seq<char>)
    ensures
        lower(trim_start(s)) =~= trim_start(lower(s)),
    decreases s.len(),
{
    if s.len() > 0 {
        lemma_lower_preserves_ws(s[0]);
        if is_ws_char(s[0]) {
            assert(lower(s.drop_first()) =~= lower(s).drop_first());
            lemma_lower_trim_start(s.drop_first());
        }
    }
}

proof fn lemma_lower_trim_end(s: Seq<char>)
    ensures
        lower(trim_end(s)) =~= trim_end(lower(s)),
    decreases s.len(),
{
    if s.len() > 0 {
        lemma_lower_preserves_ws(s[s.len() - 1]);
        if is_ws_char(s[s.len() - 1]) {
            assert(lower(s.drop_last()) =~= lower(s).drop_last());
            lemma_lower_trim_end(s.drop_last());
        }
    }
}

/// Case folding and trimming commute: white space is untouched by the
/// fold, so the trimmed region is the same either way.
pub proof fn lemma_lower_trim_commute(s: Seq<char>)
    ensures
        lower(trimmed(s)) == trimmed(lower(s)),
{
    lemma_lower_trim_start(s);
    lemma_lower_trim_end(trim_start(s));
    assert(lower(trim_end(trim_start(s))) =~= trim_end(lower(trim_start(s))));
}

proof fn lemma_decomma_trim_start(s: Seq<char>)
    ensures
        decommaed(trim_start(s)) =~= trim_start(decommaed(s)),
    decreases s.len(),
{
    if s.len() > 0 {
        lemma_decomma_preserves_ws(s[0]);
        if is_ws_char(s[0]) {
            assert(decommaed(s.drop_first()) =~= decommaed(s).drop_first());
            lemma_decomma_trim_start(s.drop_first());
        }
    }
}

proof fn lemma_decomma_trim_end(s: Seq<char>)
    ensures
        decommaed(trim_end(s)) =~= trim_end(decommaed(s)),
    decreases s.len(),
{
    if s.len() > 0 {
        lemma_decomma_preserves_ws(s[s.len() - 1]);
        if is_ws_char(s[s.len() - 1]) {
            assert(decommaed(s.drop_last()) =~= decommaed(s).drop_last());
            lemma_decomma_trim_end(s.drop_last());
        }
    }
}

/// Comma replacement and trimming commute, and replacing commas twice is
/// the same as replacing them once.
pub proof fn lemma_decomma_trim_commute(s: Seq<char>)
    ensures
        decommaed(trimmed(s)) == trimmed(decommaed(s)),
        decommaed(decommaed(s)) == decommaed(s),
{
    lemma_decomma_trim_start(s);
    lemma_decomma_trim_end(trim_start(s));
    assert(decommaed(trim_end(trim_start(s))) =~= trim_end(decommaed(trim_start(s))));
    assert(decommaed(decommaed(s)) =~= decommaed(s));
}

/// The ASCII digit character for one digit value.
pub open spec fn digit_char(d: int) -> char {
    (0x30 + d) as char
}

/// The decimal text of a non-negative integer, most significant digit
/// first, without leading zeroes.
pub open spec fn dec_str(n: int) -> Seq<char>
    decreases n,
{
    if n < 10 {
        seq![digit_char(n)]
    } else {
        dec_str(n / 10).push(digit_char(n % 10))
    }
}

/// The decimal text of an integer, with a leading minus sign when it is
/// negative.
pub open spec fn int_str(v: int) -> Seq<char> {
    if v < 0 {
        seq!['-'] + dec_str(-v)
    } else {
        dec_str(v)
    }
}

/// Appends one decimal digit character.
fn push_digit(s: &mut String, d: u64)
    requires
        d <= 9,
    ensures
        final(s)@ == old(s)@.push(digit_char(d as int)),
{
    let c: char = ((0x30 + d as u32) as u8) as char;
    proof {
        assert(c == digit_char(d as int));
    }
    push_char(s, c);
}

/// Appends the decimal text of a non-negative integer.
pub fn push_uint(s: &mut String, n: u64)
    ensures
        final(s)@ == old(s)@ + dec_str(n as int),
    decreases n,
{
    if n < 10 {
        push_digit(s, n);
        proof {
            assert(old(s)@.push(digit_char(n as int)) =~= old(s)@ + dec_str(n as int));
        }
    } else {
        push_uint(s, n / 10);
        push_digit(s, n % 10);
        proof {
            assert((old(s)@ + dec_str(n as int / 10)).push(digit_char(n as int % 10)) =~= old(
                s,
            )@ + dec_str(n as int));
        }
    }
}

/// Appends the decimal text of an integer, minus sign included.
pub fn push_int(s: &mut String, v: i64)
    requires
        v > i64::MIN,
    ensures
        final(s)@ == old(s)@ + int_str(v as int),
{
    if v < 0 {
        push_char(s, '-');
        push_uint(s, (-v) as u64);
        proof {
            assert(old(s)@.push('-') + dec_str(-(v as int)) =~= old(s)@ + int_str(v as int));
        }
    } else {
        push_uint(s, v as u64);
    }
}

/// The characters of a string, in order.
pub fn chars_of(s: &str) -> (r: Vec<char>)
    ensures
        r@ == s@,
{
    let n = s.unicode_len();
    let mut r: Vec<char> = Vec::new();
    let mut i: usize = 0;
    while i < n
        invariant
            n == s@.len(),
            i <= n,
            r@ =~= s@.take(i as int),
        decreases n - i,
    {
        r.push(s.get_char(i));
        proof {
            assert(r@ =~= s@.take(i + 1));
        }
        i = i + 1;
    }
    proof {
        assert(s@.take(n as int) =~= s@);
    }
    r
}

/// Relies on `String::push`: appends exactly the given character.
#[verifier::external_body]
fn push_char(s: &mut String, c: char)
    ensures
        final(s)@ == old(s)@.push(c),
{
    s.push(c)
}

/// A freshly allocated string holding exactly the given characters.
pub fn string_of_chars(v: &Vec<char>) -> (r: String)
    ensures
        r@ == v@,
{
    let mut r = String::new();
    let mut i: usize = 0;
    while i < v.len()
        invariant
            i <= v@.len(),
            r@ =~= v@.take(i as int),
        decreases v@.len() - i,
    {
        push_char(&mut r, v[i]);
        proof {
            assert(r@ =~= v@.take(i + 1));
        }
        i = i + 1;
    }
    proof {
        assert(v@.take(v@.len() as int) =~= v@);
    }
    r
}

/// Whether the characters equal those of the given string.
pub fn chars_eq_str(v: &Vec<char>, s: &str) -> (r: bool)
    ensures
        r == (v@ == s@),
{
    let n = s.unicode_len();
    if v.len() != n {
        return false;
    }
    let mut i: usize = 0;
    while i < n
        invariant
            n == s@.len(),
            v@.len() == n,
            i <= n,
            forall|j: int| 0 <= j < i ==> v@[j] == s@[j],
        decreases n - i,
    {
        if v[i] != s.get_char(i) {
            return false;
        }
        i = i + 1;
    }
    proof {
        assert(v@ =~= s@);
    }
    true
}

/// Whether the character may belong to a numeric prefix.
pub fn is_numeric_shape(c: char) -> (b: bool)
    ensures
        b == is_numeric_shape_char(c),
{
    ('0' <= c && c <= '9') || c == '.' || c == '-'
}

/// A copy of the characters between the two positions.
pub fn subvec(v: &Vec<char>, lo: usize, hi: usize) -> (r: Vec<char>)
    requires
        lo <= hi <= v@.len(),
    ensures
        r@ == v@.subrange(lo as int, hi as int),
{
    let mut r: Vec<char> = Vec::new();
    let mut i: usize = lo;
    while i < hi
        invariant
            lo <= i <= hi <= v@.len(),
            r@ =~= v@.subrange(lo as int, i as int),
        decreases hi - i,
    {
        r.push(v[i]);
        proof {
            assert(r@ =~= v@.subrange(lo as int, i + 1));
        }
        i = i + 1;
    }
    r
}

/// Whether the character counts as white space, exactly as
/// `char::is_whitespace` decides it.
pub fn is_ws(c: char) -> (b: bool)
    ensures
        b == is_ws_char(c),
{
    let u = c as u32;
    u == 0x09 || u == 0x0A || u == 0x0B || u == 0x0C || u == 0x0D || u == 0x20 || u == 0x85
        || u == 0xA0 || u == 0x1680 || (0x2000 <= u && u <= 0x200A) || u == 0x2028 || u == 0x2029
        || u == 0x202F || u == 0x205F || u == 0x3000
}

/// The numeric value of an ASCII digit character, `None` for any other.
pub fn digit_of(c: char) -> (r: Option<u64>)
    ensures
        match r {
            Some(d) => is_digit_char(c) && d == digit_val(c) && d <= 9,
            None => !is_digit_char(c),
        },
{
    let u = c as u32;
    if 0x30 <= u && u <= 0x39 {
        Some((u - 0x30) as u64)
    } else {
        None
    }
}

/// Executable ASCII case folding of one character.
pub fn to_lower_char(c: char) -> (r: char)
    ensures
        r == lower_char(c),
{
    let u = c as u32;
    if 0x41 <= u && u <= 0x5A {
        ((u + 0x20) as u8) as char
    } else {
        c
    }
}

/// The characters with leading and trailing white space removed.
pub fn trim_chars(v: &Vec<char>) -> (r: Vec<char>)
    ensures
        r@ == trimmed(v@),
{
    let n = v.len();
    let mut lo: usize = 0;
    while lo < n && is_ws(v[lo])
        invariant
            n == v@.len(),
            lo <= n,
            forall|i: int| 0 <= i < lo ==> is_ws_char(v@[i]),
        decreases n - lo,
    {
        lo = lo + 1;
    }
    proof {
        lemma_trim_start_skip(v@, lo as int);
    }
    let ghost started = v@.skip(lo as int);
    let mut hi: usize = n;
    while hi > lo && is_ws(v[hi - 1])
        invariant
            n == v@.len(),
            lo <= hi <= n,
            forall|i: int| 0 <= i < lo ==> is_ws_char(v@[i]),
            forall|i: int| hi <= i < n ==> is_ws_char(v@[i]),
        decreases hi,
    {
        hi = hi - 1;
    }
    proof {
        assert(forall|i: int| hi - lo <= i < started.len() ==> is_ws_char(started[i]));
        assert(hi > lo ==> !is_ws_char(started[hi - lo - 1]));
        lemma_trim_end_take(started, hi - lo);
    }
    let mut r: Vec<char> = Vec::new();
    let mut i: usize = lo;
    while i < hi
        invariant
            lo <= i <= hi <= n,
            n == v@.len(),
            r@ =~= v@.subrange(lo as int, i as int),
        decreases hi - i,
    {
        r.push(v[i]);
        proof {
            assert(r@ =~= v@.subrange(lo as int, i + 1));
        }
        i = i + 1;
    }
    proof {
        assert(r@ =~= started.take(hi - lo));
    }
    r
}

/// The characters with every comma replaced by a decimal point.
pub fn decomma_chars(v: &Vec<char>) -> (r: Vec<char>)
    ensures
        r@ == decommaed(v@),
{
    let mut r: Vec<char> = Vec::new();
    let mut i: usize = 0;
    while i < v.len()
        invariant
            i <= v@.len(),
            r@.len() == i,
            forall|j: int| 0 <= j < i ==> r@[j] == (if v@[j] == ',' {
                '.'
            } else {
                v@[j]
            }),
        decreases v@.len() - i,
    {
        let c = v[i];
        if c == ',' {
            r.push('.');
        } else {
            r.push(c);
        }
        i = i + 1;
    }
    proof {
        assert(r@ =~= decommaed(v@));
    }
    r
}

/// The characters folded to ASCII lower case.
pub fn lower_chars(v: &Vec<char>) -> (r: Vec<char>)
    ensures
        r@ == lower(v@),
{
    let mut r: Vec<char> = Vec::new();
    let mut i: usize = 0;
    while i < v.len()
        invariant
            i <= v@.len(),
            r@.len() == i,
            forall|j: int| 0 <= j < i ==> r@[j] == lower_char(v@[j]),
        decreases v@.len() - i,
    {
        r.push(to_lower_char(v[i]));
        i = i + 1;
    }
    proof {
        assert(r@ =~= lower(v@));
    }
    r
}

} // verus!

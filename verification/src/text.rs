use vstd::prelude::*;

verus! {

// ---------------------------------------------------------------------------
// ASCII case folding
// ---------------------------------------------------------------------------
/// Lower-cases one ASCII letter; leaves every other character alone.
pub open spec fn spec_lower_char(c: char) -> char {
    if 'A' <= c && c <= 'Z' {
        (((c as u8) + 32) as char)
    } else {
        c
    }
}

/// The character-wise ASCII lower-casing of a sequence.
pub open spec fn spec_lower(s: Seq<char>) -> Seq<char> {
    s.map_values(|c: char| spec_lower_char(c))
}

fn lower_char(c: char) -> (r: char)
    ensures
        r == spec_lower_char(c),
{
    if 'A' <= c && c <= 'Z' {
        ((c as u8) + 32) as char
    } else {
        c
    }
}

/// True exactly when `s`, lower-cased, is the word `word`.
pub fn eq_ignore_ascii_case(s: &str, word: &str) -> (r: bool)
    ensures
        r == (spec_lower(s@) == word@),
{
    let n = s.unicode_len();
    if n != word.unicode_len() {
        assert(spec_lower(s@).len() == s@.len());
        return false;
    }
    let mut i: usize = 0;
    while i < n
        invariant
            i <= n,
            n == s@.len(),
            n == word@.len(),
            forall|j: int| 0 <= j < i ==> spec_lower(s@)[j] == word@[j],
        decreases n - i,
    {
        let c = lower_char(s.get_char(i));
        if c != word.get_char(i) {
            assert(spec_lower(s@)[i as int] != word@[i as int]);
            return false;
        }
        i += 1;
    }
    proof {
        assert(spec_lower(s@) =~= word@);
    }
    true
}

// ---------------------------------------------------------------------------
// Whitespace and trimming
// ---------------------------------------------------------------------------
/// The whitespace characters recognised when a raw native field is trimmed.
pub open spec fn spec_is_space(c: char) -> bool {
    c == ' ' || c == '\t' || c == '\n' || c == '\r' || c == '\u{b}' || c == '\u{c}'
}

fn is_space(c: char) -> (r: bool)
    ensures
        r == spec_is_space(c),
{
    c == ' ' || c == '\t' || c == '\n' || c == '\r' || c == '\u{b}' || c == '\u{c}'
}

/// `s` with leading whitespace removed.
pub open spec fn spec_trim_start(s: Seq<char>) -> Seq<char>
    decreases s.len(),
{
    if s.len() > 0 && spec_is_space(s[0]) {
        spec_trim_start(s.drop_first())
    } else {
        s
    }
}

/// `s` with trailing whitespace removed.
pub open spec fn spec_trim_end(s: Seq<char>) -> Seq<char>
    decreases s.len(),
{
    if s.len() > 0 && spec_is_space(s.last()) {
        spec_trim_end(s.drop_last())
    } else {
        s
    }
}

/// `s` with whitespace removed at both ends.
pub open spec fn spec_trim(s: Seq<char>) -> Seq<char> {
    spec_trim_end(spec_trim_start(s))
}

proof fn lemma_trim_start_at(s: Seq<char>, k: int)
    requires
        0 <= k <= s.len(),
        forall|j: int| 0 <= j < k ==> spec_is_space(s[j]),
        k < s.len() ==> !spec_is_space(s[k]),
    ensures
        spec_trim_start(s) =~= s.subrange(k, s.len() as int),
    decreases k,
{
    if k == 0 {
        if s.len() > 0 && spec_is_space(s[0]) {
            assert(false);
        }
        assert(spec_trim_start(s) =~= s.subrange(0, s.len() as int));
    } else {
        let t = s.drop_first();
        assert(forall|j: int| 0 <= j < k - 1 ==> spec_is_space(t[j]));
        lemma_trim_start_at(t, k - 1);
        assert(t.subrange(k - 1, t.len() as int) =~= s.subrange(k, s.len() as int));
    }
}

proof fn lemma_trim_end_at(s: Seq<char>, k: int)
    requires
        0 <= k <= s.len(),
        forall|j: int| k <= j < s.len() ==> spec_is_space(s[j]),
        k > 0 ==> !spec_is_space(s[k - 1]),
    ensures
        spec_trim_end(s) =~= s.subrange(0, k),
    decreases s.len(),
{
    if k == s.len() {
        if s.len() > 0 && spec_is_space(s.last()) {
            assert(false);
        }
        assert(spec_trim_end(s) =~= s.subrange(0, k));
    } else {
        let t = s.drop_last();
        lemma_trim_end_at(t, k);
        assert(t.subrange(0, k) =~= s.subrange(0, k));
    }
}

/// Copies `s` without its leading and trailing whitespace.
pub fn trim_str(s: &str) -> (r: String)
    ensures
        r@ == spec_trim(s@),
{
    let n = s.unicode_len();
    let mut lo: usize = 0;
    while lo < n && is_space(s.get_char(lo))
        invariant
            lo <= n,
            n == s@.len(),
            forall|j: int| 0 <= j < lo ==> spec_is_space(s@[j]),
        decreases n - lo,
    {
        lo += 1;
    }
    let mut hi: usize = n;
    while hi > lo && is_space(s.get_char(hi - 1))
        invariant
            lo <= hi <= n,
            n == s@.len(),
            forall|j: int| 0 <= j < lo ==> spec_is_space(s@[j]),
            forall|j: int| hi <= j < n ==> spec_is_space(s@[j]),
        decreases hi,
    {
        hi -= 1;
    }
    proof {
        lemma_trim_start_at(s@, lo as int);
        let t = s@.subrange(lo as int, n as int);
        if hi == lo {
            lemma_trim_end_at(t, 0);
        } else {
            lemma_trim_end_at(t, hi - lo);
        }
        assert(t.subrange(0, hi - lo) =~= s@.subrange(lo as int, hi as int));
    }
    let piece = s.substring_char(lo, hi);
    piece.to_owned()
}

// ---------------------------------------------------------------------------
// Decimal digits
// ---------------------------------------------------------------------------
pub open spec fn spec_is_digit(c: char) -> bool {
    '0' <= c && c <= '9'
}

/// The numeric value of a decimal digit character.
pub open spec fn spec_digit_val(c: char) -> int {
    c as int - 48
}

pub open spec fn spec_all_digits(s: Seq<char>) -> bool {
    forall|i: int| 0 <= i < s.len() ==> spec_is_digit(#[trigger] s[i])
}

/// The value of a non-empty run of decimal digits, most significant first.
pub open spec fn spec_digits_val(s: Seq<char>) -> int
    decreases s.len(),
{
    if s.len() == 0 {
        0
    } else {
        spec_digits_val(s.drop_last()) * 10 + spec_digit_val(s.last())
    }
}

pub proof fn lemma_digits_val_nonneg(s: Seq<char>)
    requires
        spec_all_digits(s),
    ensures
        spec_digits_val(s) >= 0,
    decreases s.len(),
{
    if s.len() > 0 {
        lemma_digits_val_nonneg(s.drop_last());
    }
}

pub fn is_digit(c: char) -> (r: bool)
    ensures
        r == spec_is_digit(c),
{
    '0' <= c && c <= '9'
}

// ---------------------------------------------------------------------------
// Parsing a signed decimal integer (the residue-number rule)
// ---------------------------------------------------------------------------
/// The mathematical reading of a signed decimal string: an optional sign,
/// then at least one digit; anything else reads as nothing.
pub open spec fn spec_parse_int(s: Seq<char>) -> Option<int> {
    let signed = s.len() > 0 && (s[0] == '-' || s[0] == '+');
    let ds = if signed {
        s.drop_first()
    } else {
        s
    };
    if ds.len() > 0 && spec_all_digits(ds) {
        if s.len() > 0 && s[0] == '-' {
            Some(-spec_digits_val(ds))
        } else {
            Some(spec_digits_val(ds))
        }
    } else {
        None
    }
}

/// `spec_parse_int` narrowed to values an `i32` can hold.
pub open spec fn spec_parse_i32(s: Seq<char>) -> Option<i32> {
    match spec_parse_int(s) {
        Some(v) => if i32::MIN <= v <= i32::MAX {
            Some(v as i32)
        } else {
            None
        },
        None => None,
    }
}

/// Parses `s` as a signed decimal `i32`; `None` on any malformed or
/// out-of-range input.
pub fn parse_i32(s: &str) -> (r: Option<i32>)
    ensures
        r == spec_parse_i32(s@),
{
    let n = s.unicode_len();
    let mut start: usize = 0;
    let mut negative = false;
    if n > 0 {
        let c0 = s.get_char(0);
        if c0 == '-' {
            negative = true;
            start = 1;
        } else if c0 == '+' {
            start = 1;
        }
    }
    let ghost ds = if start == 1 {
        s@.drop_first()
    } else {
        s@
    };
    assert(ds.len() == n - start);
    assert(forall|j: int| 0 <= j < ds.len() ==> ds[j] == s@[j + start]);
    if start == n {
        assert(spec_parse_int(s@) is None);
        return None;
    }
    let mut i: usize = start;
    let mut acc: i64 = 0;
    let mut over = false;
    while i < n
        invariant
            start <= i <= n,
            n == s@.len(),
            start <= 1,
            start < n,
            (start == 1) == (n > 0 && (s@[0] == '-' || s@[0] == '+')),
            negative == (n > 0 && s@[0] == '-'),
            ds == if start == 1 {
                s@.drop_first()
            } else {
                s@
            },
            forall|j: int| 0 <= j < i - start ==> spec_is_digit(#[trigger] ds[j]),
            !over ==> acc == spec_digits_val(ds.take(i - start)) && 0 <= acc <= 2147483648i64,
            over ==> spec_digits_val(ds.take(i - start)) > 2147483648,
        decreases n - i,
    {
        let c = s.get_char(i);
        if !is_digit(c) {
            assert(!spec_all_digits(ds)) by {
                assert(ds[i - start] == s@[i as int]);
            }
            return None;
        }
        let d: i64 = (c as u8 - 48) as i64;
        proof {
            let t = ds.take(i + 1 - start);
            assert(t.drop_last() =~= ds.take(i - start));
            assert(t.last() == ds[i - start]);
            lemma_digits_val_nonneg(t.drop_last());
        }
        if over {
            proof {
                let prev = ds.take(i - start);
                let t = ds.take(i + 1 - start);
                assert(spec_digits_val(t) == spec_digits_val(prev) * 10 + spec_digit_val(
                    t.last(),
                ));
                assert(spec_digits_val(prev) * 10 > 2147483648 * 10) by (nonlinear_arith)
                    requires
                        spec_digits_val(prev) > 2147483648,
                ;
            }
        } else {
            acc = acc * 10 + d;
            if acc > 2147483648 {
                over = true;
                acc = 0;
            }
        }
        i += 1;
    }
    proof {
        assert(ds.take(n - start) =~= ds);
        assert(spec_all_digits(ds));
    }
    if over {
        proof {
            lemma_digits_val_nonneg(ds);
        }
        return None;
    }
    if negative {
        assert(s@[0] == '-');
        if acc > 2147483648 {
            return None;
        }
        let v: i64 = -acc;
        assert(i32::MIN <= v <= i32::MAX);
        Some(v as i32)
    } else {
        assert(!(s@.len() > 0 && s@[0] == '-'));
        if acc > 2147483647 {
            return None;
        }
        Some(acc as i32)
    }
}

// ---------------------------------------------------------------------------
// Rendering integers back to text
// ---------------------------------------------------------------------------
/// The decimal digit character for a value in 0..10.
pub open spec fn spec_digit_char(d: int) -> char {
    (((d + 48) as u8) as char)
}

/// The canonical decimal rendering of a non-negative integer.
pub open spec fn spec_nat_digits(n: int) -> Seq<char>
    decreases n,
{
    if n < 10 {
        seq![spec_digit_char(n)]
    } else {
        spec_nat_digits(n / 10).push(spec_digit_char(n % 10))
    }
}

/// The canonical decimal rendering of a signed integer.
pub open spec fn spec_int_string(v: int) -> Seq<char> {
    if v < 0 {
        seq!['-'] + spec_nat_digits(-v)
    } else {
        spec_nat_digits(v)
    }
}

/// Relies on char::to_string from std: the returned string holds exactly the
/// one character it was given.
#[verifier::external_body]
pub(crate) fn char_to_string(c: char) -> (r: String)
    ensures
        r@ == seq![c],
{
    c.to_string()
}

fn digit_char(d: u32) -> (r: char)
    requires
        d < 10,
    ensures
        r == spec_digit_char(d as int),
{
    ((d + 48) as u8) as char
}

fn nat_to_string(n: u32) -> (r: String)
    ensures
        r@ == spec_nat_digits(n as int),
    decreases n,
{
    if n < 10 {
        char_to_string(digit_char(n))
    } else {
        assert(n / 10 < n);
        let mut s = nat_to_string(n / 10);
        let tail = char_to_string(digit_char(n % 10));
        s.append(tail.as_str());
        s
    }
}

/// Renders a signed integer in decimal, as `to_string` would.
pub fn i32_to_string(v: i32) -> (r: String)
    ensures
        r@ == spec_int_string(v as int),
{
    if v < 0 {
        let m: u32 = (-(v as i64)) as u32;
        let mut s = char_to_string('-');
        let tail = nat_to_string(m);
        s.append(tail.as_str());
        assert(s@ =~= spec_int_string(v as int));
        s
    } else {
        nat_to_string(v as u32)
    }
}

} // verus!

//! Small operations on text: Unicode white space, trimming, suffixes and
//! ASCII case folding.

use vstd::prelude::*;

verus! {

/// The characters with the Unicode `White_Space` property, which is what
/// `char::is_whitespace` and `str::trim` go by.
pub open spec fn is_white_space(c: char) -> bool {
    let n = c as u32;
    ||| 9 <= n <= 13
    ||| n == 32
    ||| n == 0x85
    ||| n == 0xA0
    ||| n == 0x1680
    ||| 0x2000 <= n <= 0x200A
    ||| n == 0x2028
    ||| n == 0x2029
    ||| n == 0x202F
    ||| n == 0x205F
    ||| n == 0x3000
}

/// Whether `c` is white space.
pub fn white_space(c: char) -> (b: bool)
    ensures
        b == is_white_space(c),
{
    let n = c as u32;
    (9 <= n && n <= 13) || n == 32 || n == 0x85 || n == 0xA0 || n == 0x1680 || (0x2000 <= n && n
        <= 0x200A) || n == 0x2028 || n == 0x2029 || n == 0x202F || n == 0x205F || n == 0x3000
}

/// Index of the first character at or after `i` that is not white space
/// (the length when there is none).
pub open spec fn first_kept(s: Seq<char>, i: int) -> int
    decreases s.len() - i,
{
    if i >= s.len() {
        s.len() as int
    } else if is_white_space(s[i]) {
        first_kept(s, i + 1)
    } else {
        i
    }
}

/// End of the text once trailing white space is cut, scanning down from `j`
/// but not below `lo`.
pub open spec fn last_kept_end(s: Seq<char>, j: int, lo: int) -> int
    decreases j - lo,
{
    if j <= lo {
        lo
    } else if is_white_space(s[j - 1]) {
        last_kept_end(s, j - 1, lo)
    } else {
        j
    }
}

/// Start of the trimmed text.
pub open spec fn trim_start(s: Seq<char>) -> int {
    first_kept(s, 0)
}

/// End of the trimmed text.
pub open spec fn trim_end(s: Seq<char>) -> int {
    last_kept_end(s, s.len() as int, trim_start(s))
}

/// The text without leading and trailing white space, as `str::trim` gives it.
pub open spec fn trimmed(s: Seq<char>) -> Seq<char> {
    s.subrange(trim_start(s), trim_end(s))
}

proof fn lemma_first_kept_bounds(s: Seq<char>, i: int)
    requires
        0 <= i <= s.len(),
    ensures
        i <= first_kept(s, i) <= s.len(),
        forall|k: int| i <= k < first_kept(s, i) ==> is_white_space(#[trigger] s[k]),
        first_kept(s, i) < s.len() ==> !is_white_space(s[first_kept(s, i)]),
    decreases s.len() - i,
{
    if i < s.len() && is_white_space(s[i]) {
        lemma_first_kept_bounds(s, i + 1);
    }
}

proof fn lemma_last_kept_end_bounds(s: Seq<char>, j: int, lo: int)
    requires
        0 <= lo <= j <= s.len(),
    ensures
        lo <= last_kept_end(s, j, lo) <= j,
        forall|k: int| last_kept_end(s, j, lo) <= k < j ==> is_white_space(#[trigger] s[k]),
    decreases j - lo,
{
    if j > lo && is_white_space(s[j - 1]) {
        lemma_last_kept_end_bounds(s, j - 1, lo);
    }
}

/// The bounds of the trimmed text are within the text.
pub proof fn lemma_trim_bounds(s: Seq<char>)
    ensures
        0 <= trim_start(s) <= trim_end(s) <= s.len(),
        trimmed(s).len() == 0 <==> forall|k: int| 0 <= k < s.len() ==> is_white_space(#[trigger] s[k]),
{
    lemma_first_kept_bounds(s, 0);
    lemma_last_kept_end_bounds(s, s.len() as int, trim_start(s));
    if trim_start(s) < s.len() {
        assert(!is_white_space(s[trim_start(s)]));
        assert(last_kept_end(s, s.len() as int, trim_start(s)) > trim_start(s)) by {
            lemma_last_kept_end_above(s, s.len() as int, trim_start(s));
        }
    }
}

proof fn lemma_last_kept_end_char(s: Seq<char>, j: int, lo: int)
    requires
        0 <= lo <= j <= s.len(),
    ensures
        last_kept_end(s, j, lo) == lo || !is_white_space(s[last_kept_end(s, j, lo) - 1]),
    decreases j - lo,
{
    if j > lo && is_white_space(s[j - 1]) {
        lemma_last_kept_end_char(s, j - 1, lo);
    }
}

/// The trimmed text, when not empty, starts and ends with a character that is
/// not white space.
pub proof fn lemma_trim_ends_kept(s: Seq<char>)
    ensures
        trim_start(s) < trim_end(s) ==> !is_white_space(s[trim_start(s)]) && !is_white_space(
            s[trim_end(s) - 1],
        ),
{
    lemma_trim_bounds(s);
    lemma_first_kept_bounds(s, 0);
    lemma_last_kept_end_char(s, s.len() as int, trim_start(s));
}

proof fn lemma_last_kept_end_above(s: Seq<char>, j: int, lo: int)
    requires
        0 <= lo < j <= s.len(),
        !is_white_space(s[lo]),
    ensures
        last_kept_end(s, j, lo) > lo,
    decreases j - lo,
{
    if is_white_space(s[j - 1]) {
        lemma_last_kept_end_above(s, j - 1, lo);
    }
}

/// Bounds of the trimmed part of `s`, in characters.
pub fn trim_bounds(s: &str) -> (r: (usize, usize))
    ensures
        r.0 == trim_start(s@),
        r.1 == trim_end(s@),
        r.0 <= r.1 <= s@.len(),
{
    proof {
        lemma_trim_bounds(s@);
    }
    let n = s.unicode_len();
    let mut i: usize = 0;
    while i < n && white_space(s.get_char(i))
        invariant
            n == s@.len(),
            0 <= i <= n,
            first_kept(s@, i as int) == trim_start(s@),
        decreases n - i,
    {
        i = i + 1;
    }
    let mut j: usize = n;
    while j > i && white_space(s.get_char(j - 1))
        invariant
            n == s@.len(),
            i == trim_start(s@),
            i <= j <= n,
            last_kept_end(s@, j as int, i as int) == trim_end(s@),
        decreases j,
    {
        j = j - 1;
    }
    (i, j)
}

/// The text without leading and trailing white space.
pub fn trim(s: &str) -> (t: &str)
    ensures
        t@ == trimmed(s@),
{
    let (a, b) = trim_bounds(s);
    s.substring_char(a, b)
}

/// Whether the text is empty once trimmed, that is, is only white space.
pub fn is_blank(s: &str) -> (b: bool)
    ensures
        b == (trimmed(s@).len() == 0),
{
    let (a, e) = trim_bounds(s);
    a == e
}

/// Whether two texts are equal.
pub fn same_text(a: &str, b: &str) -> (r: bool)
    ensures
        r == (a@ == b@),
{
    let x = String::from_str(a);
    let y = String::from_str(b);
    x == y
}

} // verus!

verus! {

/// The decimal digits of a natural number, most significant first.
pub open spec fn digits(n: nat) -> Seq<char>
    decreases n,
{
    if n < 10 {
        seq![(48 + n) as char]
    } else {
        digits(n / 10).push((48 + n % 10) as char)
    }
}

/// The decimal text of an integer, with a leading minus sign when negative.
pub open spec fn decimal(n: int) -> Seq<char> {
    if n < 0 {
        seq!['-'] + digits((-n) as nat)
    } else {
        digits(n as nat)
    }
}

/// The decimal text of a natural number below 2^64.
fn format_unsigned(n: u64) -> (s: String)
    ensures
        s@ == digits(n as nat),
    decreases n,
{
    let last = (n % 10) as u8;
    let digit: &str = digit_text(last);
    if n < 10 {
        String::from_str(digit)
    } else {
        let head = format_unsigned(n / 10);
        head.concat(digit)
    }
}

/// The one-character text of a decimal digit.
fn digit_text(d: u8) -> (s: &'static str)
    requires
        d < 10,
    ensures
        s@ == seq![(48 + d) as char],
{
    proof {
        reveal_strlit("0");
        reveal_strlit("1");
        reveal_strlit("2");
        reveal_strlit("3");
        reveal_strlit("4");
        reveal_strlit("5");
        reveal_strlit("6");
        reveal_strlit("7");
        reveal_strlit("8");
        reveal_strlit("9");
    }
    let s = if d == 0 {
        "0"
    } else if d == 1 {
        "1"
    } else if d == 2 {
        "2"
    } else if d == 3 {
        "3"
    } else if d == 4 {
        "4"
    } else if d == 5 {
        "5"
    } else if d == 6 {
        "6"
    } else if d == 7 {
        "7"
    } else if d == 8 {
        "8"
    } else {
        "9"
    };
    proof {
        assert(s@ =~= seq![(48 + d) as char]);
    }
    s
}

/// The decimal text of `n`, as `Display` writes an `i64`.
pub fn format_i64(n: i64) -> (s: String)
    ensures
        s@ == decimal(n as int),
{
    if n < 0 {
        let magnitude: u64 = if n == i64::MIN {
            9223372036854775808u64
        } else {
            (-n) as u64
        };
        let body = format_unsigned(magnitude);
        proof {
            reveal_strlit("-");
            assert("-"@ =~= seq!['-']);
        }
        String::from_str("-").concat(body.as_str())
    } else {
        format_unsigned(n as u64)
    }
}

} // verus!

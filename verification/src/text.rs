//! Text-level helpers for the store: decimal rendering of positions,
//! stripping a numbering prefix, and trimming surrounding whitespace.

use vstd::prelude::*;

verus! {

/// The decimal digit character for a value below ten.
pub open spec fn digit_char(d: nat) -> char {
    if d == 0 {
        '0'
    } else if d == 1 {
        '1'
    } else if d == 2 {
        '2'
    } else if d == 3 {
        '3'
    } else if d == 4 {
        '4'
    } else if d == 5 {
        '5'
    } else if d == 6 {
        '6'
    } else if d == 7 {
        '7'
    } else if d == 8 {
        '8'
    } else {
        '9'
    }
}

/// The usual decimal rendering of `n`, most significant digit first,
/// without leading zeros (except for `n == 0` itself).
pub open spec fn decimal_of(n: nat) -> Seq<char>
    decreases n,
{
    if n < 10 {
        seq![digit_char(n)]
    } else {
        decimal_of(n / 10).push(digit_char(n % 10))
    }
}

/// The one-character string holding the digit `d`.
fn digit_str(d: usize) -> (s: &'static str)
    requires
        d < 10,
    ensures
        s@ == seq![digit_char(d as nat)],
{
    let digits = "0123456789";
    proof {
        reveal_strlit("0123456789");
    }
    let s = digits.substring_char(d, d + 1);
    proof {
        assert(s@ =~= seq![digit_char(d as nat)]);
    }
    s
}

/// Renders `n` in decimal.
pub fn usize_to_string(n: usize) -> (s: String)
    ensures
        s@ == decimal_of(n as nat),
    decreases n,
{
    if n < 10 {
        digit_str(n).to_owned()
    } else {
        let mut s = usize_to_string(n / 10);
        s.append(digit_str(n % 10));
        proof {
            assert(s@ =~= decimal_of(n as nat));
        }
        s
    }
}

/// A decimal digit character.
pub open spec fn is_digit(c: char) -> bool {
    48 <= c as u32 <= 57
}

/// A character that a numbering prefix may consist of: a digit, a dot or a
/// space. Rewriting strips a run of these from the front of every entry
/// before it puts a fresh number there.
pub open spec fn is_prefix_char(c: char) -> bool {
    is_digit(c) || c == '.' || c == ' '
}

fn is_prefix_char_exec(c: char) -> (r: bool)
    ensures
        r == is_prefix_char(c),
{
    let u = c as u32;
    (48 <= u && u <= 57) || u == 46 || u == 32
}

/// `s` with its leading run of prefix characters removed.
pub open spec fn cleaned(s: Seq<char>) -> Seq<char>
    decreases s.len(),
{
    if s.len() > 0 && is_prefix_char(s[0]) {
        cleaned(s.skip(1))
    } else {
        s
    }
}

/// Skipping past characters known to be prefix characters does not change
/// what cleaning leaves over.
proof fn lemma_cleaned_skip(s: Seq<char>, i: int)
    requires
        0 <= i <= s.len(),
        forall|j: int| 0 <= j < i ==> is_prefix_char(s[j]),
    ensures
        cleaned(s) == cleaned(s.skip(i)),
    decreases i,
{
    if i > 0 {
        lemma_cleaned_skip(s.skip(1), i - 1);
        assert(s.skip(1).skip(i - 1) =~= s.skip(i));
    } else {
        assert(s.skip(0) =~= s);
    }
}

/// Removes the leading run of digits, dots and spaces from `s`.
pub fn clean_line(s: &str) -> (r: String)
    ensures
        r@ == cleaned(s@),
{
    let n = s.unicode_len();
    let mut i: usize = 0;
    while i < n && is_prefix_char_exec(s.get_char(i))
        invariant
            i <= n,
            n == s@.len(),
            forall|j: int| 0 <= j < i ==> is_prefix_char(s@[j]),
        decreases n - i,
    {
        i += 1;
    }
    proof {
        lemma_cleaned_skip(s@, i as int);
        assert(s@.skip(i as int) =~= s@.subrange(i as int, n as int));
    }
    s.substring_char(i, n).to_owned()
}

/// A whitespace character, by code point: the same set that the standard
/// library's trimming uses.
pub open spec fn is_space(c: char) -> bool {
    let u = c as u32;
    ||| u == 9
    ||| u == 10
    ||| u == 11
    ||| u == 12
    ||| u == 13
    ||| u == 32
    ||| u == 0x85
    ||| u == 0xA0
    ||| u == 0x1680
    ||| (0x2000 <= u && u <= 0x200A)
    ||| u == 0x2028
    ||| u == 0x2029
    ||| u == 0x202F
    ||| u == 0x205F
    ||| u == 0x3000
}

fn is_space_exec(c: char) -> (r: bool)
    ensures
        r == is_space(c),
{
    let u = c as u32;
    u == 9 || u == 10 || u == 11 || u == 12 || u == 13 || u == 32 || u == 0x85 || u == 0xA0
        || u == 0x1680 || (0x2000 <= u && u <= 0x200A) || u == 0x2028 || u == 0x2029 || u == 0x202F
        || u == 0x205F || u == 0x3000
}

/// `s` with its leading run of whitespace removed.
pub open spec fn trim_front(s: Seq<char>) -> Seq<char>
    decreases s.len(),
{
    if s.len() > 0 && is_space(s[0]) {
        trim_front(s.skip(1))
    } else {
        s
    }
}

/// `s` with its trailing run of whitespace removed.
pub open spec fn trim_back(s: Seq<char>) -> Seq<char>
    decreases s.len(),
{
    if s.len() > 0 && is_space(s[s.len() - 1]) {
        trim_back(s.drop_last())
    } else {
        s
    }
}

/// `s` with surrounding whitespace removed.
pub open spec fn trimmed(s: Seq<char>) -> Seq<char> {
    trim_back(trim_front(s))
}

proof fn lemma_trim_front_skip(s: Seq<char>, i: int)
    requires
        0 <= i <= s.len(),
        forall|j: int| 0 <= j < i ==> is_space(s[j]),
    ensures
        trim_front(s) == trim_front(s.skip(i)),
    decreases i,
{
    if i > 0 {
        lemma_trim_front_skip(s.skip(1), i - 1);
        assert(s.skip(1).skip(i - 1) =~= s.skip(i));
    } else {
        assert(s.skip(0) =~= s);
    }
}

proof fn lemma_trim_back_take(s: Seq<char>, k: int)
    requires
        0 <= k <= s.len(),
        forall|j: int| k <= j < s.len() ==> is_space(s[j]),
    ensures
        trim_back(s) == trim_back(s.take(k)),
    decreases s.len() - k,
{
    if k < s.len() {
        assert(is_space(s[s.len() - 1]));
        lemma_trim_back_take(s.drop_last(), k);
        assert(s.drop_last().take(k) =~= s.take(k));
    } else {
        assert(s.take(k) =~= s);
    }
}

/// Removes the whitespace around `s`.
pub fn trim_str(s: &str) -> (r: String)
    ensures
        r@ == trimmed(s@),
{
    let n = s.unicode_len();
    let mut i: usize = 0;
    while i < n && is_space_exec(s.get_char(i))
        invariant
            i <= n,
            n == s@.len(),
            forall|j: int| 0 <= j < i ==> is_space(s@[j]),
        decreases n - i,
    {
        i += 1;
    }
    proof {
        lemma_trim_front_skip(s@, i as int);
    }
    if i == n {
        proof {
            assert(s@.skip(n as int) =~= Seq::<char>::empty());
        }
        return String::new();
    }
    let mut j: usize = n;
    while is_space_exec(s.get_char(j - 1))
        invariant
            i < j <= n,
            n == s@.len(),
            i < n,
            !is_space(s@[i as int]),
            forall|k: int| j <= k < n ==> is_space(s@[k]),
        decreases j,
    {
        j -= 1;
    }
    proof {
        let t = s@.skip(i as int);
        assert(trim_front(s@) == t);
        assert(forall|k: int| j - i <= k < t.len() ==> is_space(#[trigger] t[k]));
        lemma_trim_back_take(t, j - i);
        assert(t.take(j - i) =~= s@.subrange(i as int, j as int));
        assert(trim_back(s@.subrange(i as int, j as int)) == s@.subrange(i as int, j as int));
    }
    s.substring_char(i, j).to_owned()
}

/// The stored form of an entry: its 1-based position, a dot, a space, then
/// the entry's text.
pub open spec fn line_of(n: nat, text: Seq<char>) -> Seq<char> {
    decimal_of(n) + seq!['.', ' '] + text
}

/// Renders an entry as its stored line, `"<n>. <text>"`.
pub fn format_line(n: usize, text: &str) -> (s: String)
    ensures
        s@ == line_of(n as nat, text@),
{
    let mut s = usize_to_string(n);
    s.append(". ");
    s.append(text);
    proof {
        reveal_strlit(". ");
        assert(s@ =~= line_of(n as nat, text@));
    }
    s
}

/// Every character of a decimal rendering is a digit.
pub proof fn lemma_decimal_digits(n: nat)
    ensures
        forall|i: int| 0 <= i < decimal_of(n).len() ==> is_digit(#[trigger] decimal_of(n)[i]),
    decreases n,
{
    assert(forall|d: nat| is_digit(#[trigger] digit_char(d))) by {
        assert(forall|d: nat| d > 9 ==> #[trigger] digit_char(d) == '9');
    }
    if n < 10 {
        assert(decimal_of(n) =~= seq![digit_char(n)]);
    } else {
        lemma_decimal_digits(n / 10);
        assert(forall|i: int|
            0 <= i < decimal_of(n).len() - 1 ==> #[trigger] decimal_of(n)[i] == decimal_of(n / 10)[i]);
        assert(decimal_of(n).last() == digit_char(n % 10));
    }
}

/// Cleaning ignores a prepended run of prefix characters.
proof fn lemma_cleaned_prepend(p: Seq<char>, s: Seq<char>)
    requires
        forall|j: int| 0 <= j < p.len() ==> is_prefix_char(#[trigger] p[j]),
    ensures
        cleaned(p + s) == cleaned(s),
    decreases p.len(),
{
    if p.len() == 0 {
        assert(p + s =~= s);
    } else {
        assert((p + s)[0] == p[0]);
        assert((p + s).skip(1) =~= p.skip(1) + s);
        lemma_cleaned_prepend(p.skip(1), s);
    }
}

/// What cleaning leaves over starts with no prefix character, so cleaning it
/// again changes nothing.
pub proof fn lemma_cleaned_idempotent(s: Seq<char>)
    ensures
        cleaned(s).len() == 0 || !is_prefix_char(cleaned(s)[0]),
        cleaned(cleaned(s)) == cleaned(s),
    decreases s.len(),
{
    if s.len() > 0 && is_prefix_char(s[0]) {
        lemma_cleaned_idempotent(s.skip(1));
    }
}

/// Cleaning a freshly numbered line recovers exactly the text that was
/// numbered, provided that text is itself in cleaned form.
pub proof fn lemma_cleaned_line_of(n: nat, text: Seq<char>)
    requires
        text.len() == 0 || !is_prefix_char(text[0]),
    ensures
        cleaned(line_of(n, text)) == text,
{
    lemma_decimal_digits(n);
    let p = decimal_of(n) + seq!['.', ' '];
    assert(forall|j: int| 0 <= j < p.len() ==> is_prefix_char(#[trigger] p[j]));
    assert(line_of(n, text) =~= p + text);
    lemma_cleaned_prepend(p, text);
}

} // verus!

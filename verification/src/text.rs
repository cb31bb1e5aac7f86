//! Text helpers: decimal rendering, byte-bounded clipping, blank tests.
use vstd::prelude::*;
use vstd::string::*;
use vstd::utf8::*;

verus! {

/// The character of a decimal digit.
pub open spec fn digit_char(d: nat) -> char
    recommends
        d < 10,
{
    (('0' as u32) + d) as char
}

/// The decimal rendering of a natural number, without leading zeros.
pub open spec fn decimal_text(n: nat) -> Seq<char>
    decreases n,
{
    if n < 10 {
        seq![digit_char(n)]
    } else {
        decimal_text(n / 10).push(digit_char(n % 10))
    }
}

fn digit(d: u64) -> (c: &'static str)
    requires
        d < 10,
    ensures
        c@ == seq![digit_char(d as nat)],
{
    proof {
        reveal_strlit("0");
        reveal_strlit("1");
        reveal_strlit("2");
        reveal_strlit("3");
        reveal_strlit("4");
        reveal_strlit("5");
        reveal_strlit("6");
        reveal_strlit("7");
        reveal_strlit("8");
        reveal_strlit("9");
    }
    match d {
        0 => "0",
        1 => "1",
        2 => "2",
        3 => "3",
        4 => "4",
        5 => "5",
        6 => "6",
        7 => "7",
        8 => "8",
        _ => "9",
    }
}

/// Renders `n` in decimal.
pub fn decimal(n: u64) -> (text: String)
    ensures
        text@ == decimal_text(n as nat),
    decreases n,
{
    let mut text = if n < 10 { String::new() } else { decimal(n / 10) };
    text.append(digit(n % 10));
    text
}

/// A decimal text is made of digits, at least one.
pub proof fn decimal_texts_hold_digits(n: nat)
    ensures
        decimal_text(n).len() > 0,
        forall|i: int| 0 <= i < decimal_text(n).len() ==> '0' <= #[trigger] decimal_text(n)[i] <= '9',
    decreases n,
{
    if n >= 10 {
        decimal_texts_hold_digits(n / 10);
        let head = decimal_text(n / 10);
        assert forall|i: int| 0 <= i < decimal_text(n).len() implies '0' <= #[trigger] decimal_text(
            n,
        )[i] <= '9' by {
            if i < head.len() {
                assert(decimal_text(n)[i] == head[i]);
            }
        }
    }
}

/// Different numbers have different decimal texts.
pub proof fn decimal_texts_are_unique(m: nat, n: nat)
    requires
        decimal_text(m) == decimal_text(n),
    ensures
        m == n,
    decreases m,
{
    decimal_texts_hold_digits(m);
    decimal_texts_hold_digits(n);
    if m < 10 {
        if n >= 10 {
            decimal_texts_hold_digits(n / 10);
            assert(decimal_text(n).len() > 1);
        } else {
            assert(decimal_text(m)[0] == decimal_text(n)[0]);
        }
    } else if n < 10 {
        decimal_texts_hold_digits(m / 10);
        assert(decimal_text(m).len() > 1);
    } else {
        let a = decimal_text(m);
        let b = decimal_text(n);
        assert(a.drop_last() =~= decimal_text(m / 10));
        assert(b.drop_last() =~= decimal_text(n / 10));
        assert(a.last() == digit_char(m % 10));
        assert(b.last() == digit_char(n % 10));
        decimal_texts_are_unique(m / 10, n / 10);
    }
}

/// The longest prefix of `s` whose UTF-8 encoding takes at most `max` bytes.
pub open spec fn clipped(s: Seq<char>, max: nat) -> Seq<char>
    decreases s.len(),
{
    if s.len() == 0 || encode_utf8(s).len() <= max {
        s
    } else {
        clipped(s.drop_last(), max)
    }
}

/// A prefix of a text ends on a character boundary of the text's encoding.
proof fn lemma_prefix_boundary(s: Seq<char>, k: int)
    requires
        0 <= k <= s.len(),
    ensures
        is_char_boundary(encode_utf8(s), encode_utf8(s.take(k)).len() as int),
        encode_utf8(s.take(k)).len() <= encode_utf8(s).len(),
    decreases k,
{
    let bytes = encode_utf8(s);
    encode_utf8_valid_utf8(s);
    if k == 0 {
        assert(s.take(0) =~= Seq::<char>::empty());
        is_char_boundary_start_end_of_seq(bytes);
    } else {
        let tail = s.drop_first();
        assert(s.take(k).drop_first() =~= tail.take(k - 1));
        assert(s.take(k)[0] == s[0]);
        lemma_prefix_boundary(tail, k - 1);
        encode_utf8_first_scalar(s);
        assert(pop_first_scalar(bytes) =~= encode_utf8(tail));
        assert(length_of_first_scalar(bytes) == encode_scalar(s[0] as u32).len());
    }
}

/// A prefix that fits, and that one more character would overflow, is the clipped text.
proof fn lemma_clipped_is_longest(s: Seq<char>, max: nat, n: int)
    requires
        0 <= n <= s.len(),
        encode_utf8(s.take(n)).len() <= max,
        n < s.len() ==> encode_utf8(s.take(n + 1)).len() > max,
    ensures
        clipped(s, max) == s.take(n),
    decreases s.len() - n,
{
    lemma_clipped_steps(s, max, n, s.len() as int);
    assert(s.take(s.len() as int) =~= s);
}

proof fn lemma_clipped_steps(s: Seq<char>, max: nat, n: int, m: int)
    requires
        0 <= n <= m <= s.len(),
        encode_utf8(s.take(n)).len() <= max,
        n < s.len() ==> encode_utf8(s.take(n + 1)).len() > max,
    ensures
        clipped(s.take(m), max) == s.take(n),
    decreases m - n,
{
    if m > n {
        lemma_clipped_steps(s, max, n, m - 1);
        assert(s.take(m).drop_last() =~= s.take(m - 1));
        lemma_prefix_boundary(s.take(m), n + 1);
        assert(s.take(m).take(n + 1) =~= s.take(n + 1));
    }
}

/// Shortens `text` to at most `max` bytes of UTF-8 without splitting a character.
pub fn clip(text: &str, max: usize) -> (short: String)
    ensures
        short@ == clipped(text@, max as nat),
{
    let length: usize = text.as_bytes().len();
    let ghost bytes = encode_utf8(text@);
    let mut end: usize = if length < max { length } else { max };
    let ghost start = end as int;
    proof {
        encode_utf8_valid_utf8(text@);
        is_char_boundary_start_end_of_seq(bytes);
    }
    while !text.is_char_boundary(end)
        invariant
            bytes == encode_utf8(text@),
            is_char_boundary(bytes, 0),
            end <= start,
            forall|i: int| end < i <= start ==> !is_char_boundary(bytes, i),
        decreases end,
    {
        end = end - 1;
    }
    let short = text.split_at(end).0.to_owned();
    proof {
        encode_utf8_valid_utf8(text@);
        decode_utf8_split(bytes, end as int);
        encode_utf8_decode_utf8(text@);
        encode_utf8_decode_utf8(short@);
        let n = short@.len() as int;
        assert(text@.take(n) =~= short@);
        if n < text@.len() {
            lemma_prefix_boundary(text@, n + 1);
            assert(text@.take(n + 1).take(n) =~= text@.take(n));
            lemma_encode_grows(text@, n);
        }
        lemma_clipped_is_longest(text@, max as nat, n);
    }
    short
}

/// One more character makes the encoding strictly longer.
proof fn lemma_encode_grows(s: Seq<char>, k: int)
    requires
        0 <= k < s.len(),
    ensures
        encode_utf8(s.take(k)).len() < encode_utf8(s.take(k + 1)).len(),
    decreases k,
{
    assert(s.take(k + 1)[0] == s[0]);
    if k == 0 {
        assert(s.take(0) =~= Seq::<char>::empty());
    } else {
        let tail = s.drop_first();
        assert(s.take(k).drop_first() =~= tail.take(k - 1));
        assert(s.take(k + 1).drop_first() =~= tail.take(k));
        assert(s.take(k)[0] == s[0]);
        lemma_encode_grows(tail, k - 1);
    }
}

/// Clipping keeps a prefix, respects the bound, and changes nothing that fits.
pub proof fn clipping_keeps_a_fitting_prefix(s: Seq<char>, max: nat)
    ensures
        clipped(s, max).is_prefix_of(s),
        encode_utf8(clipped(s, max)).len() <= max,
        encode_utf8(s).len() <= max ==> clipped(s, max) == s,
        clipped(clipped(s, max), max) == clipped(s, max),
    decreases s.len(),
{
    if s.len() == 0 {
        assert(encode_utf8(s).len() == 0);
    } else if encode_utf8(s).len() > max {
        clipping_keeps_a_fitting_prefix(s.drop_last(), max);
    }
}

/// Whether two texts hold the same characters.
pub fn same_text(a: &str, b: &str) -> (same: bool)
    ensures
        same == (a@ == b@),
{
    let x = a.as_bytes();
    let y = b.as_bytes();
    proof {
        encode_utf8_decode_utf8(a@);
        encode_utf8_decode_utf8(b@);
    }
    if x.len() != y.len() {
        return false;
    }
    let mut i: usize = 0;
    while i < x.len()
        invariant
            i <= x.len(),
            x@.len() == y@.len(),
            x@ == encode_utf8(a@),
            y@ == encode_utf8(b@),
            forall|j: int| 0 <= j < i ==> x@[j] == y@[j],
        decreases x.len() - i,
    {
        if x[i] != y[i] {
            return false;
        }
        i = i + 1;
    }
    assert(x@ =~= y@);
    true
}

/// Whether `text` begins with `prefix`.
pub fn has_prefix(text: &str, prefix: &str) -> (yes: bool)
    ensures
        yes == prefix@.is_prefix_of(text@),
{
    let n: usize = prefix.unicode_len();
    if text.unicode_len() < n {
        return false;
    }
    same_text(text.substring_char(0, n), prefix)
}

/// Whether a character has the Unicode property `White_Space`.
pub open spec fn white_space(c: char) -> bool {
    let n = c as u32;
    ||| 0x9 <= n <= 0xd
    ||| n == 0x20
    ||| n == 0x85
    ||| n == 0xa0
    ||| n == 0x1680
    ||| 0x2000 <= n <= 0x200a
    ||| n == 0x2028
    ||| n == 0x2029
    ||| n == 0x202f
    ||| n == 0x205f
    ||| n == 0x3000
}

/// Whether a character is white space.
pub fn is_white_space(c: char) -> (yes: bool)
    ensures
        yes == white_space(c),
{
    let n: u32 = c as u32;
    if n < 0x80 {
        n == 0x20 || (0x9 <= n && n <= 0xd)
    } else {
        n == 0x85 || n == 0xa0 || n == 0x1680 || (0x2000 <= n && n <= 0x200a) || n == 0x2028 || n
            == 0x2029 || n == 0x202f || n == 0x205f || n == 0x3000
    }
}

/// Whether every character of `s` is white space.
pub open spec fn blank(s: Seq<char>) -> bool {
    forall|i: int| 0 <= i < s.len() ==> #[trigger] white_space(s[i])
}

/// `s` without its trailing white space.
pub open spec fn trimmed_end(s: Seq<char>) -> Seq<char>
    decreases s.len(),
{
    if s.len() > 0 && white_space(s.last()) {
        trimmed_end(s.drop_last())
    } else {
        s
    }
}

/// `s` without its leading white space.
pub open spec fn trimmed_start(s: Seq<char>) -> Seq<char>
    decreases s.len(),
{
    if s.len() > 0 && white_space(s.first()) {
        trimmed_start(s.drop_first())
    } else {
        s
    }
}

/// `s` without white space at either end.
pub open spec fn trimmed(s: Seq<char>) -> Seq<char> {
    trimmed_end(trimmed_start(s))
}

proof fn lemma_trimmed_end(s: Seq<char>, n: int, m: int)
    requires
        0 <= n <= m <= s.len(),
        n > 0 ==> !white_space(s[n - 1]),
        forall|i: int| n <= i < m ==> white_space(#[trigger] s[i]),
    ensures
        trimmed_end(s.take(m)) == s.take(n),
    decreases m,
{
    if m > n {
        assert(s.take(m).last() == s[m - 1]);
        assert(s.take(m).drop_last() =~= s.take(m - 1));
        lemma_trimmed_end(s, n, m - 1);
    } else if n > 0 {
        assert(s.take(n).last() == s[n - 1]);
    }
}

proof fn lemma_trimmed_start(s: Seq<char>, n: int, m: int)
    requires
        0 <= m <= n <= s.len(),
        n < s.len() ==> !white_space(s[n]),
        forall|i: int| m <= i < n ==> white_space(#[trigger] s[i]),
    ensures
        trimmed_start(s.skip(m)) == s.skip(n),
    decreases n - m,
{
    if m < n {
        assert(s.skip(m).first() == s[m]);
        assert(s.skip(m).drop_first() =~= s.skip(m + 1));
        lemma_trimmed_start(s, n, m + 1);
    } else if n < s.len() {
        assert(s.skip(n).first() == s[n]);
    }
}

/// Nothing is left of a text after trimming exactly when it is blank.
pub proof fn blank_means_trimmed_to_nothing(s: Seq<char>)
    ensures
        blank(s) <==> trimmed(s).len() == 0,
{
    lemma_blank_start(s);
    lemma_blank_end(trimmed_start(s));
}

proof fn lemma_blank_start(s: Seq<char>)
    ensures
        blank(s) <==> trimmed_start(s).len() == 0,
        blank(s) <==> blank(trimmed_start(s)),
    decreases s.len(),
{
    if s.len() > 0 {
        if white_space(s.first()) {
            let rest = s.drop_first();
            lemma_blank_start(rest);
            if blank(rest) {
                assert forall|i: int| 0 <= i < s.len() implies #[trigger] white_space(s[i]) by {
                    if i > 0 {
                        assert(white_space(rest[i - 1]));
                    }
                }
            }
            if blank(s) {
                assert forall|i: int| 0 <= i < rest.len() implies #[trigger] white_space(rest[i]) by {
                    assert(white_space(s[i + 1]));
                }
            }
        } else {
            assert(!white_space(s[0]));
        }
    }
}

proof fn lemma_blank_end(s: Seq<char>)
    ensures
        blank(s) <==> trimmed_end(s).len() == 0,
    decreases s.len(),
{
    if s.len() > 0 {
        if white_space(s.last()) {
            let rest = s.drop_last();
            lemma_blank_end(rest);
            if blank(rest) {
                assert forall|i: int| 0 <= i < s.len() implies #[trigger] white_space(s[i]) by {
                    if i < rest.len() {
                        assert(white_space(rest[i]));
                    }
                }
            }
            if blank(s) {
                assert forall|i: int| 0 <= i < rest.len() implies #[trigger] white_space(rest[i]) by {
                    assert(white_space(s[i]));
                }
            }
        } else {
            assert(!white_space(s[s.len() - 1]));
        }
    }
}

/// Whether `text` holds nothing but white space.
pub fn is_blank(text: &str) -> (yes: bool)
    ensures
        yes == blank(text@),
{
    let mut yes: bool = true;
    for c in it: text.chars()
        invariant
            it.seq() == text@,
            yes == (forall|i: int| 0 <= i < it.index() ==> #[trigger] white_space(text@[i])),
    {
        if !is_white_space(c) {
            assert(!white_space(text@[it.index() as int]));
            yes = false;
        }
    }
    yes
}

/// Drops trailing white space.
pub fn trim_end(text: &str) -> (short: String)
    ensures
        short@ == trimmed_end(text@),
{
    let length: usize = text.unicode_len();
    let mut at: usize = 0;
    let mut end: usize = 0;
    for c in it: text.chars()
        invariant
            it.seq() == text@,
            length == text@.len(),
            at == it.index(),
            end <= at <= length,
            end > 0 ==> !white_space(text@[end - 1]),
            forall|i: int| end <= i < at ==> white_space(#[trigger] text@[i]),
    {
        at = at + 1;
        if !is_white_space(c) {
            end = at;
        }
    }
    proof {
        lemma_trimmed_end(text@, end as int, text@.len() as int);
        assert(text@.take(text@.len() as int) =~= text@);
        assert(text@.subrange(0, end as int) =~= text@.take(end as int));
    }
    text.substring_char(0, end).to_owned()
}

/// Drops white space at both ends.
pub fn trim(text: &str) -> (short: String)
    ensures
        short@ == trimmed(text@),
{
    let length: usize = text.unicode_len();
    let mut start: usize = 0;
    let mut leading: bool = true;
    for c in it: text.chars()
        invariant
            it.seq() == text@,
            length == text@.len(),
            start <= it.index() <= length,
            leading ==> start == it.index(),
            !leading ==> start < length && !white_space(text@[start as int]),
            forall|i: int| 0 <= i < start ==> white_space(#[trigger] text@[i]),
    {
        if leading {
            if is_white_space(c) {
                start = start + 1;
            } else {
                leading = false;
            }
        }
    }
    proof {
        lemma_trimmed_start(text@, start as int, 0);
        assert(text@.skip(0) =~= text@);
        assert(text@.subrange(start as int, length as int) =~= text@.skip(start as int));
    }
    trim_end(text.substring_char(start, length))
}

/// What `String::from_utf8_lossy` makes of a byte sequence.
pub uninterp spec fn lossy_text(bytes: Seq<u8>) -> Seq<char>;

/// Calls `String::from_utf8_lossy`: well-formed UTF-8 is decoded as it is, and what is
/// put in place of malformed parts depends on the bytes alone.
#[verifier::external_body]
pub(crate) fn lossy(bytes: &[u8]) -> (text: String)
    ensures
        text@ == lossy_text(bytes@),
        valid_utf8(bytes@) ==> text@ == decode_utf8(bytes@),
{
    String::from_utf8_lossy(bytes).into_owned()
}

/// How a character stands inside a JSON string: quotation mark, reverse solidus and
/// control characters are escaped, every other character stands for itself.
pub open spec fn escaped_char(c: char) -> Seq<char> {
    if c == '"' {
        seq!['\\', '"']
    } else if c == '\\' {
        seq!['\\', '\\']
    } else if c as u32 == 0x08 {
        seq!['\\', 'b']
    } else if c as u32 == 0x09 {
        seq!['\\', 't']
    } else if c as u32 == 0x0a {
        seq!['\\', 'n']
    } else if c as u32 == 0x0c {
        seq!['\\', 'f']
    } else if c as u32 == 0x0d {
        seq!['\\', 'r']
    } else if (c as u32) < 0x20 {
        seq!['\\', 'u', '0', '0', hex_digit((c as u32 / 16) as int), hex_digit((c as u32 % 16) as int)]
    } else {
        seq![c]
    }
}

/// A lower-case hexadecimal digit.
pub open spec fn hex_digit(d: int) -> char {
    if d < 10 {
        (('0' as u32) + d) as char
    } else {
        (('a' as u32) + (d - 10)) as char
    }
}

/// The characters of `s`, each escaped.
pub open spec fn escaped(s: Seq<char>) -> Seq<char>
    decreases s.len(),
{
    if s.len() == 0 {
        Seq::empty()
    } else {
        escaped(s.drop_last()) + escaped_char(s.last())
    }
}

/// The JSON string literal for `s`.
pub open spec fn quoted_text(s: Seq<char>) -> Seq<char> {
    seq!['"'] + escaped(s) + seq!['"']
}

/// Calls the `Display` rendering of `serde_json::Value::String`: a quotation mark, the
/// characters with JSON's mandatory escapes (two-character escapes where JSON has them,
/// `\u00xx` in lower-case hexadecimal for the other control characters), and a quotation
/// mark.
#[verifier::external_body]
pub(crate) fn quoted(s: &str) -> (text: String)
    ensures
        text@ == quoted_text(s@),
{
    serde_json::Value::from(s).to_string()
}

/// Whether a text has no line end in it.
pub open spec fn one_line(s: Seq<char>) -> bool {
    forall|i: int| 0 <= i < s.len() ==> #[trigger] s[i] != '\n'
}

/// A JSON string literal has no line end in it, whatever it stands for.
pub proof fn quoted_texts_are_one_line(s: Seq<char>)
    ensures
        one_line(quoted_text(s)),
{
    lemma_escaped(s);
    let q = quoted_text(s);
    assert forall|i: int| 0 <= i < q.len() implies #[trigger] q[i] != '\n' by {
        if 0 < i < q.len() - 1 {
            assert(q[i] == escaped(s)[i - 1]);
        }
    }
}

proof fn lemma_escaped(s: Seq<char>)
    ensures
        one_line(escaped(s)),
    decreases s.len(),
{
    if s.len() > 0 {
        let head = escaped(s.drop_last());
        let last = escaped_char(s.last());
        lemma_escaped(s.drop_last());
        assert(one_line(last));
        assert forall|i: int| 0 <= i < escaped(s).len() implies #[trigger] escaped(s)[i] != '\n' by {
            if i < head.len() {
                assert(escaped(s)[i] == head[i]);
            } else {
                assert(escaped(s)[i] == last[i - head.len()]);
            }
        }
    }
}

} // verus!

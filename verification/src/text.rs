//! Character-level rules: blank text, decimal numerals, display previews and
//! the content hash that an image preview carries.

use vstd::prelude::*;
use vstd::string::*;
use crate::outside::push_char;
use crate::sequences::{first_where, lemma_first_where_is};

verus! {

/// Number of characters of a text that its preview shows before it is cut.
pub const PREVIEW_CHARS: usize = 100;

/// The code points with the Unicode property `White_Space`.
pub open spec fn is_whitespace(c: char) -> bool {
    let n = c as u32;
    ||| 0x09 <= n <= 0x0D
    ||| n == 0x20
    ||| n == 0x85
    ||| n == 0xA0
    ||| n == 0x1680
    ||| 0x2000 <= n <= 0x200A
    ||| n == 0x2028
    ||| n == 0x2029
    ||| n == 0x202F
    ||| n == 0x205F
    ||| n == 0x3000
}

/// A text is blank when it is empty or holds white space only.
pub open spec fn is_blank(s: Seq<char>) -> bool {
    forall|i: int| 0 <= i < s.len() ==> is_whitespace(#[trigger] s[i])
}

/// Whether a character is white space.
pub fn char_is_whitespace(c: char) -> (r: bool)
    ensures
        r == is_whitespace(c),
{
    let n: u32 = c as u32;
    (0x09 <= n && n <= 0x0D) || n == 0x20 || n == 0x85 || n == 0xA0 || n == 0x1680 || (0x2000 <= n
        && n <= 0x200A) || n == 0x2028 || n == 0x2029 || n == 0x202F || n == 0x205F || n == 0x3000
}

/// Whether a text is empty or holds white space only.
pub fn text_is_blank(text: &str) -> (r: bool)
    ensures
        r == is_blank(text@),
{
    for c in it: text.chars()
        invariant
            it.seq() == text@,
            forall|j: int| 0 <= j < it.index() ==> is_whitespace(#[trigger] text@[j]),
    {
        if !char_is_whitespace(c) {
            assert(!is_whitespace(text@[it.index() as int]));
            return false;
        }
    }
    true
}

/// The characters of a text, one vector element each.
pub fn to_chars(text: &str) -> (v: Vec<char>)
    ensures
        v@ == text@,
{
    let mut v: Vec<char> = Vec::new();
    for c in it: text.chars()
        invariant
            it.seq() == text@,
            v@ == text@.take(it.index() as int),
    {
        v.push(c);
    }
    v
}

/// The decimal digit that stands for `d`, for `0 <= d <= 9`.
pub open spec fn digit_char(d: int) -> char {
    ((d + 48) as u8) as char
}

/// A decimal digit.
pub open spec fn is_digit(c: char) -> bool {
    48 <= c as u32 <= 57
}

/// The number that a decimal digit stands for.
pub open spec fn digit_value(c: char) -> int {
    c as u32 - 48
}

/// Every character is a decimal digit.
pub open spec fn all_digits(s: Seq<char>) -> bool {
    forall|i: int| 0 <= i < s.len() ==> is_digit(#[trigger] s[i])
}

/// The decimal numeral of `n`, without sign and without leading zeros.
pub open spec fn decimal(n: nat) -> Seq<char>
    decreases n,
{
    if n < 10 {
        seq![digit_char(n as int)]
    } else {
        decimal(n / 10).push(digit_char((n % 10) as int))
    }
}

/// The number that a run of decimal digits denotes, most significant first.
pub open spec fn digits_value(s: Seq<char>) -> int
    decreases s.len(),
{
    if s.len() == 0 {
        0
    } else {
        10 * digits_value(s.drop_last()) + digit_value(s.last())
    }
}

/// What a text denotes as an unsigned 64-bit decimal number: an optional
/// leading `+`, then at least one digit and nothing else, the value within
/// range. Any other text denotes nothing.
pub open spec fn parse_u64(s: Seq<char>) -> Option<u64> {
    if s.len() > 0 && s[0] == '+' {
        parse_digits(s.skip(1))
    } else {
        parse_digits(s)
    }
}

/// What a text denotes as an unsigned 64-bit decimal number without sign.
pub open spec fn parse_digits(body: Seq<char>) -> Option<u64> {
    if body.len() > 0 && all_digits(body) && digits_value(body) <= u64::MAX {
        Some(digits_value(body) as u64)
    } else {
        None
    }
}

/// The predicate that a character is `c`.
pub open spec fn is_char(c: char) -> spec_fn(char) -> bool {
    |x: char| x == c
}

/// The part of `s` between its first and its second `#`, or after the first
/// one where there is no second; nothing where `s` holds no `#`.
pub open spec fn hash_field(s: Seq<char>) -> Option<Seq<char>> {
    let start = first_where(s, is_char('#'));
    if start < s.len() {
        let rest = s.skip(start + 1);
        Some(rest.take(first_where(rest, is_char('#'))))
    } else {
        None
    }
}

/// The content hash that a preview carries after its first `#`.
pub open spec fn stored_hash(preview: Seq<char>) -> Option<u64> {
    match hash_field(preview) {
        Some(field) => parse_u64(field),
        None => None,
    }
}

/// Preview of a text: the text itself up to 100 characters, else its first
/// 100 characters followed by three full stops.
pub open spec fn text_preview(text: Seq<char>) -> Seq<char> {
    if text.len() > PREVIEW_CHARS {
        text.take(PREVIEW_CHARS as int) + seq!['.', '.', '.']
    } else {
        text
    }
}

/// Preview of an image: `Image (WxH)`, followed by ` #` and the content hash
/// in decimal where the image has one.
pub open spec fn image_preview(width: u32, height: u32, hash: Option<u64>) -> Seq<char> {
    let base = seq!['I', 'm', 'a', 'g', 'e', ' ', '('] + decimal(width as nat) + seq!['x']
        + decimal(height as nat) + seq![')'];
    match hash {
        Some(h) => base + seq![' ', '#'] + decimal(h as nat),
        None => base,
    }
}

/// The digit of a number below ten is a digit with that value, and neither
/// `#` nor `+`.
pub proof fn lemma_digit_char(d: int)
    requires
        0 <= d <= 9,
    ensures
        is_digit(digit_char(d)),
        digit_value(digit_char(d)) == d,
        digit_char(d) != '#',
        digit_char(d) != '+',
{
}

/// A decimal numeral is a non-empty run of digits that denotes its number.
pub proof fn lemma_decimal(n: nat)
    ensures
        decimal(n).len() > 0,
        all_digits(decimal(n)),
        digits_value(decimal(n)) == n,
    decreases n,
{
    if n < 10 {
        lemma_digit_char(n as int);
        let s = decimal(n);
        assert(s.drop_last() =~= Seq::<char>::empty());
        assert(digits_value(s.drop_last()) == 0);
    } else {
        lemma_decimal(n / 10);
        lemma_digit_char((n % 10) as int);
        let s = decimal(n);
        assert(s.drop_last() =~= decimal(n / 10));
        assert(s.last() == digit_char((n % 10) as int));
    }
}

/// Reading back the decimal numeral of a 64-bit number gives that number.
pub proof fn lemma_parse_decimal(n: u64)
    ensures
        parse_u64(decimal(n as nat)) == Some(n),
{
    lemma_decimal(n as nat);
    let s = decimal(n as nat);
    assert(is_digit(s[0]));
}

/// The value of a run of digits is at least the value of each of its
/// prefixes.
pub proof fn lemma_digits_value_prefix(s: Seq<char>, k: int)
    requires
        all_digits(s),
        0 <= k <= s.len(),
    ensures
        0 <= digits_value(s.take(k)) <= digits_value(s),
    decreases s.len() - k,
{
    if k == s.len() {
        assert(s.take(k) =~= s);
        lemma_digits_value_nonnegative(s);
    } else {
        let t = s.drop_last();
        assert(is_digit(s.last()));
        assert(all_digits(t)) by {
            assert forall|i: int| 0 <= i < t.len() implies is_digit(#[trigger] t[i]) by {
                assert(t[i] == s[i]);
            }
        }
        lemma_digits_value_prefix(t, k);
        assert(t.take(k) =~= s.take(k));
    }
}

/// A run of digits denotes no negative number.
pub proof fn lemma_digits_value_nonnegative(s: Seq<char>)
    requires
        all_digits(s),
    ensures
        0 <= digits_value(s),
    decreases s.len(),
{
    if s.len() > 0 {
        let t = s.drop_last();
        assert(is_digit(s.last()));
        assert forall|i: int| 0 <= i < t.len() implies is_digit(#[trigger] t[i]) by {
            assert(t[i] == s[i]);
        }
        lemma_digits_value_nonnegative(t);
    }
}

/// An image preview made with a content hash hands that hash back, and one
/// made without holds none.
pub proof fn lemma_stored_hash_of_preview(width: u32, height: u32, hash: Option<u64>)
    ensures
        stored_hash(image_preview(width, height, hash)) == hash,
{
    let w = decimal(width as nat);
    let h = decimal(height as nat);
    lemma_decimal(width as nat);
    lemma_decimal(height as nat);
    let base = seq!['I', 'm', 'a', 'g', 'e', ' ', '('] + w + seq!['x'] + h + seq![')'];
    assert forall|j: int| 0 <= j < base.len() implies base[j] != '#' by {
        if j < 7 {
        } else if j < 7 + w.len() {
            assert(base[j] == w[j - 7]);
            assert(is_digit(w[j - 7]));
        } else if j == 7 + w.len() {
        } else if j < 8 + w.len() + h.len() {
            assert(base[j] == h[j - 8 - w.len()]);
            assert(is_digit(h[j - 8 - w.len()]));
        } else {
        }
    }
    match hash {
        Some(x) => {
            let d = decimal(x as nat);
            lemma_decimal(x as nat);
            lemma_parse_decimal(x);
            let p = base + seq![' ', '#'] + d;
            let i: int = base.len() as int + 1;
            assert forall|j: int| 0 <= j < i implies p[j] != '#' by {
                if j < base.len() {
                    assert(p[j] == base[j]);
                }
            }
            assert(p[i] == '#');
            lemma_first_where_is(p, is_char('#'), i);
            let rest = p.skip(i + 1);
            assert(rest =~= d);
            assert forall|j: int| 0 <= j < d.len() implies d[j] != '#' by {
                assert(is_digit(d[j]));
            }
            lemma_first_where_is(d, is_char('#'), d.len() as int);
            assert(d.take(d.len() as int) =~= d);
        },
        None => {
            lemma_first_where_is(base, is_char('#'), base.len() as int);
        },
    }
}

/// Appends the decimal numeral of `n`.
pub fn push_decimal(out: &mut String, n: u64)
    ensures
        final(out)@ == old(out)@ + decimal(n as nat),
    decreases n,
{
    if n >= 10 {
        push_decimal(out, n / 10);
    }
    let d: u8 = (n % 10) as u8;
    push_char(out, (d + 48) as char);
    assert(out@ =~= old(out)@ + decimal(n as nat));
}

/// Builds the preview of a text.
pub fn make_text_preview(text: &str) -> (r: String)
    ensures
        r@ == text_preview(text@),
{
    let mut out = String::new();
    let mut kept: usize = 0;
    let mut cut = false;
    for c in it: text.chars()
        invariant
            it.seq() == text@,
            kept <= PREVIEW_CHARS,
            kept == if it.index() <= PREVIEW_CHARS { it.index() } else { PREVIEW_CHARS as int },
            cut == (it.index() > PREVIEW_CHARS),
            out@ == text@.take(kept as int),
    {
        if kept < PREVIEW_CHARS {
            push_char(&mut out, c);
            kept = kept + 1;
        } else {
            cut = true;
        }
    }
    if cut {
        push_char(&mut out, '.');
        push_char(&mut out, '.');
        push_char(&mut out, '.');
        assert(out@ =~= text@.take(PREVIEW_CHARS as int) + seq!['.', '.', '.']);
    } else {
        assert(text@.take(kept as int) =~= text@);
    }
    out
}

/// Builds the preview of an image.
pub fn make_image_preview(width: u32, height: u32, hash: Option<u64>) -> (r: String)
    ensures
        r@ == image_preview(width, height, hash),
{
    let mut out = String::from_str("Image (");
    proof {
        reveal_strlit("Image (");
        assert(out@ =~= seq!['I', 'm', 'a', 'g', 'e', ' ', '(']);
    }
    push_decimal(&mut out, width as u64);
    push_char(&mut out, 'x');
    push_decimal(&mut out, height as u64);
    push_char(&mut out, ')');
    let ghost base = out@;
    assert(base =~= image_preview(width, height, None));
    match hash {
        Some(h) => {
            push_char(&mut out, ' ');
            push_char(&mut out, '#');
            push_decimal(&mut out, h);
            assert(out@ =~= base + seq![' ', '#'] + decimal(h as nat));
        },
        None => {},
    }
    out
}

/// Reads `s[from..to]` as an unsigned 64-bit decimal number.
pub fn read_u64(s: &Vec<char>, from: usize, to: usize) -> (r: Option<u64>)
    requires
        from <= to <= s.len(),
    ensures
        r == parse_u64(s@.subrange(from as int, to as int)),
{
    let ghost field = s@.subrange(from as int, to as int);
    let mut start = from;
    if start < to && s[start] == '+' {
        start = start + 1;
    }
    let ghost body = s@.subrange(start as int, to as int);
    assert(body =~= if field.len() > 0 && field[0] == '+' {
        field.skip(1)
    } else {
        field
    });
    assert(parse_u64(field) == parse_digits(body));
    if start == to {
        return None;
    }
    let mut acc: u64 = 0;
    let mut i: usize = start;
    while i < to
        invariant
            from <= start <= i <= to <= s.len(),
            body == s@.subrange(start as int, to as int),
            parse_u64(s@.subrange(from as int, to as int)) == parse_digits(body),
            all_digits(body.take(i - start)),
            acc == digits_value(body.take(i - start)),
        decreases to - i,
    {
        let c: char = s[i];
        let n: u32 = c as u32;
        let ghost k = i - start;
        assert(body[k] == c);
        if n < 48 || n > 57 {
            assert(!is_digit(body[k]));
            return None;
        }
        let d: u64 = (n - 48) as u64;
        proof {
            let next = body.take(k + 1);
            assert(next.drop_last() =~= body.take(k));
            assert(next.last() == c);
            assert(all_digits(next)) by {
                assert forall|j: int| 0 <= j < next.len() implies is_digit(#[trigger] next[j]) by {
                    if j < k {
                        assert(next[j] == body.take(k)[j]);
                    }
                }
            }
            assert(digits_value(next) == 10 * acc + d);
            if 10 * acc + d > u64::MAX {
                if all_digits(body) {
                    lemma_digits_value_prefix(body, k + 1);
                }
            }
        }
        if acc > (u64::MAX - d) / 10 {
            return None;
        }
        acc = acc * 10 + d;
        i = i + 1;
    }
    assert(body.take(i - start) =~= body);
    Some(acc)
}

/// Reads the content hash that a preview carries after its first `#`.
pub fn read_stored_hash(preview: &str) -> (r: Option<u64>)
    ensures
        r == stored_hash(preview@),
{
    let chars = to_chars(preview);
    let len = chars.len();
    let mut start: usize = 0;
    while start < len && chars[start] != '#'
        invariant
            len == chars.len(),
            start <= len,
            forall|j: int| 0 <= j < start ==> chars@[j] != '#',
        decreases len - start,
    {
        start = start + 1;
    }
    proof {
        lemma_first_where_is(chars@, is_char('#'), start as int);
    }
    if start == len {
        return None;
    }
    let from = start + 1;
    let mut to: usize = from;
    while to < len && chars[to] != '#'
        invariant
            len == chars.len(),
            from <= to <= len,
            forall|j: int| from <= j < to ==> chars@[j] != '#',
        decreases len - to,
    {
        to = to + 1;
    }
    proof {
        let rest = chars@.skip(from as int);
        assert forall|j: int| 0 <= j < to - from implies rest[j] != '#' by {
            assert(rest[j] == chars@[j + from]);
        }
        lemma_first_where_is(rest, is_char('#'), to - from);
        assert(rest.take(to - from) =~= chars@.subrange(from as int, to as int));
    }
    read_u64(&chars, from, to)
}

} // verus!

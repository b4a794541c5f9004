//! Text conversions between the host's byte strings and the values the
//! library hands around: decoding, word splitting, joining and integers.
use vstd::prelude::*;
use vstd::utf8::{
    decode_utf8, encode_utf8, encode_utf8_decode_utf8, encode_utf8_valid_utf8, valid_utf8,
};

verus! {

/// The text that `String::from_utf8_lossy` makes of a byte string.
pub uninterp spec fn lossy_text(b: Seq<u8>) -> Seq<char>;

/// Relies on `std::str::from_utf8`: a byte slice is text exactly when it is
/// valid UTF-8, and then the text is what those bytes encode.
#[verifier::external_body]
fn utf8_text(b: &[u8]) -> (r: Option<&str>)
    ensures
        r is Some <==> valid_utf8(b@),
        r matches Some(s) ==> s@ == decode_utf8(b@),
{
    std::str::from_utf8(b).ok()
}

/// Relies on `String::from_utf8_lossy`: valid UTF-8 comes back as the text
/// it encodes; other bytes get replacement characters.
#[verifier::external_body]
fn lossy(b: &[u8]) -> (r: String)
    ensures
        r@ == lossy_text(b@),
        valid_utf8(b@) ==> r@ == decode_utf8(b@),
{
    String::from_utf8_lossy(b).into_owned()
}

/// Relies on `String::push`: appends one character.
#[verifier::external_body]
fn push_char(s: &mut String, c: char)
    ensures
        final(s)@ == old(s)@.push(c),
{
    s.push(c)
}

/// Decodes a host string that is expected to be text, replacing what is not.
pub fn host_text(b: &[u8]) -> (r: String)
    ensures
        r@ == lossy_text(b@),
        valid_utf8(b@) ==> r@ == decode_utf8(b@),
{
    lossy(b)
}

/// Text handed to the host as its UTF-8 bytes reads back as the same text,
/// so a string stored and read again through `host_text` is unchanged.
pub proof fn lemma_text_round_trip(s: Seq<char>)
    ensures
        valid_utf8(encode_utf8(s)),
        decode_utf8(encode_utf8(s)) == s,
{
    encode_utf8_valid_utf8(s);
    encode_utf8_decode_utf8(s);
}

/// Decodes each host string of a list, in order.
pub fn host_texts(items: &[&[u8]]) -> (r: Vec<String>)
    ensures
        r@.len() == items@.len(),
        forall|i: int| 0 <= i < items@.len() ==> #[trigger] r@[i]@ == lossy_text(items@[i]@),
{
    let mut out: Vec<String> = Vec::new();
    let mut i: usize = 0;
    while i < items.len()
        invariant
            0 <= i <= items@.len(),
            out@.len() == i,
            forall|k: int| 0 <= k < i ==> #[trigger] out@[k]@ == lossy_text(items@[k]@),
        decreases items@.len() - i,
    {
        out.push(lossy(items[i]));
        i = i + 1;
    }
    out
}

/// The byte strings of a list that are valid UTF-8, decoded, in order.
pub open spec fn texts_of(items: Seq<Seq<u8>>) -> Seq<Seq<char>>
    decreases items.len(),
{
    if items.len() == 0 {
        Seq::empty()
    } else if valid_utf8(items.last()) {
        texts_of(items.drop_last()).push(decode_utf8(items.last()))
    } else {
        texts_of(items.drop_last())
    }
}

/// Decodes the items that are valid UTF-8 and skips the others.
pub fn utf8_items<'a>(items: &[&'a [u8]]) -> (r: Vec<&'a str>)
    ensures
        r@.map_values(|s: &str| s@) == texts_of(items@.map_values(|b: &[u8]| b@)),
{
    let ghost raw = items@.map_values(|b: &[u8]| b@);
    let mut out: Vec<&'a str> = Vec::new();
    let mut i: usize = 0;
    while i < items.len()
        invariant
            0 <= i <= items@.len(),
            raw == items@.map_values(|b: &[u8]| b@),
            out@.map_values(|s: &str| s@) == texts_of(raw.take(i as int)),
        decreases items@.len() - i,
    {
        let ghost before = out@;
        assert(raw.take(i + 1).drop_last() =~= raw.take(i as int));
        match utf8_text(items[i]) {
            Some(s) => {
                out.push(s);
                assert(out@.map_values(|s: &str| s@) =~= before.map_values(|s: &str| s@).push(s@));
            },
            None => {},
        }
        i = i + 1;
    }
    assert(raw.take(items@.len() as int) =~= raw);
    out
}

/// The command name the host passed, or the empty name where there was
/// none or it was not text.
pub fn name_text(b: Option<&[u8]>) -> (r: &str)
    ensures
        r@ == match b {
            Some(b) => if valid_utf8(b@) { decode_utf8(b@) } else { Seq::empty() },
            None => Seq::empty(),
        },
{
    match b {
        Some(b) => match utf8_text(b) {
            Some(s) => s,
            None => {
                proof { reveal_strlit(""); }
                ""
            },
        },
        None => {
            proof { reveal_strlit(""); }
            ""
        },
    }
}

/// Unicode white space, as `char::is_whitespace` defines it.
pub open spec fn is_space(c: char) -> bool {
    let u = c as u32;
    u == 32 || (9 <= u <= 13) || u == 0x85 || u == 0xA0 || u == 0x1680 || (0x2000 <= u <= 0x200A)
        || u == 0x2028 || u == 0x2029 || u == 0x202F || u == 0x205F || u == 0x3000
}

pub fn space(c: char) -> (r: bool)
    ensures
        r == is_space(c),
{
    let u = c as u32;
    u == 32 || (9 <= u && u <= 13) || u == 0x85 || u == 0xA0 || u == 0x1680 || (0x2000 <= u && u <= 0x200A)
        || u == 0x2028 || u == 0x2029 || u == 0x202F || u == 0x205F || u == 0x3000
}

/// After reading `s`: the words completed so far and the word in progress.
pub open spec fn scan_words(s: Seq<char>) -> (Seq<Seq<char>>, Seq<char>)
    decreases s.len(),
{
    if s.len() == 0 {
        (Seq::empty(), Seq::empty())
    } else {
        let (done, cur) = scan_words(s.drop_last());
        if is_space(s.last()) {
            if cur.len() > 0 {
                (done.push(cur), Seq::empty())
            } else {
                (done, cur)
            }
        } else {
            (done, cur.push(s.last()))
        }
    }
}

/// The maximal runs of non-space characters of `s`, in order.
pub open spec fn words(s: Seq<char>) -> Seq<Seq<char>> {
    let (done, cur) = scan_words(s);
    if cur.len() > 0 {
        done.push(cur)
    } else {
        done
    }
}

/// Splits `s` into its words, as `str::split_whitespace` does.
pub fn split_words(s: &str) -> (r: Vec<String>)
    ensures
        r@.map_values(|w: String| w@) == words(s@),
{
    let n = s.unicode_len();
    let mut done: Vec<String> = Vec::new();
    let mut cur = String::new();
    let mut i: usize = 0;
    assert(s@.take(0) =~= Seq::<char>::empty());
    while i < n
        invariant
            n == s@.len(),
            0 <= i <= n,
            (done@.map_values(|w: String| w@), cur@) == scan_words(s@.take(i as int)),
        decreases n - i,
    {
        let c = s.get_char(i);
        assert(s@.take(i + 1).drop_last() =~= s@.take(i as int));
        let ghost before = done@;
        if space(c) {
            if cur.unicode_len() > 0 {
                let w = cur;
                cur = String::new();
                done.push(w);
                assert(done@.map_values(|w: String| w@) =~= before.map_values(|w: String| w@).push(w@));
            }
        } else {
            push_char(&mut cur, c);
        }
        i = i + 1;
    }
    assert(s@.take(n as int) =~= s@);
    if cur.unicode_len() > 0 {
        let ghost before = done@;
        done.push(cur);
        assert(done@.map_values(|w: String| w@) =~= before.map_values(|w: String| w@).push(cur@));
    }
    done
}

/// The items joined with one space between neighbours.
pub open spec fn join_spaced(v: Seq<Seq<char>>) -> Seq<char>
    decreases v.len(),
{
    if v.len() == 0 {
        Seq::empty()
    } else if v.len() == 1 {
        v[0]
    } else {
        join_spaced(v.drop_last()) + seq![' '] + v.last()
    }
}

/// Joins the items with one space between neighbours.
pub fn join_words(v: &[String]) -> (r: String)
    ensures
        r@ == join_spaced(v@.map_values(|w: String| w@)),
{
    let ghost items = v@.map_values(|w: String| w@);
    let mut out = String::new();
    let mut i: usize = 0;
    while i < v.len()
        invariant
            0 <= i <= v@.len(),
            items == v@.map_values(|w: String| w@),
            out@ == join_spaced(items.take(i as int)),
        decreases v@.len() - i,
    {
        assert(items.take(i + 1).drop_last() =~= items.take(i as int));
        if i > 0 {
            push_char(&mut out, ' ');
        }
        out.append(v[i].as_str());
        proof {
            if i == 0 {
                assert(out@ =~= join_spaced(items.take(1)));
            } else {
                assert(out@ =~= join_spaced(items.take(i + 1)));
            }
        }
        i = i + 1;
    }
    assert(items.take(v@.len() as int) =~= items);
    out
}

/// The character of a decimal digit.
pub open spec fn digit_char(d: int) -> char {
    if d == 0 {
        '0'
    } else if d == 1 {
        '1'
    } else if d == 2 {
        '2'
    } else if d == 3 {
        '3'
    } else if d == 4 {
        '4'
    } else if d == 5 {
        '5'
    } else if d == 6 {
        '6'
    } else if d == 7 {
        '7'
    } else if d == 8 {
        '8'
    } else {
        '9'
    }
}

pub open spec fn is_digit(c: char) -> bool {
    48 <= c as u32 <= 57
}

pub open spec fn digit_value(c: char) -> int {
    c as u32 - 48
}

/// The decimal digits of `n`, most significant first, without leading zeros.
pub open spec fn digits_of(n: nat) -> Seq<char>
    decreases n,
{
    if n < 10 {
        seq![digit_char(n as int)]
    } else {
        digits_of(n / 10).push(digit_char((n % 10) as int))
    }
}

/// `i` written in decimal, with a leading `-` when negative.
pub open spec fn decimal(i: int) -> Seq<char> {
    if i < 0 {
        seq!['-'] + digits_of((-i) as nat)
    } else {
        digits_of(i as nat)
    }
}

/// The number that a string of decimal digits denotes.
pub open spec fn digits_value(s: Seq<char>) -> int
    decreases s.len(),
{
    if s.len() == 0 {
        0
    } else {
        digits_value(s.drop_last()) * 10 + digit_value(s.last())
    }
}

pub open spec fn all_digits(s: Seq<char>) -> bool {
    forall|i: int| 0 <= i < s.len() ==> is_digit(#[trigger] s[i])
}

/// The length of the sign that starts `s`: one for `-` or `+`, else zero.
pub open spec fn sign_len(s: Seq<char>) -> int {
    if s.len() > 0 && (s[0] == '-' || s[0] == '+') {
        1
    } else {
        0
    }
}

/// The number a string denotes as `i64::from_str` reads it: an optional
/// sign, then one or more decimal digits, within the range of `i64`.
pub open spec fn parse_integer(s: Seq<char>) -> Option<int> {
    let body = s.skip(sign_len(s));
    let v = if sign_len(s) == 1 && s[0] == '-' { -digits_value(body) } else { digits_value(body) };
    if body.len() > 0 && all_digits(body) && i64::MIN <= v <= i64::MAX {
        Some(v)
    } else {
        None
    }
}

fn digit_to_char(d: u64) -> (r: char)
    requires
        d < 10,
    ensures
        r == digit_char(d as int),
{
    match d {
        0 => '0',
        1 => '1',
        2 => '2',
        3 => '3',
        4 => '4',
        5 => '5',
        6 => '6',
        7 => '7',
        8 => '8',
        _ => '9',
    }
}

/// Writes `i` in decimal, as `i64::to_string` does.
pub fn render_integer(i: i64) -> (r: String)
    ensures
        r@ == decimal(i as int),
{
    let neg = i < 0;
    let mag: u64 = if neg { ((-(i + 1)) as u64) + 1 } else { i as u64 };
    let ghost n = mag as nat;
    assert(n == if i < 0 { -(i as int) } else { i as int });
    let mut m: u64 = mag;
    let mut rev: Vec<char> = Vec::new();
    while m >= 10
        invariant
            digits_of(n) == digits_of(m as nat) + rev@.reverse(),
        decreases m,
    {
        let ghost before = rev@;
        rev.push(digit_to_char(m % 10));
        assert(rev@.reverse() =~= seq![digit_char((m % 10) as int)] + before.reverse());
        assert(digits_of(m as nat) == digits_of((m / 10) as nat).push(digit_char((m % 10) as int)));
        assert(digits_of(m as nat) + before.reverse() =~= digits_of((m / 10) as nat) + rev@.reverse());
        m = m / 10;
    }
    let ghost before = rev@;
    rev.push(digit_to_char(m));
    assert(rev@.reverse() =~= digits_of(n)) by {
        assert(rev@.reverse() =~= seq![digit_char(m as int)] + before.reverse());
    };
    let mut out = String::new();
    if neg {
        push_char(&mut out, '-');
    }
    let ghost start = out@;
    let mut k: usize = rev.len();
    while k > 0
        invariant
            k <= rev@.len(),
            out@ == start + rev@.reverse().take(rev@.len() - k),
        decreases k,
    {
        k = k - 1;
        push_char(&mut out, rev[k]);
        assert(rev@.reverse().take(rev@.len() - k) =~= rev@.reverse().take(rev@.len() - k - 1).push(rev@[k as int]));
    }
    assert(rev@.reverse().take(rev@.len() as int) =~= rev@.reverse());
    proof {
        if neg {
            assert(out@ =~= seq!['-'] + digits_of(n));
        } else {
            assert(out@ =~= digits_of(n));
        }
    }
    out
}

proof fn lemma_digits_value_grows(s: Seq<char>, k: int)
    requires
        0 <= k <= s.len(),
        all_digits(s),
    ensures
        digits_value(s.take(k)) <= digits_value(s),
        0 <= digits_value(s.take(k)),
    decreases s.len() - k,
{
    if k < s.len() {
        assert(s.take(k + 1).drop_last() =~= s.take(k));
        assert(is_digit(s[k]));
        lemma_digits_value_grows(s, k + 1);
    } else {
        assert(s.take(k) =~= s);
        lemma_digits_value_nonneg(s);
    }
}

proof fn lemma_digits_value_nonneg(s: Seq<char>)
    requires
        all_digits(s),
    ensures
        0 <= digits_value(s),
    decreases s.len(),
{
    if s.len() > 0 {
        assert(is_digit(s[s.len() - 1]));
        lemma_digits_value_nonneg(s.drop_last());
    }
}

/// Reads an integer as `i64::from_str` does; `None` where that fails.
pub fn parse_i64(s: &str) -> (r: Option<i64>)
    ensures
        r is None <==> parse_integer(s@) is None,
        r matches Some(v) ==> parse_integer(s@) == Some(v as int),
{
    let n = s.unicode_len();
    let mut start: usize = 0;
    let mut neg = false;
    if n > 0 {
        let c = s.get_char(0);
        if c == '-' || c == '+' {
            start = 1;
            neg = c == '-';
        }
    }
    assert(start == sign_len(s@));
    let ghost body = s@.skip(start as int);
    if start >= n {
        return None;
    }
    // The largest magnitude that fits: 2^63 for a negative result.
    let limit: u64 = if neg { 9223372036854775808 } else { 9223372036854775807 };
    let mut mag: u64 = 0;
    let mut i: usize = start;
    assert(body.take(0) =~= Seq::<char>::empty());
    while i < n
        invariant
            n == s@.len(),
            start <= i <= n,
            body == s@.skip(start as int),
            all_digits(body.take(i - start)),
            mag as int == digits_value(body.take(i - start)),
            mag <= limit,
            limit == if neg { 9223372036854775808u64 } else { 9223372036854775807u64 },
            start == sign_len(s@),
            neg <==> start == 1 && s@[0] == '-',
            body.len() > 0,
        decreases n - i,
    {
        let c = s.get_char(i);
        assert(body[i - start] == c);
        if !(c as u32 >= 48 && c as u32 <= 57) {
            assert(!is_digit(body[i - start]));
            return None;
        }
        let d = (c as u32 - 48) as u64;
        assert(body.take(i - start + 1).drop_last() =~= body.take(i - start));
        if mag > (limit - d) / 10 {
            proof {
                assert(mag * 10 + d > limit) by (nonlinear_arith)
                    requires mag > (limit - d) / 10, d <= 9, d <= limit;
                assert(is_digit(body[i - start]));
                assert(digits_value(body.take(i - start + 1)) == mag * 10 + d);
                if all_digits(body) {
                    lemma_digits_value_grows(body, i - start + 1);
                }
            }
            return None;
        }
        assert(mag * 10 + d <= limit) by (nonlinear_arith)
            requires mag <= (limit - d) / 10, d <= 9, d <= limit;
        mag = mag * 10 + d;
        i = i + 1;
    }
    assert(body.take(n - start) =~= body);
    if neg {
        if mag == 9223372036854775808 {
            Some(-9223372036854775807 - 1)
        } else {
            Some(-(mag as i64))
        }
    } else {
        Some(mag as i64)
    }
}

proof fn lemma_digit_char(d: int)
    requires
        0 <= d < 10,
    ensures
        is_digit(digit_char(d)),
        digit_value(digit_char(d)) == d,
{
}

proof fn lemma_digits_of(n: nat)
    ensures
        digits_of(n).len() > 0,
        all_digits(digits_of(n)),
        digits_value(digits_of(n)) == n,
    decreases n,
{
    if n < 10 {
        lemma_digit_char(n as int);
        assert(digits_of(n).drop_last() =~= Seq::<char>::empty());
        assert(digits_value(Seq::<char>::empty()) == 0);
        assert(digits_value(digits_of(n)) == 0 * 10 + digit_value(digit_char(n as int)));
    } else {
        lemma_digit_char((n % 10) as int);
        lemma_digits_of(n / 10);
        assert(digits_of(n).drop_last() =~= digits_of(n / 10));
        assert(digits_value(digits_of(n)) == (n / 10) as int * 10 + (n % 10) as int);
    }
}

/// Writing an integer in decimal and reading it back gives the integer.
pub proof fn lemma_integer_round_trip(i: i64)
    ensures
        parse_integer(decimal(i as int)) == Some(i as int),
{
    let d = decimal(i as int);
    if i < 0 {
        lemma_digits_of((-i) as nat);
        assert(d.skip(1) =~= digits_of((-i) as nat));
    } else {
        lemma_digits_of(i as nat);
        assert(is_digit(d[0]));
        assert(d.skip(0) =~= d);
    }
}

/// A word as `split_words` yields it: not empty and free of white space.
pub open spec fn is_word(w: Seq<char>) -> bool {
    w.len() > 0 && forall|k: int| 0 <= k < w.len() ==> !is_space(#[trigger] w[k])
}

proof fn lemma_scan_append_word(p: Seq<char>, w: Seq<char>)
    requires
        forall|k: int| 0 <= k < w.len() ==> !is_space(#[trigger] w[k]),
    ensures
        scan_words(p + w) == (scan_words(p).0, scan_words(p).1 + w),
    decreases w.len(),
{
    if w.len() == 0 {
        assert(p + w =~= p);
        assert(scan_words(p).1 + w =~= scan_words(p).1);
    } else {
        let w0 = w.drop_last();
        lemma_scan_append_word(p, w0);
        assert((p + w).drop_last() =~= p + w0);
        assert(!is_space(w[w.len() - 1]));
        assert(scan_words(p).1 + w0.push(w.last()) =~= scan_words(p).1 + w);
        assert(w0.push(w.last()) =~= w);
        assert((scan_words(p).1 + w0).push(w.last()) =~= scan_words(p).1 + w);
    }
}

proof fn lemma_scan_join(v: Seq<Seq<char>>)
    requires
        v.len() > 0,
        forall|k: int| 0 <= k < v.len() ==> is_word(#[trigger] v[k]),
    ensures
        scan_words(join_spaced(v)) == (v.drop_last(), v.last()),
    decreases v.len(),
{
    if v.len() == 1 {
        assert(is_word(v[0]));
        lemma_scan_append_word(Seq::empty(), v[0]);
        assert(Seq::<char>::empty() + v[0] =~= v[0]);
        assert(Seq::<char>::empty() + v[0] =~= v[0]);
        assert(v.drop_last() =~= Seq::<Seq<char>>::empty());
    } else {
        let v0 = v.drop_last();
        assert forall|k: int| 0 <= k < v0.len() implies is_word(#[trigger] v0[k]) by {
            assert(is_word(v[k]));
        };
        lemma_scan_join(v0);
        let p = join_spaced(v0) + seq![' '];
        assert(p.drop_last() =~= join_spaced(v0));
        assert(is_word(v0.last()));
        assert(scan_words(p) == (v0.drop_last().push(v0.last()), Seq::<char>::empty()));
        assert(v0.drop_last().push(v0.last()) =~= v0);
        assert(is_word(v[v.len() - 1]));
        lemma_scan_append_word(p, v.last());
        assert(Seq::<char>::empty() + v.last() =~= v.last());
    }
}

/// Splitting words that were joined with single spaces gives them back.
pub proof fn lemma_words_round_trip(v: Seq<Seq<char>>)
    requires
        forall|k: int| 0 <= k < v.len() ==> is_word(#[trigger] v[k]),
    ensures
        words(join_spaced(v)) == v,
{
    if v.len() > 0 {
        lemma_scan_join(v);
        assert(is_word(v[v.len() - 1]));
        assert(v.drop_last().push(v.last()) =~= v);
    } else {
        assert(scan_words(Seq::<char>::empty()) == (Seq::<Seq<char>>::empty(), Seq::<char>::empty()));
    }
}

proof fn lemma_scan_words_shape(s: Seq<char>)
    ensures
        forall|k: int| 0 <= k < scan_words(s).0.len() ==> is_word(#[trigger] scan_words(s).0[k]),
        forall|k: int| 0 <= k < scan_words(s).1.len() ==> !is_space(#[trigger] scan_words(s).1[k]),
    decreases s.len(),
{
    if s.len() > 0 {
        lemma_scan_words_shape(s.drop_last());
        let (done, cur) = scan_words(s.drop_last());
        if is_space(s.last()) {
            if cur.len() > 0 {
                assert forall|k: int| 0 <= k < done.push(cur).len() implies is_word(#[trigger] done.push(cur)[k]) by {
                    if k < done.len() {
                        assert(done.push(cur)[k] == done[k]);
                    }
                };
            }
        } else {
            assert forall|k: int| 0 <= k < cur.push(s.last()).len() implies !is_space(#[trigger] cur.push(s.last())[k]) by {
                if k < cur.len() {
                    assert(cur.push(s.last())[k] == cur[k]);
                }
            };
        }
    }
}

/// Every item that `words` yields is a word.
pub proof fn lemma_words_are_words(s: Seq<char>)
    ensures
        forall|k: int| 0 <= k < words(s).len() ==> is_word(#[trigger] words(s)[k]),
{
    lemma_scan_words_shape(s);
    let (done, cur) = scan_words(s);
    if cur.len() > 0 {
        assert forall|k: int| 0 <= k < done.push(cur).len() implies is_word(#[trigger] done.push(cur)[k]) by {
            if k < done.len() {
                assert(done.push(cur)[k] == done[k]);
            }
        };
    }
}

} // verus!

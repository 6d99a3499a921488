//! Character-level text handling shared by the `/proc` parsers and the
//! event-stream filter: splitting into lines and whitespace-separated
//! words, and parsing unsigned decimal integers, with the semantics of
//! `str::lines`, `str::split_whitespace` and `u64::from_str`.

use vstd::prelude::*;

verus! {

broadcast use vstd::string::group_string_axioms;

/// Unicode `White_Space` (what `char::is_whitespace` accepts).
pub open spec fn is_ws(c: char) -> bool {
    let u = c as u32;
    ||| u == 0x20
    ||| 0x09 <= u <= 0x0d
    ||| u == 0x85
    ||| u == 0xa0
    ||| u == 0x1680
    ||| 0x2000 <= u <= 0x200a
    ||| u == 0x2028
    ||| u == 0x2029
    ||| u == 0x202f
    ||| u == 0x205f
    ||| u == 0x3000
}

/// Exec counterpart of `is_ws`.
pub fn char_is_ws(c: char) -> (r: bool)
    ensures
        r == is_ws(c),
{
    let u = c as u32;
    u == 0x20 || (0x09 <= u && u <= 0x0d) || u == 0x85 || u == 0xa0 || u == 0x1680 || (0x2000 <= u
        && u <= 0x200a) || u == 0x2028 || u == 0x2029 || u == 0x202f || u == 0x205f || u == 0x3000
}

/// Position of the first `c` in `s`, or `s.len()` when absent.
pub open spec fn first_index_of(s: Seq<char>, c: char) -> int
    decreases s.len(),
{
    if s.len() == 0 {
        0
    } else if s[0] == c {
        0
    } else {
        1 + first_index_of(s.drop_first(), c)
    }
}

/// Number of leading whitespace characters of `s`.
pub open spec fn ws_prefix_len(s: Seq<char>) -> int
    decreases s.len(),
{
    if s.len() == 0 {
        0
    } else if is_ws(s[0]) {
        1 + ws_prefix_len(s.drop_first())
    } else {
        0
    }
}

/// Number of leading non-whitespace characters of `s`.
pub open spec fn word_prefix_len(s: Seq<char>) -> int
    decreases s.len(),
{
    if s.len() == 0 {
        0
    } else if is_ws(s[0]) {
        0
    } else {
        1 + word_prefix_len(s.drop_first())
    }
}

/// Bounds and characterisation of `first_index_of`.
pub proof fn lemma_first_index_of(s: Seq<char>, c: char)
    ensures
        0 <= first_index_of(s, c) <= s.len(),
        forall|k: int| 0 <= k < first_index_of(s, c) ==> s[k] != c,
        first_index_of(s, c) < s.len() ==> s[first_index_of(s, c)] == c,
    decreases s.len(),
{
    if s.len() > 0 && s[0] != c {
        lemma_first_index_of(s.drop_first(), c);
        assert forall|k: int| 0 <= k < first_index_of(s, c) implies s[k] != c by {
            if k > 0 {
                assert(s[k] == s.drop_first()[k - 1]);
            }
        }
    }
}

/// Bounds and characterisation of `ws_prefix_len`.
pub proof fn lemma_ws_prefix_len(s: Seq<char>)
    ensures
        0 <= ws_prefix_len(s) <= s.len(),
        forall|k: int| 0 <= k < ws_prefix_len(s) ==> is_ws(#[trigger] s[k]),
        ws_prefix_len(s) < s.len() ==> !is_ws(s[ws_prefix_len(s)]),
    decreases s.len(),
{
    if s.len() > 0 && is_ws(s[0]) {
        lemma_ws_prefix_len(s.drop_first());
        assert forall|k: int| 0 <= k < ws_prefix_len(s) implies is_ws(#[trigger] s[k]) by {
            if k > 0 {
                assert(s[k] == s.drop_first()[k - 1]);
            }
        }
    }
}

/// Bounds and characterisation of `word_prefix_len`.
pub proof fn lemma_word_prefix_len(s: Seq<char>)
    ensures
        0 <= word_prefix_len(s) <= s.len(),
        forall|k: int| 0 <= k < word_prefix_len(s) ==> !is_ws(#[trigger] s[k]),
        word_prefix_len(s) < s.len() ==> is_ws(s[word_prefix_len(s)]),
        s.len() > 0 && !is_ws(s[0]) ==> word_prefix_len(s) >= 1,
    decreases s.len(),
{
    if s.len() > 0 && !is_ws(s[0]) {
        lemma_word_prefix_len(s.drop_first());
        assert forall|k: int| 0 <= k < word_prefix_len(s) implies !is_ws(#[trigger] s[k]) by {
            if k > 0 {
                assert(s[k] == s.drop_first()[k - 1]);
            }
        }
    }
}

/// `l` without one trailing carriage return.
pub open spec fn strip_cr(l: Seq<char>) -> Seq<char> {
    if l.len() > 0 && l.last() == '\r' {
        l.drop_last()
    } else {
        l
    }
}

/// The lines of `s` as `str::lines` yields them: split at `\n`, a `\r`
/// directly before a `\n` removed, no empty line after a final `\n`.
pub open spec fn lines(s: Seq<char>) -> Seq<Seq<char>>
    decreases s.len(),
{
    if s.len() == 0 {
        Seq::empty()
    } else {
        let i = first_index_of(s, '\n');
        if i >= s.len() || i < 0 {
            seq![s]
        } else {
            seq![strip_cr(s.take(i))] + lines(s.skip(i + 1))
        }
    }
}

/// The whitespace-separated words of `s`, as `str::split_whitespace`
/// yields them.
pub open spec fn words(s: Seq<char>) -> Seq<Seq<char>>
    decreases s.len(),
{
    let a = ws_prefix_len(s);
    if a >= s.len() || a < 0 {
        Seq::empty()
    } else {
        let rest = s.skip(a);
        let b = word_prefix_len(rest);
        proof {
            lemma_word_prefix_len(rest);
        }
        if b <= 0 {
            Seq::empty()
        } else {
            seq![rest.take(b)] + words(rest.skip(b))
        }
    }
}

/// Whether `c` is an ASCII decimal digit.
pub open spec fn is_digit(c: char) -> bool {
    48 <= (c as u32) <= 57
}

/// Value of a string of ASCII digits.
pub open spec fn digits_value(d: Seq<char>) -> nat
    decreases d.len(),
{
    if d.len() == 0 {
        0
    } else {
        digits_value(d.drop_last()) * 10 + ((d.last() as u32) - 48) as nat
    }
}

/// Whether every character of `d` is an ASCII digit.
pub open spec fn all_digits(d: Seq<char>) -> bool {
    forall|k: int| 0 <= k < d.len() ==> is_digit(#[trigger] d[k])
}

/// `w` without one leading `+`.
pub open spec fn unsigned_digits(w: Seq<char>) -> Seq<char> {
    if w.len() > 0 && w[0] == '+' { w.drop_first() } else { w }
}

/// `u64::from_str` / `u32::from_str` for an unsigned type whose maximum
/// is `max`: an optional `+`, then at least one ASCII digit, nothing else,
/// and a value not above `max`.
pub open spec fn parse_unsigned(w: Seq<char>, max: nat) -> Option<nat> {
    let d = unsigned_digits(w);
    if d.len() == 0 {
        None
    } else if all_digits(d) && digits_value(d) <= max {
        Some(digits_value(d))
    } else {
        None
    }
}

/// `u64::from_str`.
pub open spec fn parse_u64(w: Seq<char>) -> Option<u64> {
    match parse_unsigned(w, u64::MAX as nat) {
        Some(v) => Some(v as u64),
        None => None,
    }
}

/// `u32::from_str`.
pub open spec fn parse_u32(w: Seq<char>) -> Option<u32> {
    match parse_unsigned(w, u32::MAX as nat) {
        Some(v) => Some(v as u32),
        None => None,
    }
}

/// The characters of `s`, in order.
pub fn str_chars(s: &str) -> (v: Vec<char>)
    ensures
        v@ == s@,
{
    let mut v: Vec<char> = Vec::new();
    let mut it = s.chars();
    assert(vstd::std_specs::iter::IteratorSpec::remaining(&it) == s@);
    loop
        invariant
            v@ + vstd::std_specs::iter::IteratorSpec::remaining(&it) == s@,
            vstd::std_specs::iter::IteratorSpec::obeys_prophetic_iter_laws(&it),
            vstd::std_specs::iter::IteratorSpec::decrease(&it) is Some,
        decreases vstd::std_specs::iter::IteratorSpec::decrease(&it)->0,
    {
        let ghost before = vstd::std_specs::iter::IteratorSpec::remaining(&it);
        match it.next() {
            Some(c) => {
                v.push(c);
                assert(v@ + vstd::std_specs::iter::IteratorSpec::remaining(&it) =~= s@);
            },
            None => {
                assert(v@ =~= s@);
                return v;
            },
        }
    }
}

/// `s[from..to]` as a new vector.
pub fn sub_chars(s: &Vec<char>, from: usize, to: usize) -> (r: Vec<char>)
    requires
        from <= to <= s.len(),
    ensures
        r@ == s@.subrange(from as int, to as int),
{
    let mut r: Vec<char> = Vec::with_capacity(to - from);
    let mut i = from;
    while i < to
        invariant
            from <= i <= to,
            to <= s.len(),
            r@ == s@.subrange(from as int, i as int),
        decreases to - i,
    {
        r.push(s[i]);
        assert(r@ =~= s@.subrange(from as int, i + 1));
        i = i + 1;
    }
    r
}

/// The lines of `s` (see `lines`).
pub fn split_lines(s: &Vec<char>) -> (out: Vec<Vec<char>>)
    ensures
        out.len() == lines(s@).len(),
        forall|i: int| 0 <= i < out.len() ==> #[trigger] out@[i]@ == lines(s@)[i],
{
    let mut out: Vec<Vec<char>> = Vec::new();
    let ghost mut done: Seq<Seq<char>> = Seq::empty();
    let mut pos: usize = 0;
    let n = s.len();
    assert(s@.skip(0) =~= s@);
    while pos < n
        invariant
            n == s.len(),
            pos <= n,
            out.len() == done.len(),
            forall|i: int| 0 <= i < out.len() ==> #[trigger] out@[i]@ == done[i],
            done + lines(s@.skip(pos as int)) == lines(s@),
        decreases n - pos,
    {
        let ghost rest = s@.skip(pos as int);
        let mut e = pos;
        while e < n && s[e] != '\n'
            invariant
                pos <= e <= n,
                n == s.len(),
                rest == s@.skip(pos as int),
                forall|k: int| pos <= k < e ==> s@[k] != '\n',
            decreases n - e,
        {
            e = e + 1;
        }
        proof {
            lemma_first_index_of(rest, '\n');
            let i = first_index_of(rest, '\n');
            if i < e - pos {
                assert(rest[i] == s@[pos + i]);
            }
            if e < n {
                assert(rest[e - pos] == s@[e as int]);
            }
            assert(i == e - pos);
        }
        if e == n {
            let line = sub_chars(s, pos, n);
            proof {
                assert(line@ =~= rest);
                assert(lines(rest) == seq![rest]);
                assert(s@.skip(n as int) =~= Seq::<char>::empty());
                done = done.push(line@);
                assert(done + lines(s@.skip(n as int)) =~= lines(s@));
            }
            out.push(line);
            pos = n;
        } else {
            let end = if e > pos && s[e - 1] == '\r' { e - 1 } else { e };
            let line = sub_chars(s, pos, end);
            proof {
                let i = e - pos;
                assert(line@ =~= strip_cr(rest.take(i)));
                assert(rest.skip(i + 1) =~= s@.skip(e + 1));
                assert(lines(rest) == seq![strip_cr(rest.take(i))] + lines(rest.skip(i + 1)));
                done = done.push(line@);
                assert(done + lines(s@.skip(e + 1)) =~= lines(s@));
            }
            out.push(line);
            pos = e + 1;
        }
    }
    proof {
        assert(s@.skip(pos as int) =~= Seq::<char>::empty());
        assert(done =~= lines(s@));
    }
    out
}

/// The whitespace-separated words of `s` (see `words`).
pub fn split_words(s: &Vec<char>) -> (out: Vec<Vec<char>>)
    ensures
        out.len() == words(s@).len(),
        forall|i: int| 0 <= i < out.len() ==> #[trigger] out@[i]@ == words(s@)[i],
{
    let mut out: Vec<Vec<char>> = Vec::new();
    let ghost mut done: Seq<Seq<char>> = Seq::empty();
    let mut pos: usize = 0;
    let n = s.len();
    assert(s@.skip(0) =~= s@);
    loop
        invariant
            n == s.len(),
            pos <= n,
            out.len() == done.len(),
            forall|i: int| 0 <= i < out.len() ==> #[trigger] out@[i]@ == done[i],
            done + words(s@.skip(pos as int)) == words(s@),
        decreases n - pos,
    {
        let ghost rest = s@.skip(pos as int);
        let mut a = pos;
        while a < n && char_is_ws(s[a])
            invariant
                pos <= a <= n,
                n == s.len(),
                forall|k: int| pos <= k < a ==> is_ws(s@[k]),
            decreases n - a,
        {
            a = a + 1;
        }
        proof {
            lemma_ws_prefix_len(rest);
            let w = ws_prefix_len(rest);
            if w < a - pos {
                assert(rest[w] == s@[pos + w]);
            }
            if a < n {
                assert(rest[a - pos] == s@[a as int]);
                if a - pos < w {
                    assert(is_ws(rest[a - pos]));
                }
            }
            assert(w == a - pos);
        }
        if a == n {
            proof {
                assert(words(rest) == Seq::<Seq<char>>::empty());
                assert(done =~= words(s@));
            }
            return out;
        }
        let mut b = a;
        while b < n && !char_is_ws(s[b])
            invariant
                a <= b <= n,
                n == s.len(),
                forall|k: int| a <= k < b ==> !is_ws(s@[k]),
            decreases n - b,
        {
            b = b + 1;
        }
        let word = sub_chars(s, a, b);
        proof {
            let w = a - pos;
            let rest2 = rest.skip(w);
            assert(rest2 =~= s@.skip(a as int));
            lemma_word_prefix_len(rest2);
            let wl = word_prefix_len(rest2);
            if wl < b - a {
                assert(rest2[wl] == s@[a + wl]);
            }
            if b < n {
                assert(rest2[b - a] == s@[b as int]);
                if b - a < wl {
                    assert(!is_ws(rest2[b - a]));
                }
            }
            assert(rest2[0] == s@[a as int]);
            assert(wl == b - a);
            assert(word@ =~= rest2.take(wl));
            assert(rest2.skip(wl) =~= s@.skip(b as int));
            done = done.push(word@);
            assert(done + words(s@.skip(b as int)) =~= words(s@));
        }
        out.push(word);
        pos = b;
    }
}

/// Extending a digit string never decreases its value.
pub(crate) proof fn lemma_digits_value_prefix(d: Seq<char>, k: int)
    requires
        0 <= k <= d.len(),
    ensures
        digits_value(d.take(k)) <= digits_value(d),
    decreases d.len(),
{
    if k < d.len() {
        lemma_digits_value_prefix(d.drop_last(), k);
        assert(d.drop_last().take(k) =~= d.take(k));
    } else {
        assert(d.take(k) =~= d);
    }
}

/// Parse an unsigned decimal integer with maximum `cap` (see
/// `parse_unsigned`).
pub fn parse_unsigned_chars(w: &Vec<char>, cap: u64) -> (r: Option<u64>)
    requires
        cap >= 9,
    ensures
        match parse_unsigned(w@, cap as nat) {
            Some(v) => r == Some(v as u64),
            None => r is None,
        },
{
    let start: usize = if w.len() > 0 && w[0] == '+' { 1 } else { 0 };
    let ghost d = unsigned_digits(w@);
    assert(d =~= w@.skip(start as int));
    if start == w.len() {
        return None;
    }
    let mut v: u64 = 0;
    let mut i: usize = start;
    while i < w.len()
        invariant
            start <= i <= w.len(),
            d == w@.skip(start as int),
            d == unsigned_digits(w@),
            cap >= 9,
            forall|k: int| start <= k < i ==> is_digit(#[trigger] w@[k]),
            v == digits_value(w@.subrange(start as int, i as int)),
            v <= cap,
        decreases w.len() - i,
    {
        let ghost pre = w@.subrange(start as int, i as int);
        let ghost post = w@.subrange(start as int, i + 1);
        assert(post.drop_last() =~= pre);
        let u = w[i] as u32;
        if u < 48 || u > 57 {
            proof {
                assert(d[i - start] == w@[i as int]);
                assert(!is_digit(d[i - start]));
            }
            return None;
        }
        let dig = (u - 48) as u64;
        if v > (cap - dig) / 10 {
            proof {
                assert(v * 10 + dig > cap) by (nonlinear_arith)
                    requires
                        v > (cap - dig) / 10,
                        dig <= 9,
                        cap >= 9,
                ;
                assert(digits_value(post) == v * 10 + dig);
                if all_digits(d) {
                    assert(d.take(i + 1 - start) =~= post);
                    lemma_digits_value_prefix(d, i + 1 - start);
                }
            }
            return None;
        }
        proof {
            assert(v * 10 + dig <= cap) by (nonlinear_arith)
                requires
                    v <= (cap - dig) / 10,
                    dig <= 9,
                    cap >= 9,
            ;
        }
        v = v * 10 + dig;
        i = i + 1;
    }
    proof {
        assert(w@.subrange(start as int, i as int) =~= d);
        assert forall|k: int| 0 <= k < d.len() implies is_digit(#[trigger] d[k]) by {
            assert(d[k] == w@[start + k]);
        }
    }
    Some(v)
}


/// Value of the ASCII digits `d[from..to]`, capped at `cap`.
pub fn digits_value_capped(d: &Vec<char>, from: usize, to: usize, cap: u64) -> (r: u64)
    requires
        from <= to <= d.len(),
        cap >= 9,
        all_digits(d@.subrange(from as int, to as int)),
    ensures
        r == if digits_value(d@.subrange(from as int, to as int)) > cap {
            cap as nat
        } else {
            digits_value(d@.subrange(from as int, to as int))
        },
{
    let ghost whole = d@.subrange(from as int, to as int);
    let mut v: u64 = 0;
    let mut i: usize = from;
    while i < to
        invariant
            from <= i <= to,
            to <= d.len(),
            cap >= 9,
            whole == d@.subrange(from as int, to as int),
            all_digits(whole),
            v == digits_value(d@.subrange(from as int, i as int)),
            v <= cap,
        decreases to - i,
    {
        let ghost pre = d@.subrange(from as int, i as int);
        let ghost post = d@.subrange(from as int, i + 1);
        assert(post.drop_last() =~= pre);
        assert(whole[i - from] == d@[i as int]);
        let dig = (d[i] as u32 - 48) as u64;
        if v > (cap - dig) / 10 {
            proof {
                assert(v * 10 + dig > cap) by (nonlinear_arith)
                    requires
                        v > (cap - dig) / 10,
                        dig <= 9,
                        cap >= 9,
                ;
                assert(whole.take(i + 1 - from) =~= post);
                lemma_digits_value_prefix(whole, i + 1 - from);
            }
            return cap;
        }
        proof {
            assert(v * 10 + dig <= cap) by (nonlinear_arith)
                requires
                    v <= (cap - dig) / 10,
                    dig <= 9,
                    cap >= 9,
            ;
        }
        v = v * 10 + dig;
        i = i + 1;
    }
    v
}

/// Whether `d[from..to]` consists of ASCII digits only.
pub fn range_all_digits(d: &Vec<char>, from: usize, to: usize) -> (r: bool)
    requires
        from <= to <= d.len(),
    ensures
        r == all_digits(d@.subrange(from as int, to as int)),
{
    let mut i = from;
    while i < to
        invariant
            from <= i <= to,
            to <= d.len(),
            forall|k: int| from <= k < i ==> is_digit(#[trigger] d@[k]),
        decreases to - i,
    {
        let u = d[i] as u32;
        if u < 48 || u > 57 {
            assert(d@.subrange(from as int, to as int)[i - from] == d@[i as int]);
            return false;
        }
        i = i + 1;
    }
    assert forall|k: int| 0 <= k < to - from implies is_digit(#[trigger] d@.subrange(from as int, to as int)[k]) by {
        assert(d@.subrange(from as int, to as int)[k] == d@[from + k]);
    }
    true
}

// ----- UTF-8 and ASCII text -----

/// Text decoded from `bytes` by `String::from_utf8_lossy`.
pub uninterp spec fn utf8_lossy(bytes: Seq<u8>) -> Seq<char>;

/// `String::from_utf8_lossy(bytes).into_owned()`: the text of `bytes`,
/// where each invalid UTF-8 sequence is replaced by U+FFFD. The contract
/// names the result, states that valid UTF-8 decodes exactly, and that a
/// NUL character comes out only of a zero byte (a replacement is U+FFFD,
/// never NUL); which spans of invalid input are replaced is left unstated.
#[verifier::external_body]
pub(crate) fn lossy_string(bytes: &[u8]) -> (s: String)
    ensures
        s@ == utf8_lossy(bytes@),
        vstd::utf8::valid_utf8(bytes@) ==> s@ == vstd::utf8::decode_utf8(bytes@),
        (forall|i: int| 0 <= i < bytes@.len() ==> bytes@[i] != 0u8) ==> (forall|j: int|
            0 <= j < s@.len() ==> s@[j] != '\0'),
{
    String::from_utf8_lossy(bytes).into_owned()
}

/// The characters of ASCII bytes.
pub open spec fn ascii_chars(b: Seq<u8>) -> Seq<char> {
    Seq::new(b.len(), |i: int| b[i] as char)
}

/// Whether every byte is ASCII.
pub open spec fn all_ascii(b: Seq<u8>) -> bool {
    forall|i: int| 0 <= i < b.len() ==> b[i] < 128
}

/// The text of ASCII bytes.
pub fn ascii_string(b: &[u8]) -> (s: String)
    requires
        all_ascii(b@),
    ensures
        s@ == ascii_chars(b@),
{
    proof {
        let chars = ascii_chars(b@);
        assert(vstd::utf8::is_ascii_chars(chars));
        vstd::utf8::is_ascii_chars_encode_utf8(chars);
        assert forall|i: int| 0 <= i < b@.len() implies (#[trigger] chars[i]) as u8 == b@[i] by {
            let x = b@[i];
            assert(x < 128);
        }
        assert(vstd::utf8::encode_utf8(chars) =~= b@);
        vstd::utf8::encode_utf8_valid_utf8(chars);
        vstd::utf8::encode_utf8_decode_utf8(chars);
    }
    lossy_string(b)
}

/// ASCII decimal digit byte of `d`.
pub open spec fn digit_byte(d: nat) -> u8 {
    (d + 48) as u8
}

/// The decimal representation of `n` without leading zeros (as `{}` formats it).
pub open spec fn decimal_bytes(n: nat) -> Seq<u8>
    decreases n,
{
    if n < 10 {
        seq![digit_byte(n)]
    } else {
        decimal_bytes(n / 10).push(digit_byte(n % 10))
    }
}

/// The last `width` decimal digits of `n`, zero-padded (as `{:0width$}`
/// formats a value below `10^width`).
pub open spec fn padded_decimal_bytes(n: nat, width: nat) -> Seq<u8>
    decreases width,
{
    if width == 0 {
        Seq::empty()
    } else {
        padded_decimal_bytes(n / 10, (width - 1) as nat).push(digit_byte(n % 10))
    }
}

/// Decimal digits are ASCII.
pub proof fn lemma_decimal_ascii(n: nat)
    ensures
        all_ascii(decimal_bytes(n)),
    decreases n,
{
    if n >= 10 {
        lemma_decimal_ascii(n / 10);
    }
}

pub proof fn lemma_padded_decimal_ascii(n: nat, width: nat)
    ensures
        all_ascii(padded_decimal_bytes(n, width)),
        padded_decimal_bytes(n, width).len() == width,
    decreases width,
{
    if width > 0 {
        lemma_padded_decimal_ascii(n / 10, (width - 1) as nat);
    }
}

/// Append the decimal representation of `n`.
pub fn push_decimal(v: &mut Vec<u8>, n: u64)
    ensures
        final(v)@ == old(v)@ + decimal_bytes(n as nat),
    decreases n,
{
    if n >= 10 {
        push_decimal(v, n / 10);
    }
    let d = (n % 10) as u8;
    v.push(d + 48);
    proof {
        if n >= 10 {
            assert(decimal_bytes(n as nat) == decimal_bytes((n / 10) as nat).push(digit_byte((n % 10) as nat)));
        }
        assert(v@ =~= old(v)@ + decimal_bytes(n as nat));
    }
}

/// Append the last `width` decimal digits of `n`, zero-padded.
pub fn push_padded_decimal(v: &mut Vec<u8>, n: u64, width: u32)
    ensures
        final(v)@ == old(v)@ + padded_decimal_bytes(n as nat, width as nat),
    decreases width,
{
    if width > 0 {
        push_padded_decimal(v, n / 10, width - 1);
        let d = (n % 10) as u8;
        v.push(d + 48);
        assert(v@ =~= old(v)@ + padded_decimal_bytes(n as nat, width as nat));
    } else {
        assert(v@ =~= old(v)@ + padded_decimal_bytes(n as nat, width as nat));
    }
}

} // verus!

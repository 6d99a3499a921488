//! Parsers for the `/proc` pseudo-files the daemon polls: memory totals
//! (`/proc/meminfo`), memory pressure (`/proc/pressure/memory`) and the
//! per-process supplements read from `/proc/<pid>/status`.
//!
//! Every parser is total: unknown keys, malformed lines and unparseable
//! values are skipped, so a field keeps the value of the last line that
//! carried it with a well-formed number, or zero when no such line exists.

use vstd::prelude::*;

use crate::text::{all_digits, digits_value, digits_value_capped, first_index_of, lines, range_all_digits, parse_u32, parse_u64, parse_unsigned_chars, split_lines, split_words, str_chars, sub_chars, words};

verus! {

broadcast use vstd::string::group_string_axioms;

/// Per-pid facts taken from `/proc/<pid>/status`. A field the kernel does
/// not report for the process (kernel threads have no `VmRSS`) stays zero.
#[derive(Copy, Clone, Debug, Default, PartialEq, Eq, Structural)]
pub struct PidStatusFacts {
    pub mem_rss_bytes: u64,
    pub mem_vms_bytes: u64,
    pub thread_count: u32,
}

/// Memory facts sourced from `/proc`.
#[derive(Copy, Clone, Debug, Default, PartialEq, Eq, Structural)]
pub struct ProcMemFacts {
    pub total_bytes: u64,
    pub free_bytes: u64,
    pub cached_bytes: u64,
    pub buffered_bytes: u64,
    pub slab_bytes: u64,
    pub swap_used_bytes: u64,
    pub swap_free_bytes: u64,
    /// PSI memory `some` avg10 as a percentage times 100 (12.34 % is 1234).
    pub psi_some_pct_x100: u32,
    /// PSI memory `full` avg10 as a percentage times 100.
    pub psi_full_pct_x100: u32,
}

/// Kilobytes to bytes, saturating at `u64::MAX`.
pub open spec fn kib_to_bytes(v: u64) -> u64 {
    if v * 1024 > u64::MAX { u64::MAX } else { (v * 1024) as u64 }
}

/// `w` with every trailing `:` removed.
pub open spec fn trim_end_colons(w: Seq<char>) -> Seq<char>
    decreases w.len(),
{
    if w.len() > 0 && w.last() == ':' {
        trim_end_colons(w.drop_last())
    } else {
        w
    }
}

/// A `/proc/meminfo` line as (key without trailing colons, value in kB):
/// present when the line has at least two words and the second parses as
/// a `u64`.
pub open spec fn meminfo_entry(line: Seq<char>) -> Option<(Seq<char>, u64)> {
    let ws = words(line);
    if ws.len() < 2 {
        None
    } else {
        match parse_u64(ws[1]) {
            Some(v) => Some((trim_end_colons(ws[0]), v)),
            None => None,
        }
    }
}

/// Value (kB) of the last well-formed meminfo line with key `key`.
pub open spec fn meminfo_last(ls: Seq<Seq<char>>, key: Seq<char>) -> Option<u64>
    decreases ls.len(),
{
    if ls.len() == 0 {
        None
    } else {
        match meminfo_entry(ls.last()) {
            Some((k, v)) => if k == key { Some(v) } else { meminfo_last(ls.drop_last(), key) },
            None => meminfo_last(ls.drop_last(), key),
        }
    }
}

/// Bytes reported by `/proc/meminfo` text `input` for `key`, 0 if absent.
pub open spec fn meminfo_bytes(input: Seq<char>, key: Seq<char>) -> u64 {
    match meminfo_last(lines(input), key) {
        Some(v) => kib_to_bytes(v),
        None => 0,
    }
}

/// Kilobytes to bytes, saturating at `u64::MAX`.
fn kib_bytes(v: u64) -> (r: u64)
    ensures
        r == kib_to_bytes(v),
{
    if v > u64::MAX / 1024 { u64::MAX } else { v * 1024 }
}

/// Whether `v` holds exactly the characters of `s`.
pub fn chars_match(v: &Vec<char>, s: &str) -> (r: bool)
    ensures
        r == (v@ == s@),
{
    let sc = str_chars(s);
    if v.len() != sc.len() {
        return false;
    }
    let mut i: usize = 0;
    while i < v.len()
        invariant
            i <= v.len(),
            v.len() == sc.len(),
            sc@ == s@,
            forall|k: int| 0 <= k < i ==> v@[k] == sc@[k],
        decreases v.len() - i,
    {
        if v[i] != sc[i] {
            assert(v@[i as int] != sc@[i as int]);
            return false;
        }
        i = i + 1;
    }
    assert(v@ =~= sc@);
    true
}

/// `w` with every trailing `:` removed.
fn trim_colons(w: &Vec<char>) -> (r: Vec<char>)
    ensures
        r@ == trim_end_colons(w@),
{
    let mut end = w.len();
    assert(w@.subrange(0, end as int) =~= w@);
    while end > 0 && w[end - 1] == ':'
        invariant
            end <= w.len(),
            trim_end_colons(w@) == trim_end_colons(w@.subrange(0, end as int)),
        decreases end,
    {
        assert(w@.subrange(0, end as int).drop_last() =~= w@.subrange(0, end - 1));
        end = end - 1;
    }
    sub_chars(w, 0, end)
}

/// Parse a `u64` word.
fn word_u64(w: &Vec<char>) -> (r: Option<u64>)
    ensures
        r == parse_u64(w@),
{
    parse_unsigned_chars(w, u64::MAX)
}

/// Parse a `u32` word.
fn word_u32(w: &Vec<char>) -> (r: Option<u32>)
    ensures
        r == parse_u32(w@),
{
    match parse_unsigned_chars(w, u32::MAX as u64) {
        Some(v) => Some(v as u32),
        None => None,
    }
}

/// The meminfo entry of one line.
fn meminfo_line(line: &Vec<char>) -> (r: Option<(Vec<char>, u64)>)
    ensures
        match meminfo_entry(line@) {
            Some((k, v)) => match r {
                Some((rk, rv)) => rk@ == k && rv == v,
                None => false,
            },
            None => r is None,
        },
{
    let ws = split_words(line);
    if ws.len() < 2 {
        return None;
    }
    match word_u64(&ws[1]) {
        Some(v) => Some((trim_colons(&ws[0]), v)),
        None => None,
    }
}

/// Parse `/proc/meminfo` (values in kB, converted to bytes). Unknown keys
/// and malformed lines are ignored; swap usage is total minus free,
/// floored at zero. The pressure fields are left at zero.
pub fn parse_meminfo(input: &str) -> (f: ProcMemFacts)
    ensures
        f.total_bytes == meminfo_bytes(input@, "MemTotal"@),
        f.free_bytes == meminfo_bytes(input@, "MemFree"@),
        f.cached_bytes == meminfo_bytes(input@, "Cached"@),
        f.buffered_bytes == meminfo_bytes(input@, "Buffers"@),
        f.slab_bytes == meminfo_bytes(input@, "Slab"@),
        f.swap_free_bytes == meminfo_bytes(input@, "SwapFree"@),
        f.swap_used_bytes == meminfo_bytes(input@, "SwapTotal"@).saturating_sub(
            meminfo_bytes(input@, "SwapFree"@),
        ),
        f.psi_some_pct_x100 == 0,
        f.psi_full_pct_x100 == 0,
{
    let chars = str_chars(input);
    let ls = split_lines(&chars);
    let ghost spec_ls = lines(input@);
    let mut total: u64 = 0;
    let mut free: u64 = 0;
    let mut cached: u64 = 0;
    let mut buffers: u64 = 0;
    let mut slab: u64 = 0;
    let mut swap_total: u64 = 0;
    let mut swap_free: u64 = 0;
    let mut i: usize = 0;
    while i < ls.len()
        invariant
            i <= ls.len(),
            ls.len() == spec_ls.len(),
            forall|k: int| 0 <= k < ls.len() ==> #[trigger] ls@[k]@ == spec_ls[k],
            total == meminfo_bytes_prefix(spec_ls, i as int, "MemTotal"@),
            free == meminfo_bytes_prefix(spec_ls, i as int, "MemFree"@),
            cached == meminfo_bytes_prefix(spec_ls, i as int, "Cached"@),
            buffers == meminfo_bytes_prefix(spec_ls, i as int, "Buffers"@),
            slab == meminfo_bytes_prefix(spec_ls, i as int, "Slab"@),
            swap_total == meminfo_bytes_prefix(spec_ls, i as int, "SwapTotal"@),
            swap_free == meminfo_bytes_prefix(spec_ls, i as int, "SwapFree"@),
        decreases ls.len() - i,
    {
        proof {
            assert(spec_ls.take(i + 1).drop_last() =~= spec_ls.take(i as int));
            assert(spec_ls.take(i + 1).last() == spec_ls[i as int]);
        }
        if let Some((key, kb)) = meminfo_line(&ls[i]) {
            let bytes = kib_bytes(kb);
            if chars_match(&key, "MemTotal") {
                total = bytes;
            }
            if chars_match(&key, "MemFree") {
                free = bytes;
            }
            if chars_match(&key, "Cached") {
                cached = bytes;
            }
            if chars_match(&key, "Buffers") {
                buffers = bytes;
            }
            if chars_match(&key, "Slab") {
                slab = bytes;
            }
            if chars_match(&key, "SwapTotal") {
                swap_total = bytes;
            }
            if chars_match(&key, "SwapFree") {
                swap_free = bytes;
            }
        }
        i = i + 1;
    }
    assert(spec_ls.take(i as int) =~= spec_ls);
    ProcMemFacts {
        total_bytes: total,
        free_bytes: free,
        cached_bytes: cached,
        buffered_bytes: buffers,
        slab_bytes: slab,
        swap_used_bytes: swap_total.saturating_sub(swap_free),
        swap_free_bytes: swap_free,
        psi_some_pct_x100: 0,
        psi_full_pct_x100: 0,
    }
}

/// Bytes for `key` among the first `i` lines.
pub open spec fn meminfo_bytes_prefix(ls: Seq<Seq<char>>, i: int, key: Seq<char>) -> u64 {
    match meminfo_last(ls.take(i), key) {
        Some(v) => kib_to_bytes(v),
        None => 0,
    }
}


// ----- /proc/<pid>/status -----

/// A status line split at its first `:` into key and remainder.
pub open spec fn status_split(line: Seq<char>) -> Option<(Seq<char>, Seq<char>)> {
    let i = first_index_of(line, ':');
    if 0 <= i < line.len() {
        Some((line.take(i), line.skip(i + 1)))
    } else {
        None
    }
}

/// The first word after `key:` on `line`, when the line has that key.
pub open spec fn status_word(line: Seq<char>, key: Seq<char>) -> Option<Seq<char>> {
    match status_split(line) {
        Some((k, rest)) => if k == key && words(rest).len() > 0 {
            Some(words(rest)[0])
        } else {
            None
        },
        None => None,
    }
}

/// Value of the last status line with `key` whose first word parses as a
/// `u64`.
pub open spec fn status_last_u64(ls: Seq<Seq<char>>, key: Seq<char>) -> Option<u64>
    decreases ls.len(),
{
    if ls.len() == 0 {
        None
    } else {
        match status_word(ls.last(), key) {
            Some(w) => match parse_u64(w) {
                Some(v) => Some(v),
                None => status_last_u64(ls.drop_last(), key),
            },
            None => status_last_u64(ls.drop_last(), key),
        }
    }
}

/// Value of the last status line with `key` whose first word parses as a
/// `u32`.
pub open spec fn status_last_u32(ls: Seq<Seq<char>>, key: Seq<char>) -> Option<u32>
    decreases ls.len(),
{
    if ls.len() == 0 {
        None
    } else {
        match status_word(ls.last(), key) {
            Some(w) => match parse_u32(w) {
                Some(v) => Some(v),
                None => status_last_u32(ls.drop_last(), key),
            },
            None => status_last_u32(ls.drop_last(), key),
        }
    }
}

/// Bytes for a kB-valued status key among the first `i` lines, 0 if absent.
pub open spec fn status_kib_prefix(ls: Seq<Seq<char>>, i: int, key: Seq<char>) -> u64 {
    match status_last_u64(ls.take(i), key) {
        Some(v) => kib_to_bytes(v),
        None => 0,
    }
}

/// Count for a `u32`-valued status key among the first `i` lines, 0 if
/// absent.
pub open spec fn status_count_prefix(ls: Seq<Seq<char>>, i: int, key: Seq<char>) -> u32 {
    match status_last_u32(ls.take(i), key) {
        Some(v) => v,
        None => 0,
    }
}

/// Key and remainder of a status line split at its first `:`.
fn split_status_line(line: &Vec<char>) -> (r: Option<(Vec<char>, Vec<char>)>)
    ensures
        match status_split(line@) {
            Some((k, rest)) => match r {
                Some((rk, rr)) => rk@ == k && rr@ == rest,
                None => false,
            },
            None => r is None,
        },
{
    let mut i: usize = 0;
    while i < line.len() && line[i] != ':'
        invariant
            i <= line.len(),
            forall|k: int| 0 <= k < i ==> line@[k] != ':',
        decreases line.len() - i,
    {
        i = i + 1;
    }
    proof {
        crate::text::lemma_first_index_of(line@, ':');
        let f = first_index_of(line@, ':');
        if f < i {
            assert(line@[f] == ':');
        }
        if i < line.len() && i < f {
            assert(line@[i as int] != ':');
        }
    }
    if i == line.len() {
        return None;
    }
    Some((sub_chars(line, 0, i), sub_chars(line, i + 1, line.len())))
}

/// Parse the `VmRSS`, `VmSize` (kB, converted to bytes) and `Threads`
/// fields of `/proc/<pid>/status`. Line order does not matter; a missing
/// or malformed field stays zero.
pub fn parse_pid_status(input: &str) -> (f: PidStatusFacts)
    ensures
        f.mem_rss_bytes == status_kib_prefix(lines(input@), lines(input@).len() as int, "VmRSS"@),
        f.mem_vms_bytes == status_kib_prefix(lines(input@), lines(input@).len() as int, "VmSize"@),
        f.thread_count == status_count_prefix(lines(input@), lines(input@).len() as int, "Threads"@),
{
    let chars = str_chars(input);
    let ls = split_lines(&chars);
    let ghost spec_ls = lines(input@);
    let mut rss: u64 = 0;
    let mut vms: u64 = 0;
    let mut threads: u32 = 0;
    let mut i: usize = 0;
    while i < ls.len()
        invariant
            i <= ls.len(),
            ls.len() == spec_ls.len(),
            forall|k: int| 0 <= k < ls.len() ==> #[trigger] ls@[k]@ == spec_ls[k],
            rss == status_kib_prefix(spec_ls, i as int, "VmRSS"@),
            vms == status_kib_prefix(spec_ls, i as int, "VmSize"@),
            threads == status_count_prefix(spec_ls, i as int, "Threads"@),
        decreases ls.len() - i,
    {
        proof {
            assert(spec_ls.take(i + 1).drop_last() =~= spec_ls.take(i as int));
            assert(spec_ls.take(i + 1).last() == spec_ls[i as int]);
        }
        if let Some((key, rest)) = split_status_line(&ls[i]) {
            let values = split_words(&rest);
            if values.len() > 0 {
                if chars_match(&key, "VmRSS") {
                    if let Some(kb) = word_u64(&values[0]) {
                        rss = kib_bytes(kb);
                    }
                }
                if chars_match(&key, "VmSize") {
                    if let Some(kb) = word_u64(&values[0]) {
                        vms = kib_bytes(kb);
                    }
                }
                if chars_match(&key, "Threads") {
                    if let Some(n) = word_u32(&values[0]) {
                        threads = n;
                    }
                }
            }
        }
        i = i + 1;
    }
    assert(spec_ls.take(i as int) =~= spec_ls);
    PidStatusFacts { mem_rss_bytes: rss, mem_vms_bytes: vms, thread_count: threads }
}


// ----- /proc/pressure/memory -----

/// `c` with an ASCII upper-case letter turned to lower case.
pub open spec fn ascii_lower(c: char) -> char {
    if 65 <= (c as u32) <= 90 {
        ((c as u32) + 32) as char
    } else {
        c
    }
}

/// Whether `w` spells `lit` (given in lower case), ignoring ASCII case.
pub open spec fn eq_ignore_ascii_case(w: Seq<char>, lit: Seq<char>) -> bool {
    w.len() == lit.len() && forall|k: int| 0 <= k < w.len() ==> ascii_lower(w[k]) == lit[k]
}

/// Whether `c` marks an exponent.
pub open spec fn is_exp_mark(c: char) -> bool {
    c == 'e' || c == 'E'
}

/// Index of the first exponent mark of `u`, or `u.len()` if none.
pub open spec fn first_exp_mark(u: Seq<char>) -> int
    decreases u.len(),
{
    if u.len() == 0 {
        0
    } else if is_exp_mark(u[0]) {
        0
    } else {
        1 + first_exp_mark(u.drop_first())
    }
}

proof fn lemma_first_exp_mark(u: Seq<char>)
    ensures
        0 <= first_exp_mark(u) <= u.len(),
        forall|k: int| 0 <= k < first_exp_mark(u) ==> !is_exp_mark(u[k]),
        first_exp_mark(u) < u.len() ==> is_exp_mark(u[first_exp_mark(u)]),
    decreases u.len(),
{
    if u.len() > 0 && !is_exp_mark(u[0]) {
        lemma_first_exp_mark(u.drop_first());
        assert forall|k: int| 0 <= k < first_exp_mark(u) implies !is_exp_mark(u[k]) by {
            if k > 0 {
                assert(u[k] == u.drop_first()[k - 1]);
            }
        }
    }
}

/// The exponent text after the mark, split into "negative" and its digits.
pub open spec fn exp_parts(es: Seq<char>) -> (bool, Seq<char>) {
    if es.len() > 0 && (es[0] == '+' || es[0] == '-') {
        (es[0] == '-', es.drop_first())
    } else {
        (false, es)
    }
}

/// The digits `s` cut or padded with zeros to length `p`: the integer
/// part of the number whose digit string is `s` with the point after
/// position `p`.
pub open spec fn padded_digits(s: Seq<char>, p: int) -> Seq<char> {
    Seq::new(p as nat, |i: int| if i < s.len() { s[i] } else { '0' })
}

/// `v` saturated to the `u32` range.
pub open spec fn clamp_u32(v: nat) -> nat {
    if v > u32::MAX { u32::MAX as nat } else { v }
}

/// The integer part of the number with digit string `s` and the point
/// after position `p` (0 when `p <= 0`), saturated to `u32`.
pub open spec fn scaled_pct(s: Seq<char>, p: int) -> u32 {
    if p <= 0 {
        0
    } else {
        clamp_u32(digits_value(padded_digits(s, p))) as u32
    }
}

/// A pressure percentage scaled by 100, truncated toward zero and
/// saturated to `u32`, for every spelling that `f64::from_str` accepts:
/// an optional sign, then `inf`/`infinity`/`nan` in any case, or digits
/// with an optional point (at least one digit in all) and an optional
/// exponent `e`/`E`, optional sign, digits. Negative values, NaN and text
/// that is no such number give 0; infinity gives `u32::MAX`. The value is
/// scaled exactly in decimal, without binary rounding.
pub open spec fn pct_x100(num: Seq<char>) -> u32 {
    if num.len() > 0 && num[0] == '-' {
        0
    } else {
        let u = if num.len() > 0 && num[0] == '+' { num.drop_first() } else { num };
        if eq_ignore_ascii_case(u, seq!['i', 'n', 'f']) || eq_ignore_ascii_case(
            u,
            seq!['i', 'n', 'f', 'i', 'n', 'i', 't', 'y'],
        ) {
            u32::MAX
        } else {
            let ie = first_exp_mark(u);
            let m = u.take(ie);
            let has_exp = ie < u.len();
            let parts = exp_parts(if has_exp { u.skip(ie + 1) } else { Seq::<char>::empty() });
            let i = first_index_of(m, '.');
            let ip = m.take(i);
            let fp = if i < m.len() { m.skip(i + 1) } else { Seq::<char>::empty() };
            let mant_ok = ip.len() + fp.len() > 0 && all_digits(ip) && all_digits(fp);
            let exp_ok = !has_exp || (parts.1.len() > 0 && all_digits(parts.1));
            if mant_ok && exp_ok {
                let e: int = if !has_exp {
                    0
                } else if parts.0 {
                    -digits_value(parts.1)
                } else {
                    digits_value(parts.1) as int
                };
                scaled_pct(ip + fp, ip.len() + e + 2)
            } else {
                0
            }
        }
    }
}

/// Powers of ten.
pub open spec fn pow10(k: nat) -> nat
    decreases k,
{
    if k == 0 { 1 } else { 10 * pow10((k - 1) as nat) }
}

/// Padding past the digits multiplies by ten per position.
proof fn lemma_pad_step(s: Seq<char>, p: int)
    requires
        s.len() <= p,
    ensures
        digits_value(padded_digits(s, p + 1)) == digits_value(padded_digits(s, p)) * 10,
{
    let a = padded_digits(s, p + 1);
    assert(a.drop_last() =~= padded_digits(s, p));
    assert(a.last() == '0');
}

/// Cutting within the digits takes a prefix.
proof fn lemma_pad_prefix(s: Seq<char>, q: int)
    requires
        0 <= q <= s.len(),
    ensures
        padded_digits(s, q) == s.subrange(0, q),
{
    assert(padded_digits(s, q) =~= s.subrange(0, q));
}

/// Padding by `k` zeros scales by `10^k`.
proof fn lemma_pad_scale(s: Seq<char>, k: nat)
    ensures
        digits_value(padded_digits(s, s.len() + k as int)) == digits_value(s) * pow10(k),
    decreases k,
{
    if k == 0 {
        assert(padded_digits(s, s.len() as int) =~= s);
        assert(pow10(0) == 1);
        assert(digits_value(s) * 1 == digits_value(s));
    } else {
        let j = (k - 1) as nat;
        lemma_pad_scale(s, j);
        lemma_pad_step(s, s.len() + j as int);
        let d = digits_value(s);
        let q = pow10(j);
        assert(pow10(k) == 10 * q);
        assert(s.len() + j + 1 == s.len() + k);
        assert(d * q * 10 == d * (10 * q)) by (nonlinear_arith);
        assert(digits_value(padded_digits(s, s.len() + j as int)) == d * q);
        assert(digits_value(padded_digits(s, s.len() + k as int)) == d * q * 10);
    }
}

/// Ten or more padding zeros saturate any nonzero value: the result no
/// longer depends on how far the point lies past the digits.
proof fn lemma_pad_far(s: Seq<char>, p: int)
    requires
        p >= s.len() + 10,
    ensures
        clamp_u32(digits_value(padded_digits(s, p))) == clamp_u32(
            digits_value(padded_digits(s, s.len() + 10int)),
        ),
        digits_value(padded_digits(s, p)) == 0 || digits_value(padded_digits(s, p)) > u32::MAX,
    decreases p - s.len(),
{
    if p == s.len() + 10 {
        lemma_pad_scale(s, 10);
        assert(pow10(10) == 10000000000) by {
            reveal_with_fuel(pow10, 11);
        }
        let d = digits_value(s);
        assert(d == 0 || d * 10000000000 > u32::MAX) by (nonlinear_arith);
    } else {
        lemma_pad_far(s, p - 1);
        lemma_pad_step(s, p - 1);
    }
}

/// `scaled_pct` of a digit vector.
fn scaled_pct_digits(s: &Vec<char>, p: i128) -> (r: u32)
    requires
        all_digits(s@),
    ensures
        r == scaled_pct(s@, p as int),
{
    if p <= 0 {
        return 0;
    }
    let ns = s.len();
    assert(s@.subrange(0, ns as int) =~= s@);
    if p <= ns as i128 {
        let q = p as usize;
        proof {
            lemma_pad_prefix(s@, q as int);
            assert forall|k: int| 0 <= k < q implies crate::text::is_digit(
                #[trigger] s@.subrange(0, q as int)[k],
            ) by {
                assert(s@.subrange(0, q as int)[k] == s@[k]);
            }
        }
        let v = digits_value_capped(s, 0, q, 0xFFFF_FFFFu64);
        return v as u32;
    }
    let mut acc = digits_value_capped(s, 0, ns, 0xFFFF_FFFFu64);
    proof {
        lemma_pad_prefix(s@, ns as int);
    }
    let m: i128 = p - ns as i128;
    let mut k: i128 = 0;
    while k < m && k < 10
        invariant
            0 <= k <= 10,
            k <= m,
            m == p - ns,
            ns == s@.len(),
            acc == clamp_u32(digits_value(padded_digits(s@, ns + k))),
        decreases 10 - k,
    {
        proof {
            lemma_pad_step(s@, ns + k);
        }
        let ghost x = digits_value(padded_digits(s@, ns + k));
        if acc > 429496729 {
            proof {
                assert(clamp_u32(x * 10) == u32::MAX) by (nonlinear_arith)
                    requires
                        clamp_u32(x) > 429496729,
                        clamp_u32(x) == if x > u32::MAX { u32::MAX as nat } else { x },
                        clamp_u32(x * 10) == if x * 10 > u32::MAX { u32::MAX as nat } else { x * 10 },
                ;
            }
            acc = 0xFFFF_FFFFu64;
        } else {
            proof {
                assert(clamp_u32(x * 10) == clamp_u32(x) * 10) by (nonlinear_arith)
                    requires
                        clamp_u32(x) <= 429496729,
                        clamp_u32(x) == if x > u32::MAX { u32::MAX as nat } else { x },
                        clamp_u32(x * 10) == if x * 10 > u32::MAX { u32::MAX as nat } else { x * 10 },
                ;
            }
            acc = acc * 10;
        }
        k = k + 1;
    }
    proof {
        if k < m {
            lemma_pad_far(s@, p as int);
        }
    }
    acc as u32
}

/// Value of the ASCII digits `d[from..to]`, capped at `cap`.
fn digits_value_capped_wide(d: &Vec<char>, from: usize, to: usize, cap: u128) -> (r: u128)
    requires
        from <= to <= d.len(),
        9 <= cap <= u64::MAX as u128 * 2,
        all_digits(d@.subrange(from as int, to as int)),
    ensures
        r == if digits_value(d@.subrange(from as int, to as int)) > cap {
            cap as nat
        } else {
            digits_value(d@.subrange(from as int, to as int))
        },
{
    let ghost whole = d@.subrange(from as int, to as int);
    let mut v: u128 = 0;
    let mut i: usize = from;
    while i < to
        invariant
            from <= i <= to,
            to <= d.len(),
            9 <= cap <= u64::MAX as u128 * 2,
            whole == d@.subrange(from as int, to as int),
            all_digits(whole),
            v == digits_value(d@.subrange(from as int, i as int)),
            v <= cap,
        decreases to - i,
    {
        let ghost pre = d@.subrange(from as int, i as int);
        let ghost post = d@.subrange(from as int, i + 1);
        assert(post.drop_last() =~= pre);
        assert(whole[i - from] == d@[i as int]);
        let dig = (d[i] as u32 - 48) as u128;
        if v > (cap - dig) / 10 {
            proof {
                assert(v * 10 + dig > cap) by (nonlinear_arith)
                    requires
                        v > (cap - dig) / 10,
                        dig <= 9,
                        cap >= 9,
                ;
                assert(whole.take(i + 1 - from) =~= post);
                crate::text::lemma_digits_value_prefix(whole, i + 1 - from);
            }
            return cap;
        }
        proof {
            assert(v * 10 + dig <= cap) by (nonlinear_arith)
                requires
                    v <= (cap - dig) / 10,
                    dig <= 9,
                    cap >= 9,
            ;
        }
        v = v * 10 + dig;
        i = i + 1;
    }
    v
}

/// Whether `num[from..]` spells `lit` (given in lower case), ignoring
/// ASCII case.
fn rest_eq_ignore_case(num: &Vec<char>, from: usize, lit: &Vec<char>) -> (r: bool)
    requires
        from <= num.len(),
    ensures
        r == eq_ignore_ascii_case(num@.skip(from as int), lit@),
{
    if num.len() - from != lit.len() {
        return false;
    }
    let mut i: usize = 0;
    while i < lit.len()
        invariant
            from <= num.len(),
            num.len() - from == lit.len(),
            i <= lit.len(),
            forall|k: int| 0 <= k < i ==> ascii_lower(num@.skip(from as int)[k]) == lit@[k],
        decreases lit.len() - i,
    {
        let c = num[from + i];
        let cu = c as u32;
        let lc = if 65 <= cu && cu <= 90 { ((cu + 32) as u8) as char } else { c };
        assert(num@.skip(from as int)[i as int] == c);
        assert(lc == ascii_lower(c));
        if lc != lit[i] {
            return false;
        }
        i = i + 1;
    }
    true
}

/// Index of the first `.` in `num[from..to]`, or `to`.
fn find_point(num: &Vec<char>, from: usize, to: usize) -> (r: usize)
    requires
        from <= to <= num.len(),
    ensures
        from <= r <= to,
        r == from + first_index_of(num@.subrange(from as int, to as int), '.'),
{
    let ghost w = num@.subrange(from as int, to as int);
    let mut i = from;
    while i < to && num[i] != '.'
        invariant
            from <= i <= to,
            to <= num.len(),
            forall|k: int| from <= k < i ==> num@[k] != '.',
        decreases to - i,
    {
        i = i + 1;
    }
    proof {
        crate::text::lemma_first_index_of(w, '.');
        let f = first_index_of(w, '.');
        if f < i - from {
            assert(w[f] == num@[from + f]);
        }
        if i < to && i - from < f {
            assert(w[i - from] == num@[i as int]);
        }
    }
    i
}

/// Index of the first exponent mark of `num[from..]`, or `num.len()`.
fn find_exp_mark(num: &Vec<char>, from: usize) -> (r: usize)
    requires
        from <= num.len(),
    ensures
        from <= r <= num.len(),
        r == from + first_exp_mark(num@.skip(from as int)),
{
    let ghost u = num@.skip(from as int);
    let mut i = from;
    while i < num.len() && num[i] != 'e' && num[i] != 'E'
        invariant
            from <= i <= num.len(),
            forall|k: int| from <= k < i ==> !is_exp_mark(num@[k]),
        decreases num.len() - i,
    {
        i = i + 1;
    }
    proof {
        lemma_first_exp_mark(u);
        let f = first_exp_mark(u);
        if f < i - from {
            assert(u[f] == num@[from + f]);
        }
        if i < num.len() && i - from < f {
            assert(u[i - from] == num@[i as int]);
        }
    }
    i
}

/// The signed value of exponent text `es` (see `exp_parts`).
pub open spec fn exp_value(es: Seq<char>) -> int {
    if exp_parts(es).0 {
        -digits_value(exp_parts(es).1)
    } else {
        digits_value(exp_parts(es).1) as int
    }
}

/// The exponent written in `num[from..]`: `None` unless it is an optional
/// sign followed by at least one digit; otherwise its value, with the
/// magnitude capped at `bound`.
fn parse_exponent(num: &Vec<char>, from: usize, bound: u128) -> (r: Option<i128>)
    requires
        from <= num.len(),
        9 <= bound <= u64::MAX as u128 * 2,
    ensures
        ({
            let es = num@.skip(from as int);
            let ok = exp_parts(es).1.len() > 0 && all_digits(exp_parts(es).1);
            match r {
                None => !ok,
                Some(e) => ok && (if exp_value(es) > bound {
                    e == bound
                } else if exp_value(es) < -bound {
                    e == -bound
                } else {
                    e == exp_value(es)
                }),
            }
        }),
{
    let ghost es = num@.skip(from as int);
    let mut at = from;
    let mut neg = false;
    if at < num.len() && (num[at] == '+' || num[at] == '-') {
        neg = num[at] == '-';
        at = at + 1;
    }
    proof {
        assert(exp_parts(es).1 =~= num@.subrange(at as int, num.len() as int));
        assert(exp_parts(es).0 == neg);
    }
    if at == num.len() || !range_all_digits(num, at, num.len()) {
        return None;
    }
    let mag = digits_value_capped_wide(num, at, num.len(), bound);
    if neg {
        Some(-(mag as i128))
    } else {
        Some(mag as i128)
    }
}

/// `num[a..b]` followed by `num[c..d]`.
fn join_ranges(num: &Vec<char>, a: usize, b: usize, c: usize, d: usize) -> (s: Vec<char>)
    requires
        a <= b <= num.len(),
        c <= d <= num.len(),
    ensures
        s@ == num@.subrange(a as int, b as int) + num@.subrange(c as int, d as int),
{
    let mut s: Vec<char> = Vec::new();
    let mut j = a;
    while j < b
        invariant
            a <= j <= b,
            b <= num.len(),
            s@ == num@.subrange(a as int, j as int),
        decreases b - j,
    {
        s.push(num[j]);
        assert(s@ =~= num@.subrange(a as int, j + 1));
        j = j + 1;
    }
    let ghost first = s@;
    let mut j = c;
    while j < d
        invariant
            c <= j <= d,
            d <= num.len(),
            first == num@.subrange(a as int, b as int),
            s@ == first + num@.subrange(c as int, j as int),
        decreases d - j,
    {
        s.push(num[j]);
        assert(s@ =~= first + num@.subrange(c as int, j + 1));
        j = j + 1;
    }
    s
}

/// Capping the exponent's magnitude at a bound at least ten past the
/// digit count does not change the scaled value.
proof fn lemma_exponent_cap(s: Seq<char>, n_int: int, e: int, ec: int, bound: int)
    requires
        0 <= n_int <= s.len(),
        bound >= s.len() + 16,
        if e > bound { ec == bound } else if e < -bound { ec == -bound } else { ec == e },
    ensures
        scaled_pct(s, n_int + ec + 2) == scaled_pct(s, n_int + e + 2),
{
    if e > bound {
        lemma_pad_far(s, n_int + e + 2);
        lemma_pad_far(s, n_int + ec + 2);
    }
}

/// The percentage×100 of a pressure value (see `pct_x100`).
#[verifier::rlimit(30)]
fn pct_x100_chars(num: &Vec<char>) -> (r: u32)
    ensures
        r == pct_x100(num@),
{
    if num.len() > 0 && num[0] == '-' {
        return 0;
    }
    let start: usize = if num.len() > 0 && num[0] == '+' { 1 } else { 0 };
    let ghost u = if num@.len() > 0 && num@[0] == '+' { num@.drop_first() } else { num@ };
    assert(u =~= num@.skip(start as int));
    let inf = vec!['i', 'n', 'f'];
    let infinity = vec!['i', 'n', 'f', 'i', 'n', 'i', 't', 'y'];
    assert(inf@ =~= seq!['i', 'n', 'f']);
    assert(infinity@ =~= seq!['i', 'n', 'f', 'i', 'n', 'i', 't', 'y']);
    if rest_eq_ignore_case(num, start, &inf) || rest_eq_ignore_case(num, start, &infinity) {
        return 0xFFFF_FFFFu32;
    }
    let ie = find_exp_mark(num, start);
    let ghost m = u.take(ie - start);
    assert(m =~= num@.subrange(start as int, ie as int));
    let dot = find_point(num, start, ie);
    let frac_start = if dot < ie { dot + 1 } else { ie };
    let ghost ip = num@.subrange(start as int, dot as int);
    let ghost fp = num@.subrange(frac_start as int, ie as int);
    proof {
        let f = dot - start;
        assert(m.take(f) =~= ip);
        let mfp = if f < m.len() { m.skip(f + 1) } else { Seq::<char>::empty() };
        assert(mfp =~= fp);
    }
    let n_int = dot - start;
    let n_frac = ie - frac_start;
    if n_int + n_frac == 0 || !range_all_digits(num, start, dot) || !range_all_digits(
        num,
        frac_start,
        ie,
    ) {
        return 0;
    }
    let bound: u128 = num.len() as u128 + 16;
    let mut e: i128 = 0;
    let ghost mut e_exact: int = 0;
    if ie < num.len() {
        proof {
            assert(u.skip(ie - start + 1) =~= num@.skip(ie + 1));
        }
        match parse_exponent(num, ie + 1, bound) {
            None => {
                return 0;
            },
            Some(v) => {
                e = v;
                proof {
                    e_exact = exp_value(num@.skip(ie + 1));
                }
            },
        }
    }
    let s = join_ranges(num, start, dot, frac_start, ie);
    proof {
        assert forall|k: int| 0 <= k < s@.len() implies crate::text::is_digit(#[trigger] s@[k]) by {
            if k < ip.len() {
                assert(s@[k] == ip[k]);
            } else {
                assert(s@[k] == fp[k - ip.len()]);
            }
        }
        lemma_exponent_cap(s@, n_int as int, e_exact, e as int, bound as int);
    }
    scaled_pct_digits(&s, n_int as i128 + e + 2)
}

/// A pressure line's tag (first word) and its `avg10=` value, when the
/// second word starts with `avg10=`.
pub open spec fn psi_entry(line: Seq<char>) -> Option<(Seq<char>, u32)> {
    let ws = words(line);
    let tag = if ws.len() > 0 { ws[0] } else { Seq::<char>::empty() };
    let field = if ws.len() > 1 { ws[1] } else { Seq::<char>::empty() };
    if field.len() >= 6 && field.take(6) == "avg10="@ {
        Some((tag, pct_x100(field.skip(6))))
    } else {
        None
    }
}

/// The `avg10` value of the last line tagged `tag` among `ls`, 0 if none.
pub open spec fn psi_last(ls: Seq<Seq<char>>, tag: Seq<char>) -> u32
    decreases ls.len(),
{
    if ls.len() == 0 {
        0
    } else {
        match psi_entry(ls.last()) {
            Some((t, v)) => if t == tag { v } else { psi_last(ls.drop_last(), tag) },
            None => psi_last(ls.drop_last(), tag),
        }
    }
}

/// The tag and `avg10` value of one pressure line.
fn psi_line(line: &Vec<char>) -> (r: Option<(Vec<char>, u32)>)
    ensures
        match psi_entry(line@) {
            Some((t, v)) => match r {
                Some((rt, rv)) => rt@ == t && rv == v,
                None => false,
            },
            None => r is None,
        },
{
    let ws = split_words(line);
    let tag: Vec<char> = if ws.len() > 0 { sub_chars(&ws[0], 0, ws[0].len()) } else { Vec::new() };
    if ws.len() < 2 || ws[1].len() < 6 {
        proof {
            if ws.len() > 0 {
                assert(tag@ =~= words(line@)[0]);
            }
        }
        return None;
    }
    let field = &ws[1];
    let prefix = sub_chars(field, 0, 6);
    assert(prefix@ =~= field@.take(6));
    if !chars_match(&prefix, "avg10=") {
        return None;
    }
    let num = sub_chars(field, 6, field.len());
    assert(num@ =~= field@.skip(6));
    assert(tag@ =~= words(line@)[0]);
    Some((tag, pct_x100_chars(&num)))
}

/// Parse `/proc/pressure/memory` into `(some, full)` avg10 percentages
/// scaled by 100. A missing or malformed row yields 0 for that row; when
/// a tag repeats, the last row wins.
pub fn parse_psi(input: &str) -> (r: (u32, u32))
    ensures
        r.0 == psi_last(lines(input@), "some"@),
        r.1 == psi_last(lines(input@), "full"@),
{
    let chars = str_chars(input);
    let ls = split_lines(&chars);
    let ghost spec_ls = lines(input@);
    let mut some_pct: u32 = 0;
    let mut full_pct: u32 = 0;
    let mut i: usize = 0;
    while i < ls.len()
        invariant
            i <= ls.len(),
            ls.len() == spec_ls.len(),
            forall|k: int| 0 <= k < ls.len() ==> #[trigger] ls@[k]@ == spec_ls[k],
            some_pct == psi_last(spec_ls.take(i as int), "some"@),
            full_pct == psi_last(spec_ls.take(i as int), "full"@),
        decreases ls.len() - i,
    {
        proof {
            assert(spec_ls.take(i + 1).drop_last() =~= spec_ls.take(i as int));
            assert(spec_ls.take(i + 1).last() == spec_ls[i as int]);
        }
        if let Some((tag, pct)) = psi_line(&ls[i]) {
            if chars_match(&tag, "some") {
                some_pct = pct;
            }
            if chars_match(&tag, "full") {
                full_pct = pct;
            }
        }
        i = i + 1;
    }
    assert(spec_ls.take(i as int) =~= spec_ls);
    (some_pct, full_pct)
}

} // verus!

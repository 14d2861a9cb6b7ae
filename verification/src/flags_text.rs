//! The text form of processing flags: flag names separated by bars, with any
//! bits that no name covers written as a hexadecimal number.
//!
//! Grammar, as read by [`parse_flags`]: the input is split at every `|`; each
//! piece, trimmed of white space, is either the name of a flag or `0x`
//! followed by a hexadecimal number; an input that is blank holds no flags.
use vstd::prelude::*;
use crate::proc_flags::ProcFlags;
use crate::text::{split_on, has_no, lemma_split_single, lemma_split_first_sep, lemma_split_last_sep};

verus! {

// ---------------------------------------------------------------------------
// Characters, trimming, splitting and joining
// ---------------------------------------------------------------------------

/// White space as the Unicode `White_Space` property lists it (the set that
/// `char::is_whitespace` tests).
pub open spec fn is_white(c: char) -> bool {
    ||| ('\u{9}' <= c && c <= '\u{d}')
    ||| c == ' '
    ||| c == '\u{85}'
    ||| c == '\u{a0}'
    ||| c == '\u{1680}'
    ||| ('\u{2000}' <= c && c <= '\u{200a}')
    ||| c == '\u{2028}'
    ||| c == '\u{2029}'
    ||| c == '\u{202f}'
    ||| c == '\u{205f}'
    ||| c == '\u{3000}'
}

/// `s` without its leading white space.
pub open spec fn trim_start(s: Seq<char>) -> Seq<char>
    decreases s.len(),
{
    if s.len() > 0 && is_white(s[0]) {
        trim_start(s.drop_first())
    } else {
        s
    }
}

/// `s` without its trailing white space.
pub open spec fn trim_end(s: Seq<char>) -> Seq<char>
    decreases s.len(),
{
    if s.len() > 0 && is_white(s.last()) {
        trim_end(s.drop_last())
    } else {
        s
    }
}

/// `s` without its leading and trailing white space.
pub open spec fn trim(s: Seq<char>) -> Seq<char> {
    trim_end(trim_start(s))
}

/// The pieces of `s` between bars: one more piece than `s` has bars.
pub open spec fn split_bars(s: Seq<char>) -> Seq<Seq<char>> {
    split_on(s, '|')
}

/// The separator written between two parts of the text form.
pub open spec fn separator() -> Seq<char> {
    seq![' ', '|', ' ']
}

/// The parts, in order, with the separator between each two of them.
pub open spec fn join_parts(parts: Seq<Seq<char>>) -> Seq<char>
    decreases parts.len(),
{
    if parts.len() == 0 {
        Seq::<char>::empty()
    } else if parts.len() == 1 {
        parts[0]
    } else {
        join_parts(parts.drop_last()) + separator() + parts.last()
    }
}

pub open spec fn has_no_bar(s: Seq<char>) -> bool {
    has_no(s, '|')
}

pub open spec fn is_all_white(s: Seq<char>) -> bool {
    forall|j: int| 0 <= j < s.len() ==> is_white(s[j])
}

/// A part that survives splitting and trimming unchanged.
pub open spec fn is_clean(p: Seq<char>) -> bool {
    &&& p.len() > 0
    &&& has_no_bar(p)
    &&& !is_white(p[0])
    &&& !is_white(p.last())
}

// ---------------------------------------------------------------------------
// Hexadecimal numbers
// ---------------------------------------------------------------------------

/// The lower-case hexadecimal digit of `d`.
pub open spec fn hex_char(d: int) -> char {
    if d == 0 { '0' } else if d == 1 { '1' } else if d == 2 { '2' } else if d == 3 { '3' }
    else if d == 4 { '4' } else if d == 5 { '5' } else if d == 6 { '6' } else if d == 7 { '7' }
    else if d == 8 { '8' } else if d == 9 { '9' } else if d == 10 { 'a' } else if d == 11 { 'b' }
    else if d == 12 { 'c' } else if d == 13 { 'd' } else if d == 14 { 'e' } else { 'f' }
}

/// The value of a hexadecimal digit, of either case.
pub open spec fn hex_digit_value(c: char) -> Option<int> {
    if '0' <= c && c <= '9' {
        Some(c as int - '0' as int)
    } else if 'a' <= c && c <= 'f' {
        Some(c as int - 'a' as int + 10)
    } else if 'A' <= c && c <= 'F' {
        Some(c as int - 'A' as int + 10)
    } else {
        None
    }
}

/// `n` in lower-case hexadecimal, without leading zeros.
pub open spec fn hex_digits(n: nat) -> Seq<char>
    decreases n,
{
    if n < 16 {
        seq![hex_char(n as int)]
    } else {
        hex_digits(n / 16) + seq![hex_char((n % 16) as int)]
    }
}

/// The value of a sequence of hexadecimal digits; `None` when one is not a digit.
pub open spec fn hex_value(s: Seq<char>) -> Option<int>
    decreases s.len(),
{
    if s.len() == 0 {
        Some(0)
    } else {
        match (hex_value(s.drop_last()), hex_digit_value(s.last())) {
            (Some(v), Some(d)) => Some(v * 16 + d),
            _ => None,
        }
    }
}

/// A `u32` read from hexadecimal text as `u32::from_str_radix(s, 16)` reads
/// it: an optional `+`, then at least one digit, and a value that fits.
pub open spec fn parse_hex_u32(s: Seq<char>) -> Option<u32> {
    let digits = if s.len() > 0 && s[0] == '+' { s.drop_first() } else { s };
    if digits.len() == 0 {
        None
    } else {
        match hex_value(digits) {
            Some(v) => if v <= u32::MAX { Some(v as u32) } else { None },
            None => None,
        }
    }
}

// ---------------------------------------------------------------------------
// Flag names and the text form
// ---------------------------------------------------------------------------

/// The name of the `i`-th flag, in the order the flags are declared.
pub open spec fn flag_name(i: int) -> Seq<char> {
    if i == 0 { "GENERATE"@ }
    else if i == 1 { "BUILD"@ }
    else if i == 2 { "FORCE"@ }
    else if i == 3 { "RUN"@ }
    else if i == 4 { "ALL"@ }
    else if i == 5 { "VERBOSE"@ }
    else if i == 6 { "TIMINGS"@ }
    else if i == 7 { "REPL"@ }
    else if i == 8 { "EXPR"@ }
    else if i == 9 { "STDIN"@ }
    else { "QUIET"@ }
}

/// The bit of the `i`-th flag.
pub open spec fn flag_bit(i: int) -> u32 {
    1u32 << (i as u32)
}

/// Whether the `i`-th flag is set in `bits`.
pub open spec fn has_bit(bits: u32, i: int) -> bool {
    bits & flag_bit(i) == flag_bit(i)
}

/// The names of the flags among the first `n` that are set in `bits`, in order.
pub open spec fn set_names(bits: u32, n: int) -> Seq<Seq<char>>
    decreases n,
{
    if n <= 0 {
        Seq::<Seq<char>>::empty()
    } else if has_bit(bits, n - 1) {
        set_names(bits, n - 1).push(flag_name(n - 1))
    } else {
        set_names(bits, n - 1)
    }
}

/// The bits that no named flag covers.
pub open spec fn unnamed_bits(bits: u32) -> u32 {
    bits & !0x7ffu32
}

/// The parts of the text form: the names of the set flags, then the
/// hexadecimal number of the unnamed bits if there are any.
pub open spec fn flag_parts(bits: u32) -> Seq<Seq<char>> {
    let rest = unnamed_bits(bits);
    if rest == 0 {
        set_names(bits, 11)
    } else {
        set_names(bits, 11).push(seq!['0', 'x'] + hex_digits(rest as nat))
    }
}

/// The text form of `bits`.
pub open spec fn flags_text(bits: u32) -> Seq<char> {
    join_parts(flag_parts(bits))
}

/// A failure to read the text form.
pub ghost enum FlagsParseFailure {
    EmptyFlag,
    InvalidNamedFlag(Seq<char>),
    InvalidHexFlag(Seq<char>),
}

/// The index of the first flag named `t`.
pub open spec fn name_index_from(t: Seq<char>, i: int) -> Option<int>
    decreases 11 - i,
{
    if i >= 11 || i < 0 {
        None
    } else if flag_name(i) == t {
        Some(i)
    } else {
        name_index_from(t, i + 1)
    }
}

/// The bits that one trimmed piece of text stands for.
pub open spec fn parse_token(t: Seq<char>) -> Result<u32, FlagsParseFailure> {
    if t.len() == 0 {
        Err(FlagsParseFailure::EmptyFlag)
    } else if t.len() >= 2 && t[0] == '0' && t[1] == 'x' {
        match parse_hex_u32(t.skip(2)) {
            Some(v) => Ok(v),
            None => Err(FlagsParseFailure::InvalidHexFlag(t.skip(2))),
        }
    } else {
        match name_index_from(t, 0) {
            Some(i) => Ok(flag_bit(i)),
            None => Err(FlagsParseFailure::InvalidNamedFlag(t)),
        }
    }
}

/// Reads the pieces in order, adding the bits of each to `acc`; the first
/// piece that cannot be read gives the failure.
pub open spec fn parse_tokens(tokens: Seq<Seq<char>>, acc: u32) -> Result<u32, FlagsParseFailure>
    decreases tokens.len(),
{
    if tokens.len() == 0 {
        Ok(acc)
    } else {
        match parse_token(tokens[0]) {
            Ok(v) => parse_tokens(tokens.drop_first(), acc | v),
            Err(e) => Err(e),
        }
    }
}

/// What reading `s` gives.
pub open spec fn parse_flags_text(s: Seq<char>) -> Result<u32, FlagsParseFailure> {
    if trim(s).len() == 0 {
        Ok(0)
    } else {
        parse_tokens(split_bars(s).map_values(|p: Seq<char>| trim(p)), 0)
    }
}


// ---------------------------------------------------------------------------
// Lemmas on splitting, trimming and joining
// ---------------------------------------------------------------------------

proof fn lemma_trim_start_white(w: Seq<char>, q: Seq<char>)
    requires
        is_all_white(w),
        q.len() == 0 || !is_white(q[0]),
    ensures
        trim_start(w + q) == q,
    decreases w.len(),
{
    if w.len() == 0 {
        assert(w + q =~= q);
        if q.len() > 0 {
            assert(trim_start(q) == q);
        }
    } else {
        let w2 = w.drop_first();
        assert((w + q).drop_first() =~= w2 + q);
        assert((w + q)[0] == w[0]);
        assert(is_all_white(w2)) by {
            assert forall|j: int| 0 <= j < w2.len() implies is_white(w2[j]) by {
                assert(w2[j] == w[j + 1]);
            }
        }
        lemma_trim_start_white(w2, q);
    }
}

proof fn lemma_trim_end_white(q: Seq<char>, w: Seq<char>)
    requires
        is_all_white(w),
        q.len() == 0 || !is_white(q.last()),
    ensures
        trim_end(q + w) == q,
    decreases w.len(),
{
    if w.len() == 0 {
        assert(q + w =~= q);
    } else {
        let w2 = w.drop_last();
        assert((q + w).drop_last() =~= q + w2);
        assert((q + w).last() == w.last());
        assert(is_all_white(w2)) by {
            assert forall|j: int| 0 <= j < w2.len() implies is_white(w2[j]) by {
                assert(w2[j] == w[j]);
            }
        }
        lemma_trim_end_white(q, w2);
    }
}

/// Trimming removes exactly the white space around a clean part.
proof fn lemma_trim_around(w1: Seq<char>, p: Seq<char>, w2: Seq<char>)
    requires
        is_all_white(w1),
        is_all_white(w2),
        p.len() > 0,
        !is_white(p[0]),
        !is_white(p.last()),
    ensures
        trim(w1 + p + w2) == p,
{
    assert(w1 + p + w2 =~= w1 + (p + w2));
    assert((p + w2)[0] == p[0]);
    lemma_trim_start_white(w1, p + w2);
    lemma_trim_end_white(p, w2);
}

proof fn lemma_map_push(a: Seq<Seq<char>>, y: Seq<char>)
    ensures
        a.push(y).map_values(|p: Seq<char>| trim(p)) == a.map_values(|p: Seq<char>| trim(p)).push(trim(y)),
{
    assert(a.push(y).map_values(|p: Seq<char>| trim(p)) =~= a.map_values(|p: Seq<char>| trim(p)).push(trim(y)));
}

/// Splitting the joined text of clean parts at its bars and trimming each
/// piece gives the parts back, whatever white space follows the text.
proof fn lemma_split_join(ps: Seq<Seq<char>>, w: Seq<char>)
    requires
        ps.len() >= 1,
        forall|i: int| 0 <= i < ps.len() ==> is_clean(#[trigger] ps[i]),
        is_all_white(w),
    ensures
        split_bars(join_parts(ps) + w).map_values(|p: Seq<char>| trim(p)) == ps,
    decreases ps.len(),
{
    let last = ps.last();
    assert(is_clean(last));
    assert(has_no_bar(w)) by {
        assert forall|j: int| 0 <= j < w.len() implies w[j] != '|' by {
            assert(is_white(w[j]));
        }
    }
    if ps.len() == 1 {
        assert(join_parts(ps) == ps[0]);
        assert(has_no_bar(ps[0] + w)) by {
            assert forall|j: int| 0 <= j < (ps[0] + w).len() implies (ps[0] + w)[j] != '|' by {
                if j < ps[0].len() {
                    assert((ps[0] + w)[j] == ps[0][j]);
                } else {
                    assert((ps[0] + w)[j] == w[j - ps[0].len()]);
                }
            }
        }
        lemma_split_single(ps[0] + w, '|');
        lemma_trim_around(Seq::<char>::empty(), ps[0], w);
        assert(Seq::<char>::empty() + ps[0] + w =~= ps[0] + w);
        assert(seq![ps[0] + w].map_values(|p: Seq<char>| trim(p)) =~= ps);
    } else {
        let dl = ps.drop_last();
        let sp = seq![' '];
        let y = sp + last + w;
        assert(join_parts(ps) == join_parts(dl) + separator() + last);
        assert(join_parts(ps) + w =~= (join_parts(dl) + sp) + seq!['|'] + y);
        assert(has_no_bar(y)) by {
            assert forall|j: int| 0 <= j < y.len() implies y[j] != '|' by {
                if j == 0 {
                } else if j < 1 + last.len() {
                    assert(y[j] == last[j - 1]);
                } else {
                    assert(y[j] == w[j - 1 - last.len()]);
                }
            }
        }
        lemma_split_last_sep(join_parts(dl) + sp, y, '|');
        assert(is_all_white(sp));
        assert forall|i: int| 0 <= i < dl.len() implies is_clean(#[trigger] dl[i]) by {
            assert(dl[i] == ps[i]);
        }
        lemma_split_join(dl, sp);
        lemma_map_push(split_bars(join_parts(dl) + sp), y);
        lemma_trim_around(sp, last, w);
        assert(dl.push(last) =~= ps);
    }
}

/// The joined text of clean parts starts and ends with a character of a part.
proof fn lemma_join_ends(ps: Seq<Seq<char>>)
    requires
        ps.len() >= 1,
        forall|i: int| 0 <= i < ps.len() ==> is_clean(#[trigger] ps[i]),
    ensures
        join_parts(ps).len() > 0,
        join_parts(ps)[0] == ps[0][0],
        join_parts(ps).last() == ps.last().last(),
    decreases ps.len(),
{
    assert(is_clean(ps[0]));
    assert(is_clean(ps.last()));
    if ps.len() > 1 {
        let dl = ps.drop_last();
        assert forall|i: int| 0 <= i < dl.len() implies is_clean(#[trigger] dl[i]) by {
            assert(dl[i] == ps[i]);
        }
        lemma_join_ends(dl);
        let j = join_parts(dl) + separator() + ps.last();
        assert(j[0] == join_parts(dl)[0]);
        assert(j.last() == ps.last().last());
    }
}


// ---------------------------------------------------------------------------
// Lemmas on hexadecimal numbers
// ---------------------------------------------------------------------------

pub open spec fn is_lower_hex(c: char) -> bool {
    ('0' <= c && c <= '9') || ('a' <= c && c <= 'f')
}

proof fn lemma_hex_char(d: int)
    requires
        0 <= d < 16,
    ensures
        is_lower_hex(hex_char(d)),
        hex_digit_value(hex_char(d)) == Some(d),
{
}

/// Reading the digits of `n` gives `n` back, and they are lower-case digits.
proof fn lemma_hex_digits(n: nat)
    ensures
        hex_digits(n).len() >= 1,
        forall|j: int| 0 <= j < hex_digits(n).len() ==> is_lower_hex(#[trigger] hex_digits(n)[j]),
        hex_value(hex_digits(n)) == Some(n as int),
    decreases n,
{
    if n < 16 {
        lemma_hex_char(n as int);
        let h = hex_digits(n);
        assert(h.drop_last() =~= Seq::<char>::empty());
        assert(hex_value(Seq::<char>::empty()) == Some(0int));
        assert(h.last() == hex_char(n as int));
    } else {
        lemma_hex_digits(n / 16);
        lemma_hex_char((n % 16) as int);
        let h = hex_digits(n);
        let hi = hex_digits(n / 16);
        assert(h.drop_last() =~= hi);
        assert forall|j: int| 0 <= j < h.len() implies is_lower_hex(#[trigger] h[j]) by {
            if j < hi.len() {
                assert(h[j] == hi[j]);
            }
        }
        assert(h.last() == hex_char((n % 16) as int));
        assert(hex_value(hi) == Some((n / 16) as int));
        assert(hex_digit_value(h.last()) == Some((n % 16) as int));
        assert(hex_value(h) == Some((n / 16) as int * 16 + (n % 16) as int));
        assert((n / 16) as int * 16 + (n % 16) as int == n as int) by (nonlinear_arith);
    }
}

proof fn lemma_parse_hex_digits(r: u32)
    ensures
        parse_hex_u32(hex_digits(r as nat)) == Some(r),
{
    lemma_hex_digits(r as nat);
    let h = hex_digits(r as nat);
    assert(is_lower_hex(h[0]));
}

// ---------------------------------------------------------------------------
// Lemmas on names and bits
// ---------------------------------------------------------------------------

/// Whether the first `k` characters of `s` are upper-case letters.
pub open spec fn upper_prefix(s: Seq<char>, k: int) -> bool
    decreases k,
{
    if k <= 0 {
        true
    } else {
        'A' <= s[k - 1] && s[k - 1] <= 'Z' && upper_prefix(s, k - 1)
    }
}

proof fn lemma_upper_prefix(s: Seq<char>, k: int)
    requires
        upper_prefix(s, k),
        k <= s.len(),
    ensures
        forall|j: int| 0 <= j < k ==> 'A' <= #[trigger] s[j] && s[j] <= 'Z',
    decreases k,
{
    if k > 0 {
        lemma_upper_prefix(s, k - 1);
    }
}

/// Every flag name is a non-empty word of upper-case letters, and no two
/// flags share a name.
proof fn lemma_flag_names()
    ensures
        forall|i: int| 0 <= i < 11 ==> (#[trigger] flag_name(i)).len() > 0,
        forall|i: int, j: int| 0 <= i < 11 && 0 <= j < flag_name(i).len()
            ==> 'A' <= #[trigger] flag_name(i)[j] && flag_name(i)[j] <= 'Z',
        forall|i: int, k: int| 0 <= i < 11 && 0 <= k < 11 && i != k ==> #[trigger] flag_name(i) != #[trigger] flag_name(k),
{
    reveal_strlit("GENERATE");
    reveal_strlit("BUILD");
    reveal_strlit("FORCE");
    reveal_strlit("RUN");
    reveal_strlit("ALL");
    reveal_strlit("VERBOSE");
    reveal_strlit("TIMINGS");
    reveal_strlit("REPL");
    reveal_strlit("EXPR");
    reveal_strlit("STDIN");
    reveal_strlit("QUIET");
    reveal_with_fuel(upper_prefix, 9);
    assert forall|i: int| 0 <= i < 11 implies upper_prefix(flag_name(i), flag_name(i).len() as int) by {
        if i == 0 { assert(upper_prefix("GENERATE"@, 8)); }
        else if i == 1 { assert(upper_prefix("BUILD"@, 5)); }
        else if i == 2 { assert(upper_prefix("FORCE"@, 5)); }
        else if i == 3 { assert(upper_prefix("RUN"@, 3)); }
        else if i == 4 { assert(upper_prefix("ALL"@, 3)); }
        else if i == 5 { assert(upper_prefix("VERBOSE"@, 7)); }
        else if i == 6 { assert(upper_prefix("TIMINGS"@, 7)); }
        else if i == 7 { assert(upper_prefix("REPL"@, 4)); }
        else if i == 8 { assert(upper_prefix("EXPR"@, 4)); }
        else if i == 9 { assert(upper_prefix("STDIN"@, 5)); }
        else { assert(upper_prefix("QUIET"@, 5)); }
    }
    assert forall|i: int, j: int| 0 <= i < 11 && 0 <= j < flag_name(i).len()
        implies 'A' <= #[trigger] flag_name(i)[j] && flag_name(i)[j] <= 'Z' by {
        lemma_upper_prefix(flag_name(i), flag_name(i).len() as int);
    }
    assert forall|i: int, k: int| 0 <= i < 11 && 0 <= k < 11 && i != k
        implies #[trigger] flag_name(i) != #[trigger] flag_name(k) by {
        if flag_name(i) == flag_name(k) {
            assert(flag_name(i).len() == flag_name(k).len());
            assert(flag_name(i)[0] == flag_name(k)[0]);
        }
    }
}

/// A flag name is clean.
proof fn lemma_name_clean(i: int)
    requires
        0 <= i < 11,
    ensures
        is_clean(flag_name(i)),
{
    lemma_flag_names();
    let n = flag_name(i);
    assert('A' <= n[0] && n[0] <= 'Z');
    assert('A' <= n[n.len() - 1] && n[n.len() - 1] <= 'Z');
    assert forall|j: int| 0 <= j < n.len() implies n[j] != '|' by {
        assert('A' <= n[j] && n[j] <= 'Z');
    }
}

proof fn lemma_name_index(i: int, k: int)
    requires
        0 <= k <= i < 11,
    ensures
        name_index_from(flag_name(i), k) == Some(i),
    decreases i - k,
{
    lemma_flag_names();
    if k < i {
        assert(flag_name(k) != flag_name(i));
        lemma_name_index(i, k + 1);
    }
}

/// A flag name reads as the bit of its flag.
proof fn lemma_parse_name(i: int)
    requires
        0 <= i < 11,
    ensures
        parse_token(flag_name(i)) == Ok::<u32, FlagsParseFailure>(flag_bit(i)),
{
    lemma_flag_names();
    assert('A' <= flag_name(i)[0]);
    lemma_name_index(i, 0);
}

proof fn lemma_bits_step(acc: u32, bits: u32, n: u32)
    by (bit_vector)
    requires
        n < 11,
    ensures
        bits & (1u32 << n) == (1u32 << n) ==> (acc | (bits & !(0xffff_ffffu32 << n))) | (1u32 << n)
            == acc | (bits & !(0xffff_ffffu32 << (n + 1))),
        bits & (1u32 << n) != (1u32 << n) ==> acc | (bits & !(0xffff_ffffu32 << n))
            == acc | (bits & !(0xffff_ffffu32 << (n + 1))),
        acc | (bits & !(0xffff_ffffu32 << 0u32)) == acc,
        !(0xffff_ffffu32 << 11u32) == 0x7ffu32,
{
}

proof fn lemma_parse_tokens_append(xs: Seq<Seq<char>>, ys: Seq<Seq<char>>, acc: u32)
    ensures
        parse_tokens(xs + ys, acc) == (match parse_tokens(xs, acc) {
            Ok(a) => parse_tokens(ys, a),
            Err(e) => Err(e),
        }),
    decreases xs.len(),
{
    if xs.len() == 0 {
        assert(xs + ys =~= ys);
    } else {
        assert((xs + ys).drop_first() =~= xs.drop_first() + ys);
        assert((xs + ys)[0] == xs[0]);
        match parse_token(xs[0]) {
            Ok(v) => {
                lemma_parse_tokens_append(xs.drop_first(), ys, acc | v);
            },
            Err(e) => {},
        }
    }
}

/// Reading the names of the set flags among the first `n` adds their bits.
proof fn lemma_parse_set_names(bits: u32, n: int, acc: u32)
    requires
        0 <= n <= 11,
    ensures
        parse_tokens(set_names(bits, n), acc) == Ok::<u32, FlagsParseFailure>(
            acc | (bits & !(0xffff_ffffu32 << (n as u32))),
        ),
        forall|i: int| 0 <= i < set_names(bits, n).len() ==> is_clean(#[trigger] set_names(bits, n)[i]),
    decreases n,
{
    if n == 0 {
        lemma_bits_step(acc, bits, 0);
    } else {
        lemma_parse_set_names(bits, n - 1, acc);
        lemma_bits_step(acc, bits, (n - 1) as u32);
        let prev = set_names(bits, n - 1);
        let a = acc | (bits & !(0xffff_ffffu32 << ((n - 1) as u32)));
        assert(((n - 1) as u32) + 1 == n as u32);
        if has_bit(bits, n - 1) {
            lemma_parse_name(n - 1);
            lemma_name_clean(n - 1);
            let one = seq![flag_name(n - 1)];
            assert(prev.push(flag_name(n - 1)) =~= prev + one);
            lemma_parse_tokens_append(prev, one, acc);
            assert(one.drop_first() =~= Seq::<Seq<char>>::empty());
            assert(one[0] == flag_name(n - 1));
            assert(parse_tokens(Seq::<Seq<char>>::empty(), a | flag_bit(n - 1))
                == Ok::<u32, FlagsParseFailure>(a | flag_bit(n - 1)));
            assert(parse_tokens(one, a) == Ok::<u32, FlagsParseFailure>(a | flag_bit(n - 1)));
            assert forall|i: int| 0 <= i < set_names(bits, n).len()
                implies is_clean(#[trigger] set_names(bits, n)[i]) by {
                if i < prev.len() {
                    assert(set_names(bits, n)[i] == prev[i]);
                }
            }
        }
    }
}

proof fn lemma_rest_bits(bits: u32, named: u32)
    by (bit_vector)
    requires
        named == bits & 0x7ffu32,
    ensures
        bits & !0x7ffu32 == 0 ==> named == bits,
        named | (bits & !0x7ffu32) == bits,
{
}

// ---------------------------------------------------------------------------
// The law of the text form
// ---------------------------------------------------------------------------

/// Reading the text form of any flags value gives that value back.
pub proof fn lemma_flags_text_roundtrip(bits: u32)
    ensures
        parse_flags_text(flags_text(bits)) == Ok::<u32, FlagsParseFailure>(bits),
{
    let names = set_names(bits, 11);
    let ps = flag_parts(bits);
    let rest = unnamed_bits(bits);
    lemma_parse_set_names(bits, 11, 0);
    lemma_bits_step(0, bits, 0);
    let named = 0u32 | (bits & !(0xffff_ffffu32 << 11u32));
    assert(named == bits & 0x7ffu32) by (bit_vector)
        requires
            named == 0u32 | (bits & !(0xffff_ffffu32 << 11u32)),
    ;
    lemma_rest_bits(bits, named);
    if rest != 0 {
        let hx = seq!['0', 'x'] + hex_digits(rest as nat);
        lemma_hex_digits(rest as nat);
        lemma_parse_hex_digits(rest);
        assert(hx.skip(2) =~= hex_digits(rest as nat));
        assert(parse_token(hx) == Ok::<u32, FlagsParseFailure>(rest));
        assert(is_clean(hx)) by {
            let h = hex_digits(rest as nat);
            assert(hx.last() == h.last());
            assert(is_lower_hex(h[h.len() - 1]));
            assert forall|j: int| 0 <= j < hx.len() implies hx[j] != '|' by {
                if j >= 2 {
                    assert(hx[j] == h[j - 2]);
                    assert(is_lower_hex(h[j - 2]));
                }
            }
        }
        assert(ps == names.push(hx));
        assert(names.push(hx) =~= names + seq![hx]);
        lemma_parse_tokens_append(names, seq![hx], 0);
        assert(seq![hx].drop_first() =~= Seq::<Seq<char>>::empty());
        assert(seq![hx][0] == hx);
        assert(parse_tokens(Seq::<Seq<char>>::empty(), named | rest) == Ok::<u32, FlagsParseFailure>(named | rest));
        assert(parse_tokens(seq![hx], named) == Ok::<u32, FlagsParseFailure>(named | rest));
        assert(parse_tokens(ps, 0) == Ok::<u32, FlagsParseFailure>(bits));
        assert forall|i: int| 0 <= i < ps.len() implies is_clean(#[trigger] ps[i]) by {
            if i < names.len() {
                assert(ps[i] == names[i]);
            }
        }
    } else {
        assert(ps == names);
        assert(parse_tokens(ps, 0) == Ok::<u32, FlagsParseFailure>(bits));
    }
    if ps.len() == 0 {
        assert(bits == 0);
        assert(flags_text(bits) =~= Seq::<char>::empty());
    } else {
        lemma_join_ends(ps);
        let t = flags_text(bits);
        assert(is_clean(ps[0]));
        assert(is_clean(ps.last()));
        assert(trim_start(t) == t);
        assert(trim_end(t) == t);
        lemma_split_join(ps, Seq::<char>::empty());
        assert(t + Seq::<char>::empty() =~= t);
    }
}


// ---------------------------------------------------------------------------
// Writing the text form
// ---------------------------------------------------------------------------

/// The name of the `i`-th flag.
pub fn flag_name_str(i: usize) -> (r: &'static str)
    requires
        i < 11,
    ensures
        r@ == flag_name(i as int),
{
    if i == 0 { "GENERATE" }
    else if i == 1 { "BUILD" }
    else if i == 2 { "FORCE" }
    else if i == 3 { "RUN" }
    else if i == 4 { "ALL" }
    else if i == 5 { "VERBOSE" }
    else if i == 6 { "TIMINGS" }
    else if i == 7 { "REPL" }
    else if i == 8 { "EXPR" }
    else if i == 9 { "STDIN" }
    else { "QUIET" }
}

/// The lower-case hexadecimal digit of `d`, as text.
fn hex_digit_str(d: u32) -> (r: &'static str)
    requires
        d < 16,
    ensures
        r@ == seq![hex_char(d as int)],
{
    let r = if d == 0 { "0" } else if d == 1 { "1" } else if d == 2 { "2" } else if d == 3 { "3" }
        else if d == 4 { "4" } else if d == 5 { "5" } else if d == 6 { "6" } else if d == 7 { "7" }
        else if d == 8 { "8" } else if d == 9 { "9" } else if d == 10 { "a" } else if d == 11 { "b" }
        else if d == 12 { "c" } else if d == 13 { "d" } else if d == 14 { "e" } else { "f" };
    proof {
        reveal_strlit("0"); reveal_strlit("1"); reveal_strlit("2"); reveal_strlit("3");
        reveal_strlit("4"); reveal_strlit("5"); reveal_strlit("6"); reveal_strlit("7");
        reveal_strlit("8"); reveal_strlit("9"); reveal_strlit("a"); reveal_strlit("b");
        reveal_strlit("c"); reveal_strlit("d"); reveal_strlit("e"); reveal_strlit("f");
        assert(r@ =~= seq![hex_char(d as int)]);
    }
    r
}

/// Appends `n` in lower-case hexadecimal, without leading zeros.
fn append_hex(out: &mut String, n: u32)
    ensures
        final(out)@ == old(out)@ + hex_digits(n as nat),
    decreases n,
{
    if n < 16 {
        out.append(hex_digit_str(n));
    } else {
        append_hex(out, n / 16);
        out.append(hex_digit_str(n % 16));
        assert(old(out)@ + hex_digits((n / 16) as nat) + seq![hex_char((n % 16) as int)]
            =~= old(out)@ + hex_digits(n as nat));
    }
}

fn separator_str() -> (r: &'static str)
    ensures
        r@ == separator(),
{
    let r = " | ";
    proof {
        reveal_strlit(" | ");
        assert(r@ =~= separator());
    }
    r
}

impl ProcFlags {
    /// The text form: the names of the set flags in declaration order,
    /// separated by `" | "`, then `0x` and the unnamed bits in hexadecimal
    /// if any are set; the empty text when no bit is set.
    pub fn to_flags_string(&self) -> (r: String)
        ensures
            r@ == flags_text(self@),
    {
        let bits = self.bits();
        let mut out = String::new();
        let mut first = true;
        let ghost mut parts: Seq<Seq<char>> = Seq::empty();
        let mut i: usize = 0;
        while i < 11
            invariant
                i <= 11,
                bits == self@,
                parts == set_names(bits, i as int),
                out@ == join_parts(parts),
                first == (parts.len() == 0),
            decreases 11 - i,
        {
            let flag: u32 = 1u32 << (i as u32);
            if self.contains(flag) {
                let name = flag_name_str(i);
                if first {
                    out = String::from_str(name);
                } else {
                    out.append(separator_str());
                    out.append(name);
                }
                proof {
                    assert(parts.push(name@).drop_last() =~= parts);
                    parts = parts.push(name@);
                }
                first = false;
            }
            i = i + 1;
        }
        let rest: u32 = bits & !0x7ffu32;
        if rest != 0 {
            let ghost before = out@;
            if !first {
                out.append(separator_str());
            }
            out.append("0x");
            append_hex(&mut out, rest);
            proof {
                reveal_strlit("0x");
                let hx = seq!['0', 'x'] + hex_digits(rest as nat);
                assert(parts.push(hx).drop_last() =~= parts);
                if parts.len() == 0 {
                    assert(out@ =~= hx);
                } else {
                    assert(out@ =~= before + separator() + hx);
                }
                assert(flag_parts(bits) == parts.push(hx));
            }
        }
        out
    }
}

// ---------------------------------------------------------------------------
// Reading the text form
// ---------------------------------------------------------------------------

/// A failure to read the text form of processing flags.
#[derive(Clone, Debug, PartialEq, Eq)]
pub enum FlagsParseError {
    /// A piece between bars was blank.
    EmptyFlag,
    /// A piece was neither a flag name nor a hexadecimal number; the piece.
    InvalidNamedFlag(String),
    /// A piece after `0x` was not a hexadecimal `u32`; the text after `0x`.
    InvalidHexFlag(String),
}

impl View for FlagsParseError {
    type V = FlagsParseFailure;

    open spec fn view(&self) -> FlagsParseFailure {
        match self {
            FlagsParseError::EmptyFlag => FlagsParseFailure::EmptyFlag,
            FlagsParseError::InvalidNamedFlag(s) => FlagsParseFailure::InvalidNamedFlag(s@),
            FlagsParseError::InvalidHexFlag(s) => FlagsParseFailure::InvalidHexFlag(s@),
        }
    }
}

/// The message of a failure.
pub open spec fn failure_message(f: FlagsParseFailure) -> Seq<char> {
    match f {
        FlagsParseFailure::EmptyFlag => "encountered empty flag"@,
        FlagsParseFailure::InvalidNamedFlag(g) => "unrecognized named flag `"@ + g + "`"@,
        FlagsParseFailure::InvalidHexFlag(g) => "invalid hex flag `"@ + g + "`"@,
    }
}

impl FlagsParseError {
    /// The message that describes the failure.
    pub fn message(&self) -> (r: String)
        ensures
            r@ == failure_message(self@),
    {
        match self {
            FlagsParseError::EmptyFlag => String::from_str("encountered empty flag"),
            FlagsParseError::InvalidNamedFlag(g) => {
                let mut m = String::from_str("unrecognized named flag `");
                m.append(g.as_str());
                m.append("`");
                m
            },
            FlagsParseError::InvalidHexFlag(g) => {
                let mut m = String::from_str("invalid hex flag `");
                m.append(g.as_str());
                m.append("`");
                m
            },
        }
    }
}

/// Whether `r` is what the text form reading gives.
pub open spec fn parse_matches(r: Result<ProcFlags, FlagsParseError>, s: Result<u32, FlagsParseFailure>) -> bool {
    match (r, s) {
        (Ok(f), Ok(b)) => f@ == b,
        (Err(e), Err(x)) => e@ == x,
        _ => false,
    }
}

/// Whether `c` is white space.
pub fn is_white_char(c: char) -> (r: bool)
    ensures
        r == is_white(c),
{
    ('\u{9}' <= c && c <= '\u{d}') || c == ' ' || c == '\u{85}' || c == '\u{a0}' || c == '\u{1680}'
        || ('\u{2000}' <= c && c <= '\u{200a}') || c == '\u{2028}' || c == '\u{2029}'
        || c == '\u{202f}' || c == '\u{205f}' || c == '\u{3000}'
}

/// The characters of `s`.
pub fn chars_of(s: &str) -> (r: Vec<char>)
    ensures
        r@ == s@,
{
    let n = s.unicode_len();
    let mut v: Vec<char> = Vec::new();
    let mut i: usize = 0;
    while i < n
        invariant
            n == s@.len(),
            i <= n,
            v@ == s@.subrange(0, i as int),
        decreases n - i,
    {
        v.push(s.get_char(i));
        i = i + 1;
        assert(v@ =~= s@.subrange(0, i as int));
    }
    assert(v@ =~= s@);
    v
}

/// The bounds of `v[lo..hi]` without its leading and trailing white space.
fn trim_range(v: &Vec<char>, lo: usize, hi: usize) -> (r: (usize, usize))
    requires
        lo <= hi <= v.len(),
    ensures
        lo <= r.0 <= r.1 <= hi,
        v@.subrange(r.0 as int, r.1 as int) == trim(v@.subrange(lo as int, hi as int)),
{
    let mut a = lo;
    while a < hi && is_white_char(v[a])
        invariant
            lo <= a <= hi <= v.len(),
            trim_start(v@.subrange(lo as int, hi as int)) == trim_start(v@.subrange(a as int, hi as int)),
        decreases hi - a,
    {
        assert(v@.subrange(a as int, hi as int).drop_first() =~= v@.subrange(a + 1, hi as int));
        a = a + 1;
    }
    assert(trim_start(v@.subrange(a as int, hi as int)) == v@.subrange(a as int, hi as int));
    let mut b = hi;
    while b > a && is_white_char(v[b - 1])
        invariant
            lo <= a <= b <= hi <= v.len(),
            trim_end(v@.subrange(a as int, hi as int)) == trim_end(v@.subrange(a as int, b as int)),
        decreases b - a,
    {
        assert(v@.subrange(a as int, b as int).drop_last() =~= v@.subrange(a as int, b - 1));
        b = b - 1;
    }
    assert(trim_end(v@.subrange(a as int, b as int)) == v@.subrange(a as int, b as int));
    (a, b)
}

/// Whether `v[lo..hi]` is the text `t`.
fn range_equals(v: &Vec<char>, lo: usize, hi: usize, t: &str) -> (r: bool)
    requires
        lo <= hi <= v.len(),
    ensures
        r == (v@.subrange(lo as int, hi as int) == t@),
{
    let n = t.unicode_len();
    if hi - lo != n {
        return false;
    }
    let mut i: usize = 0;
    while i < n
        invariant
            n == t@.len(),
            hi - lo == n,
            lo <= hi <= v.len(),
            i <= n,
            forall|j: int| 0 <= j < i ==> v@[lo + j] == t@[j],
        decreases n - i,
    {
        if v[lo + i] != t.get_char(i) {
            assert(v@.subrange(lo as int, hi as int)[i as int] != t@[i as int]);
            return false;
        }
        i = i + 1;
    }
    assert(v@.subrange(lo as int, hi as int) =~= t@);
    true
}

/// The value of a hexadecimal digit.
fn digit_value(c: char) -> (r: Option<u32>)
    ensures
        match hex_digit_value(c) {
            Some(d) => r == Some(d as u32) && 0 <= d < 16,
            None => r is None,
        },
{
    if '0' <= c && c <= '9' {
        Some((c as u32) - ('0' as u32))
    } else if 'a' <= c && c <= 'f' {
        Some((c as u32) - ('a' as u32) + 10)
    } else if 'A' <= c && c <= 'F' {
        Some((c as u32) - ('A' as u32) + 10)
    } else {
        None
    }
}

/// Reads `v[lo..hi]` as `u32::from_str_radix(_, 16)` does.
fn parse_hex_range(v: &Vec<char>, lo: usize, hi: usize) -> (r: Option<u32>)
    requires
        lo <= hi <= v.len(),
    ensures
        r == parse_hex_u32(v@.subrange(lo as int, hi as int)),
{
    let ghost s = v@.subrange(lo as int, hi as int);
    let mut start = lo;
    if start < hi && v[start] == '+' {
        start = start + 1;
    }
    let ghost digits = if s.len() > 0 && s[0] == '+' { s.drop_first() } else { s };
    assert(digits =~= v@.subrange(start as int, hi as int));
    if start == hi {
        return None;
    }
    let mut ok = true;
    let mut big = false;
    let mut acc: u64 = 0;
    let mut i = start;
    assert(v@.subrange(start as int, start as int) =~= Seq::<char>::empty());
    while i < hi
        invariant
            lo <= start <= i <= hi <= v.len(),
            ok == (hex_value(v@.subrange(start as int, i as int)) is Some),
            ok && !big ==> hex_value(v@.subrange(start as int, i as int)) == Some(acc as int)
                && acc <= u32::MAX,
            ok && big ==> hex_value(v@.subrange(start as int, i as int)).unwrap() > u32::MAX,
        decreases hi - i,
    {
        let ghost prev = v@.subrange(start as int, i as int);
        let ghost next = v@.subrange(start as int, i + 1);
        assert(next.drop_last() =~= prev);
        assert(next.last() == v@[i as int]);
        match digit_value(v[i]) {
            None => {
                ok = false;
            },
            Some(d) => {
                if ok && !big {
                    acc = acc * 16 + d as u64;
                    if acc > 0xffff_ffffu64 {
                        big = true;
                    }
                } else if ok && big {
                    assert(hex_value(prev).unwrap() * 16 + d >= hex_value(prev).unwrap());
                }
            },
        }
        i = i + 1;
    }
    if ok && !big {
        Some(acc as u32)
    } else {
        None
    }
}

/// Reads one trimmed piece `v[lo..hi]` of the text `input`.
fn parse_token_range(input: &str, v: &Vec<char>, lo: usize, hi: usize) -> (r: Result<u32, FlagsParseError>)
    requires
        v@ == input@,
        lo <= hi <= v.len(),
    ensures
        match (r, parse_token(v@.subrange(lo as int, hi as int))) {
            (Ok(a), Ok(b)) => a == b,
            (Err(e), Err(x)) => e@ == x,
            _ => false,
        },
{
    let ghost t = v@.subrange(lo as int, hi as int);
    if hi == lo {
        return Err(FlagsParseError::EmptyFlag);
    }
    if hi - lo >= 2 && v[lo] == '0' && v[lo + 1] == 'x' {
        assert(t.skip(2) =~= v@.subrange(lo + 2, hi as int));
        return match parse_hex_range(v, lo + 2, hi) {
            Some(bits) => Ok(bits),
            None => Err(FlagsParseError::InvalidHexFlag(String::from_str(input.substring_char(lo + 2, hi)))),
        };
    }
    assert(t[0] == v@[lo as int]);
    assert(t.len() >= 2 ==> t[1] == v@[lo + 1]);
    assert(!(t.len() >= 2 && t[0] == '0' && t[1] == 'x'));
    let mut i: usize = 0;
    while i < 11
        invariant
            i <= 11,
            lo <= hi <= v.len(),
            t == v@.subrange(lo as int, hi as int),
            t.len() > 0,
            !(t.len() >= 2 && t[0] == '0' && t[1] == 'x'),
            name_index_from(t, 0) == name_index_from(t, i as int),
        decreases 11 - i,
    {
        if range_equals(v, lo, hi, flag_name_str(i)) {
            assert(name_index_from(t, i as int) == Some(i as int));
            assert(flag_bit(i as int) == 1u32 << (i as u32));
            return Ok(1u32 << (i as u32));
        }
        i = i + 1;
    }
    Err(FlagsParseError::InvalidNamedFlag(String::from_str(input.substring_char(lo, hi))))
}

impl ProcFlags {
    /// Reads the text form: the input is split at every `|`; each piece,
    /// trimmed of white space, must be a flag name or `0x` and a
    /// hexadecimal number, and the value holds the bits of all pieces; a
    /// blank input holds no bits.
    pub fn parse_flags(input: &str) -> (r: Result<ProcFlags, FlagsParseError>)
        ensures
            parse_matches(r, parse_flags_text(input@)),
    {
        let v = chars_of(input);
        let n = v.len();
        let (a, b) = trim_range(&v, 0, n);
        assert(v@.subrange(0, n as int) =~= v@);
        if a == b {
            return Ok(ProcFlags::empty());
        }
        let ghost whole = split_bars(v@).map_values(|p: Seq<char>| trim(p));
        let mut acc: u32 = 0;
        let mut start: usize = 0;
        let mut i: usize = 0;
        assert(v@.subrange(0, n as int) =~= v@);
        while i < n
            invariant
                n == v.len(),
                v@ == input@,
                start <= i <= n,
                trim(v@).len() != 0,
                parse_tokens(whole, 0) == parse_tokens(
                    split_bars(v@.subrange(start as int, n as int)).map_values(|p: Seq<char>| trim(p)),
                    acc,
                ),
                whole == split_bars(v@).map_values(|p: Seq<char>| trim(p)),
                has_no_bar(v@.subrange(start as int, i as int)),
            decreases n - i,
        {
            if v[i] == '|' {
                let ghost x = v@.subrange(start as int, i as int);
                let ghost y = v@.subrange(i + 1, n as int);
                proof {
                    assert(v@.subrange(start as int, n as int) =~= x + seq!['|'] + y);
                    lemma_split_first_sep(x, y, '|');
                    let m = (seq![x] + split_bars(y)).map_values(|p: Seq<char>| trim(p));
                    assert(m[0] == trim(x));
                    assert(m.drop_first() =~= split_bars(y).map_values(|p: Seq<char>| trim(p)));
                }
                let (lo, hi) = trim_range(&v, start, i);
                match parse_token_range(input, &v, lo, hi) {
                    Ok(bits) => {
                        acc = acc | bits;
                    },
                    Err(e) => {
                        return Err(e);
                    },
                }
                start = i + 1;
                assert(v@.subrange(start as int, start as int) =~= Seq::<char>::empty());
            } else {
                assert(has_no_bar(v@.subrange(start as int, i + 1))) by {
                    let x = v@.subrange(start as int, i + 1);
                    assert forall|j: int| 0 <= j < x.len() implies x[j] != '|' by {
                        if j < i - start {
                            assert(x[j] == v@.subrange(start as int, i as int)[j]);
                        }
                    }
                }
            }
            i = i + 1;
        }
        let ghost x = v@.subrange(start as int, n as int);
        proof {
            lemma_split_single(x, '|');
            let m = seq![x].map_values(|p: Seq<char>| trim(p));
            assert(m[0] == trim(x));
            assert(m.drop_first() =~= Seq::<Seq<char>>::empty());
        }
        let (lo, hi) = trim_range(&v, start, n);
        match parse_token_range(input, &v, lo, hi) {
            Ok(bits) => {
                acc = acc | bits;
                assert(parse_tokens(Seq::<Seq<char>>::empty(), acc) == Ok::<u32, FlagsParseFailure>(acc));
                Ok(ProcFlags::from_bits_retain(acc))
            },
            Err(e) => Err(e),
        }
    }
}

} // verus!

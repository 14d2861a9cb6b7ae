//! Text helpers shared by the modules: splitting at a character, joining,
//! lines, decimal numbers, prefixes and suffixes.
use vstd::prelude::*;

verus! {

/// The pieces of `s` between occurrences of `c`: one more piece than `s` has
/// occurrences of `c`.
pub open spec fn split_on(s: Seq<char>, c: char) -> Seq<Seq<char>>
    decreases s.len(),
{
    if s.len() == 0 {
        seq![Seq::<char>::empty()]
    } else {
        let rest = split_on(s.drop_first(), c);
        if s[0] == c {
            seq![Seq::<char>::empty()] + rest
        } else {
            rest.update(0, seq![s[0]] + rest[0])
        }
    }
}

/// Whether `c` does not occur in `s`.
pub open spec fn has_no(s: Seq<char>, c: char) -> bool {
    forall|j: int| 0 <= j < s.len() ==> s[j] != c
}

pub proof fn lemma_split_nonempty(s: Seq<char>, c: char)
    ensures
        split_on(s, c).len() >= 1,
    decreases s.len(),
{
    if s.len() > 0 {
        lemma_split_nonempty(s.drop_first(), c);
    }
}

/// Text without the separator joins the first piece of what follows it.
pub proof fn lemma_split_glue(x: Seq<char>, y: Seq<char>, c: char)
    requires
        has_no(x, c),
    ensures
        split_on(x + y, c) == split_on(y, c).update(0, x + split_on(y, c)[0]),
    decreases x.len(),
{
    lemma_split_nonempty(y, c);
    if x.len() == 0 {
        assert(x + y =~= y);
        assert(split_on(y, c).update(0, x + split_on(y, c)[0]) =~= split_on(y, c)) by {
            assert(x + split_on(y, c)[0] =~= split_on(y, c)[0]);
        }
    } else {
        let x2 = x.drop_first();
        assert((x + y).drop_first() =~= x2 + y);
        assert(has_no(x2, c)) by {
            assert forall|j: int| 0 <= j < x2.len() implies x2[j] != c by {
                assert(x2[j] == x[j + 1]);
            }
        }
        lemma_split_glue(x2, y, c);
        lemma_split_nonempty(x2 + y, c);
        assert((x + y)[0] == x[0]);
        assert(x[0] != c);
        let s2 = split_on(y, c);
        assert(seq![x[0]] + (x2 + s2[0]) =~= x + s2[0]);
        assert(split_on(x + y, c) =~= s2.update(0, x + s2[0]));
    }
}

/// Text without the separator is a single piece.
pub proof fn lemma_split_single(x: Seq<char>, c: char)
    requires
        has_no(x, c),
    ensures
        split_on(x, c) == seq![x],
{
    lemma_split_glue(x, Seq::<char>::empty(), c);
    assert(x + Seq::<char>::empty() =~= x);
    assert(split_on(Seq::<char>::empty(), c) == seq![Seq::<char>::empty()]);
    assert(x + Seq::<char>::empty() =~= x);
    assert(seq![Seq::<char>::empty()].update(0, x) =~= seq![x]);
}

/// The separator after text without it ends the first piece.
pub proof fn lemma_split_first_sep(x: Seq<char>, y: Seq<char>, c: char)
    requires
        has_no(x, c),
    ensures
        split_on(x + seq![c] + y, c) == seq![x] + split_on(y, c),
{
    let by = seq![c] + y;
    assert(x + seq![c] + y =~= x + by);
    lemma_split_glue(x, by, c);
    assert(by.drop_first() =~= y);
    assert(split_on(by, c) == seq![Seq::<char>::empty()] + split_on(y, c));
    assert(x + Seq::<char>::empty() =~= x);
    assert(split_on(by, c).update(0, x + split_on(by, c)[0]) =~= seq![x] + split_on(y, c));
}

/// The separator before text without it starts the last piece.
pub proof fn lemma_split_last_sep(x: Seq<char>, y: Seq<char>, c: char)
    requires
        has_no(y, c),
    ensures
        split_on(x + seq![c] + y, c) == split_on(x, c).push(y),
    decreases x.len(),
{
    lemma_split_nonempty(x, c);
    if x.len() == 0 {
        assert(x + seq![c] + y =~= Seq::<char>::empty() + seq![c] + y);
        lemma_split_first_sep(Seq::<char>::empty(), y, c);
        lemma_split_single(y, c);
        assert(seq![Seq::<char>::empty()] + seq![y] =~= seq![Seq::<char>::empty()].push(y));
    } else {
        let x2 = x.drop_first();
        let whole = x + seq![c] + y;
        assert(whole.drop_first() =~= x2 + seq![c] + y);
        assert(whole[0] == x[0]);
        lemma_split_last_sep(x2, y, c);
        lemma_split_nonempty(x2, c);
        let s2 = split_on(x2, c);
        if x[0] == c {
            assert(split_on(whole, c) =~= seq![Seq::<char>::empty()] + s2.push(y));
            assert(split_on(x, c) =~= seq![Seq::<char>::empty()] + s2);
            assert(seq![Seq::<char>::empty()] + s2.push(y) =~= (seq![Seq::<char>::empty()] + s2).push(y));
        } else {
            assert(split_on(whole, c) =~= s2.push(y).update(0, seq![x[0]] + s2[0]));
            assert(split_on(x, c) =~= s2.update(0, seq![x[0]] + s2[0]));
            assert(s2.push(y).update(0, seq![x[0]] + s2[0]) =~= s2.update(0, seq![x[0]] + s2[0]).push(y));
        }
    }
}



// ---------------------------------------------------------------------------
// Lines
// ---------------------------------------------------------------------------

/// A line without the carriage return that ended it.
pub open spec fn strip_cr(l: Seq<char>) -> Seq<char> {
    if l.len() > 0 && l.last() == '\r' {
        l.drop_last()
    } else {
        l
    }
}

/// The lines of `s`, as `str::lines` and `BufRead::lines` give them: pieces
/// between line feeds, each line ended by a line feed losing a carriage
/// return before it; a final line feed ends the last line and does not start
/// another.
pub open spec fn lines_of(s: Seq<char>) -> Seq<Seq<char>> {
    let pieces = split_on(s, '\n');
    let ended = pieces.drop_last().map_values(|l: Seq<char>| strip_cr(l));
    if pieces.last().len() == 0 {
        ended
    } else {
        ended.push(pieces.last())
    }
}

/// The lines, each followed by a line feed: what saving them writes.
pub open spec fn saved_text(lines: Seq<Seq<char>>) -> Seq<char>
    decreases lines.len(),
{
    if lines.len() == 0 {
        Seq::<char>::empty()
    } else {
        lines[0] + seq!['\n'] + saved_text(lines.drop_first())
    }
}

/// A line that reads back as itself after it is saved.
pub open spec fn is_plain_line(l: Seq<char>) -> bool {
    has_no(l, '\n') && !(l.len() > 0 && l.last() == '\r')
}

proof fn lemma_saved_text_push(lines: Seq<Seq<char>>, l: Seq<char>)
    ensures
        saved_text(lines.push(l)) == saved_text(lines) + l + seq!['\n'],
    decreases lines.len(),
{
    if lines.len() == 0 {
        assert(lines.push(l).drop_first() =~= Seq::<Seq<char>>::empty());
        assert(saved_text(Seq::<Seq<char>>::empty()) == Seq::<char>::empty());
        assert(lines.push(l)[0] == l);
        assert(saved_text(lines.push(l)) =~= l + seq!['\n']);
        assert(saved_text(lines) + l + seq!['\n'] =~= l + seq!['\n']);
    } else {
        assert(lines.push(l).drop_first() =~= lines.drop_first().push(l));
        assert(lines.push(l)[0] == lines[0]);
        lemma_saved_text_push(lines.drop_first(), l);
        assert(saved_text(lines.push(l)) =~= saved_text(lines) + l + seq!['\n']);
    }
}

proof fn lemma_split_saved(lines: Seq<Seq<char>>)
    requires
        forall|i: int| 0 <= i < lines.len() ==> has_no(#[trigger] lines[i], '\n'),
    ensures
        split_on(saved_text(lines), '\n') == lines.push(Seq::<char>::empty()),
    decreases lines.len(),
{
    if lines.len() == 0 {
        assert(split_on(Seq::<char>::empty(), '\n') =~= lines.push(Seq::<char>::empty()));
    } else {
        let rest = lines.drop_first();
        assert forall|i: int| 0 <= i < rest.len() implies has_no(#[trigger] rest[i], '\n') by {
            assert(rest[i] == lines[i + 1]);
        }
        lemma_split_saved(rest);
        assert(has_no(lines[0], '\n'));
        lemma_split_first_sep(lines[0], saved_text(rest), '\n');
        assert(seq![lines[0]] + rest.push(Seq::<char>::empty()) =~= lines.push(Seq::<char>::empty()));
    }
}

/// Reading back the saved text of plain lines gives the same lines.
pub proof fn lemma_lines_of_saved_text(lines: Seq<Seq<char>>)
    requires
        forall|i: int| 0 <= i < lines.len() ==> is_plain_line(#[trigger] lines[i]),
    ensures
        lines_of(saved_text(lines)) == lines,
{
    assert forall|i: int| 0 <= i < lines.len() implies has_no(#[trigger] lines[i], '\n') by {
        assert(is_plain_line(lines[i]));
    }
    lemma_split_saved(lines);
    let pieces = lines.push(Seq::<char>::empty());
    assert(pieces.drop_last() =~= lines);
    assert(pieces.last().len() == 0);
    assert(lines.map_values(|l: Seq<char>| strip_cr(l)) =~= lines) by {
        assert forall|i: int| 0 <= i < lines.len() implies strip_cr(lines[i]) == lines[i] by {
            assert(is_plain_line(lines[i]));
        }
    }
}

proof fn lemma_views_push(before: Seq<String>, y: Seq<char>, views: Seq<Seq<char>>, line: String)
    requires
        before.map_values(|l: String| l@) == views,
        line@ == y,
    ensures
        before.push(line).map_values(|l: String| l@) == views.push(y),
{
    let after = before.push(line).map_values(|l: String| l@);
    assert forall|j: int| 0 <= j < after.len() implies #[trigger] after[j] == views.push(y)[j] by {
        if j < before.len() {
            assert(before.push(line)[j] == before[j]);
            assert(before.map_values(|l: String| l@)[j] == before[j]@);
        }
    }
    assert(after =~= views.push(y));
}

/// The lines of `s`, as `str::lines` gives them.
pub fn split_lines(s: &str) -> (r: Vec<String>)
    ensures
        r@.map_values(|l: String| l@) == lines_of(s@),
{
    let n = s.unicode_len();
    let mut out: Vec<String> = Vec::new();
    let ghost mut raw: Seq<Seq<char>> = Seq::empty();
    let mut start: usize = 0;
    let mut i: usize = 0;
    assert(s@.subrange(0, n as int) =~= s@);
    assert(s@.subrange(0, 0) =~= Seq::<char>::empty());
    while i < n
        invariant
            n == s@.len(),
            start <= i <= n,
            split_on(s@, '\n') == raw + split_on(s@.subrange(start as int, n as int), '\n'),
            out@.map_values(|l: String| l@) == raw.map_values(|l: Seq<char>| strip_cr(l)),
            has_no(s@.subrange(start as int, i as int), '\n'),
        decreases n - i,
    {
        if s.get_char(i) == '\n' {
            let ghost x = s@.subrange(start as int, i as int);
            let ghost y = s@.subrange(i + 1, n as int);
            proof {
                assert(s@.subrange(start as int, n as int) =~= x + seq!['\n'] + y);
                lemma_split_first_sep(x, y, '\n');
                assert(raw + (seq![x] + split_on(y, '\n')) =~= raw.push(x) + split_on(y, '\n'));
            }
            let mut end = i;
            if end > start && s.get_char(end - 1) == '\r' {
                end = end - 1;
            }
            let line = String::from_str(s.substring_char(start, end));
            assert(line@ == strip_cr(x)) by {
                if x.len() > 0 && x.last() == '\r' {
                    assert(x.drop_last() =~= s@.subrange(start as int, end as int));
                } else {
                    assert(x =~= s@.subrange(start as int, end as int));
                }
            }
            let ghost before = out@;
            out.push(line);
            proof {
                lemma_views_push(before, line@, raw.map_values(|l: Seq<char>| strip_cr(l)), line);
                assert(raw.push(x).map_values(|l: Seq<char>| strip_cr(l))
                    =~= raw.map_values(|l: Seq<char>| strip_cr(l)).push(strip_cr(x)));
                raw = raw.push(x);
            }
            start = i + 1;
            assert(s@.subrange(start as int, start as int) =~= Seq::<char>::empty());
        } else {
            assert(has_no(s@.subrange(start as int, i + 1), '\n')) by {
                let x = s@.subrange(start as int, i + 1);
                assert forall|j: int| 0 <= j < x.len() implies x[j] != '\n' by {
                    if j < i - start {
                        assert(x[j] == s@.subrange(start as int, i as int)[j]);
                    }
                }
            }
        }
        i = i + 1;
    }
    let ghost tail = s@.subrange(start as int, n as int);
    proof {
        lemma_split_single(tail, '\n');
        let pieces = raw.push(tail);
        assert(split_on(s@, '\n') =~= pieces);
        assert(pieces.drop_last() =~= raw);
    }
    if start < n {
        let ghost before = out@;
        out.push(String::from_str(s.substring_char(start, n)));
        proof {
            lemma_views_push(before, tail, raw.map_values(|l: Seq<char>| strip_cr(l)), out@.last());
            assert(before.push(out@.last()) =~= out@);
        }
    } else {
        assert(tail.len() == 0);
    }
    out
}

/// What saving the lines writes: each line followed by a line feed.
pub fn save_text(lines: &Vec<String>) -> (r: String)
    ensures
        r@ == saved_text(lines@.map_values(|l: String| l@)),
{
    let mut out = String::new();
    let mut i: usize = 0;
    let ghost views = lines@.map_values(|l: String| l@);
    proof {
        reveal_strlit("\n");
    }
    while i < lines.len()
        invariant
            i <= lines.len(),
            views == lines@.map_values(|l: String| l@),
            out@ == saved_text(views.subrange(0, i as int)),
            "\n"@ == seq!['\n'],
        decreases lines.len() - i,
    {
        out.append(lines[i].as_str());
        out.append("\n");
        proof {
            lemma_saved_text_push(views.subrange(0, i as int), views[i as int]);
            assert(views.subrange(0, i as int).push(views[i as int]) =~= views.subrange(0, i + 1));
        }
        i = i + 1;
    }
    assert(views.subrange(0, lines.len() as int) =~= views);
    out
}

// ---------------------------------------------------------------------------
// Joining
// ---------------------------------------------------------------------------

/// The parts, in order, with `sep` between each two of them.
pub open spec fn join_with(parts: Seq<Seq<char>>, sep: Seq<char>) -> Seq<char>
    decreases parts.len(),
{
    if parts.len() == 0 {
        Seq::<char>::empty()
    } else if parts.len() == 1 {
        parts[0]
    } else {
        join_with(parts.drop_last(), sep) + sep + parts.last()
    }
}

/// The strings joined with `sep` between each two, as `[String]::join` does.
pub fn join_strings(parts: &Vec<String>, sep: &str) -> (r: String)
    ensures
        r@ == join_with(parts@.map_values(|l: String| l@), sep@),
{
    let ghost views = parts@.map_values(|l: String| l@);
    let mut out = String::new();
    let mut i: usize = 0;
    while i < parts.len()
        invariant
            i <= parts.len(),
            views == parts@.map_values(|l: String| l@),
            out@ == join_with(views.subrange(0, i as int), sep@),
        decreases parts.len() - i,
    {
        if i > 0 {
            out.append(sep);
        }
        out.append(parts[i].as_str());
        proof {
            let pre = views.subrange(0, i as int);
            let next = views.subrange(0, i + 1);
            assert(next.drop_last() =~= pre);
            assert(next.last() == views[i as int]);
            if i == 0 {
                assert(out@ =~= next[0]);
            }
        }
        i = i + 1;
    }
    assert(views.subrange(0, parts.len() as int) =~= views);
    out
}

// ---------------------------------------------------------------------------
// Decimal numbers
// ---------------------------------------------------------------------------

/// The decimal digit of `d`.
pub open spec fn decimal_char(d: int) -> char {
    if d == 0 { '0' } else if d == 1 { '1' } else if d == 2 { '2' } else if d == 3 { '3' }
    else if d == 4 { '4' } else if d == 5 { '5' } else if d == 6 { '6' } else if d == 7 { '7' }
    else if d == 8 { '8' } else { '9' }
}

/// `n` in decimal, without leading zeros, as `Display` writes it.
pub open spec fn decimal(n: nat) -> Seq<char>
    decreases n,
{
    if n < 10 {
        seq![decimal_char(n as int)]
    } else {
        decimal(n / 10) + seq![decimal_char((n % 10) as int)]
    }
}

fn decimal_digit_str(d: usize) -> (r: &'static str)
    requires
        d < 10,
    ensures
        r@ == seq![decimal_char(d as int)],
{
    let r = if d == 0 { "0" } else if d == 1 { "1" } else if d == 2 { "2" } else if d == 3 { "3" }
        else if d == 4 { "4" } else if d == 5 { "5" } else if d == 6 { "6" } else if d == 7 { "7" }
        else if d == 8 { "8" } else { "9" };
    proof {
        reveal_strlit("0"); reveal_strlit("1"); reveal_strlit("2"); reveal_strlit("3");
        reveal_strlit("4"); reveal_strlit("5"); reveal_strlit("6"); reveal_strlit("7");
        reveal_strlit("8"); reveal_strlit("9");
        assert(r@ =~= seq![decimal_char(d as int)]);
    }
    r
}

/// Appends `n` in decimal.
pub fn append_decimal(out: &mut String, n: usize)
    ensures
        final(out)@ == old(out)@ + decimal(n as nat),
    decreases n,
{
    if n < 10 {
        out.append(decimal_digit_str(n));
    } else {
        append_decimal(out, n / 10);
        out.append(decimal_digit_str(n % 10));
        assert(old(out)@ + decimal((n / 10) as nat) + seq![decimal_char((n % 10) as int)]
            =~= old(out)@ + decimal(n as nat));
    }
}

// ---------------------------------------------------------------------------
// Prefixes and suffixes
// ---------------------------------------------------------------------------

pub open spec fn starts_with(s: Seq<char>, p: Seq<char>) -> bool {
    s.len() >= p.len() && s.take(p.len() as int) == p
}

pub open spec fn ends_with(s: Seq<char>, p: Seq<char>) -> bool {
    s.len() >= p.len() && s.skip(s.len() - p.len()) == p
}

/// Whether `s[at..at + p.len()]` is `p`.
fn matches_at(s: &str, at: usize, p: &str) -> (r: bool)
    requires
        at + p@.len() <= s@.len(),
        s@.len() <= usize::MAX,
    ensures
        r == (s@.subrange(at as int, at + p@.len()) == p@),
{
    let n = p.unicode_len();
    let mut i: usize = 0;
    while i < n
        invariant
            n == p@.len(),
            at + n <= s@.len(),
            s@.len() <= usize::MAX,
            i <= n,
            forall|j: int| 0 <= j < i ==> s@[at + j] == p@[j],
        decreases n - i,
    {
        if s.get_char(at + i) != p.get_char(i) {
            assert(s@.subrange(at as int, at + n)[i as int] != p@[i as int]);
            return false;
        }
        i = i + 1;
    }
    assert(s@.subrange(at as int, at + n) =~= p@);
    true
}

/// Whether `s` starts with `p`.
pub fn str_starts_with(s: &str, p: &str) -> (r: bool)
    ensures
        r == starts_with(s@, p@),
{
    let n = s.unicode_len();
    let m = p.unicode_len();
    if m > n {
        return false;
    }
    let r = matches_at(s, 0, p);
    assert(s@.take(m as int) =~= s@.subrange(0, m as int));
    r
}

/// `s` without the suffix `p`, when it ends with it, as `str::strip_suffix`.
pub fn strip_suffix(s: &str, p: &str) -> (r: Option<String>)
    ensures
        match r {
            Some(t) => ends_with(s@, p@) && t@ == s@.take(s@.len() - p@.len()),
            None => !ends_with(s@, p@),
        },
{
    let n = s.unicode_len();
    let m = p.unicode_len();
    if m > n {
        return None;
    }
    assert(s@.skip(n - m) =~= s@.subrange(n - m, n as int));
    if matches_at(s, n - m, p) {
        let t = String::from_str(s.substring_char(0, n - m));
        assert(s@.take(n - m) =~= s@.subrange(0, n - m));
        Some(t)
    } else {
        None
    }
}

} // verus!

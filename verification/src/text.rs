//! Character-level text helpers used to build display strings.
use vstd::prelude::*;

verus! {

broadcast use vstd::string::group_string_axioms;

/// The characters of `s`, in order.
pub fn chars_of(s: &str) -> (out: Vec<char>)
    ensures
        out@ == s@,
{
    let mut out: Vec<char> = Vec::new();
    for c in it: s.chars()
        invariant
            out@ == it.seq().take(it.index() as int),
            it.seq() == s@,
    {
        out.push(c);
    }
    out
}


/// Builds a `String` with std's `FromIterator<char>` for `String`.
/// Claims the result holds exactly the given characters, in order.
#[verifier::external_body]
pub fn string_from_chars(v: &Vec<char>) -> (s: String)
    ensures
        s@ == v@,
{
    v.iter().collect()
}

/// Lexicographic "strictly less" on character sequences, characters compared by
/// code point. For valid UTF-8 strings this is the order of `str`'s `Ord`.
pub open spec fn seq_lt(a: Seq<char>, b: Seq<char>) -> bool
    decreases a.len(),
{
    if a.len() == 0 {
        b.len() > 0
    } else if b.len() == 0 {
        false
    } else if a[0] != b[0] {
        (a[0] as int) < (b[0] as int)
    } else {
        seq_lt(a.drop_first(), b.drop_first())
    }
}

pub proof fn lemma_seq_lt_irreflexive(a: Seq<char>)
    ensures
        !seq_lt(a, a),
    decreases a.len(),
{
    if a.len() > 0 {
        lemma_seq_lt_irreflexive(a.drop_first());
    }
}

pub proof fn lemma_seq_lt_asymmetric(a: Seq<char>, b: Seq<char>)
    ensures
        seq_lt(a, b) ==> !seq_lt(b, a),
    decreases a.len(),
{
    if a.len() > 0 && b.len() > 0 && a[0] == b[0] {
        lemma_seq_lt_asymmetric(a.drop_first(), b.drop_first());
    }
}

pub proof fn lemma_seq_lt_transitive(a: Seq<char>, b: Seq<char>, c: Seq<char>)
    requires
        seq_lt(a, b),
        seq_lt(b, c),
    ensures
        seq_lt(a, c),
    decreases a.len(),
{
    if a.len() > 0 && b.len() > 0 && c.len() > 0 && a[0] == b[0] && b[0] == c[0] {
        lemma_seq_lt_transitive(a.drop_first(), b.drop_first(), c.drop_first());
    }
}

pub proof fn lemma_seq_lt_total(a: Seq<char>, b: Seq<char>)
    ensures
        a != b ==> seq_lt(a, b) || seq_lt(b, a),
    decreases a.len(),
{
    if a.len() > 0 && b.len() > 0 && a[0] == b[0] {
        lemma_seq_lt_total(a.drop_first(), b.drop_first());
        if a.drop_first() == b.drop_first() {
            assert(a =~= seq![a[0]] + a.drop_first());
            assert(b =~= seq![b[0]] + b.drop_first());
        }
    } else if a.len() == 0 && b.len() == 0 {
        assert(a =~= b);
    }
}

/// Whether `a` comes strictly before `b` in lexicographic order.
pub fn chars_lt(a: &Vec<char>, b: &Vec<char>) -> (lt: bool)
    ensures
        lt == seq_lt(a@, b@),
{
    let mut i: usize = 0;
    assert(a@.skip(0) =~= a@);
    assert(b@.skip(0) =~= b@);
    while i < a.len() && i < b.len()
        invariant
            i <= a.len(),
            i <= b.len(),
            forall|k: int| 0 <= k < i ==> a@[k] == b@[k],
            seq_lt(a@, b@) == seq_lt(a@.skip(i as int), b@.skip(i as int)),
        decreases a.len() - i,
    {
        if a[i] != b[i] {
            assert(a@.skip(i as int)[0] == a@[i as int]);
            assert(b@.skip(i as int)[0] == b@[i as int]);
            return a[i] < b[i];
        }
        assert(a@.skip(i as int).drop_first() =~= a@.skip(i + 1));
        assert(b@.skip(i as int).drop_first() =~= b@.skip(i + 1));
        i = i + 1;
    }
    i < b.len()
}

/// Appends the characters of `s` to `out`.
pub fn push_str(out: &mut Vec<char>, s: &str)
    ensures
        final(out)@ == old(out)@ + s@,
{
    let mut cs = chars_of(s);
    out.append(&mut cs);
}

/// Appends `s` to `out`.
pub fn push_chars(out: &mut Vec<char>, s: &Vec<char>)
    ensures
        final(out)@ == old(out)@ + s@,
{
    let mut i: usize = 0;
    let ghost start = out@;
    while i < s.len()
        invariant
            i <= s.len(),
            out@ == start + s@.take(i as int),
        decreases s.len() - i,
    {
        out.push(s[i]);
        i = i + 1;
        assert(out@ =~= start + s@.take(i as int));
    }
    assert(s@.take(s.len() as int) =~= s@);
}

/// The ASCII digit for `d` (0..=9).
pub open spec fn digit_char(d: nat) -> char {
    (48 + d) as char
}

/// Decimal representation of `n`, without leading zeros ("0" for zero).
pub open spec fn dec(n: nat) -> Seq<char>
    decreases n,
{
    if n < 10 {
        seq![digit_char(n)]
    } else {
        dec(n / 10).push(digit_char(n % 10))
    }
}

/// Decimal representation of a signed integer: a `-` before negative values.
pub open spec fn dec_signed(v: int) -> Seq<char> {
    if v < 0 {
        seq!['-'] + dec((-v) as nat)
    } else {
        dec(v as nat)
    }
}

/// Decimal representation with an explicit sign, as `{:+}` formats integers.
pub open spec fn dec_plus(v: int) -> Seq<char> {
    if v < 0 {
        seq!['-'] + dec((-v) as nat)
    } else {
        seq!['+'] + dec(v as nat)
    }
}

/// Appends the decimal representation of `n`.
pub fn push_u64(out: &mut Vec<char>, n: u64)
    ensures
        final(out)@ == old(out)@ + dec(n as nat),
    decreases n,
{
    if n >= 10 {
        push_u64(out, n / 10);
    }
    let d = (n % 10) as u8;
    let c = (48u8 + d) as char;
    out.push(c);
    proof {
        if n >= 10 {
            assert(dec(n as nat) == dec((n / 10) as nat).push(digit_char((n % 10) as nat)));
        }
    }
    assert(final(out)@ =~= old(out)@ + dec(n as nat));
}

/// Appends the decimal representation of `v`, with `-` before negative values.
pub fn push_i64(out: &mut Vec<char>, v: i64)
    ensures
        final(out)@ == old(out)@ + dec_signed(v as int),
{
    if v < 0 {
        out.push('-');
        let m: u64 = if v == i64::MIN { 9223372036854775808u64 } else { (-v) as u64 };
        push_u64(out, m);
        assert(final(out)@ =~= old(out)@ + dec_signed(v as int));
    } else {
        push_u64(out, v as u64);
    }
}

/// Appends `v` with an explicit sign (`+` or `-`).
pub fn push_i64_plus(out: &mut Vec<char>, v: i64)
    ensures
        final(out)@ == old(out)@ + dec_plus(v as int),
{
    if v < 0 {
        out.push('-');
        let m: u64 = if v == i64::MIN { 9223372036854775808u64 } else { (-v) as u64 };
        push_u64(out, m);
    } else {
        out.push('+');
        push_u64(out, v as u64);
    }
    assert(final(out)@ =~= old(out)@ + dec_plus(v as int));
}

/// `parts` joined with `sep` between consecutive parts.
pub open spec fn join(parts: Seq<Seq<char>>, sep: Seq<char>) -> Seq<char>
    decreases parts.len(),
{
    if parts.len() == 0 {
        Seq::empty()
    } else if parts.len() == 1 {
        parts[0]
    } else {
        join(parts.drop_last(), sep) + sep + parts.last()
    }
}

/// `pat` occurs in `s` starting at position `i`.
pub open spec fn occurs_at(s: Seq<char>, pat: Seq<char>, i: int) -> bool {
    0 <= i && i + pat.len() <= s.len() && s.subrange(i, i + pat.len()) == pat
}

/// `pat` occurs somewhere in `s` (the empty pattern occurs in every text).
pub open spec fn contains_seq(s: Seq<char>, pat: Seq<char>) -> bool {
    exists|i: int| occurs_at(s, pat, i)
}

/// Every part of a joined text occurs in it.
pub proof fn lemma_join_contains_part(parts: Seq<Seq<char>>, sep: Seq<char>, i: int)
    requires
        0 <= i < parts.len(),
    ensures
        contains_seq(join(parts, sep), parts[i]),
    decreases parts.len(),
{
    let whole = join(parts, sep);
    if parts.len() == 1 {
        assert(whole.subrange(0, parts[0].len() as int) =~= parts[0]);
        assert(occurs_at(whole, parts[i], 0));
    } else {
        let front = join(parts.drop_last(), sep);
        if i == parts.len() - 1 {
            let at: int = front.len() as int + sep.len() as int;
            assert(whole.subrange(at, at + parts[i].len()) =~= parts[i]);
            assert(occurs_at(whole, parts[i], at));
        } else {
            lemma_join_contains_part(parts.drop_last(), sep, i);
            assert(parts.drop_last()[i] == parts[i]);
            let at = choose|at: int| occurs_at(front, parts[i], at);
            assert(whole.subrange(at, at + parts[i].len()) =~= front.subrange(at, at + parts[i].len()));
            assert(occurs_at(whole, parts[i], at));
        }
    }
}

/// A text that holds a pattern holds each piece of it.
pub proof fn lemma_contains_piece(s: Seq<char>, pat: Seq<char>, a: int, b: int)
    requires
        contains_seq(s, pat),
        0 <= a <= b <= pat.len(),
    ensures
        contains_seq(s, pat.subrange(a, b)),
{
    let at = choose|at: int| occurs_at(s, pat, at);
    assert(s.subrange(at + a, at + b) =~= s.subrange(at, at + pat.len()).subrange(a, b));
    assert(occurs_at(s, pat.subrange(a, b), at + a));
}

/// What a piece of a text holds, the text holds too.
pub proof fn lemma_contains_trans(s: Seq<char>, mid: Seq<char>, pat: Seq<char>)
    requires
        contains_seq(s, mid),
        contains_seq(mid, pat),
    ensures
        contains_seq(s, pat),
{
    let at = choose|at: int| occurs_at(s, mid, at);
    let k = choose|k: int| occurs_at(mid, pat, k);
    assert(s.subrange(at + k, at + k + pat.len()) =~= s.subrange(at, at + mid.len()).subrange(k, k + pat.len()));
    assert(occurs_at(s, pat, at + k));
}

/// The middle of a concatenation occurs in it.
pub proof fn lemma_middle_contained(a: Seq<char>, b: Seq<char>, c: Seq<char>)
    ensures
        contains_seq(a + b + c, b),
{
    let s = a + b + c;
    assert(s.subrange(a.len() as int, a.len() as int + b.len() as int) =~= b);
    assert(occurs_at(s, b, a.len() as int));
}

/// A text none of whose characters is `c` holds no pattern that starts with `c`.
pub proof fn lemma_absent_first_char(s: Seq<char>, pat: Seq<char>)
    requires
        pat.len() > 0,
        forall|k: int| 0 <= k < s.len() ==> #[trigger] s[k] != pat[0],
    ensures
        !contains_seq(s, pat),
{
    if contains_seq(s, pat) {
        let at = choose|at: int| occurs_at(s, pat, at);
        assert(s.subrange(at, at + pat.len())[0] == s[at]);
    }
}

/// Whether `pat` occurs at position `i` of `s`.
pub fn matches_at(s: &Vec<char>, pat: &Vec<char>, i: usize) -> (m: bool)
    ensures
        m == occurs_at(s@, pat@, i as int),
{
    if i > s.len() || pat.len() > s.len() - i {
        return false;
    }
    let mut k: usize = 0;
    while k < pat.len()
        invariant
            i + pat.len() <= s.len(),
            k <= pat.len(),
            forall|j: int| 0 <= j < k ==> s@[i + j] == pat@[j],
        decreases pat.len() - k,
    {
        if s[i + k] != pat[k] {
            assert(s@.subrange(i as int, i + pat.len())[k as int] != pat@[k as int]);
            return false;
        }
        k = k + 1;
    }
    assert(s@.subrange(i as int, i + pat.len()) =~= pat@);
    true
}

/// Whether `pat` occurs in `s`.
pub fn contains_chars(s: &Vec<char>, pat: &Vec<char>) -> (found: bool)
    ensures
        found == contains_seq(s@, pat@),
{
    if pat.len() > s.len() {
        return false;
    }
    let last = s.len() - pat.len();
    let mut i: usize = 0;
    loop
        invariant
            last + pat.len() == s.len(),
            i <= last,
            forall|j: int| 0 <= j < i ==> !occurs_at(s@, pat@, j),
        decreases last - i,
    {
        if matches_at(s, pat, i) {
            return true;
        }
        if i == last {
            assert forall|j: int| !occurs_at(s@, pat@, j) by {
                if 0 <= j < i {
                    assert(!occurs_at(s@, pat@, j));
                }
            }
            return false;
        }
        i = i + 1;
    }
}

/// Whether the literal `pat` occurs in `s`.
pub fn contains_str(s: &Vec<char>, pat: &str) -> (found: bool)
    ensures
        found == contains_seq(s@, pat@),
{
    let p = chars_of(pat);
    contains_chars(s, &p)
}

/// The lines, each followed by a newline.
pub open spec fn lines_block(lines: Seq<Seq<char>>) -> Seq<char>
    decreases lines.len(),
{
    if lines.len() == 0 {
        Seq::empty()
    } else {
        lines_block(lines.drop_last()) + lines.last() + seq!['\n']
    }
}

/// The characters of each string.
pub open spec fn views(v: Seq<String>) -> Seq<Seq<char>> {
    v.map_values(|s: String| s@)
}

/// Appends every line of `lines[..count]`, each followed by a newline.
pub fn push_lines(out: &mut Vec<char>, lines: &Vec<String>, count: usize)
    requires
        count <= lines.len(),
    ensures
        final(out)@ == old(out)@ + lines_block(views(lines@).take(count as int)),
{
    let ghost start = out@;
    let mut i: usize = 0;
    while i < count
        invariant
            count <= lines.len(),
            i <= count,
            out@ == start + lines_block(views(lines@).take(i as int)),
        decreases count - i,
    {
        push_str(out, lines[i].as_str());
        out.push('\n');
        proof {
            let t = views(lines@).take(i + 1);
            assert(t.drop_last() =~= views(lines@).take(i as int));
            assert(t.last() == lines@[i as int]@);
        }
        i = i + 1;
        assert(out@ =~= start + lines_block(views(lines@).take(i as int)));
    }
}

/// The characters of each character vector.
pub open spec fn char_views(v: Seq<Vec<char>>) -> Seq<Seq<char>> {
    v.map_values(|p: Vec<char>| p@)
}

/// Appends `parts` joined with `sep`.
pub fn push_joined(out: &mut Vec<char>, parts: &Vec<Vec<char>>, sep: &str)
    ensures
        final(out)@ == old(out)@ + join(char_views(parts@), sep@),
{
    let ghost start = out@;
    let ghost ps = char_views(parts@);
    let mut i: usize = 0;
    while i < parts.len()
        invariant
            ps == char_views(parts@),
            i <= parts.len(),
            out@ == start + join(ps.take(i as int), sep@),
        decreases parts.len() - i,
    {
        if i > 0 {
            push_str(out, sep);
        }
        push_chars(out, &parts[i]);
        proof {
            let t = ps.take(i + 1);
            assert(t.drop_last() =~= ps.take(i as int));
            assert(t.last() == parts@[i as int]@);
            if i == 0 {
                assert(ps.take(0) =~= Seq::<Seq<char>>::empty());
            }
        }
        i = i + 1;
        assert(out@ =~= start + join(ps.take(i as int), sep@));
    }
    assert(ps.take(parts.len() as int) =~= ps);
}

/// What std's `str::to_lowercase` returns for the given characters (full Unicode
/// case mapping, including the context-dependent final sigma).
pub uninterp spec fn unicode_lowercase(s: Seq<char>) -> Seq<char>;

/// Calls std's `str::to_lowercase`. Claims only that the result is determined by the
/// input text (it is named `unicode_lowercase`); the Unicode case tables are not stated.
#[verifier::external_body]
pub fn lowercase_chars(s: &str) -> (out: Vec<char>)
    ensures
        out@ == unicode_lowercase(s@),
{
    s.to_lowercase().chars().collect()
}

/// ASCII lowercase of one character; other characters are unchanged.
pub open spec fn ascii_lower(c: char) -> char {
    if 'A' <= c && c <= 'Z' {
        ((c as u32) + 32) as char
    } else {
        c
    }
}

/// ASCII lowercase of a text, as `str::to_ascii_lowercase` computes it.
pub open spec fn ascii_lowercase(s: Seq<char>) -> Seq<char> {
    s.map_values(|c: char| ascii_lower(c))
}

/// The ASCII lowercase of `s`.
pub fn ascii_lowercase_chars(s: &str) -> (out: Vec<char>)
    ensures
        out@ == ascii_lowercase(s@),
{
    let cs = chars_of(s);
    let mut out: Vec<char> = Vec::new();
    let mut i: usize = 0;
    while i < cs.len()
        invariant
            i <= cs.len(),
            out@ == ascii_lowercase(cs@.take(i as int)),
        decreases cs.len() - i,
    {
        let c = cs[i];
        let l = if 'A' <= c && c <= 'Z' { ((c as u32) + 32) as u8 as char } else { c };
        out.push(l);
        i = i + 1;
        assert(out@ =~= ascii_lowercase(cs@.take(i as int)));
    }
    assert(cs@.take(cs.len() as int) =~= cs@);
    out
}

/// Whitespace as `char::is_whitespace` defines it (the Unicode `White_Space` property).
pub open spec fn is_white_space(c: char) -> bool {
    ||| '\u{9}' <= c && c <= '\u{d}'
    ||| c == ' '
    ||| c == '\u{85}'
    ||| c == '\u{a0}'
    ||| c == '\u{1680}'
    ||| '\u{2000}' <= c && c <= '\u{200a}'
    ||| c == '\u{2028}'
    ||| c == '\u{2029}'
    ||| c == '\u{202f}'
    ||| c == '\u{205f}'
    ||| c == '\u{3000}'
}

pub fn is_white_space_char(c: char) -> (w: bool)
    ensures
        w == is_white_space(c),
{
    ('\u{9}' <= c && c <= '\u{d}') || c == ' ' || c == '\u{85}' || c == '\u{a0}' || c == '\u{1680}'
        || ('\u{2000}' <= c && c <= '\u{200a}') || c == '\u{2028}' || c == '\u{2029}' || c
        == '\u{202f}' || c == '\u{205f}' || c == '\u{3000}'
}

/// `s` without leading whitespace, as `str::trim_start` returns it.
pub open spec fn trim_start(s: Seq<char>) -> Seq<char>
    decreases s.len(),
{
    if s.len() > 0 && is_white_space(s[0]) {
        trim_start(s.drop_first())
    } else {
        s
    }
}

/// `s` without trailing whitespace, as `str::trim_end` returns it.
pub open spec fn trim_end(s: Seq<char>) -> Seq<char>
    decreases s.len(),
{
    if s.len() > 0 && is_white_space(s.last()) {
        trim_end(s.drop_last())
    } else {
        s
    }
}

/// `s` without leading and trailing whitespace, as `str::trim` returns it.
pub open spec fn trim(s: Seq<char>) -> Seq<char> {
    trim_end(trim_start(s))
}

/// The characters of `s[from..to]` without leading whitespace.
pub fn trim_start_range(s: &Vec<char>, from: usize, to: usize) -> (out: Vec<char>)
    requires
        from <= to <= s.len(),
    ensures
        out@ == trim_start(s@.subrange(from as int, to as int)),
{
    let mut i = from;
    while i < to && is_white_space_char(s[i])
        invariant
            from <= i <= to <= s.len(),
            trim_start(s@.subrange(from as int, to as int)) == trim_start(s@.subrange(i as int, to as int)),
        decreases to - i,
    {
        assert(s@.subrange(i as int, to as int).drop_first() =~= s@.subrange(i + 1, to as int));
        i = i + 1;
    }
    let mut out: Vec<char> = Vec::new();
    let mut k = i;
    while k < to
        invariant
            i <= k <= to <= s.len(),
            out@ == s@.subrange(i as int, k as int),
        decreases to - k,
    {
        out.push(s[k]);
        k = k + 1;
        assert(out@ =~= s@.subrange(i as int, k as int));
    }
    out
}

/// `s` without leading and trailing whitespace.
pub fn trim_chars(s: &Vec<char>) -> (out: Vec<char>)
    ensures
        out@ == trim(s@),
{
    assert(s@.subrange(0, s@.len() as int) =~= s@);
    let t = trim_start_range(s, 0, s.len());
    let mut end = t.len();
    assert(t@.take(t@.len() as int) =~= t@);
    while end > 0 && is_white_space_char(t[end - 1])
        invariant
            end <= t.len(),
            trim_end(t@) == trim_end(t@.take(end as int)),
        decreases end,
    {
        assert(t@.take(end as int).drop_last() =~= t@.take(end - 1));
        end = end - 1;
    }
    assert(t@.take(t@.len() as int) =~= t@);
    let mut out: Vec<char> = Vec::new();
    let mut k: usize = 0;
    while k < end
        invariant
            end <= t.len(),
            k <= end,
            out@ == t@.take(k as int),
        decreases end - k,
    {
        out.push(t[k]);
        k = k + 1;
        assert(out@ =~= t@.take(k as int));
    }
    out
}

/// Pieces of `s` from `seg_start`, scanning for `sep` from `pos` on: the segments that
/// `str::split` yields (leftmost matches, no overlaps).
pub open spec fn split_from(s: Seq<char>, sep: Seq<char>, seg_start: int, pos: int) -> Seq<Seq<char>>
    decreases s.len() - pos,
{
    if sep.len() == 0 || pos < seg_start || pos + sep.len() > s.len() {
        seq![s.subrange(seg_start, s.len() as int)]
    } else if s.subrange(pos, pos + sep.len()) == sep {
        seq![s.subrange(seg_start, pos)] + split_from(s, sep, pos + sep.len(), pos + sep.len())
    } else {
        split_from(s, sep, seg_start, pos + 1)
    }
}

/// `s` split on a non-empty separator, as `str::split` splits it.
pub open spec fn split(s: Seq<char>, sep: Seq<char>) -> Seq<Seq<char>> {
    split_from(s, sep, 0, 0)
}

/// The characters `s[from..to]`.
pub fn slice_chars(s: &Vec<char>, from: usize, to: usize) -> (out: Vec<char>)
    requires
        from <= to <= s.len(),
    ensures
        out@ == s@.subrange(from as int, to as int),
{
    let mut out: Vec<char> = Vec::new();
    let mut k = from;
    while k < to
        invariant
            from <= k <= to <= s.len(),
            out@ == s@.subrange(from as int, k as int),
        decreases to - k,
    {
        out.push(s[k]);
        k = k + 1;
        assert(out@ =~= s@.subrange(from as int, k as int));
    }
    out
}

/// `s` split on the non-empty separator `sep`.
pub fn split_chars(s: &Vec<char>, sep: &Vec<char>) -> (parts: Vec<Vec<char>>)
    requires
        sep.len() > 0,
    ensures
        char_views(parts@) == split(s@, sep@),
{
    let mut parts: Vec<Vec<char>> = Vec::new();
    let mut seg: usize = 0;
    let mut pos: usize = 0;
    loop
        invariant
            sep.len() > 0,
            seg <= pos <= s.len(),
            char_views(parts@) + split_from(s@, sep@, seg as int, pos as int) == split(s@, sep@),
        decreases s.len() - pos,
    {
        if sep.len() > s.len() - pos {
            let last = slice_chars(s, seg, s.len());
            let ghost before = parts@;
            parts.push(last);
            assert(char_views(parts@) =~= char_views(before) + seq![last@]);
            return parts;
        }
        if matches_at(s, sep, pos) {
            let piece = slice_chars(s, seg, pos);
            let ghost before = parts@;
            parts.push(piece);
            assert(char_views(parts@) =~= char_views(before) + seq![piece@]);
            pos = pos + sep.len();
            seg = pos;
            assert(char_views(parts@) + split_from(s@, sep@, seg as int, pos as int) =~= char_views(before)
                + (seq![piece@] + split_from(s@, sep@, seg as int, pos as int)));
        } else {
            pos = pos + 1;
        }
    }
}

} // verus!

//! Character-level text handling shared by the parsers of the crate:
//! splitting on separator characters, trimming white space, and reading and
//! writing decimal numbers, each with the meaning the standard library gives
//! to its own operation of the same purpose.

use vstd::prelude::*;

verus! {

/// Appends one character to a string (`String::push`).
#[verifier::external_body]
pub(crate) fn push_char(s: &mut String, c: char)
    ensures
        final(s)@ == old(s)@.push(c),
{
    s.push(c);
}

/// The characters of `s`, in order.
pub fn chars_of(s: &str) -> (r: Vec<char>)
    ensures
        r@ == s@,
{
    let mut r: Vec<char> = Vec::new();
    for c in it: s.chars()
        invariant
            r@ == it.seq().take(it.index() as int),
            it.seq() == s@,
    {
        r.push(c);
    }
    r
}

/// A string holding exactly the characters `cs`.
pub fn string_of(cs: &[char]) -> (r: String)
    ensures
        r@ == cs@,
{
    let mut r = String::new();
    let n = cs.len();
    for i in 0..n
        invariant
            n == cs@.len(),
            r@ == cs@.take(i as int),
    {
        push_char(&mut r, cs[i]);
        assert(cs@.take(i + 1) == cs@.take(i as int).push(cs@[i as int]));
    }
    assert(cs@.take(n as int) == cs@);
    r
}

/// Appends the characters `cs` to `s`.
pub fn push_chars(s: &mut String, cs: &[char])
    ensures
        final(s)@ == old(s)@ + cs@,
{
    let n = cs.len();
    let ghost start = s@;
    for i in 0..n
        invariant
            n == cs@.len(),
            s@ == start + cs@.take(i as int),
    {
        push_char(s, cs[i]);
        assert(cs@.take(i + 1) == cs@.take(i as int).push(cs@[i as int]));
    }
    assert(cs@.take(n as int) == cs@);
}

// ---------------------------------------------------------------------------
// Splitting
// ---------------------------------------------------------------------------

/// The pieces of `s` between occurrences of any of the characters in `seps`,
/// as `str::split` yields them: there is always at least one piece, and two
/// adjacent separators give an empty piece.
pub open spec fn split_pieces(s: Seq<char>, seps: Seq<char>) -> Seq<Seq<char>>
    decreases s.len(),
{
    if s.len() == 0 {
        seq![Seq::<char>::empty()]
    } else {
        let before = split_pieces(s.drop_last(), seps);
        if seps.contains(s.last()) {
            before.push(Seq::<char>::empty())
        } else {
            before.update(before.len() - 1, before.last().push(s.last()))
        }
    }
}

/// `split_pieces` never yields an empty list.
pub proof fn lemma_split_pieces_nonempty(s: Seq<char>, seps: Seq<char>)
    ensures
        split_pieces(s, seps).len() >= 1,
    decreases s.len(),
{
    if s.len() > 0 {
        lemma_split_pieces_nonempty(s.drop_last(), seps);
    }
}

/// Whether `c` is one of `seps`.
pub fn is_one_of(c: char, seps: &[char]) -> (r: bool)
    ensures
        r == seps@.contains(c),
{
    let n = seps.len();
    for i in 0..n
        invariant
            n == seps@.len(),
            forall|j: int| 0 <= j < i ==> seps@[j] != c,
    {
        if seps[i] == c {
            return true;
        }
    }
    false
}

/// The texts held in `v`, in order.
pub open spec fn texts_of(v: Seq<Vec<char>>) -> Seq<Seq<char>> {
    v.map_values(|p: Vec<char>| p@)
}

/// Splits `s` at every character in `seps` (`str::split` with a character
/// set as the pattern).
pub fn split_chars(s: &[char], seps: &[char]) -> (r: Vec<Vec<char>>)
    ensures
        texts_of(r@) == split_pieces(s@, seps@),
{
    let mut pieces: Vec<Vec<char>> = Vec::new();
    pieces.push(Vec::new());
    let n = s.len();
    assert(s@.take(0) =~= Seq::<char>::empty());
    assert(texts_of(pieces@) =~= split_pieces(s@.take(0), seps@));
    for i in 0..n
        invariant
            n == s@.len(),
            texts_of(pieces@) == split_pieces(s@.take(i as int), seps@),
            pieces.len() >= 1,
    {
        let c = s[i];
        let ghost pre = s@.take(i as int);
        let ghost before = texts_of(pieces@);
        assert(s@.take(i + 1).drop_last() == pre);
        assert(s@.take(i + 1).last() == c);
        if is_one_of(c, seps) {
            pieces.push(Vec::new());
            assert(texts_of(pieces@) =~= before.push(Seq::<char>::empty()));
        } else {
            let mut piece = pieces.pop().unwrap();
            assert(piece@ == before.last());
            piece.push(c);
            pieces.push(piece);
            assert(texts_of(pieces@) =~= before.update(before.len() - 1, before.last().push(c)));
        }
    }
    assert(s@.take(n as int) == s@);
    pieces
}

/// Whether no part holds `sep`.
pub open spec fn free_of(parts: Seq<Seq<char>>, sep: char) -> bool {
    forall|i: int| 0 <= i < parts.len() ==> !(#[trigger] parts[i]).contains(sep)
}

/// A text without the separator is one piece.
pub proof fn lemma_split_plain(b: Seq<char>, sep: char)
    requires
        !b.contains(sep),
    ensures
        split_pieces(b, seq![sep]) == seq![b],
    decreases b.len(),
{
    let seps = seq![sep];
    if b.len() > 0 {
        let b2 = b.drop_last();
        assert(!b2.contains(sep)) by {
            if b2.contains(sep) {
                let k = choose|k: int| 0 <= k < b2.len() && b2[k] == sep;
                assert(b[k] == sep);
            }
        }
        lemma_split_plain(b2, sep);
        assert(!seps.contains(b.last())) by {
            assert(b[b.len() - 1] == b.last());
        }
        assert(b2.push(b.last()) =~= b);
        assert(split_pieces(b, seps) =~= seq![b]);
    } else {
        assert(b =~= Seq::<char>::empty());
    }
}

/// No piece of a split holds the separator.
pub proof fn lemma_split_free(s: Seq<char>, sep: char)
    ensures
        free_of(split_pieces(s, seq![sep]), sep),
    decreases s.len(),
{
    let seps = seq![sep];
    assert(seps[0] == sep);
    if s.len() > 0 {
        lemma_split_free(s.drop_last(), sep);
        lemma_split_pieces_nonempty(s.drop_last(), seps);
        let before = split_pieces(s.drop_last(), seps);
        let after = split_pieces(s, seps);
        if seps.contains(s.last()) {
            assert forall|i: int| 0 <= i < after.len() implies !(#[trigger] after[i]).contains(sep) by {
                if i < before.len() {
                    assert(after[i] == before[i]);
                } else {
                    assert(after[i] =~= Seq::<char>::empty());
                }
            }
        } else {
            assert(s.last() != sep);
            assert forall|i: int| 0 <= i < after.len() implies !(#[trigger] after[i]).contains(sep) by {
                if i < before.len() - 1 {
                    assert(after[i] == before[i]);
                } else {
                    let p = after[i];
                    assert(p == before.last().push(s.last()));
                    if p.contains(sep) {
                        let k = choose|k: int| 0 <= k < p.len() && p[k] == sep;
                        if k < p.len() - 1 {
                            assert(before.last()[k] == sep);
                            assert(before[before.len() - 1] == before.last());
                        }
                    }
                }
            }
        }
    }
}

// ---------------------------------------------------------------------------
// White space
// ---------------------------------------------------------------------------

/// The characters with the Unicode `White_Space` property, which is what
/// `char::is_whitespace` tests.
pub open spec fn is_white_space(c: char) -> bool {
    ||| ('\u{9}' <= c && c <= '\u{d}')
    ||| c == ' '
    ||| c == '\u{85}'
    ||| c == '\u{a0}'
    ||| c == '\u{1680}'
    ||| ('\u{2000}' <= c && c <= '\u{200a}')
    ||| c == '\u{2028}'
    ||| c == '\u{2029}'
    ||| c == '\u{202f}'
    ||| c == '\u{205f}'
    ||| c == '\u{3000}'
}

/// Among ASCII characters the white space is the space and the controls
/// tab, line feed, vertical tab, form feed and carriage return, as
/// `char::is_whitespace` documents; letters, digits and punctuation are not.
pub proof fn lemma_ascii_white_space(c: char)
    requires
        (c as nat) < 128,
    ensures
        is_white_space(c) <==> (c == ' ' || c == '\t' || c == '\n' || c == '\u{b}' || c == '\u{c}'
            || c == '\r'),
{
}

/// Executable test of `is_white_space`.
pub fn white_space(c: char) -> (r: bool)
    ensures
        r == is_white_space(c),
{
    ('\u{9}' <= c && c <= '\u{d}') || c == ' ' || c == '\u{85}' || c == '\u{a0}' || c
        == '\u{1680}' || ('\u{2000}' <= c && c <= '\u{200a}') || c == '\u{2028}' || c
        == '\u{2029}' || c == '\u{202f}' || c == '\u{205f}' || c == '\u{3000}'
}

/// `s` without its leading white space.
pub open spec fn trim_start(s: Seq<char>) -> Seq<char>
    decreases s.len(),
{
    if s.len() > 0 && is_white_space(s[0]) {
        trim_start(s.drop_first())
    } else {
        s
    }
}

/// `s` without its trailing white space.
pub open spec fn trim_end(s: Seq<char>) -> Seq<char>
    decreases s.len(),
{
    if s.len() > 0 && is_white_space(s.last()) {
        trim_end(s.drop_last())
    } else {
        s
    }
}

/// `s` without leading and trailing white space (`str::trim`).
pub open spec fn trimmed(s: Seq<char>) -> Seq<char> {
    trim_end(trim_start(s))
}

proof fn lemma_trim_start_from(s: Seq<char>, i: int)
    requires
        0 <= i <= s.len(),
        forall|j: int| 0 <= j < i ==> is_white_space(#[trigger] s[j]),
    ensures
        trim_start(s) == trim_start(s.subrange(i, s.len() as int)),
    decreases i,
{
    if i > 0 {
        assert(is_white_space(s[0]));
        lemma_trim_start_from(s.drop_first(), i - 1);
        assert(s.drop_first().subrange(i - 1, s.drop_first().len() as int) =~= s.subrange(
            i,
            s.len() as int,
        ));
    } else {
        assert(s.subrange(0, s.len() as int) =~= s);
    }
}

proof fn lemma_trim_end_to(s: Seq<char>, k: int)
    requires
        0 <= k <= s.len(),
        forall|j: int| k <= j < s.len() ==> is_white_space(#[trigger] s[j]),
    ensures
        trim_end(s) == trim_end(s.subrange(0, k)),
    decreases s.len() - k,
{
    if k < s.len() {
        assert(is_white_space(s.last()));
        lemma_trim_end_to(s.drop_last(), k);
        assert(s.drop_last().subrange(0, k) =~= s.subrange(0, k));
    } else {
        assert(s.subrange(0, k) =~= s);
    }
}

/// The characters of `s` without leading and trailing white space.
pub fn trim_chars(s: &[char]) -> (r: Vec<char>)
    ensures
        r@ == trimmed(s@),
{
    let n = s.len();
    let mut start: usize = 0;
    while start < n && white_space(s[start])
        invariant
            n == s@.len(),
            start <= n,
            forall|j: int| 0 <= j < start ==> is_white_space(#[trigger] s@[j]),
        decreases n - start,
    {
        start += 1;
    }
    proof {
        lemma_trim_start_from(s@, start as int);
    }
    let ghost rest = s@.subrange(start as int, n as int);
    assert(trim_start(rest) == rest);
    let mut end: usize = n;
    while end > start && white_space(s[end - 1])
        invariant
            n == s@.len(),
            start <= end <= n,
            forall|j: int| end <= j < n ==> is_white_space(#[trigger] s@[j]),
        decreases end,
    {
        end -= 1;
    }
    proof {
        lemma_trim_end_to(rest, end - start);
        assert(rest.subrange(0, end - start) =~= s@.subrange(start as int, end as int));
        let m = s@.subrange(start as int, end as int);
        assert(!(m.len() > 0 && is_white_space(m.last())));
    }
    let mut r: Vec<char> = Vec::new();
    for i in start..end
        invariant
            start <= end <= n,
            n == s@.len(),
            r@ == s@.subrange(start as int, i as int),
    {
        r.push(s[i]);
        assert(s@.subrange(start as int, i + 1) == s@.subrange(start as int, i as int).push(
            s@[i as int],
        ));
    }
    r
}

/// The first line of `s` with white space trimmed, or an empty text where
/// `s` is empty: what `s.lines().next().unwrap_or("").trim()` gives (the
/// carriage return that `lines` removes is white space, so `trim` removes it
/// too).
pub open spec fn first_line_trimmed(s: Seq<char>) -> Seq<char> {
    trimmed(split_pieces(s, seq!['\n'])[0])
}

/// Trimming removes white space at the two ends and nothing else: a text
/// that neither starts nor ends in white space comes back whole, however much
/// white space surrounds it, interior spaces included.
pub proof fn lemma_trimmed_keeps_inner(pad1: Seq<char>, line: Seq<char>, pad2: Seq<char>)
    requires
        forall|i: int| 0 <= i < pad1.len() ==> is_white_space(#[trigger] pad1[i]),
        forall|i: int| 0 <= i < pad2.len() ==> is_white_space(#[trigger] pad2[i]),
        line.len() > 0 ==> !is_white_space(line[0]) && !is_white_space(line.last()),
    ensures
        trimmed(pad1 + line + pad2) == line,
{
    let s = pad1 + line + pad2;
    let lb = line + pad2;
    assert forall|j: int| 0 <= j < pad1.len() implies is_white_space(#[trigger] s[j]) by {
        assert(s[j] == pad1[j]);
    }
    lemma_trim_start_from(s, pad1.len() as int);
    assert(s.subrange(pad1.len() as int, s.len() as int) =~= lb);
    if line.len() > 0 {
        assert(lb[0] == line[0]);
        assert(trim_start(lb) == lb);
    } else {
        assert(lb =~= pad2);
        lemma_trim_start_from(pad2, pad2.len() as int);
        assert(pad2.subrange(pad2.len() as int, pad2.len() as int) =~= Seq::<char>::empty());
    }
    if line.len() > 0 {
        assert forall|j: int| line.len() <= j < lb.len() implies is_white_space(#[trigger] lb[j]) by {
            assert(lb[j] == pad2[j - line.len()]);
        }
        lemma_trim_end_to(lb, line.len() as int);
        assert(lb.subrange(0, line.len() as int) =~= line);
    }
}

/// Splitting a longer text keeps the first piece, once the shorter one has
/// been cut at a separator.
proof fn lemma_split_first_kept(a: Seq<char>, b: Seq<char>, seps: Seq<char>)
    requires
        split_pieces(a, seps).len() >= 2,
    ensures
        split_pieces(a + b, seps).len() >= 2,
        split_pieces(a + b, seps)[0] == split_pieces(a, seps)[0],
    decreases b.len(),
{
    if b.len() == 0 {
        assert(a + b =~= a);
    } else {
        lemma_split_first_kept(a, b.drop_last(), seps);
        assert((a + b).drop_last() =~= a + b.drop_last());
        assert((a + b).last() == b.last());
    }
}

/// The first line of a text is what comes before its first line break; with
/// none, the whole text.
pub proof fn lemma_first_line_piece(line: Seq<char>, rest: Seq<char>)
    requires
        !line.contains('\n'),
    ensures
        split_pieces(line, seq!['\n'])[0] == line,
        split_pieces(line + seq!['\n'] + rest, seq!['\n'])[0] == line,
{
    lemma_split_plain(line, '\n');
    let a = line + seq!['\n'];
    assert(a.drop_last() =~= line);
    assert(seq!['\n'].contains(a.last())) by {
        assert(seq!['\n'][0] == '\n');
    }
    assert(split_pieces(a, seq!['\n']) == seq![line].push(Seq::<char>::empty()));
    lemma_split_first_kept(a, rest, seq!['\n']);
}

/// The first line of a program's output, trimmed, is the text of that line
/// without the white space around it (a carriage return included), whatever
/// follows the line break and whatever spaces the line holds inside.
pub proof fn lemma_first_line_trimmed_of_output(
    pad1: Seq<char>,
    line: Seq<char>,
    pad2: Seq<char>,
    rest: Seq<char>,
)
    requires
        forall|i: int| 0 <= i < pad1.len() ==> is_white_space(#[trigger] pad1[i]) && pad1[i]
            != '\n',
        forall|i: int| 0 <= i < pad2.len() ==> is_white_space(#[trigger] pad2[i]) && pad2[i]
            != '\n',
        !line.contains('\n'),
        line.len() > 0 ==> !is_white_space(line[0]) && !is_white_space(line.last()),
    ensures
        first_line_trimmed(pad1 + line + pad2 + seq!['\n'] + rest) == line,
        first_line_trimmed(pad1 + line + pad2) == line,
{
    let whole = pad1 + line + pad2;
    assert(!whole.contains('\n')) by {
        if whole.contains('\n') {
            let k = choose|k: int| 0 <= k < whole.len() && whole[k] == '\n';
            if k < pad1.len() {
                assert(whole[k] == pad1[k]);
            } else if k < pad1.len() + line.len() {
                assert(whole[k] == line[k - pad1.len()]);
            } else {
                assert(whole[k] == pad2[k - pad1.len() - line.len()]);
            }
        }
    }
    lemma_first_line_piece(whole, rest);
    lemma_trimmed_keeps_inner(pad1, line, pad2);
}

/// Whether no character of `s` is one of `seps`.
pub open spec fn free_of_seps(s: Seq<char>, seps: Seq<char>) -> bool {
    forall|i: int| 0 <= i < s.len() ==> !seps.contains(#[trigger] s[i])
}

/// A text holding no separator is a single piece.
pub proof fn lemma_split_unbroken(b: Seq<char>, seps: Seq<char>)
    requires
        free_of_seps(b, seps),
    ensures
        split_pieces(b, seps) == seq![b],
    decreases b.len(),
{
    if b.len() > 0 {
        let b2 = b.drop_last();
        assert(free_of_seps(b2, seps)) by {
            assert forall|i: int| 0 <= i < b2.len() implies !seps.contains(#[trigger] b2[i]) by {
                assert(b2[i] == b[i]);
            }
        }
        lemma_split_unbroken(b2, seps);
        assert(!seps.contains(b[b.len() - 1]));
        assert(b2.push(b.last()) =~= b);
    } else {
        assert(b =~= Seq::<char>::empty());
    }
}

/// Appending a separator and a text holding none adds that text as one more
/// piece.
pub proof fn lemma_split_after(a: Seq<char>, c: char, b: Seq<char>, seps: Seq<char>)
    requires
        seps.contains(c),
        free_of_seps(b, seps),
    ensures
        split_pieces(a + seq![c] + b, seps) == split_pieces(a, seps).push(b),
    decreases b.len(),
{
    if b.len() == 0 {
        assert((a + seq![c] + b).drop_last() =~= a);
        assert((a + seq![c] + b).last() == c);
        assert(b =~= Seq::<char>::empty());
    } else {
        let b2 = b.drop_last();
        assert(free_of_seps(b2, seps)) by {
            assert forall|i: int| 0 <= i < b2.len() implies !seps.contains(#[trigger] b2[i]) by {
                assert(b2[i] == b[i]);
            }
        }
        lemma_split_after(a, c, b2, seps);
        assert((a + seq![c] + b).drop_last() =~= a + seq![c] + b2);
        assert((a + seq![c] + b).last() == b.last());
        assert(!seps.contains(b[b.len() - 1]));
        assert(b2.push(b.last()) =~= b);
        assert(split_pieces(a + seq![c] + b, seps) =~= split_pieces(a, seps).push(b));
    }
}

/// What follows the first separator does not change the first piece.
pub proof fn lemma_split_first_piece(a: Seq<char>, c: char, rest: Seq<char>, seps: Seq<char>)
    requires
        seps.contains(c),
        free_of_seps(a, seps),
    ensures
        split_pieces(a + seq![c] + rest, seps)[0] == a,
{
    lemma_split_unbroken(a, seps);
    lemma_split_after(a, c, Seq::<char>::empty(), seps);
    assert(a + seq![c] + Seq::<char>::empty() =~= a + seq![c]);
    lemma_split_first_kept(a + seq![c], rest, seps);
}

/// A non-empty run of decimal digits is read as the number it spells, by
/// `parse::<u32>` and by `parse::<i32>` alike, where that number fits.
pub proof fn lemma_parse_digits(s: Seq<char>)
    requires
        s.len() > 0,
        all_digits(s),
    ensures
        digits_value(s) <= u32::MAX ==> parse_u32_spec(s) == Some(digits_value(s) as u32),
        digits_value(s) <= i32::MAX ==> parse_i32_spec(s) == Some(digits_value(s) as i32),
{
    assert(is_digit(s[0]));
}

/// Executable `first_line_trimmed`.
pub fn first_line_trim(s: &str) -> (r: String)
    ensures
        r@ == first_line_trimmed(s@),
{
    let cs = chars_of(s);
    let seps = ['\n'];
    let pieces = split_chars(cs.as_slice(), &seps);
    proof {
        lemma_split_pieces_nonempty(s@, seq!['\n']);
        assert(seps@ == seq!['\n']);
    }
    assert(pieces[0]@ == split_pieces(s@, seq!['\n'])[0]);
    let t = trim_chars(pieces[0].as_slice());
    string_of(t.as_slice())
}

// ---------------------------------------------------------------------------
// Decimal numbers
// ---------------------------------------------------------------------------

/// Whether `c` is an ASCII decimal digit.
pub open spec fn is_digit(c: char) -> bool {
    '0' <= c && c <= '9'
}

/// The value of a decimal digit.
pub open spec fn digit_value(c: char) -> nat {
    (c as nat - '0' as nat) as nat
}

/// Whether every character of `s` is a decimal digit.
pub open spec fn all_digits(s: Seq<char>) -> bool {
    forall|i: int| 0 <= i < s.len() ==> is_digit(#[trigger] s[i])
}

/// The number that the digits `s` spell, most significant first.
pub open spec fn digits_value(s: Seq<char>) -> nat
    decreases s.len(),
{
    if s.len() == 0 {
        0
    } else {
        digits_value(s.drop_last()) * 10 + digit_value(s.last())
    }
}

/// The value of an unsigned decimal text with an optional leading `+`, or
/// `None` where the text is not of that form.
pub open spec fn unsigned_text_value(s: Seq<char>) -> Option<nat> {
    let body = if s.len() > 0 && s[0] == '+' {
        s.drop_first()
    } else {
        s
    };
    if body.len() > 0 && all_digits(body) {
        Some(digits_value(body))
    } else {
        None
    }
}

/// What `str::parse::<u32>` gives: the value of an optional `+` followed by
/// at least one decimal digit, where it fits in a `u32`.
pub open spec fn parse_u32_spec(s: Seq<char>) -> Option<u32> {
    match unsigned_text_value(s) {
        Some(v) => if v <= u32::MAX {
            Some(v as u32)
        } else {
            None
        },
        None => None,
    }
}

/// What `str::parse::<i32>` gives: the value of an optional sign followed by
/// at least one decimal digit, where it fits in an `i32`.
pub open spec fn parse_i32_spec(s: Seq<char>) -> Option<i32> {
    if s.len() > 0 && s[0] == '-' {
        let body = s.drop_first();
        if body.len() > 0 && all_digits(body) && digits_value(body) <= 0x8000_0000 {
            Some((0 - digits_value(body)) as i32)
        } else {
            None
        }
    } else {
        match unsigned_text_value(s) {
            Some(v) => if v <= i32::MAX {
                Some(v as i32)
            } else {
                None
            },
            None => None,
        }
    }
}

/// Reads the digits `s[from..]`: `Some(v)` where all of them are digits and
/// their value `v` is at most `limit`, `None` otherwise.
fn digits_at_most(s: &[char], from: usize, limit: u64) -> (r: Option<u64>)
    requires
        from <= s@.len(),
        limit < 0x1_0000_0000,
    ensures
        ({
            let body = s@.subrange(from as int, s@.len() as int);
            match r {
                Some(v) => all_digits(body) && v == digits_value(body) && v <= limit,
                None => !all_digits(body) || digits_value(body) > limit,
            }
        }),
{
    let n = s.len();
    // `acc` is the value read so far, held at `limit + 1` once it passes `limit`.
    let mut acc: u64 = 0;
    let mut i = from;
    while i < n
        invariant
            from <= i <= n,
            n == s@.len(),
            limit < 0x1_0000_0000,
            all_digits(s@.subrange(from as int, i as int)),
            acc == if digits_value(s@.subrange(from as int, i as int)) <= limit {
                digits_value(s@.subrange(from as int, i as int))
            } else {
                (limit + 1) as nat
            },
        decreases n - i,
    {
        let c = s[i];
        if !('0' <= c && c <= '9') {
            assert(s@.subrange(from as int, n as int)[i - from] == c);
            return None;
        }
        let d = (c as u32 - '0' as u32) as u64;
        let ghost pre = s@.subrange(from as int, i as int);
        let ghost next = s@.subrange(from as int, i + 1);
        assert(next.drop_last() == pre);
        assert(next.last() == c);
        assert(digits_value(next) == digits_value(pre) * 10 + d);
        let v = acc * 10 + d;
        if v > limit {
            acc = limit + 1;
        } else {
            acc = v;
        }
        assert(all_digits(next)) by {
            assert forall|k: int| 0 <= k < next.len() implies is_digit(#[trigger] next[k]) by {
                if k < pre.len() {
                    assert(next[k] == pre[k]);
                }
            }
        }
        i += 1;
    }
    if acc > limit {
        None
    } else {
        Some(acc)
    }
}

/// Parses a `u32` as `str::parse::<u32>` does.
pub fn parse_u32(s: &[char]) -> (r: Option<u32>)
    ensures
        r == parse_u32_spec(s@),
{
    let n = s.len();
    let from: usize = if n > 0 && s[0] == '+' {
        1
    } else {
        0
    };
    if from == n {
        return None;
    }
    let ghost body = s@.subrange(from as int, n as int);
    assert(body == (if s@.len() > 0 && s@[0] == '+' {
        s@.drop_first()
    } else {
        s@
    }));
    match digits_at_most(s, from, 0xFFFF_FFFF) {
        Some(v) => Some(v as u32),
        None => None,
    }
}

/// Parses an `i32` as `str::parse::<i32>` does.
pub fn parse_i32(s: &[char]) -> (r: Option<i32>)
    ensures
        r == parse_i32_spec(s@),
{
    let n = s.len();
    if n > 0 && s[0] == '-' {
        if n == 1 {
            return None;
        }
        assert(s@.subrange(1, n as int) == s@.drop_first());
        match digits_at_most(s, 1, 0x8000_0000) {
            Some(v) => {
                let r = (0i64 - v as i64) as i32;
                Some(r)
            },
            None => None,
        }
    } else {
        let from: usize = if n > 0 && s[0] == '+' {
            1
        } else {
            0
        };
        if from == n {
            return None;
        }
        let ghost body = s@.subrange(from as int, n as int);
        assert(body == (if s@.len() > 0 && s@[0] == '+' {
            s@.drop_first()
        } else {
            s@
        }));
        match digits_at_most(s, from, 0x7FFF_FFFF) {
            Some(v) => Some(v as i32),
            None => None,
        }
    }
}

/// The decimal digit character of `d < 10`.
pub open spec fn digit_char(d: nat) -> char {
    (d + '0' as nat) as char
}

/// The decimal text of `n` without leading zeros (`n.to_string()`).
pub open spec fn decimal(n: nat) -> Seq<char>
    decreases n,
{
    if n < 10 {
        seq![digit_char(n)]
    } else {
        decimal(n / 10).push(digit_char(n % 10))
    }
}

/// Appends the decimal text of `n` to `s`.
pub fn push_decimal(s: &mut String, n: u64)
    ensures
        final(s)@ == old(s)@ + decimal(n as nat),
    decreases n,
{
    let ghost start = s@;
    if n >= 10 {
        push_decimal(s, n / 10);
    }
    let d = n % 10;
    let c: char = if d == 0 {
        '0'
    } else if d == 1 {
        '1'
    } else if d == 2 {
        '2'
    } else if d == 3 {
        '3'
    } else if d == 4 {
        '4'
    } else if d == 5 {
        '5'
    } else if d == 6 {
        '6'
    } else if d == 7 {
        '7'
    } else if d == 8 {
        '8'
    } else {
        '9'
    };
    assert(c == digit_char(d as nat));
    push_char(s, c);
    assert(s@ =~= start + decimal(n as nat));
}

/// The decimal text of `n` spells `n` in digits.
pub proof fn lemma_decimal_value(n: nat)
    ensures
        all_digits(decimal(n)),
        decimal(n).len() >= 1,
        digits_value(decimal(n)) == n,
    decreases n,
{
    if n >= 10 {
        lemma_decimal_value(n / 10);
        let d = decimal(n);
        assert(digit_value(digit_char(n % 10)) == n % 10);
        assert(digits_value(d) == digits_value(d.drop_last()) * 10 + digit_value(d.last()));
        assert(d.drop_last() == decimal(n / 10));
        assert forall|i: int| 0 <= i < d.len() implies is_digit(#[trigger] d[i]) by {
            if i < d.len() - 1 {
                assert(d[i] == decimal(n / 10)[i]);
            }
        }
    } else {
        let d = decimal(n);
        assert(digit_value(digit_char(n)) == n);
        assert(d.drop_last() =~= Seq::<char>::empty());
        assert(digits_value(d) == digits_value(d.drop_last()) * 10 + digit_value(d.last()));
    }
}

/// Two numbers with the same decimal text are equal.
pub proof fn lemma_decimal_injective(a: nat, b: nat)
    requires
        decimal(a) == decimal(b),
    ensures
        a == b,
{
    lemma_decimal_value(a);
    lemma_decimal_value(b);
}

} // verus!

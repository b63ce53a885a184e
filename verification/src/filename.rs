//! File names: the stem and the extension of a file name as
//! `std::path::Path` reads them, and the names tried in turn when a file name
//! is already taken. The crate applies these to single path components (file
//! names as the system gives them), which hold no separator on any system;
//! `file_name` itself splits at `/`, the separator of Unix paths.

use vstd::prelude::*;
use crate::text::{
    chars_of, decimal, lemma_decimal_value, lemma_split_free, lemma_split_plain, free_of, is_digit, lemma_decimal_injective, lemma_split_pieces_nonempty, push_chars,
    push_char, push_decimal, split_chars, split_pieces, string_of, texts_of,
};

verus! {

/// The last piece of `pieces` that is neither empty nor `.`.
pub open spec fn last_component(pieces: Seq<Seq<char>>) -> Option<Seq<char>>
    decreases pieces.len(),
{
    if pieces.len() == 0 {
        None
    } else if pieces.last().len() == 0 || pieces.last() == seq!['.'] {
        last_component(pieces.drop_last())
    } else {
        Some(pieces.last())
    }
}

/// The final component of a path (`Path::file_name`): `None` where the path
/// ends in `..` or has no normal component.
pub open spec fn file_name_of(path: Seq<char>) -> Option<Seq<char>> {
    match last_component(split_pieces(path, seq!['/'])) {
        Some(c) => if c == seq!['.', '.'] {
            None
        } else {
            Some(c)
        },
        None => None,
    }
}

/// The index of the last `c` in `s`, or -1 where `s` holds none.
pub open spec fn last_index_of(s: Seq<char>, c: char) -> int
    decreases s.len(),
{
    if s.len() == 0 {
        -1
    } else if s.last() == c {
        s.len() - 1
    } else {
        last_index_of(s.drop_last(), c)
    }
}

/// The stem of a path's file name (`Path::file_stem`): the file name up to
/// its last `.`, or all of it where it has no `.` after its first character.
pub open spec fn stem_of(path: Seq<char>) -> Option<Seq<char>> {
    match file_name_of(path) {
        Some(f) => if last_index_of(f, '.') <= 0 {
            Some(f)
        } else {
            Some(f.take(last_index_of(f, '.')))
        },
        None => None,
    }
}

/// The extension of a path's file name (`Path::extension`): what follows the
/// last `.` of the file name, where that `.` is not its first character.
pub open spec fn extension_of(path: Seq<char>) -> Option<Seq<char>> {
    match file_name_of(path) {
        Some(f) => if last_index_of(f, '.') <= 0 {
            None
        } else {
            Some(f.skip(last_index_of(f, '.') + 1))
        },
        None => None,
    }
}

/// Executable `last_component`, on the pieces of a path.
fn last_component_exec(pieces: &Vec<Vec<char>>) -> (r: Option<usize>)
    ensures
        match r {
            Some(i) => i < pieces@.len() && last_component(texts_of(pieces@)) == Some(
                pieces@[i as int]@,
            ),
            None => last_component(texts_of(pieces@)) is None,
        },
{
    let ghost p = texts_of(pieces@);
    let mut i = pieces.len();
    assert(p.take(i as int) =~= p);
    while i > 0
        invariant
            i <= pieces@.len(),
            p == texts_of(pieces@),
            last_component(p) == last_component(p.take(i as int)),
        decreases i,
    {
        let piece = &pieces[i - 1];
        assert(p.take(i as int).last() == piece@);
        assert(p.take(i as int).drop_last() == p.take(i - 1));
        if piece.len() == 0 {
        } else if piece.len() == 1 && piece[0] == '.' {
            assert(piece@ == seq!['.']);
        } else {
            assert(piece@ != seq!['.']);
            return Some(i - 1);
        }
        i -= 1;
    }
    assert(p.take(0) =~= Seq::<Seq<char>>::empty());
    None
}

/// The final component of a path (`Path::file_name`).
pub fn file_name(path: &str) -> (r: Option<String>)
    ensures
        match r {
            Some(s) => file_name_of(path@) == Some(s@),
            None => file_name_of(path@) is None,
        },
{
    let cs = chars_of(path);
    let seps = ['/'];
    assert(seps@ == seq!['/']);
    let pieces = split_chars(cs.as_slice(), &seps);
    match last_component_exec(&pieces) {
        Some(i) => {
            let c = &pieces[i];
            if c.len() == 2 && c[0] == '.' && c[1] == '.' {
                assert(c@ == seq!['.', '.']);
                None
            } else {
                assert(c@ != seq!['.', '.']);
                Some(string_of(c.as_slice()))
            }
        },
        None => None,
    }
}

/// The index of the last `c` in `s`, or `None`.
fn last_index(s: &[char], c: char) -> (r: Option<usize>)
    ensures
        match r {
            Some(i) => i < s@.len() && last_index_of(s@, c) == i,
            None => last_index_of(s@, c) == -1,
        },
{
    let mut i = s.len();
    assert(s@.take(i as int) =~= s@);
    while i > 0
        invariant
            i <= s@.len(),
            last_index_of(s@, c) == last_index_of(s@.take(i as int), c),
        decreases i,
    {
        assert(s@.take(i as int).last() == s@[i - 1]);
        assert(s@.take(i as int).drop_last() == s@.take(i - 1));
        if s[i - 1] == c {
            return Some(i - 1);
        }
        i -= 1;
    }
    assert(s@.take(0) =~= Seq::<char>::empty());
    None
}

/// The stem and the extension of a path's file name
/// (`Path::file_stem` and `Path::extension`).
pub fn stem_and_extension(path: &str) -> (r: (Option<String>, Option<String>))
    ensures
        match r.0 {
            Some(s) => stem_of(path@) == Some(s@),
            None => stem_of(path@) is None,
        },
        match r.1 {
            Some(s) => extension_of(path@) == Some(s@),
            None => extension_of(path@) is None,
        },
{
    match file_name(path) {
        Some(f) => {
            let cs = chars_of(f.as_str());
            match last_index(cs.as_slice(), '.') {
                Some(k) => {
                    if k == 0 {
                        (Some(f), None)
                    } else {
                        let mut stem: Vec<char> = Vec::new();
                        for i in 0..k
                            invariant
                                k < cs@.len(),
                                stem@ == cs@.take(i as int),
                        {
                            stem.push(cs[i]);
                            assert(cs@.take(i + 1) == cs@.take(i as int).push(cs@[i as int]));
                        }
                        let mut ext: Vec<char> = Vec::new();
                        let n = cs.len();
                        for i in k + 1..n
                            invariant
                                k < n,
                                n == cs@.len(),
                                ext@ == cs@.subrange(k + 1, i as int),
                        {
                            ext.push(cs[i]);
                            assert(cs@.subrange(k + 1, i + 1) == cs@.subrange(k + 1, i as int).push(
                                cs@[i as int],
                            ));
                        }
                        assert(cs@.skip(k + 1) == cs@.subrange(k + 1, n as int));
                        (Some(string_of(stem.as_slice())), Some(string_of(ext.as_slice())))
                    }
                },
                None => (Some(f), None),
            }
        },
        None => (None, None),
    }
}

/// The highest counter that the search for a free file name tries.
pub open spec fn max_name_counter() -> nat {
    10000
}

/// The name tried for the file `original_name` at `counter`: the name
/// itself at 0, and `stem_counter.extension` (or `stem_counter` where the
/// extension is empty) after that, with `file` standing for a missing stem.
pub open spec fn unique_name_candidate_spec(original_name: Seq<char>, counter: nat) -> Seq<char> {
    if counter == 0 {
        original_name
    } else {
        let stem = match stem_of(original_name) {
            Some(s) => s,
            None => "file"@,
        };
        let ext = match extension_of(original_name) {
            Some(e) => e,
            None => Seq::<char>::empty(),
        };
        if ext.len() == 0 {
            stem + seq!['_'] + decimal(counter)
        } else {
            stem + seq!['_'] + decimal(counter) + seq!['.'] + ext
        }
    }
}

/// The name tried for the file `original_name` at `counter`.
pub fn unique_name_candidate(original_name: &str, counter: u32) -> (r: String)
    ensures
        r@ == unique_name_candidate_spec(original_name@, counter as nat),
{
    if counter == 0 {
        return String::from_str(original_name);
    }
    let (stem, ext) = stem_and_extension(original_name);
    let mut r = match stem {
        Some(s) => s,
        None => String::from_str("file"),
    };
    push_char(&mut r, '_');
    push_decimal(&mut r, counter as u64);
    match ext {
        Some(e) => {
            if e.as_str().unicode_len() > 0 {
                push_char(&mut r, '.');
                let ecs = chars_of(e.as_str());
                push_chars(&mut r, ecs.as_slice());
            }
        },
        None => {},
    }
    r
}

/// The outcome of a search for a free file name that both reaches the
/// counter `counter` and goes on from there, where `taken` tells which names
/// are taken: the first candidate from `counter` on that is free, or `None`
/// where every candidate up to the last counter is taken.
pub open spec fn first_free_from(
    original_name: Seq<char>,
    taken: spec_fn(Seq<char>) -> bool,
    counter: nat,
) -> Option<Seq<char>>
    decreases max_name_counter() - counter,
{
    if !taken(unique_name_candidate_spec(original_name, counter)) {
        Some(unique_name_candidate_spec(original_name, counter))
    } else if counter >= max_name_counter() {
        None
    } else {
        first_free_from(original_name, taken, counter + 1)
    }
}

/// The free-name search ends with the first candidate that is not taken, and
/// gives up only where every candidate from the start counter up to the last
/// one is taken.
pub proof fn lemma_search_finds_first_free(
    original_name: Seq<char>,
    taken: spec_fn(Seq<char>) -> bool,
    counter: nat,
)
    requires
        counter <= max_name_counter(),
    ensures
        match first_free_from(original_name, taken, counter) {
            Some(name) => exists|j: nat|
                counter <= j <= max_name_counter() && name == unique_name_candidate_spec(
                    original_name,
                    j,
                ) && !taken(name) && forall|i: nat|
                    counter <= i < j ==> #[trigger] taken(
                        unique_name_candidate_spec(original_name, i),
                    ),
            None => forall|i: nat|
                counter <= i <= max_name_counter() ==> #[trigger] taken(
                    unique_name_candidate_spec(original_name, i),
                ),
        },
    decreases max_name_counter() - counter,
{
    if !taken(unique_name_candidate_spec(original_name, counter)) {
        let j = counter;
        assert(forall|i: nat| counter <= i < j ==> #[trigger] taken(
            unique_name_candidate_spec(original_name, i),
        ));
    } else if counter < max_name_counter() {
        lemma_search_finds_first_free(original_name, taken, counter + 1);
        match first_free_from(original_name, taken, counter + 1) {
            Some(name) => {
                let j = choose|j: nat|
                    counter + 1 <= j <= max_name_counter() && name == unique_name_candidate_spec(
                        original_name,
                        j,
                    ) && !taken(name) && forall|i: nat|
                        counter + 1 <= i < j ==> #[trigger] taken(
                            unique_name_candidate_spec(original_name, i),
                        );
                assert forall|i: nat| counter <= i < j implies #[trigger] taken(
                    unique_name_candidate_spec(original_name, i),
                ) by {
                    if i > counter {
                        assert(counter + 1 <= i < j);
                    }
                }
            },
            None => {
                assert forall|i: nat| counter <= i <= max_name_counter() implies #[trigger] taken(
                    unique_name_candidate_spec(original_name, i),
                ) by {
                    if i > counter {
                        assert(counter + 1 <= i <= max_name_counter());
                    }
                }
            },
        }
    } else {
        assert forall|i: nat| counter <= i <= max_name_counter() implies #[trigger] taken(
            unique_name_candidate_spec(original_name, i),
        ) by {
            assert(i == counter);
        }
    }
}

proof fn lemma_last_index_bounds(s: Seq<char>, c: char)
    ensures
        -1 <= last_index_of(s, c) < s.len(),
        last_index_of(s, c) >= 0 ==> s[last_index_of(s, c)] == c,
    decreases s.len(),
{
    if s.len() > 0 && s.last() != c {
        lemma_last_index_bounds(s.drop_last(), c);
    }
}

proof fn lemma_last_component_member(ps: Seq<Seq<char>>)
    ensures
        last_component(ps) matches Some(p) ==> exists|i: int| 0 <= i < ps.len() && ps[i] == p,
    decreases ps.len(),
{
    if ps.len() > 0 {
        lemma_last_component_member(ps.drop_last());
        if last_component(ps) is Some && (ps.last().len() == 0 || ps.last() == seq!['.']) {
            let p = last_component(ps)->0;
            let i = choose|i: int| 0 <= i < ps.drop_last().len() && ps.drop_last()[i] == p;
            assert(ps[i] == p);
        } else if ps.len() > 0 {
            assert(ps[ps.len() - 1] == ps.last());
        }
    }
}

proof fn lemma_file_name_has_no_slash(path: Seq<char>)
    ensures
        file_name_of(path) matches Some(f) ==> !f.contains('/'),
{
    let ps = split_pieces(path, seq!['/']);
    lemma_split_free(path, '/');
    lemma_last_component_member(ps);
    if let Some(f) = file_name_of(path) {
        let i = choose|i: int| 0 <= i < ps.len() && ps[i] == f;
        assert(!ps[i].contains('/'));
    }
}

proof fn lemma_slash_free_concat(a: Seq<char>, b: Seq<char>)
    requires
        !a.contains('/'),
        !b.contains('/'),
    ensures
        !(a + b).contains('/'),
{
    let ab = a + b;
    if ab.contains('/') {
        let k = choose|k: int| 0 <= k < ab.len() && ab[k] == '/';
        if k < a.len() {
            assert(a[k] == '/');
        } else {
            assert(b[k - a.len()] == '/');
        }
    }
}

proof fn lemma_subrange_slash_free(a: Seq<char>, i: int, j: int)
    requires
        !a.contains('/'),
        0 <= i <= j <= a.len(),
    ensures
        !a.subrange(i, j).contains('/'),
{
    let b = a.subrange(i, j);
    if b.contains('/') {
        let k = choose|k: int| 0 <= k < b.len() && b[k] == '/';
        assert(a[i + k] == '/');
    }
}

/// A renamed candidate is never the file name it stands for, so that with
/// the name itself first the search never tries one name twice.
pub proof fn lemma_renamed_differs(original_name: Seq<char>, j: nat)
    requires
        1 <= j,
    ensures
        unique_name_candidate_spec(original_name, j) != original_name,
{
    reveal_strlit("file");
    let o = original_name;
    let c = unique_name_candidate_spec(o, j);
    let stem = match stem_of(o) {
        Some(s) => s,
        None => "file"@,
    };
    let ext = match extension_of(o) {
        Some(e) => e,
        None => Seq::<char>::empty(),
    };
    let tail = if ext.len() == 0 {
        Seq::<char>::empty()
    } else {
        seq!['.'] + ext
    };
    assert(c == stem + seq!['_'] + decimal(j) + tail);
    lemma_decimal_value(j);
    lemma_file_name_has_no_slash(o);
    if let Some(f) = file_name_of(o) {
        lemma_last_index_bounds(f, '.');
    }
    if o.contains('/') {
        assert(!stem.contains('/')) by {
            if let Some(f) = file_name_of(o) {
                let k = last_index_of(f, '.');
                if k > 0 {
                    lemma_subrange_slash_free(f, 0, k);
                    assert(f.take(k) == f.subrange(0, k));
                }
            } else {
                assert("file"@ == seq!['f', 'i', 'l', 'e']);
                if stem.contains('/') {
                    let k = choose|k: int| 0 <= k < stem.len() && stem[k] == '/';
                }
            }
        }
        assert(!ext.contains('/')) by {
            if let Some(f) = file_name_of(o) {
                let k = last_index_of(f, '.');
                if k > 0 {
                    lemma_subrange_slash_free(f, k + 1, f.len() as int);
                    assert(f.skip(k + 1) == f.subrange(k + 1, f.len() as int));
                }
            }
        }
        let d = decimal(j);
        assert(!d.contains('/')) by {
            if d.contains('/') {
                let k = choose|k: int| 0 <= k < d.len() && d[k] == '/';
                assert(is_digit(d[k]));
            }
        }
        assert(!seq!['_'].contains('/')) by {
            if seq!['_'].contains('/') {
                let k = choose|k: int| 0 <= k < seq!['_'].len() && seq!['_'][k] == '/';
            }
        }
        assert(!tail.contains('/')) by {
            if ext.len() > 0 {
                assert(!seq!['.'].contains('/')) by {
                    if seq!['.'].contains('/') {
                        let k = choose|k: int| 0 <= k < seq!['.'].len() && seq!['.'][k] == '/';
                    }
                }
                lemma_slash_free_concat(seq!['.'], ext);
            } else {
                assert(tail.len() == 0);
            }
        }
        lemma_slash_free_concat(stem, seq!['_']);
        lemma_slash_free_concat(stem + seq!['_'], d);
        lemma_slash_free_concat(stem + seq!['_'] + d, tail);
    } else {
        lemma_split_plain(o, '/');
        let ps = split_pieces(o, seq!['/']);
        assert(ps == seq![o]);
        assert(ps.drop_last() =~= Seq::<Seq<char>>::empty());
        assert(c.len() > o.len());
    }
}

/// The candidates of a file name are pairwise distinct, so that the search
/// never tries one name twice.
pub proof fn lemma_candidates_distinct(original_name: Seq<char>, i: nat, j: nat)
    requires
        i != j,
    ensures
        unique_name_candidate_spec(original_name, i) != unique_name_candidate_spec(
            original_name,
            j,
        ),
{
    if i == 0 {
        lemma_renamed_differs(original_name, j);
    } else if j == 0 {
        lemma_renamed_differs(original_name, i);
    } else {
        lemma_renamed_distinct(original_name, i, j);
    }
}

proof fn lemma_renamed_distinct(original_name: Seq<char>, i: nat, j: nat)
    requires
        1 <= i,
        1 <= j,
        i != j,
    ensures
        unique_name_candidate_spec(original_name, i) != unique_name_candidate_spec(
            original_name,
            j,
        ),
{
    let stem = match stem_of(original_name) {
        Some(s) => s,
        None => "file"@,
    };
    let ext = match extension_of(original_name) {
        Some(e) => e,
        None => Seq::<char>::empty(),
    };
    let tail = if ext.len() == 0 {
        Seq::<char>::empty()
    } else {
        seq!['.'] + ext
    };
    let a = unique_name_candidate_spec(original_name, i);
    let b = unique_name_candidate_spec(original_name, j);
    assert(a == stem + seq!['_'] + decimal(i) + tail);
    assert(b == stem + seq!['_'] + decimal(j) + tail);
    if a == b {
        let p: int = stem.len() + 1int;
        if decimal(i).len() == decimal(j).len() {
            assert(a.subrange(p, p + decimal(i).len() as int) == decimal(i));
            assert(b.subrange(p, p + decimal(j).len() as int) == decimal(j));
            lemma_decimal_injective(i, j);
        } else {
            assert(a.len() != b.len());
        }
    }
}

/// The last `c` of `a + [c] + b`, where `b` holds none, is the one between
/// them.
proof fn lemma_last_index_after(a: Seq<char>, c: char, b: Seq<char>)
    requires
        !b.contains(c),
    ensures
        last_index_of(a + seq![c] + b, c) == a.len(),
    decreases b.len(),
{
    let s = a + seq![c] + b;
    if b.len() == 0 {
        assert(s.last() == c);
    } else {
        assert(s.drop_last() =~= a + seq![c] + b.drop_last());
        assert(s.last() == b[b.len() - 1]);
        assert(!b.drop_last().contains(c)) by {
            if b.drop_last().contains(c) {
                let k = choose|k: int| 0 <= k < b.drop_last().len() && b.drop_last()[k] == c;
                assert(b[k] == c);
            }
        }
        lemma_last_index_after(a, c, b.drop_last());
    }
}

/// The extension of a file name `stem.ext` (no `/` in it, a stem that is
/// neither empty nor `.`, no `.` in the extension) is `ext`: what follows its
/// last dot.
pub proof fn lemma_extension_of_name(stem: Seq<char>, ext: Seq<char>)
    requires
        stem.len() > 0,
        stem != seq!['.'],
        !stem.contains('/'),
        !ext.contains('/'),
        !ext.contains('.'),
    ensures
        extension_of(stem + seq!['.'] + ext) == Some(ext),
{
    let f = stem + seq!['.'] + ext;
    assert(!f.contains('/')) by {
        if f.contains('/') {
            let k = choose|k: int| 0 <= k < f.len() && f[k] == '/';
            if k < stem.len() {
                assert(f[k] == stem[k]);
            } else if k > stem.len() {
                assert(f[k] == ext[k - stem.len() - 1]);
            }
        }
    }
    lemma_split_plain(f, '/');
    assert(seq![f].last() == f);
    assert(f != seq!['.']) by {
        if stem.len() == 1 {
            assert(f.len() >= 2);
        }
    }
    assert(f.len() > 0);
    assert(f != seq!['.', '.']) by {
        if f =~= seq!['.', '.'] {
            assert(stem.len() == 1 && ext.len() == 0);
            assert(stem[0] == f[0]);
            assert(stem =~= seq!['.']);
        }
    }
    assert(file_name_of(f) == Some(f));
    lemma_last_index_after(stem, '.', ext);
    assert(f.skip(stem.len() + 1int) =~= ext);
}

} // verus!

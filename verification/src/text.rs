//! Verified text utilities: character-level scanning, substring search,
//! line splitting and decimal rendering.
//!
//! All executable functions here work on `Vec<char>` (obtained once from a
//! `&str` by [`chars_vec`]) so that indexing is direct, and each is proved
//! against a spec function over `Seq<char>`.

use vstd::prelude::*;

verus! {

/// Relies on `String::push`: appending one character appends exactly that
/// character to the string's character sequence.
pub assume_specification[ String::push ](s: &mut String, ch: char)
    ensures
        final(s)@ == old(s)@.push(ch),
;

/// Relies on `str::eq`: two string slices compare equal exactly when their
/// character sequences are equal.
pub assume_specification[ <str as PartialEq>::eq ](s: &str, other: &str) -> (r: bool)
    ensures
        r == (s@ == other@),
;

/// The pattern `p` occurs in `t` starting at index `i`.
pub open spec fn occurs_at(t: Seq<char>, p: Seq<char>, i: int) -> bool {
    0 <= i && i + p.len() <= t.len() && t.subrange(i, i + p.len()) == p
}

/// The pattern `p` occurs somewhere in `t`.
pub open spec fn contains_seq(t: Seq<char>, p: Seq<char>) -> bool {
    exists|i: int| occurs_at(t, p, i)
}

/// The characters that the scanning passes treat as whitespace.
pub open spec fn is_ws(c: char) -> bool {
    c == ' ' || c == '\t' || c == '\n' || c == '\r' || c == '\u{b}' || c == '\u{c}'
}

/// The characters that may form an identifier in the scanned patterns.
pub open spec fn is_ident_char(c: char) -> bool {
    ('a' <= c && c <= 'z') || ('A' <= c && c <= 'Z') || ('0' <= c && c <= '9') || c == '_'
}

/// Collect the characters of `s` into a vector.
pub fn chars_vec(s: &str) -> (v: Vec<char>)
    ensures
        v@ == s@,
{
    let n = s.unicode_len();
    let mut v: Vec<char> = Vec::new();
    let mut i: usize = 0;
    while i < n
        invariant
            i <= n,
            v@ == s@.take(i as int),
        decreases n - i,
    {
        v.push(s.get_char(i));
        i = i + 1;
        proof {
            assert(v@ =~= s@.take(i as int));
        }
    }
    proof {
        assert(v@ =~= s@);
    }
    v
}

/// Whether `p` occurs in `t` at position `i` (executable form of
/// [`occurs_at`]).
pub fn check_occurs_at(t: &Vec<char>, p: &Vec<char>, i: usize) -> (r: bool)
    requires
        i <= t@.len(),
    ensures
        r == occurs_at(t@, p@, i as int),
{
    if p.len() > t.len() - i {
        proof {
            assert(!occurs_at(t@, p@, i as int));
        }
        return false;
    }
    let mut k: usize = 0;
    while k < p.len()
        invariant
            k <= p@.len(),
            i + p@.len() <= t@.len(),
            forall|j: int| 0 <= j < k ==> t@[i + j] == p@[j],
        decreases p@.len() - k,
    {
        if t[i + k] != p[k] {
            proof {
                assert(t@.subrange(i as int, i + p@.len())[k as int] != p@[k as int]);
            }
            return false;
        }
        k = k + 1;
    }
    proof {
        assert(t@.subrange(i as int, i + p@.len()) =~= p@);
    }
    true
}

/// The first position at or after `from` where `p` occurs in `t`, if any.
pub fn find_first(t: &Vec<char>, p: &Vec<char>, from: usize) -> (r: Option<usize>)
    requires
        from <= t@.len(),
    ensures
        match r {
            Some(i) => from <= i && occurs_at(t@, p@, i as int) && forall|j: int|
                from <= j < i ==> !occurs_at(t@, p@, j),
            None => forall|j: int| from <= j ==> !occurs_at(t@, p@, j),
        },
{
    let mut i: usize = from;
    while i < t.len()
        invariant
            from <= i <= t@.len(),
            forall|j: int| from <= j < i ==> !occurs_at(t@, p@, j),
        decreases t@.len() - i,
    {
        if check_occurs_at(t, p, i) {
            return Some(i);
        }
        i = i + 1;
    }
    // An empty pattern also occurs at position `t.len()`.
    if check_occurs_at(t, p, i) {
        Some(i)
    } else {
        None
    }
}

/// Whether the text of `t` contains the text of `p` as a substring.
pub fn contains_sub(t: &str, p: &str) -> (r: bool)
    ensures
        r == contains_seq(t@, p@),
{
    let tv = chars_vec(t);
    let pv = chars_vec(p);
    match find_first(&tv, &pv, 0) {
        Some(_) => true,
        None => false,
    }
}

/// The smallest index at or after `i` where `c` stands in `t`, or `t.len()`
/// when there is none.
pub open spec fn find_char_from(t: Seq<char>, c: char, i: int) -> int
    decreases t.len() - i,
{
    if i < 0 || i >= t.len() {
        t.len() as int
    } else if t[i] == c {
        i
    } else {
        find_char_from(t, c, i + 1)
    }
}

/// Basic facts about [`find_char_from`].
pub proof fn lemma_find_char_from(t: Seq<char>, c: char, i: int)
    requires
        0 <= i <= t.len(),
    ensures
        i <= find_char_from(t, c, i) <= t.len(),
        find_char_from(t, c, i) < t.len() ==> t[find_char_from(t, c, i)] == c,
        forall|j: int| i <= j < find_char_from(t, c, i) ==> t[j] != c,
    decreases t.len() - i,
{
    if i < t.len() && t[i] != c {
        lemma_find_char_from(t, c, i + 1);
    }
}

/// Executable form of [`find_char_from`].
pub fn find_char(t: &Vec<char>, c: char, from: usize) -> (r: usize)
    requires
        from <= t@.len(),
    ensures
        r == find_char_from(t@, c, from as int),
        from <= r <= t@.len(),
{
    let mut i: usize = from;
    while i < t.len()
        invariant
            from <= i <= t@.len(),
            find_char_from(t@, c, from as int) == find_char_from(t@, c, i as int),
        decreases t@.len() - i,
    {
        if t[i] == c {
            return i;
        }
        i = i + 1;
    }
    i
}

/// The end of the run of whitespace characters that starts at `i`.
pub open spec fn ws_run_end(t: Seq<char>, i: int) -> int
    decreases t.len() - i,
{
    if i < 0 || i >= t.len() {
        t.len() as int
    } else if is_ws(t[i]) {
        ws_run_end(t, i + 1)
    } else {
        i
    }
}

/// Basic facts about [`ws_run_end`].
pub proof fn lemma_ws_run_end(t: Seq<char>, i: int)
    requires
        0 <= i <= t.len(),
    ensures
        i <= ws_run_end(t, i) <= t.len(),
        ws_run_end(t, i) < t.len() ==> !is_ws(t[ws_run_end(t, i)]),
        forall|j: int| i <= j < ws_run_end(t, i) ==> is_ws(t[j]),
    decreases t.len() - i,
{
    if i < t.len() && is_ws(t[i]) {
        lemma_ws_run_end(t, i + 1);
    }
}

/// Whether `c` is scanned as whitespace (executable form of [`is_ws`]).
pub fn char_is_ws(c: char) -> (r: bool)
    ensures
        r == is_ws(c),
{
    c == ' ' || c == '\t' || c == '\n' || c == '\r' || c == '\u{b}' || c == '\u{c}'
}

/// Executable form of [`ws_run_end`].
pub fn skip_ws(t: &Vec<char>, from: usize) -> (r: usize)
    requires
        from <= t@.len(),
    ensures
        r == ws_run_end(t@, from as int),
        from <= r <= t@.len(),
{
    let mut i: usize = from;
    while i < t.len()
        invariant
            from <= i <= t@.len(),
            ws_run_end(t@, from as int) == ws_run_end(t@, i as int),
        decreases t@.len() - i,
    {
        if !char_is_ws(t[i]) {
            return i;
        }
        i = i + 1;
    }
    i
}

/// The end of the run of identifier characters that starts at `i`.
pub open spec fn ident_run_end(t: Seq<char>, i: int) -> int
    decreases t.len() - i,
{
    if i < 0 || i >= t.len() {
        t.len() as int
    } else if is_ident_char(t[i]) {
        ident_run_end(t, i + 1)
    } else {
        i
    }
}

/// Basic facts about [`ident_run_end`].
pub proof fn lemma_ident_run_end(t: Seq<char>, i: int)
    requires
        0 <= i <= t.len(),
    ensures
        i <= ident_run_end(t, i) <= t.len(),
        ident_run_end(t, i) < t.len() ==> !is_ident_char(t[ident_run_end(t, i)]),
        forall|j: int| i <= j < ident_run_end(t, i) ==> is_ident_char(t[j]),
    decreases t.len() - i,
{
    if i < t.len() && is_ident_char(t[i]) {
        lemma_ident_run_end(t, i + 1);
    }
}

/// Whether `c` may form an identifier (executable form of
/// [`is_ident_char`]).
pub fn char_is_ident(c: char) -> (r: bool)
    ensures
        r == is_ident_char(c),
{
    ('a' <= c && c <= 'z') || ('A' <= c && c <= 'Z') || ('0' <= c && c <= '9') || c == '_'
}

/// Executable form of [`ident_run_end`].
pub fn skip_ident(t: &Vec<char>, from: usize) -> (r: usize)
    requires
        from <= t@.len(),
    ensures
        r == ident_run_end(t@, from as int),
        from <= r <= t@.len(),
{
    let mut i: usize = from;
    while i < t.len()
        invariant
            from <= i <= t@.len(),
            ident_run_end(t@, from as int) == ident_run_end(t@, i as int),
        decreases t@.len() - i,
    {
        if !char_is_ident(t[i]) {
            return i;
        }
        i = i + 1;
    }
    i
}

/// Copy the characters `t[from..to]` into a new vector.
pub fn subrange_vec(t: &Vec<char>, from: usize, to: usize) -> (r: Vec<char>)
    requires
        from <= to <= t@.len(),
    ensures
        r@ == t@.subrange(from as int, to as int),
{
    let mut r: Vec<char> = Vec::new();
    let mut i: usize = from;
    while i < to
        invariant
            from <= i <= to,
            r@ == t@.subrange(from as int, i as int),
        decreases to - i,
    {
        r.push(t[i]);
        i = i + 1;
        proof {
            assert(r@ =~= t@.subrange(from as int, i as int));
        }
    }
    r
}

/// Copy the characters `t[from..to]` into a `String`.
pub fn slice_to_string(t: &Vec<char>, from: usize, to: usize) -> (r: String)
    requires
        from <= to <= t@.len(),
    ensures
        r@ == t@.subrange(from as int, to as int),
{
    let mut r = String::new();
    let mut i: usize = from;
    while i < to
        invariant
            from <= i <= to,
            r@ == t@.subrange(from as int, i as int),
        decreases to - i,
    {
        r.push(t[i]);
        i = i + 1;
        proof {
            assert(r@ =~= t@.subrange(from as int, i as int));
        }
    }
    r
}

/// Concatenate two string slices.
pub fn concat2(a: &str, b: &str) -> (r: String)
    ensures
        r@ == a@ + b@,
{
    let mut r = String::new();
    r.append(a);
    r.append(b);
    proof {
        assert(r@ =~= a@ + b@);
    }
    r
}

/// Concatenate three string slices.
pub fn concat3(a: &str, b: &str, c: &str) -> (r: String)
    ensures
        r@ == a@ + b@ + c@,
{
    let mut r = String::new();
    r.append(a);
    r.append(b);
    r.append(c);
    proof {
        assert(r@ =~= a@ + b@ + c@);
    }
    r
}

/// Whether two vectors of strings hold the same texts in the same order.
pub fn string_vecs_equal(a: &Vec<String>, b: &Vec<String>) -> (r: bool)
    ensures
        r == (a.deep_view() == b.deep_view()),
{
    if a.len() != b.len() {
        proof {
            assert(a.deep_view().len() != b.deep_view().len());
        }
        return false;
    }
    let mut i: usize = 0;
    while i < a.len()
        invariant
            i <= a@.len(),
            a@.len() == b@.len(),
            forall|j: int| 0 <= j < i ==> a.deep_view()[j] == b.deep_view()[j],
        decreases a@.len() - i,
    {
        if !a[i].as_str().eq(b[i].as_str()) {
            proof {
                assert(a.deep_view()[i as int] != b.deep_view()[i as int]);
            }
            return false;
        }
        i = i + 1;
    }
    proof {
        assert(a.deep_view() =~= b.deep_view());
    }
    true
}

/// Whether some string of `v` equals `s`.
pub fn contains_string(v: &Vec<String>, s: &str) -> (r: bool)
    ensures
        r == v.deep_view().contains(s@),
{
    let mut i: usize = 0;
    while i < v.len()
        invariant
            i <= v@.len(),
            forall|j: int| 0 <= j < i ==> v.deep_view()[j] != s@,
        decreases v@.len() - i,
    {
        if v[i].as_str().eq(s) {
            proof {
                assert(v.deep_view()[i as int] == s@);
            }
            return true;
        }
        i = i + 1;
    }
    proof {
        if v.deep_view().contains(s@) {
            let j = choose|j: int| 0 <= j < v.deep_view().len() && v.deep_view()[j] == s@;
            assert(false);
        }
    }
    false
}

/// Whether some string of `v` contains `s` as a substring.
pub fn any_contains(v: &Vec<String>, s: &str) -> (r: bool)
    ensures
        r == exists|k: int|
            0 <= k < v.deep_view().len() && contains_seq(#[trigger] v.deep_view()[k], s@),
{
    let mut i: usize = 0;
    while i < v.len()
        invariant
            i <= v@.len(),
            forall|j: int| 0 <= j < i ==> !contains_seq(#[trigger] v.deep_view()[j], s@),
        decreases v@.len() - i,
    {
        if contains_sub(v[i].as_str(), s) {
            proof {
                assert(contains_seq(v.deep_view()[i as int], s@));
            }
            return true;
        }
        i = i + 1;
    }
    false
}


/// The smallest index at or after `i` where `p` occurs in `t`, or
/// `t.len()` when there is none (for a non-empty `p`, no occurrence can
/// start at `t.len()`).
pub open spec fn find_seq_from(t: Seq<char>, p: Seq<char>, i: int) -> int
    decreases t.len() - i,
{
    if i < 0 || i >= t.len() {
        t.len() as int
    } else if occurs_at(t, p, i) {
        i
    } else {
        find_seq_from(t, p, i + 1)
    }
}

/// Basic facts about [`find_seq_from`].
pub proof fn lemma_find_seq_from(t: Seq<char>, p: Seq<char>, i: int)
    requires
        0 <= i <= t.len(),
    ensures
        i <= find_seq_from(t, p, i) <= t.len(),
        find_seq_from(t, p, i) < t.len() ==> occurs_at(t, p, find_seq_from(t, p, i)),
        forall|j: int| i <= j < find_seq_from(t, p, i) ==> !occurs_at(t, p, j),
    decreases t.len() - i,
{
    if i < t.len() && !occurs_at(t, p, i) {
        lemma_find_seq_from(t, p, i + 1);
    }
}

/// The text with every non-overlapping, leftmost occurrence of `s`
/// replaced by `r`; a text without occurrences, or an empty `s`, is
/// returned unchanged.
pub open spec fn replace_seq(t: Seq<char>, s: Seq<char>, r: Seq<char>) -> Seq<char>
    decreases t.len(),
    via replace_seq_decreases
{
    if s.len() == 0 {
        t
    } else {
        let p = find_seq_from(t, s, 0);
        if p >= t.len() {
            t
        } else {
            t.take(p) + r + replace_seq(t.skip(p + s.len()), s, r)
        }
    }
}

#[via_fn]
proof fn replace_seq_decreases(t: Seq<char>, s: Seq<char>, r: Seq<char>) {
    if s.len() > 0 {
        lemma_find_seq_from(t, s, 0);
    }
}

/// Replace every non-overlapping, leftmost occurrence of `s` in `t` by
/// `r` (executable form of [`replace_seq`]).
pub fn replace_all(t: &Vec<char>, s: &Vec<char>, r: &str) -> (out: String)
    requires
        s@.len() > 0,
    ensures
        out@ == replace_seq(t@, s@, r@),
{
    let mut out = String::new();
    let mut i: usize = 0;
    proof {
        assert(t@.skip(0) =~= t@);
        assert(out@ + replace_seq(t@, s@, r@) =~= replace_seq(t@, s@, r@));
    }
    while i < t.len()
        invariant
            i <= t@.len(),
            s@.len() > 0,
            replace_seq(t@, s@, r@) == out@ + replace_seq(t@.skip(i as int), s@, r@),
        decreases t@.len() - i,
    {
        let ghost suffix = t@.skip(i as int);
        let ghost pre = out@;
        proof {
            lemma_find_seq_from(suffix, s@, 0);
        }
        match find_first(t, s, i) {
            Some(p) => {
                proof {
                    // The position found in `t` from `i` is the shifted
                    // first occurrence in the suffix.
                    assert(suffix.subrange(p - i, p - i + s@.len()) =~= t@.subrange(
                        p as int,
                        p + s@.len(),
                    ));
                    assert(occurs_at(suffix, s@, p - i));
                    let q = find_seq_from(suffix, s@, 0);
                    if q < p - i {
                        assert(occurs_at(suffix, s@, q));
                        assert(t@.subrange(i + q, i + q + s@.len()) =~= suffix.subrange(
                            q,
                            q + s@.len(),
                        ));
                        assert(occurs_at(t@, s@, i + q));
                        assert(false);
                    }
                    assert(q == p - i);
                }
                let piece = slice_to_string(t, i, p);
                out.append(piece.as_str());
                out.append(r);
                proof {
                    assert(suffix.take(p - i) =~= t@.subrange(i as int, p as int));
                    assert(suffix.skip(p - i + s@.len()) =~= t@.skip(p + s@.len()));
                    assert(pre + (suffix.take(p - i) + r@ + replace_seq(
                        t@.skip(p + s@.len()),
                        s@,
                        r@,
                    )) =~= out@ + replace_seq(t@.skip(p + s@.len()), s@, r@));
                }
                i = p + s.len();
            },
            None => {
                proof {
                    let q = find_seq_from(suffix, s@, 0);
                    if q < suffix.len() {
                        assert(occurs_at(suffix, s@, q));
                        assert(t@.subrange(i + q, i + q + s@.len()) =~= suffix.subrange(
                            q,
                            q + s@.len(),
                        ));
                        assert(occurs_at(t@, s@, i + q));
                        assert(false);
                    }
                }
                let piece = slice_to_string(t, i, t.len());
                out.append(piece.as_str());
                proof {
                    assert(suffix =~= t@.subrange(i as int, t@.len() as int));
                    assert(out@ =~= pre + replace_seq(suffix, s@, r@));
                    assert(t@.skip(t@.len() as int).len() == 0);
                    assert(out@ + replace_seq(t@.skip(t@.len() as int), s@, r@) =~= out@);
                }
                i = t.len();
            },
        }
    }
    proof {
        assert(replace_seq(t@.skip(t@.len() as int), s@, r@).len() == 0);
        assert(out@ + replace_seq(t@.skip(t@.len() as int), s@, r@) =~= out@);
    }
    out
}

/// The digit character for `d`.
pub open spec fn digit_char(d: nat) -> char {
    if d == 0 {
        '0'
    } else if d == 1 {
        '1'
    } else if d == 2 {
        '2'
    } else if d == 3 {
        '3'
    } else if d == 4 {
        '4'
    } else if d == 5 {
        '5'
    } else if d == 6 {
        '6'
    } else if d == 7 {
        '7'
    } else if d == 8 {
        '8'
    } else {
        '9'
    }
}

/// The decimal rendering of `n`, most significant digit first.
pub open spec fn dec_str(n: nat) -> Seq<char>
    decreases n,
{
    if n < 10 {
        seq![digit_char(n)]
    } else {
        dec_str(n / 10).push(digit_char(n % 10))
    }
}

/// Render `n` in decimal.
pub fn usize_to_string(n: usize) -> (r: String)
    ensures
        r@ == dec_str(n as nat),
    decreases n,
{
    let d: char = match n % 10 {
        0 => '0',
        1 => '1',
        2 => '2',
        3 => '3',
        4 => '4',
        5 => '5',
        6 => '6',
        7 => '7',
        8 => '8',
        _ => '9',
    };
    if n < 10 {
        let mut r = String::new();
        r.push(d);
        proof {
            assert(r@ =~= dec_str(n as nat));
        }
        r
    } else {
        let mut r = usize_to_string(n / 10);
        r.push(d);
        proof {
            assert(r@ =~= dec_str(n as nat));
        }
        r
    }
}

} // verus!

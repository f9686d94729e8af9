//! Verified pattern extraction over source text.
//!
//! The validation and analysis passes compare structural facts extracted
//! from raw text: declared feature attributes, conditional-compilation
//! attributes, sub-module declarations, exposed commands and their
//! handler registrations, and counts of security-sensitive constructs.
//! Each extractor scans the text left to right for non-overlapping
//! matches of a fixed textual pattern and is proved against a recursive
//! spec function of the text.

use vstd::prelude::*;
use crate::text::chars_vec;
use crate::text::check_occurs_at;
use crate::text::find_char;
use crate::text::find_char_from;
use crate::text::find_first;
use crate::text::ident_run_end;
use crate::text::lemma_find_char_from;
use crate::text::lemma_ident_run_end;
use crate::text::lemma_ws_run_end;
use crate::text::occurs_at;
use crate::text::skip_ident;
use crate::text::skip_ws;
use crate::text::slice_to_string;
use crate::text::subrange_vec;
use crate::text::ws_run_end;

verus! {

// ---------------------------------------------------------------------
// Delimited groups: a literal opener, at least one character that is not
// a closing parenthesis, the closing parenthesis, and optionally one more
// closing character right after it.
// ---------------------------------------------------------------------

/// A group match of `lit` at position `i` of `t`: the literal occurs at
/// `i`, a closing parenthesis follows after at least one other character,
/// and, when `close` is set, that character follows the parenthesis.
pub open spec fn group_match_at(t: Seq<char>, lit: Seq<char>, close: Option<char>, i: int) -> bool {
    occurs_at(t, lit, i) && {
        let p = find_char_from(t, ')', i + lit.len());
        &&& p < t.len()
        &&& p > i + lit.len()
        &&& match close {
            Some(c) => p + 1 < t.len() && t[p + 1] == c,
            None => true,
        }
    }
}

/// The captured characters of a group match at `i`: everything between
/// the literal and the closing parenthesis.
pub open spec fn group_capture(t: Seq<char>, lit: Seq<char>, i: int) -> Seq<char> {
    t.subrange(i + lit.len(), find_char_from(t, ')', i + lit.len()))
}

/// The position right after a group match at `i`.
pub open spec fn group_end(t: Seq<char>, lit: Seq<char>, close: Option<char>, i: int) -> int {
    find_char_from(t, ')', i + lit.len()) + (if close is Some {
        2int
    } else {
        1int
    })
}

/// The captures of all group matches of `lit` in `t` at or after `i`,
/// leftmost first and non-overlapping.
pub open spec fn extract_group_from(
    t: Seq<char>,
    lit: Seq<char>,
    close: Option<char>,
    i: int,
) -> Seq<Seq<char>>
    decreases t.len() - i,
    via extract_group_decreases
{
    if i < 0 || i >= t.len() {
        Seq::empty()
    } else if lit.len() > 0 && group_match_at(t, lit, close, i) {
        seq![group_capture(t, lit, i)] + extract_group_from(t, lit, close, group_end(t, lit, close, i))
    } else {
        extract_group_from(t, lit, close, i + 1)
    }
}

#[via_fn]
proof fn extract_group_decreases(t: Seq<char>, lit: Seq<char>, close: Option<char>, i: int) {
    if 0 <= i < t.len() && lit.len() > 0 && group_match_at(t, lit, close, i) {
        lemma_find_char_from(t, ')', i + lit.len());
    }
}

/// Try to match a group of `lit` at `i`; on success return the capture
/// and the position right after the match.
fn try_group_at(t: &Vec<char>, lit: &Vec<char>, close: Option<char>, i: usize) -> (r: Option<
    (String, usize),
>)
    requires
        lit@.len() > 0,
        i < t@.len(),
    ensures
        match r {
            Some(p) => group_match_at(t@, lit@, close, i as int) && p.0@ == group_capture(
                t@,
                lit@,
                i as int,
            ) && p.1 as int == group_end(t@, lit@, close, i as int) && i < p.1 <= t@.len(),
            None => !group_match_at(t@, lit@, close, i as int),
        },
{
    let n = t.len();
    if !check_occurs_at(t, lit, i) {
        return None;
    }
    proof {
        assert(i + lit@.len() <= n);
    }
    let start = i + lit.len();
    proof {
        lemma_find_char_from(t@, ')', start as int);
    }
    let p = find_char(t, ')', start);
    if p >= t.len() || p == start {
        return None;
    }
    match close {
        Some(c) => {
            if p + 1 >= t.len() {
                return None;
            }
            if t[p + 1] != c {
                return None;
            }
            Some((slice_to_string(t, start, p), p + 2))
        },
        None => Some((slice_to_string(t, start, p), p + 1)),
    }
}

/// Extract the captures of all group matches of `lit` in `t`.
fn extract_group(t: &Vec<char>, lit: &Vec<char>, close: Option<char>) -> (r: Vec<String>)
    requires
        lit@.len() > 0,
    ensures
        r.deep_view() == extract_group_from(t@, lit@, close, 0),
{
    let mut r: Vec<String> = Vec::new();
    let mut i: usize = 0;
    proof {
        assert(r.deep_view() =~= Seq::<Seq<char>>::empty());
    }
    while i < t.len()
        invariant
            i <= t@.len(),
            extract_group_from(t@, lit@, close, 0) == r.deep_view() + extract_group_from(
                t@,
                lit@,
                close,
                i as int,
            ),
        decreases t@.len() - i,
    {
        let ghost pre = r.deep_view();
        match try_group_at(t, lit, close, i) {
            Some(cap_end) => {
                let (cap, end) = cap_end;
                r.push(cap);
                proof {
                    assert(r.deep_view() =~= pre.push(r@.last().deep_view()));
                    assert(pre + (seq![group_capture(t@, lit@, i as int)] + extract_group_from(
                        t@,
                        lit@,
                        close,
                        end as int,
                    )) =~= r.deep_view() + extract_group_from(t@, lit@, close, end as int));
                }
                i = end;
            },
            None => {
                i = i + 1;
            },
        }
    }
    proof {
        assert(r.deep_view() + Seq::<Seq<char>>::empty() =~= r.deep_view());
    }
    r
}

/// The declared feature attributes of `code`: the captures of
/// `#![feature(...)]` groups.
pub open spec fn spec_extract_features(t: Seq<char>) -> Seq<Seq<char>> {
    extract_group_from(t, "#![feature("@, Some(']'), 0)
}

/// Extract the declared feature attributes of `code`.
pub fn extract_features(code: &str) -> (r: Vec<String>)
    ensures
        r.deep_view() == spec_extract_features(code@),
{
    let t = chars_vec(code);
    let lit = chars_vec("#![feature(");
    proof {
        reveal_strlit("#![feature(");
    }
    extract_group(&t, &lit, Some(']'))
}

/// The conditional-compilation attributes of `code`: the captures of
/// `#[cfg(...)]` groups.
pub open spec fn spec_extract_cfgs(t: Seq<char>) -> Seq<Seq<char>> {
    extract_group_from(t, "#[cfg("@, Some(']'), 0)
}

/// Extract the conditional-compilation attributes of `code`.
pub fn extract_cfg_attributes(code: &str) -> (r: Vec<String>)
    ensures
        r.deep_view() == spec_extract_cfgs(code@),
{
    let t = chars_vec(code);
    let lit = chars_vec("#[cfg(");
    proof {
        reveal_strlit("#[cfg(");
    }
    extract_group(&t, &lit, Some(']'))
}

/// The handler registrations of `code`: the captures of
/// `.invoke_handler(...)` groups.
pub open spec fn spec_extract_handlers(t: Seq<char>) -> Seq<Seq<char>> {
    extract_group_from(t, ".invoke_handler("@, None, 0)
}

/// Extract the handler registrations of `code`.
pub fn extract_invoke_handlers(code: &str) -> (r: Vec<String>)
    ensures
        r.deep_view() == spec_extract_handlers(code@),
{
    let t = chars_vec(code);
    let lit = chars_vec(".invoke_handler(");
    proof {
        reveal_strlit(".invoke_handler(");
    }
    extract_group(&t, &lit, None)
}

// ---------------------------------------------------------------------
// Sub-module declarations: `mod`, whitespace, an identifier, optional
// whitespace, and a terminator (`;` for declarations, `{` for inline
// definitions).
// ---------------------------------------------------------------------

/// A module declaration at position `i` of `t`, ended by `term`.
pub open spec fn mod_match_at(t: Seq<char>, term: char, i: int) -> bool {
    occurs_at(t, "mod"@, i) && {
        let j = ws_run_end(t, i + 3);
        j > i + 3 && {
            let k = ident_run_end(t, j);
            k > j && {
                let e = ws_run_end(t, k);
                e < t.len() && t[e] == term
            }
        }
    }
}

/// The declared module name of a match at `i`.
pub open spec fn mod_capture(t: Seq<char>, i: int) -> Seq<char> {
    let j = ws_run_end(t, i + 3);
    t.subrange(j, ident_run_end(t, j))
}

/// The position right after a module declaration at `i`.
pub open spec fn mod_end(t: Seq<char>, i: int) -> int {
    ws_run_end(t, ident_run_end(t, ws_run_end(t, i + 3))) + 1
}

/// The names of all module declarations in `t` ended by `term`, at or
/// after `i`, leftmost first and non-overlapping.
pub open spec fn extract_mods_from(t: Seq<char>, term: char, i: int) -> Seq<Seq<char>>
    decreases t.len() - i,
    via extract_mods_decreases
{
    if i < 0 || i >= t.len() {
        Seq::empty()
    } else if mod_match_at(t, term, i) {
        seq![mod_capture(t, i)] + extract_mods_from(t, term, mod_end(t, i))
    } else {
        extract_mods_from(t, term, i + 1)
    }
}

#[via_fn]
proof fn extract_mods_decreases(t: Seq<char>, term: char, i: int) {
    if 0 <= i < t.len() && mod_match_at(t, term, i) {
        lemma_ws_run_end(t, i + 3);
        let j = ws_run_end(t, i + 3);
        lemma_ident_run_end(t, j);
        let k = ident_run_end(t, j);
        lemma_ws_run_end(t, k);
    }
}

/// Try to match a module declaration at `i`; on success return the name
/// and the position right after the terminator.
fn try_mod_at(t: &Vec<char>, term: char, i: usize) -> (r: Option<(String, usize)>)
    requires
        i < t@.len(),
    ensures
        match r {
            Some(p) => mod_match_at(t@, term, i as int) && p.0@ == mod_capture(t@, i as int)
                && p.1 as int == mod_end(t@, i as int) && i < p.1 <= t@.len(),
            None => !mod_match_at(t@, term, i as int),
        },
{
    let n = t.len();
    let lit = chars_vec("mod");
    proof {
        reveal_strlit("mod");
    }
    if !check_occurs_at(t, &lit, i) {
        return None;
    }
    proof {
        assert(i + 3 <= n);
        lemma_ws_run_end(t@, i + 3);
    }
    let j = skip_ws(t, i + 3);
    if j == i + 3 {
        return None;
    }
    proof {
        lemma_ident_run_end(t@, j as int);
    }
    let k = skip_ident(t, j);
    if k == j {
        return None;
    }
    proof {
        lemma_ws_run_end(t@, k as int);
    }
    let e = skip_ws(t, k);
    if e >= t.len() {
        return None;
    }
    if t[e] != term {
        return None;
    }
    Some((slice_to_string(t, j, k), e + 1))
}

/// Extract the module names declared in `t` with terminator `term`.
fn extract_mods(t: &Vec<char>, term: char) -> (r: Vec<String>)
    ensures
        r.deep_view() == extract_mods_from(t@, term, 0),
{
    let mut r: Vec<String> = Vec::new();
    let mut i: usize = 0;
    proof {
        assert(r.deep_view() =~= Seq::<Seq<char>>::empty());
    }
    while i < t.len()
        invariant
            i <= t@.len(),
            extract_mods_from(t@, term, 0) == r.deep_view() + extract_mods_from(
                t@,
                term,
                i as int,
            ),
        decreases t@.len() - i,
    {
        let ghost pre = r.deep_view();
        match try_mod_at(t, term, i) {
            Some(cap_end) => {
                let (cap, end) = cap_end;
                r.push(cap);
                proof {
                    assert(r.deep_view() =~= pre.push(r@.last().deep_view()));
                    assert(pre + (seq![mod_capture(t@, i as int)] + extract_mods_from(
                        t@,
                        term,
                        end as int,
                    )) =~= r.deep_view() + extract_mods_from(t@, term, end as int));
                }
                i = end;
            },
            None => {
                i = i + 1;
            },
        }
    }
    proof {
        assert(r.deep_view() + Seq::<Seq<char>>::empty() =~= r.deep_view());
    }
    r
}

/// The declared sub-module names of `code`: all `mod name;` declarations
/// followed by all `mod name {` definitions.
pub open spec fn spec_extract_modules(t: Seq<char>) -> Seq<Seq<char>> {
    extract_mods_from(t, ';', 0) + extract_mods_from(t, '{', 0)
}

/// Extract the declared sub-module names of `code`.
pub fn extract_modules(code: &str) -> (r: Vec<String>)
    ensures
        r.deep_view() == spec_extract_modules(code@),
{
    let t = chars_vec(code);
    let mut r = extract_mods(&t, ';');
    let ghost first = r.deep_view();
    let mut blocks = extract_mods(&t, '{');
    let ghost second = blocks.deep_view();
    r.append(&mut blocks);
    proof {
        assert(r.deep_view() =~= first + second);
    }
    r
}

// ---------------------------------------------------------------------
// Counts: a fixed token, optional whitespace, and a terminator (`(` for
// call sites, `{` for unsafe blocks).
// ---------------------------------------------------------------------

/// The token `name` occurs at `i` of `t`, followed by optional
/// whitespace and the terminator `term`.
pub open spec fn token_match_at(t: Seq<char>, name: Seq<char>, term: char, i: int) -> bool {
    occurs_at(t, name, i) && {
        let j = ws_run_end(t, i + name.len());
        j < t.len() && t[j] == term
    }
}

/// The number of positions at or after `i` where `name` is followed by
/// optional whitespace and `term`.
pub open spec fn count_token_from(t: Seq<char>, name: Seq<char>, term: char, i: int) -> nat
    decreases t.len() - i,
{
    if i < 0 || i >= t.len() {
        0
    } else {
        (if token_match_at(t, name, term, i) {
            1nat
        } else {
            0nat
        }) + count_token_from(t, name, term, i + 1)
    }
}

/// Whether a token match of `name` with terminator `term` starts at `i`.
fn check_token_at(t: &Vec<char>, name: &Vec<char>, term: char, i: usize) -> (r: bool)
    requires
        i < t@.len(),
    ensures
        r == token_match_at(t@, name@, term, i as int),
{
    let n = t.len();
    if !check_occurs_at(t, name, i) {
        return false;
    }
    proof {
        assert(i + name@.len() <= n);
        lemma_ws_run_end(t@, i + name@.len());
    }
    let j = skip_ws(t, i + name.len());
    j < t.len() && t[j] == term
}

/// Count the token matches of `name` with terminator `term` in `t`.
fn count_token(t: &Vec<char>, name: &Vec<char>, term: char) -> (r: usize)
    ensures
        r as nat == count_token_from(t@, name@, term, 0),
{
    let mut c: usize = 0;
    let mut i: usize = 0;
    while i < t.len()
        invariant
            i <= t@.len(),
            c <= i,
            count_token_from(t@, name@, term, 0) == c + count_token_from(t@, name@, term, i as int),
        decreases t@.len() - i,
    {
        if check_token_at(t, name, term, i) {
            c = c + 1;
        }
        i = i + 1;
    }
    c
}

/// The number of call sites of `name` in `t`: occurrences of the name
/// followed by optional whitespace and an opening parenthesis. The name
/// is matched textually, without word boundaries.
pub open spec fn spec_count_calls(t: Seq<char>, name: Seq<char>) -> nat {
    count_token_from(t, name, '(', 0)
}

/// Count the call sites of `function_name` in `code`.
pub fn count_function_calls(code: &str, function_name: &str) -> (r: usize)
    ensures
        r as nat == spec_count_calls(code@, function_name@),
{
    let t = chars_vec(code);
    let name = chars_vec(function_name);
    count_token(&t, &name, '(')
}

/// The number of unsafe blocks in `t`: occurrences of `unsafe` followed
/// by optional whitespace and an opening brace.
pub open spec fn spec_count_unsafe(t: Seq<char>) -> nat {
    count_token_from(t, "unsafe"@, '{', 0)
}

/// Count the unsafe blocks in `code`.
pub fn count_unsafe_blocks(code: &str) -> (r: usize)
    ensures
        r as nat == spec_count_unsafe(code@),
{
    let t = chars_vec(code);
    let name = chars_vec("unsafe");
    proof {
        reveal_strlit("unsafe");
    }
    count_token(&t, &name, '{')
}

// ---------------------------------------------------------------------
// Exposed commands: the command attribute, optional whitespace, an
// optional `pub`, `fn`, and the command's name.
// ---------------------------------------------------------------------

/// An exposed-command declaration at position `i` of `t`.
pub open spec fn command_match_at(t: Seq<char>, i: int) -> bool {
    occurs_at(t, "#[tauri::command]"@, i) && {
        let j = ws_run_end(t, i + "#[tauri::command]"@.len());
        let j2 = if occurs_at(t, "pub"@, j) && ws_run_end(t, j + 3) > j + 3 {
            ws_run_end(t, j + 3)
        } else {
            j
        };
        occurs_at(t, "fn"@, j2) && {
            let k = ws_run_end(t, j2 + 2);
            k > j2 + 2 && ident_run_end(t, k) > k
        }
    }
}

/// The name of the exposed command declared at `i`.
pub open spec fn command_capture(t: Seq<char>, i: int) -> Seq<char> {
    let j = ws_run_end(t, i + "#[tauri::command]"@.len());
    let j2 = if occurs_at(t, "pub"@, j) && ws_run_end(t, j + 3) > j + 3 {
        ws_run_end(t, j + 3)
    } else {
        j
    };
    let k = ws_run_end(t, j2 + 2);
    t.subrange(k, ident_run_end(t, k))
}

/// The position right after the name of the command declared at `i`.
pub open spec fn command_end(t: Seq<char>, i: int) -> int {
    let j = ws_run_end(t, i + "#[tauri::command]"@.len());
    let j2 = if occurs_at(t, "pub"@, j) && ws_run_end(t, j + 3) > j + 3 {
        ws_run_end(t, j + 3)
    } else {
        j
    };
    ident_run_end(t, ws_run_end(t, j2 + 2))
}

/// The names of all exposed commands declared in `t` at or after `i`.
pub open spec fn extract_commands_from(t: Seq<char>, i: int) -> Seq<Seq<char>>
    decreases t.len() - i,
    via extract_commands_decreases
{
    if i < 0 || i >= t.len() {
        Seq::empty()
    } else if command_match_at(t, i) {
        seq![command_capture(t, i)] + extract_commands_from(t, command_end(t, i))
    } else {
        extract_commands_from(t, i + 1)
    }
}

#[via_fn]
proof fn extract_commands_decreases(t: Seq<char>, i: int) {
    if 0 <= i < t.len() && command_match_at(t, i) {
        reveal_strlit("#[tauri::command]");
        let l = "#[tauri::command]"@.len() as int;
        lemma_ws_run_end(t, i + l);
        let j = ws_run_end(t, i + l);
        if occurs_at(t, "pub"@, j) && ws_run_end(t, j + 3) > j + 3 {
            lemma_ws_run_end(t, j + 3);
        }
        let j2 = if occurs_at(t, "pub"@, j) && ws_run_end(t, j + 3) > j + 3 {
            ws_run_end(t, j + 3)
        } else {
            j
        };
        lemma_ws_run_end(t, j2 + 2);
        let k = ws_run_end(t, j2 + 2);
        lemma_ident_run_end(t, k);
    }
}

/// Try to match an exposed-command declaration at `i`; on success return
/// the command name and the position right after it.
fn try_command_at(t: &Vec<char>, i: usize) -> (r: Option<(String, usize)>)
    requires
        i < t@.len(),
    ensures
        match r {
            Some(p) => command_match_at(t@, i as int) && p.0@ == command_capture(t@, i as int)
                && p.1 as int == command_end(t@, i as int) && i < p.1 <= t@.len(),
            None => !command_match_at(t@, i as int),
        },
{
    let lit = chars_vec("#[tauri::command]");
    let pub_lit = chars_vec("pub");
    let fn_lit = chars_vec("fn");
    proof {
        reveal_strlit("#[tauri::command]");
        reveal_strlit("pub");
        reveal_strlit("fn");
    }
    let n = t.len();
    if !check_occurs_at(t, &lit, i) {
        return None;
    }
    proof {
        assert(i + 17 <= n);
        lemma_ws_run_end(t@, i + 17);
    }
    let j = skip_ws(t, i + 17);
    let j2 = if check_occurs_at(t, &pub_lit, j) {
        proof {
            assert(j + 3 <= n);
            lemma_ws_run_end(t@, j + 3);
        }
        let after = skip_ws(t, j + 3);
        if after > j + 3 {
            after
        } else {
            j
        }
    } else {
        j
    };
    if !check_occurs_at(t, &fn_lit, j2) {
        return None;
    }
    proof {
        lemma_ws_run_end(t@, j2 + 2);
    }
    let k = skip_ws(t, j2 + 2);
    if k == j2 + 2 {
        return None;
    }
    proof {
        lemma_ident_run_end(t@, k as int);
    }
    let e = skip_ident(t, k);
    if e == k {
        return None;
    }
    Some((slice_to_string(t, k, e), e))
}

/// Extract the names of the exposed commands declared in `code`.
pub fn extract_tauri_commands(code: &str) -> (r: Vec<String>)
    ensures
        r.deep_view() == extract_commands_from(code@, 0),
{
    let t = chars_vec(code);
    let mut r: Vec<String> = Vec::new();
    let mut i: usize = 0;
    proof {
        assert(r.deep_view() =~= Seq::<Seq<char>>::empty());
    }
    while i < t.len()
        invariant
            i <= t@.len(),
            extract_commands_from(t@, 0) == r.deep_view() + extract_commands_from(t@, i as int),
        decreases t@.len() - i,
    {
        let ghost pre = r.deep_view();
        match try_command_at(&t, i) {
            Some(cap_end) => {
                let (cap, end) = cap_end;
                r.push(cap);
                proof {
                    assert(r.deep_view() =~= pre.push(r@.last().deep_view()));
                    assert(pre + (seq![command_capture(t@, i as int)] + extract_commands_from(
                        t@,
                        end as int,
                    )) =~= r.deep_view() + extract_commands_from(t@, end as int));
                }
                i = end;
            },
            None => {
                i = i + 1;
            },
        }
    }
    proof {
        assert(r.deep_view() + Seq::<Seq<char>>::empty() =~= r.deep_view());
    }
    r
}

// ---------------------------------------------------------------------
// Security-sensitive unwraps: lines that hold a sensitive token followed
// later on the same line by `.unwrap()`.
// ---------------------------------------------------------------------

/// The line holds `prefix` followed, at or after its end, by
/// `.unwrap()`.
pub open spec fn line_has_sensitive_unwrap(line: Seq<char>, prefix: Seq<char>) -> bool {
    exists|i: int, j: int|
        occurs_at(line, prefix, i) && j >= i + prefix.len() && occurs_at(line, ".unwrap()"@, j)
}

/// The number of lines of `t` at or after `i` (lines are separated by
/// newline characters) that hold `prefix` followed by `.unwrap()`.
pub open spec fn count_sensitive_from(t: Seq<char>, prefix: Seq<char>, i: int) -> nat
    decreases t.len() - i,
    via count_sensitive_decreases
{
    if i < 0 || i > t.len() {
        0
    } else {
        let p = find_char_from(t, '\n', i);
        let cnt: nat = if line_has_sensitive_unwrap(t.subrange(i, p), prefix) {
            1
        } else {
            0
        };
        if p >= t.len() {
            cnt
        } else {
            cnt + count_sensitive_from(t, prefix, p + 1)
        }
    }
}

#[via_fn]
proof fn count_sensitive_decreases(t: Seq<char>, prefix: Seq<char>, i: int) {
    if 0 <= i <= t.len() {
        lemma_find_char_from(t, '\n', i);
    }
}

/// Whether one line holds `prefix` followed by `.unwrap()` (executable
/// form of [`line_has_sensitive_unwrap`]).
fn line_has_unwrap(line: &Vec<char>, prefix: &Vec<char>) -> (r: bool)
    requires
        prefix@.len() > 0,
    ensures
        r == line_has_sensitive_unwrap(line@, prefix@),
{
    let unwrap_lit = chars_vec(".unwrap()");
    proof {
        reveal_strlit(".unwrap()");
    }
    match find_first(line, prefix, 0) {
        None => {
            proof {
                if line_has_sensitive_unwrap(line@, prefix@) {
                    let (i, j) = choose|i: int, j: int|
                        occurs_at(line@, prefix@, i) && j >= i + prefix@.len() && occurs_at(
                            line@,
                            ".unwrap()"@,
                            j,
                        );
                    assert(false);
                }
            }
            false
        },
        Some(i0) => {
            let n = line.len();
            proof {
                assert(i0 + prefix@.len() <= n);
            }
            match find_first(line, &unwrap_lit, i0 + prefix.len()) {
                Some(j) => {
                    proof {
                        assert(occurs_at(line@, prefix@, i0 as int) && j >= i0 + prefix@.len()
                            && occurs_at(line@, ".unwrap()"@, j as int));
                    }
                    true
                },
                None => {
                    proof {
                        if line_has_sensitive_unwrap(line@, prefix@) {
                            let (i, j) = choose|i: int, j: int|
                                occurs_at(line@, prefix@, i) && j >= i + prefix@.len()
                                    && occurs_at(line@, ".unwrap()"@, j);
                            assert(i >= i0);
                            assert(j >= i0 + prefix@.len());
                            assert(false);
                        }
                    }
                    false
                },
            }
        },
    }
}

/// Count the lines of `code` that hold `prefix` followed on the same
/// line by `.unwrap()`. This is the measure the security pass compares
/// between the original and the modified text.
pub fn count_sensitive_unwraps(code: &str, prefix: &str) -> (r: usize)
    requires
        prefix@.len() > 0,
    ensures
        r as nat == count_sensitive_from(code@, prefix@, 0),
{
    let t = chars_vec(code);
    let p = chars_vec(prefix);
    let mut c: usize = 0;
    let mut i: usize = 0;
    let mut done = false;
    while !done
        invariant
            i <= t@.len(),
            !done ==> 10 * c <= i + 10,
            prefix@.len() > 0,
            p@ == prefix@,
            t@ == code@,
            if done {
                count_sensitive_from(t@, p@, 0) == c
            } else {
                count_sensitive_from(t@, p@, 0) == c + count_sensitive_from(t@, p@, i as int)
            },
        decreases t@.len() - i, (if done {
            0int
        } else {
            1int
        }),
    {
        proof {
            lemma_find_char_from(t@, '\n', i as int);
        }
        let nl = find_char(&t, '\n', i);
        let line = subrange_vec(&t, i, nl);
        let has = line_has_unwrap(&line, &p);
        proof {
            reveal_strlit(".unwrap()");
            if has {
                let (a, b) = choose|a: int, b: int|
                    occurs_at(line@, p@, a) && b >= a + p@.len() && occurs_at(
                        line@,
                        ".unwrap()"@,
                        b,
                    );
                assert(line@.len() >= 9);
            }
        }
        if has {
            c = c + 1;
        }
        if nl >= t.len() {
            done = true;
        } else {
            i = nl + 1;
        }
    }
    c
}

} // verus!

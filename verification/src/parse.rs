//! The signature-pattern grammar and its parser:
//!
//! ```text
//! fn [name] [<generics>] ( (name: Type),* ) [-> Type] [where Constraints]
//! ```
//!
//! Everything but the literal `fn` keyword and the parenthesized parameter
//! list is optional; the parameter list may be empty and tolerates a
//! trailing comma. Types are scanned to the next top-level `,` or closing
//! bracket, so bracketed types (and `->` inside function types) pass
//! through whole. The parse of a text is defined once, by the spec
//! functions below; the executable parser returns exactly that parse, or
//! the character index at which the text is malformed.

use vstd::prelude::*;
use vstd::string::StrSliceExecFns;

use crate::ast::{ArgSpec, Error, SignatureSpec, Signature, SimpleArg};

verus! {

/// The whitespace the grammar skips between tokens.
pub open spec fn is_space(c: char) -> bool {
    c == ' ' || c == '\t' || c == '\n' || c == '\r'
}

/// The characters an identifier-like word is made of.
pub open spec fn is_ident_char(c: char) -> bool {
    let u = c as u32;
    u == 95 || (97 <= u && u <= 122) || (65 <= u && u <= 90) || (48 <= u && u <= 57)
}

/// The first index at or after `i` holding a non-space character.
pub open spec fn skip_ws(s: Seq<char>, i: int) -> int
    decreases s.len() - i,
{
    if 0 <= i < s.len() && is_space(s[i]) {
        skip_ws(s, i + 1)
    } else {
        i
    }
}

/// The end of the identifier-character run starting at `i`.
pub open spec fn scan_ident(s: Seq<char>, i: int) -> int
    decreases s.len() - i,
{
    if 0 <= i < s.len() && is_ident_char(s[i]) {
        scan_ident(s, i + 1)
    } else {
        i
    }
}

/// Whether the character at `i` closes a bracket; a `>` preceded by `-` is
/// an arrow, not a closer.
pub open spec fn is_closer(s: Seq<char>, i: int) -> bool {
    s[i] == ')' || s[i] == ']' || (s[i] == '>' && !(i > 0 && s[i - 1] == '-'))
}

/// Scans forward from `i` tracking bracket depth over `()`, `[]` and `<>`,
/// stopping at the first closer at depth zero — or, when `stop_comma` is
/// set, also at the first `,` at depth zero.
pub open spec fn scan_all(s: Seq<char>, i: int, depth: int, stop_comma: bool) -> int
    decreases s.len() - i,
{
    if i < 0 || i >= s.len() {
        i
    } else if depth == 0 && ((stop_comma && s[i] == ',') || is_closer(s, i)) {
        i
    } else if s[i] == '(' || s[i] == '[' || s[i] == '<' {
        scan_all(s, i + 1, depth + 1, stop_comma)
    } else if is_closer(s, i) {
        scan_all(s, i + 1, depth - 1, stop_comma)
    } else {
        scan_all(s, i + 1, depth, stop_comma)
    }
}

/// The end of the text `[lo, e)` with trailing whitespace removed.
pub open spec fn trim_end(s: Seq<char>, lo: int, e: int) -> int
    decreases e,
{
    if e > lo && 0 <= e - 1 < s.len() && is_space(s[e - 1]) {
        trim_end(s, lo, e - 1)
    } else {
        e
    }
}

/// Whether the top-level keyword `where` starts at `i`: the five letters,
/// not embedded in a longer word.
pub open spec fn is_where_at(s: Seq<char>, i: int) -> bool {
    &&& 0 <= i
    &&& i + 5 <= s.len()
    &&& s[i] == 'w'
    &&& s[i + 1] == 'h'
    &&& s[i + 2] == 'e'
    &&& s[i + 3] == 'r'
    &&& s[i + 4] == 'e'
    &&& (i == 0 || !is_ident_char(s[i - 1]))
    &&& (i + 5 == s.len() || !is_ident_char(s[i + 5]))
}

/// The index of the first top-level `where` keyword at or after `i`, or
/// the text's length when there is none before the text ends.
pub open spec fn find_where(s: Seq<char>, i: int, depth: int) -> int
    decreases s.len() - i,
{
    if i < 0 || i >= s.len() {
        s.len() as int
    } else if depth == 0 && is_where_at(s, i) {
        i
    } else if s[i] == '(' || s[i] == '[' || s[i] == '<' {
        find_where(s, i + 1, depth + 1)
    } else if is_closer(s, i) {
        find_where(s, i + 1, if depth > 0 { depth - 1 } else { 0 })
    } else {
        find_where(s, i + 1, depth)
    }
}

proof fn lemma_skip_ws_bounds(s: Seq<char>, i: int)
    requires
        0 <= i <= s.len(),
    ensures
        i <= skip_ws(s, i) <= s.len(),
    decreases s.len() - i,
{
    if i < s.len() && is_space(s[i]) {
        lemma_skip_ws_bounds(s, i + 1);
    }
}

proof fn lemma_scan_ident_bounds(s: Seq<char>, i: int)
    requires
        0 <= i <= s.len(),
    ensures
        i <= scan_ident(s, i) <= s.len(),
    decreases s.len() - i,
{
    if i < s.len() && is_ident_char(s[i]) {
        lemma_scan_ident_bounds(s, i + 1);
    }
}

proof fn lemma_scan_all_bounds(s: Seq<char>, i: int, depth: int, stop_comma: bool)
    requires
        0 <= i <= s.len(),
    ensures
        i <= scan_all(s, i, depth, stop_comma) <= s.len(),
    decreases s.len() - i,
{
    if i < s.len() && !(depth == 0 && ((stop_comma && s[i] == ',') || is_closer(s, i))) {
        if s[i] == '(' || s[i] == '[' || s[i] == '<' {
            lemma_scan_all_bounds(s, i + 1, depth + 1, stop_comma);
        } else if is_closer(s, i) {
            lemma_scan_all_bounds(s, i + 1, depth - 1, stop_comma);
        } else {
            lemma_scan_all_bounds(s, i + 1, depth, stop_comma);
        }
    }
}

proof fn lemma_trim_end_bounds(s: Seq<char>, lo: int, e: int)
    requires
        0 <= lo <= e,
    ensures
        lo <= trim_end(s, lo, e) <= e,
    decreases e,
{
    if e > lo && 0 <= e - 1 < s.len() && is_space(s[e - 1]) {
        lemma_trim_end_bounds(s, lo, e - 1);
    }
}

/// The parse of one `name : Type` unit starting at `i`: the parameter and
/// the index of the `,` or `)` that ended its type, or the index at which
/// the unit is malformed.
pub open spec fn spec_parse_arg(s: Seq<char>, i: int) -> Result<(ArgSpec, int), int> {
    let i1: int = skip_ws(s, i);
    let i2: int = scan_ident(s, i1);
    if i2 == i1 {
        Err(i1)
    } else {
        let name = s.subrange(i1, i2);
        let i3: int = skip_ws(s, i2);
        if !(i3 < s.len() && s[i3] == ':') {
            Err(i3)
        } else {
            let i4: int = skip_ws(s, i3 + 1);
            let i5: int = scan_all(s, i4, 0, true);
            let e: int = trim_end(s, i4, i5);
            if e == i4 {
                Err(i4)
            } else {
                Ok((ArgSpec { name, ty: s.subrange(i4, e) }, i5))
            }
        }
    }
}

/// The parse of the comma-separated parameter units from `i` up to the
/// closing `)`: the parameters in order and the index just after the `)`,
/// or the index at which the list is malformed. An empty list and a
/// trailing comma are tolerated.
pub open spec fn spec_parse_args(s: Seq<char>, i: int) -> Result<(Seq<ArgSpec>, int), int>
    decreases s.len() - i,
        via spec_parse_args_decreases
{
    if i < 0 || i > s.len() {
        Err(i)
    } else {
        let j: int = skip_ws(s, i);
        if j >= s.len() {
            Err(j)
        } else if s[j] == ')' {
            Ok((Seq::empty(), j + 1))
        } else {
            match spec_parse_arg(s, j) {
                Err(p) => Err(p),
                Ok((a, k)) => {
                    if k >= s.len() {
                        Err(k)
                    } else if s[k] == ')' {
                        Ok((seq![a], k + 1))
                    } else if s[k] == ',' {
                        match spec_parse_args(s, k + 1) {
                            Err(p) => Err(p),
                            Ok((rest, m)) => Ok((seq![a] + rest, m)),
                        }
                    } else {
                        Err(k)
                    }
                },
            }
        }
    }
}

#[via_fn]
proof fn spec_parse_args_decreases(s: Seq<char>, i: int) {
    if 0 <= i <= s.len() {
        lemma_skip_ws_bounds(s, i);
        lemma_skip_ws_nonspace(s, i);
        let j: int = skip_ws(s, i);
        if j < s.len() && s[j] != ')' {
            assert(skip_ws(s, j) == j);
            lemma_scan_ident_bounds(s, j);
            let i2: int = scan_ident(s, j);
            if i2 != j {
                lemma_skip_ws_bounds(s, i2);
                let i3: int = skip_ws(s, i2);
                if i3 < s.len() && s[i3] == ':' {
                    lemma_skip_ws_bounds(s, i3 + 1);
                    lemma_scan_all_bounds(s, skip_ws(s, i3 + 1), 0, true);
                }
            }
        }
    }
}

proof fn lemma_skip_ws_nonspace(s: Seq<char>, i: int)
    requires
        0 <= i <= s.len(),
    ensures
        skip_ws(s, i) < s.len() ==> !is_space(s[skip_ws(s, i)]),
    decreases s.len() - i,
{
    if i < s.len() && is_space(s[i]) {
        lemma_skip_ws_nonspace(s, i + 1);
    }
}

/// The parse of everything after the parameter list: the optional return
/// type and the optional where-clause.
pub open spec fn spec_parse_tail(
    s: Seq<char>,
    name: Option<Seq<char>>,
    generics: Option<Seq<char>>,
    inputs: Seq<ArgSpec>,
    i: int,
) -> Result<SignatureSpec, int> {
    if i >= s.len() {
        Ok(
            SignatureSpec {
                name,
                generics,
                inputs,
                output: None,
                where_clause: None,
            },
        )
    } else if i + 1 < s.len() && s[i] == '-' && s[i + 1] == '>' {
        let rs: int = skip_ws(s, i + 2);
        let re: int = find_where(s, rs, 0);
        let rend: int = trim_end(s, rs, re);
        if rend == rs {
            Err(rs)
        } else {
            let output = Some(s.subrange(rs, rend));
            if re >= s.len() {
                Ok(SignatureSpec { name, generics, inputs, output, where_clause: None })
            } else {
                spec_parse_where(s, name, generics, inputs, output, re)
            }
        }
    } else if is_where_at(s, i) {
        spec_parse_where(s, name, generics, inputs, None, i)
    } else {
        Err(i)
    }
}

/// The parse of a where-clause whose keyword starts at `i`: everything
/// after the keyword, trimmed, is the constraint text.
pub open spec fn spec_parse_where(
    s: Seq<char>,
    name: Option<Seq<char>>,
    generics: Option<Seq<char>>,
    inputs: Seq<ArgSpec>,
    output: Option<Seq<char>>,
    i: int,
) -> Result<SignatureSpec, int> {
    let ws: int = skip_ws(s, i + 5);
    let we: int = trim_end(s, ws, s.len() as int);
    Ok(
        SignatureSpec {
            name,
            generics,
            inputs,
            output,
            where_clause: Some(s.subrange(ws, we)),
        },
    )
}

/// The parse of the parameter list and everything after it, the `(`
/// expected at `i`.
pub open spec fn spec_parse_params(
    s: Seq<char>,
    name: Option<Seq<char>>,
    generics: Option<Seq<char>>,
    i: int,
) -> Result<SignatureSpec, int> {
    if !(0 <= i < s.len() && s[i] == '(') {
        Err(i)
    } else {
        match spec_parse_args(s, i + 1) {
            Err(p) => Err(p),
            Ok((inputs, k)) => spec_parse_tail(s, name, generics, inputs, skip_ws(s, k)),
        }
    }
}

fn x_is_space(c: char) -> (r: bool)
    ensures
        r == is_space(c),
{
    c == ' ' || c == '\t' || c == '\n' || c == '\r'
}

fn x_is_ident_char(c: char) -> (r: bool)
    ensures
        r == is_ident_char(c),
{
    let u: u32 = c as u32;
    u == 95 || (97 <= u && u <= 122) || (65 <= u && u <= 90) || (48 <= u && u <= 57)
}

fn x_skip_ws(s: &str, n: usize, i: usize) -> (r: usize)
    requires
        n == s@.len(),
        i <= n,
    ensures
        i <= r <= n,
        r as int == skip_ws(s@, i as int),
    decreases n - i,
{
    if i < n {
        if x_is_space(s.get_char(i)) {
            return x_skip_ws(s, n, i + 1);
        }
    }
    i
}

fn x_scan_ident(s: &str, n: usize, i: usize) -> (r: usize)
    requires
        n == s@.len(),
        i <= n,
    ensures
        i <= r <= n,
        r as int == scan_ident(s@, i as int),
    decreases n - i,
{
    if i < n {
        if x_is_ident_char(s.get_char(i)) {
            return x_scan_ident(s, n, i + 1);
        }
    }
    i
}

fn x_is_closer(s: &str, n: usize, i: usize) -> (r: bool)
    requires
        n == s@.len(),
        i < n,
    ensures
        r == is_closer(s@, i as int),
{
    let c: char = s.get_char(i);
    c == ')' || c == ']' || (c == '>' && !(i > 0 && s.get_char(i - 1) == '-'))
}

fn x_scan_all(s: &str, n: usize, i: usize, depth: usize, stop_comma: bool) -> (r: usize)
    requires
        n == s@.len(),
        i <= n,
        depth <= i,
    ensures
        i <= r <= n,
        r as int == scan_all(s@, i as int, depth as int, stop_comma),
    decreases n - i,
{
    if i >= n {
        return i;
    }
    let c: char = s.get_char(i);
    let closer = x_is_closer(s, n, i);
    if depth == 0 && ((stop_comma && c == ',') || closer) {
        i
    } else if c == '(' || c == '[' || c == '<' {
        x_scan_all(s, n, i + 1, depth + 1, stop_comma)
    } else if closer {
        x_scan_all(s, n, i + 1, depth - 1, stop_comma)
    } else {
        x_scan_all(s, n, i + 1, depth, stop_comma)
    }
}

fn x_trim_end(s: &str, n: usize, lo: usize, e: usize) -> (r: usize)
    requires
        n == s@.len(),
        lo <= e <= n,
    ensures
        lo <= r <= e,
        r as int == trim_end(s@, lo as int, e as int),
    decreases e,
{
    if e > lo && x_is_space(s.get_char(e - 1)) {
        x_trim_end(s, n, lo, e - 1)
    } else {
        e
    }
}

fn x_is_where_at(s: &str, n: usize, i: usize) -> (r: bool)
    requires
        n == s@.len(),
        i <= n,
    ensures
        r == is_where_at(s@, i as int),
{
    if n - i < 5 {
        return false;
    }
    if !(s.get_char(i) == 'w' && s.get_char(i + 1) == 'h' && s.get_char(i + 2) == 'e'
        && s.get_char(i + 3) == 'r' && s.get_char(i + 4) == 'e') {
        return false;
    }
    if i > 0 && x_is_ident_char(s.get_char(i - 1)) {
        return false;
    }
    if i + 5 < n && x_is_ident_char(s.get_char(i + 5)) {
        return false;
    }
    true
}

fn x_find_where(s: &str, n: usize, i: usize, depth: usize) -> (r: usize)
    requires
        n == s@.len(),
        i <= n,
        depth <= i,
    ensures
        r <= n,
        r as int == find_where(s@, i as int, depth as int),
    decreases n - i,
{
    if i >= n {
        return n;
    }
    if depth == 0 && x_is_where_at(s, n, i) {
        return i;
    }
    let c: char = s.get_char(i);
    if c == '(' || c == '[' || c == '<' {
        x_find_where(s, n, i + 1, depth + 1)
    } else if x_is_closer(s, n, i) {
        x_find_where(s, n, i + 1, if depth > 0 { depth - 1 } else { 0 })
    } else {
        x_find_where(s, n, i + 1, depth)
    }
}

/// Copies the characters `[from, to)` of the text into an owned string.
fn x_substring(s: &str, n: usize, from: usize, to: usize) -> (r: String)
    requires
        n == s@.len(),
        from <= to <= n,
    ensures
        r@ == s@.subrange(from as int, to as int),
{
    s.substring_char(from, to).to_owned()
}

fn x_parse_arg(s: &str, n: usize, i: usize) -> (r: Result<(SimpleArg, usize), usize>)
    requires
        n == s@.len(),
        i <= n,
    ensures
        match r {
            Ok((a, k)) => i <= k <= n && spec_parse_arg(s@, i as int) == Ok::<(ArgSpec, int), int>(
                (a.deep_view(), k as int),
            ),
            Err(p) => spec_parse_arg(s@, i as int) == Err::<(ArgSpec, int), int>(p as int),
        },
{
    let i1: usize = x_skip_ws(s, n, i);
    let i2: usize = x_scan_ident(s, n, i1);
    if i2 == i1 {
        return Err(i1);
    }
    let name: String = x_substring(s, n, i1, i2);
    let i3: usize = x_skip_ws(s, n, i2);
    if !(i3 < n && s.get_char(i3) == ':') {
        return Err(i3);
    }
    let i4: usize = x_skip_ws(s, n, i3 + 1);
    let i5: usize = x_scan_all(s, n, i4, 0, true);
    let e: usize = x_trim_end(s, n, i4, i5);
    if e == i4 {
        return Err(i4);
    }
    let ty: String = x_substring(s, n, i4, e);
    Ok((SimpleArg { name, ty }, i5))
}

fn x_parse_args(s: &str, n: usize, i: usize) -> (r: Result<(Vec<SimpleArg>, usize), usize>)
    requires
        n == s@.len(),
        i <= n,
    ensures
        match r {
            Ok((args, k)) => i <= k <= n && spec_parse_args(s@, i as int) == Ok::<
                (Seq<ArgSpec>, int),
                int,
            >((args.deep_view(), k as int)),
            Err(p) => spec_parse_args(s@, i as int) == Err::<(Seq<ArgSpec>, int), int>(p as int),
        },
    decreases n - i,
{
    let j: usize = x_skip_ws(s, n, i);
    if j >= n {
        return Err(j);
    }
    if s.get_char(j) == ')' {
        let empty: Vec<SimpleArg> = Vec::new();
        proof {
            assert(empty.deep_view() =~= Seq::<ArgSpec>::empty());
        }
        return Ok((empty, j + 1));
    }
    match x_parse_arg(s, n, j) {
        Err(p) => Err(p),
        Ok((a, k)) => {
            if k >= n {
                return Err(k);
            }
            let ghost av = a.deep_view();
            if s.get_char(k) == ')' {
                let mut one: Vec<SimpleArg> = Vec::new();
                one.push(a);
                proof {
                    assert(one.deep_view() =~= seq![av]);
                }
                Ok((one, k + 1))
            } else if s.get_char(k) == ',' {
                match x_parse_args(s, n, k + 1) {
                    Err(p) => Err(p),
                    Ok((rest, m)) => {
                        let ghost restv = rest.deep_view();
                        let mut args = rest;
                        args.insert(0, a);
                        proof {
                            assert(args.deep_view() =~= seq![av] + restv);
                        }
                        Ok((args, m))
                    },
                }
            } else {
                Err(k)
            }
        },
    }
}

impl Signature {
    /// Parses a signature-pattern text against the grammar at the head of
    /// this module. On success the structured pattern is returned; on
    /// failure, the character index at which the text fails the grammar.
    pub fn parse(s: &str) -> (r: Result<Signature, Error>)
        ensures
            match r {
                Ok(sig) => spec_parse_signature(s@) == Ok::<SignatureSpec, int>(sig.deep_view()),
                Err(e) => {
                    &&& spec_parse_signature(s@) is Err
                    &&& e == (Error::Parse { at: spec_parse_signature(s@)->Err_0 as usize })
                },
            },
    {
        let n: usize = s.unicode_len();
        let i0: usize = x_skip_ws(s, n, 0);
        let ie: usize = x_scan_ident(s, n, i0);
        if !(n - i0 >= 2 && ie == i0 + 2 && s.get_char(i0) == 'f' && s.get_char(i0 + 1) == 'n') {
            return Err(Error::Parse { at: i0 });
        }
        let i1: usize = x_skip_ws(s, n, ie);
        let i2: usize = x_scan_ident(s, n, i1);
        let name: Option<String> = if i2 > i1 {
            Some(x_substring(s, n, i1, i2))
        } else {
            None
        };
        let i3: usize = x_skip_ws(s, n, i2);
        if i3 < n && s.get_char(i3) == '<' {
            let ge: usize = x_scan_all(s, n, i3 + 1, 0, false);
            if !(ge < n && s.get_char(ge) == '>') {
                return Err(Error::Parse { at: ge });
            }
            let gs: usize = x_skip_ws(s, n, i3 + 1);
            proof {
                lemma_skip_ws_stops(s@, i3 + 1, ge as int);
            }
            let gend: usize = x_trim_end(s, n, gs, ge);
            let gtext: String = x_substring(s, n, gs, gend);
            let start: usize = x_skip_ws(s, n, ge + 1);
            Self::parse_params(s, n, name, Some(gtext), start)
        } else {
            Self::parse_params(s, n, name, None, i3)
        }
    }

    fn parse_params(
        s: &str,
        n: usize,
        name: Option<String>,
        generics: Option<String>,
        i: usize,
    ) -> (r: Result<Signature, Error>)
        requires
            n == s@.len(),
            i <= n,
        ensures
            match r {
                Ok(sig) => spec_parse_params(s@, name.deep_view(), generics.deep_view(), i as int)
                    == Ok::<SignatureSpec, int>(sig.deep_view()),
                Err(e) => {
                    &&& spec_parse_params(s@, name.deep_view(), generics.deep_view(), i as int)
                        is Err
                    &&& e == (Error::Parse {
                        at: spec_parse_params(
                            s@,
                            name.deep_view(),
                            generics.deep_view(),
                            i as int,
                        )->Err_0 as usize,
                    })
                },
            },
    {
        if !(i < n && s.get_char(i) == '(') {
            return Err(Error::Parse { at: i });
        }
        match x_parse_args(s, n, i + 1) {
            Err(p) => Err(Error::Parse { at: p }),
            Ok((inputs, k)) => {
                let t: usize = x_skip_ws(s, n, k);
                Self::parse_tail(s, n, name, generics, inputs, t)
            },
        }
    }

    fn parse_tail(
        s: &str,
        n: usize,
        name: Option<String>,
        generics: Option<String>,
        inputs: Vec<SimpleArg>,
        i: usize,
    ) -> (r: Result<Signature, Error>)
        requires
            n == s@.len(),
            i <= n,
        ensures
            match r {
                Ok(sig) => spec_parse_tail(
                    s@,
                    name.deep_view(),
                    generics.deep_view(),
                    inputs.deep_view(),
                    i as int,
                ) == Ok::<SignatureSpec, int>(sig.deep_view()),
                Err(e) => {
                    &&& spec_parse_tail(
                        s@,
                        name.deep_view(),
                        generics.deep_view(),
                        inputs.deep_view(),
                        i as int,
                    ) is Err
                    &&& e == (Error::Parse {
                        at: spec_parse_tail(
                            s@,
                            name.deep_view(),
                            generics.deep_view(),
                            inputs.deep_view(),
                            i as int,
                        )->Err_0 as usize,
                    })
                },
            },
    {
        if i >= n {
            return Ok(
                Signature { name, generics, inputs, output: None, where_clause: None },
            );
        }
        if n - i > 1 && s.get_char(i) == '-' && s.get_char(i + 1) == '>' {
            let rs: usize = x_skip_ws(s, n, i + 2);
            let re: usize = x_find_where(s, n, rs, 0);
            proof {
                lemma_find_where_lower(s@, rs as int, 0);
            }
            let rend: usize = x_trim_end(s, n, rs, re);
            if rend == rs {
                return Err(Error::Parse { at: rs });
            }
            let output: Option<String> = Some(x_substring(s, n, rs, rend));
            if re >= n {
                Ok(Signature { name, generics, inputs, output, where_clause: None })
            } else {
                Self::parse_where(s, n, name, generics, inputs, output, re)
            }
        } else if x_is_where_at(s, n, i) {
            Self::parse_where(s, n, name, generics, inputs, None, i)
        } else {
            Err(Error::Parse { at: i })
        }
    }

    fn parse_where(
        s: &str,
        n: usize,
        name: Option<String>,
        generics: Option<String>,
        inputs: Vec<SimpleArg>,
        output: Option<String>,
        i: usize,
    ) -> (r: Result<Signature, Error>)
        requires
            n == s@.len(),
            i + 5 <= n,
        ensures
            r is Ok,
            spec_parse_where(
                s@,
                name.deep_view(),
                generics.deep_view(),
                inputs.deep_view(),
                output.deep_view(),
                i as int,
            ) == Ok::<SignatureSpec, int>(r->Ok_0.deep_view()),
    {
        let ws: usize = x_skip_ws(s, n, i + 5);
        let we: usize = x_trim_end(s, n, ws, n);
        let wtext: String = x_substring(s, n, ws, we);
        Ok(
            Signature {
                name,
                generics,
                inputs,
                output,
                where_clause: Some(wtext),
            },
        )
    }
}

proof fn lemma_find_where_lower(s: Seq<char>, i: int, depth: int)
    requires
        0 <= i <= s.len(),
    ensures
        i <= find_where(s, i, depth) <= s.len(),
        find_where(s, i, depth) < s.len() ==> is_where_at(s, find_where(s, i, depth)),
    decreases s.len() - i,
{
    if i < s.len() && !(depth == 0 && is_where_at(s, i)) {
        if s[i] == '(' || s[i] == '[' || s[i] == '<' {
            lemma_find_where_lower(s, i + 1, depth + 1);
        } else if is_closer(s, i) {
            lemma_find_where_lower(s, i + 1, if depth > 0 { depth - 1 } else { 0 });
        } else {
            lemma_find_where_lower(s, i + 1, depth);
        }
    }
}

proof fn lemma_skip_ws_stops(s: Seq<char>, i: int, j: int)
    requires
        0 <= i <= j < s.len(),
        !is_space(s[j]),
    ensures
        skip_ws(s, i) <= j,
    decreases j - i,
{
    if i < j && is_space(s[i]) {
        lemma_skip_ws_stops(s, i + 1, j);
    }
}

/// The parse of a whole signature-pattern text. On success the result is
/// the structured pattern; on failure the index of the first character at
/// which the text fails the grammar.
pub open spec fn spec_parse_signature(s: Seq<char>) -> Result<SignatureSpec, int> {
    let i0: int = skip_ws(s, 0);
    let ie: int = scan_ident(s, i0);
    if !(ie == i0 + 2 && i0 + 2 <= s.len() && s[i0] == 'f' && s[i0 + 1] == 'n') {
        Err(i0)
    } else {
        let i1: int = skip_ws(s, ie);
        let i2: int = scan_ident(s, i1);
        let name = if i2 > i1 {
            Some(s.subrange(i1, i2))
        } else {
            None::<Seq<char>>
        };
        let i3: int = skip_ws(s, i2);
        if 0 <= i3 < s.len() && s[i3] == '<' {
            let ge: int = scan_all(s, i3 + 1, 0, false);
            if !(ge < s.len() && s[ge] == '>') {
                Err(ge)
            } else {
                let gs: int = skip_ws(s, i3 + 1);
                let gtext = s.subrange(gs, trim_end(s, gs, ge));
                spec_parse_params(s, name, Some(gtext), skip_ws(s, ge + 1))
            }
        } else {
            spec_parse_params(s, name, None, i3)
        }
    }
}

} // verus!

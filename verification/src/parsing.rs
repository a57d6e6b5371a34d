//! Splitting a shader file into named shader sources.
//!
//! A file holds an optional `//--GLOBAL:` section, whose code is prepended to
//! every shader of the file, followed by shaders, each introduced by a line
//! `//-- name`. A shader's name starts with its stage (`vs`, `ps`, `gs`, `cs`,
//! `tc` or `te`). Every source is padded with newlines so that line numbers in
//! compiler messages match the file.
use vstd::prelude::*;
use crate::text::{append_chars, debug_quoted, dec_digits, push_usize_digits, str_debug, dec_string, i32_to_chars, parse_i32, parse_i32_spec, occurs_at, char_is_alnum, char_is_ctrl, char_is_ws, count_lines, find_from, is_alnum, is_ctrl, is_ws, lemma_find_from, lemma_line_count_le, line_count, string_of, chars_of, find};

verus! {

/// A class of characters.
#[derive(Clone, Copy, Debug, PartialEq, Eq)]
pub enum CharClass {
    Whitespace,
    Alnum,
    Control,
}

pub open spec fn in_class(k: CharClass, c: char) -> bool {
    match k {
        CharClass::Whitespace => is_ws(c),
        CharClass::Alnum => is_alnum(c),
        CharClass::Control => is_ctrl(c),
    }
}

/// Index of the first character at or after `i` in class `k`, or the length.
pub open spec fn first_in(s: Seq<char>, k: CharClass, i: int) -> int
    decreases s.len() - i,
{
    if i < 0 || i >= s.len() {
        s.len() as int
    } else if in_class(k, s[i]) {
        i
    } else {
        first_in(s, k, i + 1)
    }
}

/// `s` from its first character in class `k` on; empty when there is none.
pub open spec fn from_first(s: Seq<char>, k: CharClass) -> Seq<char> {
    s.subrange(first_in(s, k, 0), s.len() as int)
}

/// `s` split before its first character in class `k`.
pub open spec fn split_first(s: Seq<char>, k: CharClass) -> (Seq<char>, Seq<char>) {
    (s.subrange(0, first_in(s, k, 0)), s.subrange(first_in(s, k, 0), s.len() as int))
}

/// `s` without its trailing `-` characters.
pub open spec fn trim_dashes(s: Seq<char>) -> Seq<char>
    decreases s.len(),
{
    if s.len() > 0 && s.last() == '-' {
        trim_dashes(s.drop_last())
    } else {
        s
    }
}

/// `s` without its whitespace characters.
pub open spec fn strip_ws(s: Seq<char>) -> Seq<char>
    decreases s.len(),
{
    if s.len() == 0 {
        s
    } else if is_ws(s.last()) {
        strip_ws(s.drop_last())
    } else {
        strip_ws(s.drop_last()).push(s.last())
    }
}

/// Stage of a shader, from the first two characters of its name.
#[derive(Clone, Copy, Debug, PartialEq, Eq)]
pub enum ShaderKind {
    Vertex,
    Fragment,
    Geometry,
    Compute,
    TessCtrl,
    TessEval,
}

/// Stage named by a shader name: `vs`, `ps`, `gs`, `cs`, `tc` or `te` as its
/// first two characters.
pub open spec fn kind_of(n: Seq<char>) -> Option<ShaderKind> {
    if n.len() < 2 {
        None
    } else if n[0] == 'v' && n[1] == 's' {
        Some(ShaderKind::Vertex)
    } else if n[0] == 'p' && n[1] == 's' {
        Some(ShaderKind::Fragment)
    } else if n[0] == 'g' && n[1] == 's' {
        Some(ShaderKind::Geometry)
    } else if n[0] == 'c' && n[1] == 's' {
        Some(ShaderKind::Compute)
    } else if n[0] == 't' && n[1] == 'c' {
        Some(ShaderKind::TessCtrl)
    } else if n[0] == 't' && n[1] == 'e' {
        Some(ShaderKind::TessEval)
    } else {
        None
    }
}

/// Law: the stage of a shader is fixed by the first two characters of its
/// name alone: `vs` vertex, `ps` fragment, `gs` geometry, `cs` compute, `tc`
/// tessellation control, `te` tessellation evaluation; no other name has one.
pub proof fn law_kind_prefixes(n: Seq<char>)
    ensures
        n.len() >= 2 ==> kind_of(n) == kind_of(n.subrange(0, 2)),
        n.len() >= 2 && n.subrange(0, 2) == seq!['v', 's'] ==> kind_of(n) == Some(ShaderKind::Vertex),
        n.len() >= 2 && n.subrange(0, 2) == seq!['p', 's'] ==> kind_of(n) == Some(ShaderKind::Fragment),
        n.len() >= 2 && n.subrange(0, 2) == seq!['g', 's'] ==> kind_of(n) == Some(ShaderKind::Geometry),
        n.len() >= 2 && n.subrange(0, 2) == seq!['c', 's'] ==> kind_of(n) == Some(ShaderKind::Compute),
        n.len() >= 2 && n.subrange(0, 2) == seq!['t', 'c'] ==> kind_of(n) == Some(ShaderKind::TessCtrl),
        n.len() >= 2 && n.subrange(0, 2) == seq!['t', 'e'] ==> kind_of(n) == Some(ShaderKind::TessEval),
        kind_of(n) is Some ==> n.len() >= 2 && (n.subrange(0, 2) == seq!['v', 's'] || n.subrange(0, 2) == seq!['p', 's']
            || n.subrange(0, 2) == seq!['g', 's'] || n.subrange(0, 2) == seq!['c', 's']
            || n.subrange(0, 2) == seq!['t', 'c'] || n.subrange(0, 2) == seq!['t', 'e']),
{
    if n.len() >= 2 {
        let p = n.subrange(0, 2);
        assert(p[0] == n[0] && p[1] == n[1]);
        if kind_of(n) is Some {
            if n[0] == 'v' && n[1] == 's' {
                assert(p =~= seq!['v', 's']);
            } else if n[0] == 'p' && n[1] == 's' {
                assert(p =~= seq!['p', 's']);
            } else if n[0] == 'g' && n[1] == 's' {
                assert(p =~= seq!['g', 's']);
            } else if n[0] == 'c' && n[1] == 's' {
                assert(p =~= seq!['c', 's']);
            } else if n[0] == 't' && n[1] == 'c' {
                assert(p =~= seq!['t', 'c']);
            } else {
                assert(p =~= seq!['t', 'e']);
            }
        }
    }
}

/// A run of `n` newlines.
pub open spec fn newline_run(n: nat) -> Seq<char> {
    Seq::new(n, |i: int| '\n')
}

pub open spec fn marker() -> Seq<char> {
    seq!['/', '/', '-', '-']
}

pub open spec fn global_marker() -> Seq<char> {
    seq!['/', '/', '-', '-', 'G', 'L', 'O', 'B', 'A', 'L', ':']
}

/// What becomes of one shader of a file.
pub enum Parsed {
    /// Name (without whitespace) and source of a shader.
    Source(Seq<char>, Seq<char>),
    /// The file has no shader marker.
    Layout,
    /// The shader at this line has no valid name.
    BadName(int),
    /// The shader with this name at this line has no body.
    EmptyBody(Seq<char>, int),
}

/// Result of parsing one shader piece (the text after its marker) whose
/// first line is line `cur` of the file, and the line of the next piece.
pub open spec fn parse_piece(piece: Seq<char>, globals: Seq<char>, cur: int) -> (Parsed, int) {
    let named = from_first(from_first(piece, CharClass::Whitespace), CharClass::Alnum);
    let (n0, b) = split_first(named, CharClass::Control);
    let n = trim_dashes(n0);
    if kind_of(n) is None {
        (Parsed::BadName(cur), cur)
    } else if b.len() == 0 {
        (Parsed::EmptyBody(n, cur), cur)
    } else {
        (Parsed::Source(strip_ws(n), globals + newline_run(cur as nat) + b), cur + line_count(b))
    }
}

/// Results for the pieces from position `pos` on, each ending at the next
/// marker or at the end of the text.
pub open spec fn parse_pieces(text: Seq<char>, pos: int, globals: Seq<char>, cur: int) -> Seq<Parsed>
    decreases text.len() - pos,
{
    if pos < 0 || pos > text.len() {
        seq![]
    } else {
        let e = find_from(text, marker(), pos);
        proof {
            lemma_find_from(text, marker(), pos);
        }
        let piece = if e >= 0 { text.subrange(pos, e) } else { text.subrange(pos, text.len() as int) };
        let (r, next) = parse_piece(piece, globals, cur);
        if e >= 0 {
            seq![r] + parse_pieces(text, e + 4, globals, next)
        } else {
            seq![r]
        }
    }
}

/// Result of parsing a whole shader file.
pub open spec fn parse_spec(text: Seq<char>) -> Seq<Parsed> {
    let g = find_from(text, global_marker(), 0);
    let cur0 = if g >= 0 { line_count(text.subrange(0, g)) } else { 0 };
    let e = if g >= 0 { find_from(text, marker(), g + 12) } else { find_from(text, marker(), 0) };
    let globals = if g >= 0 && e >= 0 { text.subrange(g + 12, e) } else { seq![] };
    if e < 0 {
        seq![Parsed::Layout]
    } else {
        parse_pieces(text, e + 4, globals, cur0)
    }
}

/// A file that can be sliced after its `//--GLOBAL:` marker: the marker, when
/// there is one, is followed by at least one ASCII character.
pub open spec fn sliceable(text: Seq<char>) -> bool {
    let g = find_from(text, global_marker(), 0);
    g >= 0 ==> g + 11 < text.len() && (text[g + 11] as u32) < 128
}

/// Errors in a shader file.
#[derive(Clone, Debug, PartialEq, Eq)]
pub enum ShdParseError {
    /// The file has no `//--` marker.
    Layout,
    /// The shader at this line has no valid name.
    BadName { line: usize },
    /// The shader with this name at this line has no body.
    EmptyBody { name: String, line: usize },
}

/// A parsed shader: its name and source.
#[derive(Clone, Debug)]
pub struct ShdSrc {
    pub name: String,
    pub src: String,
}

pub open spec fn parsed_view(r: Result<ShdSrc, ShdParseError>) -> Parsed {
    match r {
        Ok(s) => Parsed::Source(s.name@, s.src@),
        Err(ShdParseError::Layout) => Parsed::Layout,
        Err(ShdParseError::BadName { line }) => Parsed::BadName(line as int),
        Err(ShdParseError::EmptyBody { name, line }) => Parsed::EmptyBody(name@, line as int),
    }
}

/// Index of the first character at or after `i` in class `k`, or the length.
pub fn first_in_class(s: &Vec<char>, k: CharClass, i: usize) -> (r: usize)
    requires
        i <= s@.len(),
    ensures
        r == first_in(s@, k, i as int),
        i <= r <= s@.len(),
{
    let mut j = i;
    while j < s.len()
        invariant
            i <= j <= s@.len(),
            first_in(s@, k, i as int) == first_in(s@, k, j as int),
        decreases s@.len() - j,
    {
        let c = s[j];
        let hit = match k {
            CharClass::Whitespace => char_is_ws(c),
            CharClass::Alnum => char_is_alnum(c),
            CharClass::Control => char_is_ctrl(c),
        };
        if hit {
            return j;
        }
        j = j + 1;
    }
    j
}

/// The characters of `s` from `lo` up to `hi`.
pub fn sub_chars(s: &Vec<char>, lo: usize, hi: usize) -> (r: Vec<char>)
    requires
        lo <= hi <= s@.len(),
    ensures
        r@ == s@.subrange(lo as int, hi as int),
{
    let mut r: Vec<char> = Vec::new();
    let mut i = lo;
    while i < hi
        invariant
            lo <= i <= hi <= s@.len(),
            r@ == s@.subrange(lo as int, i as int),
        decreases hi - i,
    {
        r.push(s[i]);
        i = i + 1;
        assert(r@ =~= s@.subrange(lo as int, i as int));
    }
    r
}

/// `s` without its trailing `-` characters.
pub fn trim_end_dashes(s: &Vec<char>) -> (r: Vec<char>)
    ensures
        r@ == trim_dashes(s@),
{
    let mut j = s.len();
    assert(s@.subrange(0, s@.len() as int) =~= s@);
    while j > 0 && s[j - 1] == '-'
        invariant
            j <= s@.len(),
            trim_dashes(s@.subrange(0, j as int)) == trim_dashes(s@),
        decreases j,
    {
        assert(s@.subrange(0, j as int).drop_last() =~= s@.subrange(0, j - 1));
        j = j - 1;
    }
    sub_chars(s, 0, j)
}

/// `s` without its whitespace characters.
pub fn remove_ws(s: &Vec<char>) -> (r: Vec<char>)
    ensures
        r@ == strip_ws(s@),
{
    let mut r: Vec<char> = Vec::new();
    let mut i: usize = 0;
    while i < s.len()
        invariant
            i <= s@.len(),
            r@ == strip_ws(s@.subrange(0, i as int)),
        decreases s@.len() - i,
    {
        assert(s@.subrange(0, i + 1).drop_last() =~= s@.subrange(0, i as int));
        if !char_is_ws(s[i]) {
            r.push(s[i]);
        }
        i = i + 1;
    }
    assert(s@.subrange(0, s@.len() as int) =~= s@);
    r
}

/// Stage of a shader from its name.
pub fn shader_kind(n: &Vec<char>) -> (r: Option<ShaderKind>)
    ensures
        r == kind_of(n@),
{
    if n.len() < 2 {
        None
    } else if n[0] == 'v' && n[1] == 's' {
        Some(ShaderKind::Vertex)
    } else if n[0] == 'p' && n[1] == 's' {
        Some(ShaderKind::Fragment)
    } else if n[0] == 'g' && n[1] == 's' {
        Some(ShaderKind::Geometry)
    } else if n[0] == 'c' && n[1] == 's' {
        Some(ShaderKind::Compute)
    } else if n[0] == 't' && n[1] == 'c' {
        Some(ShaderKind::TessCtrl)
    } else if n[0] == 't' && n[1] == 'e' {
        Some(ShaderKind::TessEval)
    } else {
        None
    }
}

/// One shader piece: its result and the line of the next piece.
pub fn parse_one(piece: &Vec<char>, globals: &Vec<char>, cur: usize) -> (r: (Result<ShdSrc, ShdParseError>, usize))
    requires
        cur + piece@.len() <= usize::MAX,
    ensures
        parsed_view(r.0) == parse_piece(piece@, globals@, cur as int).0,
        r.1 == parse_piece(piece@, globals@, cur as int).1,
        cur <= r.1 <= cur + piece@.len(),
{
    let i1 = first_in_class(piece, CharClass::Whitespace, 0);
    let a = sub_chars(piece, i1, piece.len());
    let i2 = first_in_class(&a, CharClass::Alnum, 0);
    let named = sub_chars(&a, i2, a.len());
    let i3 = first_in_class(&named, CharClass::Control, 0);
    let n0 = sub_chars(&named, 0, i3);
    let b = sub_chars(&named, i3, named.len());
    let n = trim_end_dashes(&n0);
    if shader_kind(&n).is_none() {
        return (Err(ShdParseError::BadName { line: cur }), cur);
    }
    if b.len() == 0 {
        return (Err(ShdParseError::EmptyBody { name: string_of(n.as_slice()), line: cur }), cur);
    }
    let name = remove_ws(&n);
    let mut src: Vec<char> = Vec::new();
    let mut i: usize = 0;
    while i < globals.len()
        invariant
            i <= globals@.len(),
            src@ == globals@.subrange(0, i as int),
        decreases globals@.len() - i,
    {
        src.push(globals[i]);
        i = i + 1;
        assert(src@ =~= globals@.subrange(0, i as int));
    }
    assert(globals@.subrange(0, globals@.len() as int) =~= globals@);
    let mut k: usize = 0;
    while k < cur
        invariant
            k <= cur,
            src@ == globals@ + newline_run(k as nat),
        decreases cur - k,
    {
        src.push('\n');
        k = k + 1;
        assert(src@ =~= globals@ + newline_run(k as nat));
    }
    let mut j: usize = 0;
    while j < b.len()
        invariant
            j <= b@.len(),
            src@ == globals@ + newline_run(cur as nat) + b@.subrange(0, j as int),
        decreases b@.len() - j,
    {
        src.push(b[j]);
        j = j + 1;
        assert(src@ =~= globals@ + newline_run(cur as nat) + b@.subrange(0, j as int));
    }
    assert(b@.subrange(0, b@.len() as int) =~= b@);
    let lines = count_lines(b.as_slice());
    proof {
        lemma_line_count_le(b@);
        assert(b@.len() <= piece@.len());
    }
    let out = ShdSrc { name: string_of(name.as_slice()), src: string_of(src.as_slice()) };
    (Ok(out), cur + lines)
}

pub open spec fn views(v: Seq<Result<ShdSrc, ShdParseError>>) -> Seq<Parsed> {
    v.map_values(|x: Result<ShdSrc, ShdParseError>| parsed_view(x))
}

/// Splits the text of a shader file into shader sources; `filename` names
/// the file in the messages that the caller makes of the errors.
pub fn parse_shader_sources(filename: &str, text: &str) -> (r: Vec<Result<ShdSrc, ShdParseError>>)
    requires
        sliceable(text@),
    ensures
        views(r@) == parse_spec(text@),
{
    let t = chars_of(text);
    let gm = vec!['/', '/', '-', '-', 'G', 'L', 'O', 'B', 'A', 'L', ':'];
    let mk = vec!['/', '/', '-', '-'];
    assert(gm@ =~= global_marker());
    assert(mk@ =~= marker());
    let g = find(&t, &gm, 0);
    proof {
        lemma_find_from(t@, global_marker(), 0);
    }
    let (cur0, e) = match g {
        Some(g) => {
            let before = sub_chars(&t, 0, g);
            let c = count_lines(before.as_slice());
            proof {
                lemma_line_count_le(before@);
            }
            assert(g + 12 <= t.len());
            (c, find(&t, &mk, g + 12))
        },
        None => (0, find(&t, &mk, 0)),
    };
    let e = match e {
        Some(e) => e,
        None => {
            let mut r: Vec<Result<ShdSrc, ShdParseError>> = Vec::new();
            r.push(Err(ShdParseError::Layout));
            assert(views(r@) =~= parse_spec(text@));
            return r;
        },
    };
    proof {
        match g {
            Some(g) => lemma_find_from(t@, marker(), g + 12),
            None => lemma_find_from(t@, marker(), 0),
        }
    }
    let globals = match g {
        Some(g) => sub_chars(&t, g + 12, e),
        None => Vec::new(),
    };
    assert(globals@ =~= (if g.is_some() { t@.subrange(g.unwrap() + 12, e as int) } else { seq![] }));
    assert(occurs_at(t@, marker(), e as int));
    assert(marker().len() == 4);
    assert(e + 4 <= t.len());
    let ghost start = e + 4;
    let mut pos = e + 4;
    let mut cur = cur0;
    let mut out: Vec<Result<ShdSrc, ShdParseError>> = Vec::new();
    let mut done = false;
    while !done
        invariant
            t@ == text@,
            mk@ == marker(),
            !done ==> pos <= t@.len(),
            !done ==> cur <= pos,
            !done ==> views(out@) + parse_pieces(t@, pos as int, globals@, cur as int) == parse_pieces(
                t@,
                start,
                globals@,
                cur0 as int,
            ),
            done ==> views(out@) == parse_pieces(t@, start, globals@, cur0 as int),
        decreases t@.len() + 1 - pos + (if done { 0int } else { 1int }),
    {
        let e2 = find(&t, &mk, pos);
        proof {
            lemma_find_from(t@, marker(), pos as int);
        }
        let end = match e2 {
            Some(x) => x,
            None => t.len(),
        };
        let piece = sub_chars(&t, pos, end);
        let (res, next) = parse_one(&piece, &globals, cur);
        let ghost before = out@;
        out.push(res);
        assert(views(out@) =~= views(before).push(parsed_view(res)));
        match e2 {
            Some(x) => {
                assert(occurs_at(t@, marker(), x as int));
                assert(marker().len() == 4);
                assert(x + 4 <= t.len());
                assert(views(out@) + parse_pieces(t@, x + 4, globals@, next as int) =~= views(before)
                    + parse_pieces(t@, pos as int, globals@, cur as int));
                pos = x + 4;
                cur = next;
            },
            None => {
                assert(views(out@) =~= views(before) + parse_pieces(t@, pos as int, globals@, cur as int));
                done = true;
            },
        }
    }
    out
}


/// Index of the first `c` in `s` at or after `i`, or the length.
pub open spec fn first_of(s: Seq<char>, c: char, i: int) -> int
    decreases s.len() - i,
{
    if i < 0 || i >= s.len() {
        s.len() as int
    } else if s[i] == c {
        i
    } else {
        first_of(s, c, i + 1)
    }
}

/// `s` split before its first `c`.
pub open spec fn split_at_char(s: Seq<char>, c: char) -> (Seq<char>, Seq<char>) {
    (s.subrange(0, first_of(s, c, 0)), s.subrange(first_of(s, c, 0), s.len() as int))
}

pub open spec fn drop_lead_colons(s: Seq<char>) -> Seq<char>
    decreases s.len(),
{
    if s.len() > 0 && s[0] == ':' {
        drop_lead_colons(s.drop_first())
    } else {
        s
    }
}

pub open spec fn drop_trail_colons(s: Seq<char>) -> Seq<char>
    decreases s.len(),
{
    if s.len() > 0 && s.last() == ':' {
        drop_trail_colons(s.drop_last())
    } else {
        s
    }
}

/// `s` without leading and trailing `:` characters.
pub open spec fn trim_colons(s: Seq<char>) -> Seq<char> {
    drop_trail_colons(drop_lead_colons(s))
}

/// The line number that a compiler message line `l` (`file:line(col): text`)
/// carries: the text between its first `:` and the next `(`.
pub open spec fn line_number(l: Seq<char>) -> Option<int> {
    let (_, tail) = split_at_char(l, ':');
    let (num, _) = split_at_char(tail, '(');
    parse_i32_spec(trim_colons(num))
}

/// A message line with its line number moved by `offset`; lines without a
/// number are kept.
pub open spec fn adjust_line(l: Seq<char>, offset: int) -> Seq<char> {
    let (_, tail) = split_at_char(l, ':');
    let (_, rest) = split_at_char(tail, '(');
    match line_number(l) {
        Some(n) => dec_string(n + offset) + rest,
        None => l,
    }
}

/// `l` without a trailing carriage return.
pub open spec fn strip_cr(l: Seq<char>) -> Seq<char> {
    if l.len() > 0 && l.last() == '\r' {
        l.drop_last()
    } else {
        l
    }
}

/// The lines of `s`, as `str::lines` yields them.
pub open spec fn lines_of(s: Seq<char>) -> Seq<Seq<char>>
    decreases s.len(),
{
    if s.len() == 0 {
        seq![]
    } else {
        let i = first_of(s, '\n', 0);
        proof {
            lemma_first_of(s, '\n', 0);
        }
        if i >= s.len() {
            seq![s]
        } else {
            seq![strip_cr(s.subrange(0, i))] + lines_of(s.subrange(i + 1, s.len() as int))
        }
    }
}

/// Lines joined by newlines.
pub open spec fn join_lines(ls: Seq<Seq<char>>) -> Seq<char>
    decreases ls.len(),
{
    if ls.len() == 0 {
        seq![]
    } else if ls.len() == 1 {
        ls[0]
    } else {
        join_lines(ls.drop_last()) + seq!['\n'] + ls.last()
    }
}

/// A compiler log with every line number moved by `offset`, and its lines in
/// reverse order.
pub open spec fn adjust_log_spec(log: Seq<char>, offset: int) -> Seq<char> {
    join_lines(lines_of(log).map_values(|l: Seq<char>| adjust_line(l, offset)).reverse())
}

pub proof fn lemma_first_of(s: Seq<char>, c: char, i: int)
    requires
        0 <= i,
    ensures
        i <= first_of(s, c, i) <= s.len() || (i > s.len() && first_of(s, c, i) == s.len()),
        first_of(s, c, i) < s.len() ==> s[first_of(s, c, i)] == c,
        forall|j: int| i <= j < first_of(s, c, i) ==> s[j] != c,
    decreases s.len() - i,
{
    if i < s.len() && s[i] != c {
        lemma_first_of(s, c, i + 1);
    }
}

/// A source's name: its stage is known and it holds no whitespace.
pub open spec fn good_source(p: Parsed) -> bool {
    p matches Parsed::Source(n, _) ==> kind_of(n) is Some && forall|i: int| 0 <= i < n.len() ==> !is_ws(#[trigger] n[i])
}

/// Removing whitespace leaves no whitespace.
pub proof fn lemma_strip_ws_clean(s: Seq<char>)
    ensures
        forall|i: int| 0 <= i < strip_ws(s).len() ==> !is_ws(#[trigger] strip_ws(s)[i]),
    decreases s.len(),
{
    if s.len() > 0 {
        lemma_strip_ws_clean(s.drop_last());
        let p = strip_ws(s.drop_last());
        if !is_ws(s.last()) {
            assert forall|i: int| 0 <= i < p.len() + 1 implies !is_ws(#[trigger] p.push(s.last())[i]) by {
                if i < p.len() {
                    assert(p.push(s.last())[i] == p[i]);
                }
            }
        }
    }
}

/// Removing whitespace keeps two leading characters that are not whitespace.
pub proof fn lemma_strip_ws_head(s: Seq<char>)
    requires
        s.len() >= 2,
        !is_ws(s[0]),
        !is_ws(s[1]),
    ensures
        strip_ws(s).len() >= 2,
        strip_ws(s)[0] == s[0],
        strip_ws(s)[1] == s[1],
    decreases s.len(),
{
    if s.len() == 2 {
        let a = s.drop_last();
        assert(a.drop_last().len() == 0);
        assert(strip_ws(a.drop_last()) =~= seq![]);
        assert(strip_ws(a) =~= seq![s[0]]);
    } else {
        lemma_strip_ws_head(s.drop_last());
    }
}

/// The stage letters are not whitespace.
pub proof fn lemma_kind_letters(n: Seq<char>)
    requires
        kind_of(n) is Some,
    ensures
        !is_ws(n[0]),
        !is_ws(n[1]),
        kind_of(strip_ws(n)) == kind_of(n),
{
    assert(n[0] == 'v' || n[0] == 'p' || n[0] == 'g' || n[0] == 'c' || n[0] == 't');
    assert(n[1] == 's' || n[1] == 'c' || n[1] == 'e');
    lemma_strip_ws_head(n);
}

/// Every source a piece yields has a good name.
pub proof fn lemma_piece_good(piece: Seq<char>, globals: Seq<char>, cur: int)
    ensures
        good_source(parse_piece(piece, globals, cur).0),
{
    let named = from_first(from_first(piece, CharClass::Whitespace), CharClass::Alnum);
    let (n0, b) = split_first(named, CharClass::Control);
    let n = trim_dashes(n0);
    if kind_of(n) is Some && b.len() > 0 {
        lemma_kind_letters(n);
        lemma_strip_ws_clean(n);
    }
}

/// Every source of the pieces from `pos` on has a good name.
pub proof fn lemma_pieces_good(text: Seq<char>, pos: int, globals: Seq<char>, cur: int)
    ensures
        forall|k: int| 0 <= k < parse_pieces(text, pos, globals, cur).len() ==> good_source(
            #[trigger] parse_pieces(text, pos, globals, cur)[k],
        ),
    decreases text.len() - pos,
{
    if 0 <= pos <= text.len() {
        let e = find_from(text, marker(), pos);
        lemma_find_from(text, marker(), pos);
        let piece = if e >= 0 { text.subrange(pos, e) } else { text.subrange(pos, text.len() as int) };
        let (r, next) = parse_piece(piece, globals, cur);
        lemma_piece_good(piece, globals, cur);
        if e >= 0 {
            lemma_pieces_good(text, e + 4, globals, next);
            let rest = parse_pieces(text, e + 4, globals, next);
            assert(parse_pieces(text, pos, globals, cur) == seq![r] + rest);
            assert forall|k: int| 0 <= k < parse_pieces(text, pos, globals, cur).len() implies good_source(
                #[trigger] parse_pieces(text, pos, globals, cur)[k],
            ) by {
                if k > 0 {
                    assert(parse_pieces(text, pos, globals, cur)[k] == rest[k - 1]);
                }
            }
        }
    }
}

/// Law: every shader source a file yields is named by its stage (`vs`,
/// `ps`, `gs`, `cs`, `tc` or `te` first) and its name holds no whitespace.
pub proof fn law_source_names(text: Seq<char>)
    ensures
        forall|k: int| 0 <= k < parse_spec(text).len() ==> good_source(#[trigger] parse_spec(text)[k]),
{
    let g = find_from(text, global_marker(), 0);
    let cur0 = if g >= 0 { line_count(text.subrange(0, g)) } else { 0 };
    let e = if g >= 0 { find_from(text, marker(), g + 12) } else { find_from(text, marker(), 0) };
    let globals = if g >= 0 && e >= 0 { text.subrange(g + 12, e) } else { seq![] };
    if e >= 0 {
        lemma_pieces_good(text, e + 4, globals, cur0);
    }
}

/// The sources of a parsed file, in order.
pub open spec fn loaded_sources(ps: Seq<Parsed>) -> Seq<(Seq<char>, Seq<char>)>
    decreases ps.len(),
{
    if ps.len() == 0 {
        seq![]
    } else {
        let rest = loaded_sources(ps.drop_last());
        match ps.last() {
            Parsed::Source(n, s) => rest.push((n, s)),
            _ => rest,
        }
    }
}

/// The errors of a parsed file, in order.
pub open spec fn load_errors(ps: Seq<Parsed>) -> Seq<Parsed>
    decreases ps.len(),
{
    if ps.len() == 0 {
        seq![]
    } else {
        let rest = load_errors(ps.drop_last());
        match ps.last() {
            Parsed::Source(_, _) => rest,
            p => rest.push(p),
        }
    }
}

pub open spec fn src_pairs(v: Seq<ShdSrc>) -> Seq<(Seq<char>, Seq<char>)> {
    v.map_values(|x: ShdSrc| (x.name@, x.src@))
}

pub open spec fn error_views(v: Seq<ShdParseError>) -> Seq<Parsed> {
    v.map_values(|e: ShdParseError| parsed_view(Err(e)))
}

pub open spec fn layout_head() -> Seq<char> {
    seq!['\n', '\t', '\t', '\t', 'S', 'h', 'a', 'd', 'e', 'r', ' ', 'f', 'i', 'l', 'e', ' ']
}

pub open spec fn layout_tail() -> Seq<char> {
    seq![' ', 's', 'h', 'o', 'u', 'l', 'd', ' ', 'b', 'e', ' ', 's', 't', 'r', 'u', 'c', 't', 'u', 'r', 'e', 'd', ' ', 'a', 's', ' ', 'f', 'o', 'l', 'l', 'o', 'w', 's', ':', '\n', '\t', '\t', '\t', '/', '/', '-', '-', 'G', 'L', 'O', 'B', 'A', 'L', ':', '\n', '\t', '\t', '\t', 'C', 'o', 'd', 'e', ' ', 't', 'o', ' ', 'i', 'n', 'c', 'l', 'u', 'd', 'e', ' ', 'i', 'n', ' ', 'e', 'v', 'e', 'r', 'y', ' ', 's', 'h', 'a', 'd', 'e', 'r', ' ', 'i', 'n', ' ', 't', 'h', 'e', ' ', 'f', 'i', 'l', 'e', '\n', '\t', '\t', '\t', '/', '/', '-', '-', ' ', '(', 'p', 's', '|', 'v', 's', '|', 'g', 's', '|', 'c', 's', ')', '_', 's', 'h', 'a', 'd', 'e', 'r', '_', 'n', 'a', 'm', 'e', '\n', '\t', '\t', '\t', 'S', 'h', 'a', 'd', 'e', 'r', ' ', 'c', 'o', 'd', 'e', '\n', '\n', '\t', '\t', '\t', 'D', 'o', ' ', 'n', 'o', 't', ' ', 'i', 'n', 'c', 'l', 'u', 'd', 'e', ' ', 'g', 'l', 's', 'l', ' ', '\'', '#', 'v', 'e', 'r', 's', 'i', 'o', 'n', ' ', '.', '.', '.', '\'', ' ', 'h', 'e', 'a', 'd', 'e', 'r', ',', ' ', 'i', 't', ' ', 'w', 'i', 'l', 'l', ' ', 'b', 'e', ' ', 'g', 'e', 'n', 'e', 'r', 'a', 't', 'e', 'd']
}

pub open spec fn cannot_parse() -> Seq<char> {
    seq!['C', 'a', 'n', 'n', 'o', 't', ' ', 'p', 'a', 'r', 's', 'e', ' ', 's', 'h', 'a', 'd', 'e', 'r', ' ']
}

/// The message for parse error `e` in file `filename`, file name and shader
/// name quoted with `{:?}`:
/// - a file without marker: how a shader file is laid out;
/// - a bad name: `Cannot parse shader at "FILE":LINE`;
/// - an empty shader: `Cannot parse shader "NAME" in "FILE":LINE`.
pub open spec fn parse_message_spec(filename: Seq<char>, e: ShdParseError) -> Seq<char> {
    match e {
        ShdParseError::Layout => layout_head() + str_debug(filename) + layout_tail(),
        ShdParseError::BadName { line } => cannot_parse() + seq!['a', 't', ' '] + str_debug(filename) + seq![':'] + dec_digits(
            line as nat,
        ),
        ShdParseError::EmptyBody { name, line } => cannot_parse() + str_debug(name@) + seq![' ', 'i', 'n', ' '] + str_debug(
            filename,
        ) + seq![':'] + dec_digits(line as nat),
    }
}

/// The message for parse error `e` in file `filename`.
pub fn parse_error_message(filename: &str, e: &ShdParseError) -> (r: String)
    ensures
        r@ == parse_message_spec(filename@, *e),
{
    let file = chars_of(debug_quoted(filename).as_str());
    let mut out: Vec<char>;
    match e {
        ShdParseError::Layout => {
            out = vec!['\n', '\t', '\t', '\t', 'S', 'h', 'a', 'd', 'e', 'r', ' ', 'f', 'i', 'l', 'e', ' '];
            append_chars(&mut out, file.as_slice());
            let t: Vec<char> = vec![' ', 's', 'h', 'o', 'u', 'l', 'd', ' ', 'b', 'e', ' ', 's', 't', 'r', 'u', 'c', 't', 'u', 'r', 'e', 'd', ' ', 'a', 's', ' ', 'f', 'o', 'l', 'l', 'o', 'w', 's', ':', '\n', '\t', '\t', '\t', '/', '/', '-', '-', 'G', 'L', 'O', 'B', 'A', 'L', ':', '\n', '\t', '\t', '\t', 'C', 'o', 'd', 'e', ' ', 't', 'o', ' ', 'i', 'n', 'c', 'l', 'u', 'd', 'e', ' ', 'i', 'n', ' ', 'e', 'v', 'e', 'r', 'y', ' ', 's', 'h', 'a', 'd', 'e', 'r', ' ', 'i', 'n', ' ', 't', 'h', 'e', ' ', 'f', 'i', 'l', 'e', '\n', '\t', '\t', '\t', '/', '/', '-', '-', ' ', '(', 'p', 's', '|', 'v', 's', '|', 'g', 's', '|', 'c', 's', ')', '_', 's', 'h', 'a', 'd', 'e', 'r', '_', 'n', 'a', 'm', 'e', '\n', '\t', '\t', '\t', 'S', 'h', 'a', 'd', 'e', 'r', ' ', 'c', 'o', 'd', 'e', '\n', '\n', '\t', '\t', '\t', 'D', 'o', ' ', 'n', 'o', 't', ' ', 'i', 'n', 'c', 'l', 'u', 'd', 'e', ' ', 'g', 'l', 's', 'l', ' ', '\'', '#', 'v', 'e', 'r', 's', 'i', 'o', 'n', ' ', '.', '.', '.', '\'', ' ', 'h', 'e', 'a', 'd', 'e', 'r', ',', ' ', 'i', 't', ' ', 'w', 'i', 'l', 'l', ' ', 'b', 'e', ' ', 'g', 'e', 'n', 'e', 'r', 'a', 't', 'e', 'd'];
            append_chars(&mut out, t.as_slice());
            assert(out@ =~= parse_message_spec(filename@, *e));
        },
        ShdParseError::BadName { line } => {
            out = vec!['C', 'a', 'n', 'n', 'o', 't', ' ', 'p', 'a', 'r', 's', 'e', ' ', 's', 'h', 'a', 'd', 'e', 'r', ' ', 'a', 't', ' '];
            append_chars(&mut out, file.as_slice());
            out.push(':');
            push_usize_digits(&mut out, *line);
            assert(out@ =~= parse_message_spec(filename@, *e));
        },
        ShdParseError::EmptyBody { name, line } => {
            out = vec!['C', 'a', 'n', 'n', 'o', 't', ' ', 'p', 'a', 'r', 's', 'e', ' ', 's', 'h', 'a', 'd', 'e', 'r', ' '];
            let n = chars_of(debug_quoted(name.as_str()).as_str());
            append_chars(&mut out, n.as_slice());
            let mid: Vec<char> = vec![' ', 'i', 'n', ' '];
            append_chars(&mut out, mid.as_slice());
            append_chars(&mut out, file.as_slice());
            out.push(':');
            push_usize_digits(&mut out, *line);
            assert(out@ =~= parse_message_spec(filename@, *e));
        },
    }
    string_of(out.as_slice())
}

/// A parse result as the original file reader reports it: the name and
/// source, or the message of the error in file `filename`.
pub open spec fn reported(filename: Seq<char>, p: Parsed) -> Result<(Seq<char>, Seq<char>), Seq<char>> {
    match p {
        Parsed::Source(n, src) => Ok((n, src)),
        Parsed::Layout => Err(layout_head() + str_debug(filename) + layout_tail()),
        Parsed::BadName(line) => Err(cannot_parse() + seq!['a', 't', ' '] + str_debug(filename) + seq![':'] + dec_digits(
            line as nat,
        )),
        Parsed::EmptyBody(n, line) => Err(cannot_parse() + str_debug(n) + seq![' ', 'i', 'n', ' '] + str_debug(filename)
            + seq![':'] + dec_digits(line as nat)),
    }
}

pub open spec fn reported_view(r: Result<ShdSrc, String>) -> Result<(Seq<char>, Seq<char>), Seq<char>> {
    match r {
        Ok(s) => Ok((s.name@, s.src@)),
        Err(m) => Err(m@),
    }
}

/// Splits the text of shader file `filename` into shader sources, each
/// error given as its message.
pub fn parse_shader_results(filename: &str, text: &str) -> (r: Vec<Result<ShdSrc, String>>)
    requires
        sliceable(text@),
    ensures
        r@.len() == parse_spec(text@).len(),
        forall|i: int| 0 <= i < r@.len() ==> #[trigger] reported_view(r@[i]) == reported(filename@, parse_spec(text@)[i]),
{
    let ps = parse_shader_sources(filename, text);
    let ghost pv = views(ps@);
    let mut r: Vec<Result<ShdSrc, String>> = Vec::new();
    let mut i: usize = 0;
    while i < ps.len()
        invariant
            i <= ps@.len(),
            pv == views(ps@),
            pv == parse_spec(text@),
            r@.len() == i,
            forall|j: int| 0 <= j < i ==> #[trigger] reported_view(r@[j]) == reported(filename@, pv[j]),
        decreases ps@.len() - i,
    {
        assert(pv[i as int] == parsed_view(ps@[i as int]));
        match &ps[i] {
            Ok(x) => {
                r.push(Ok(ShdSrc { name: x.name.clone(), src: x.src.clone() }));
            },
            Err(e) => {
                let m = parse_error_message(filename, e);
                r.push(Err(m));
            },
        }
        i = i + 1;
    }
    r
}

/// A copy of a parse error.
pub fn copy_error(e: &ShdParseError) -> (r: ShdParseError)
    ensures
        parsed_view(Err(r)) == parsed_view(Err(*e)),
{
    match e {
        ShdParseError::Layout => ShdParseError::Layout,
        ShdParseError::BadName { line } => ShdParseError::BadName { line: *line },
        ShdParseError::EmptyBody { name, line } => ShdParseError::EmptyBody { name: name.clone(), line: *line },
    }
}

/// One reading of a shader file: its sources and its errors, each in the
/// order of the file.
pub fn load(filename: &str, text: &str) -> (r: (Vec<ShdSrc>, Vec<ShdParseError>))
    requires
        sliceable(text@),
    ensures
        src_pairs(r.0@) == loaded_sources(parse_spec(text@)),
        error_views(r.1@) == load_errors(parse_spec(text@)),
{
    let ps = parse_shader_sources(filename, text);
    let ghost pv = views(ps@);
    let mut srcs: Vec<ShdSrc> = Vec::new();
    let mut errs: Vec<ShdParseError> = Vec::new();
    let mut i: usize = 0;
    while i < ps.len()
        invariant
            i <= ps@.len(),
            pv == views(ps@),
            src_pairs(srcs@) == loaded_sources(pv.subrange(0, i as int)),
            error_views(errs@) == load_errors(pv.subrange(0, i as int)),
        decreases ps@.len() - i,
    {
        let ghost sb = src_pairs(srcs@);
        let ghost eb = error_views(errs@);
        assert(pv.subrange(0, i + 1).drop_last() =~= pv.subrange(0, i as int));
        assert(pv[i as int] == parsed_view(ps@[i as int]));
        match &ps[i] {
            Ok(s) => {
                srcs.push(ShdSrc { name: s.name.clone(), src: s.src.clone() });
                assert(src_pairs(srcs@) =~= sb.push((s.name@, s.src@)));
                assert(error_views(errs@) =~= eb);
            },
            Err(e) => {
                errs.push(copy_error(e));
                assert(error_views(errs@) =~= eb.push(parsed_view(Err(*e))));
                assert(src_pairs(srcs@) =~= sb);
            },
        }
        i = i + 1;
    }
    assert(pv.subrange(0, ps@.len() as int) =~= pv);
    (srcs, errs)
}

/// Index of the first `c` in `s`, or its length.
pub fn first_char(s: &Vec<char>, c: char) -> (r: usize)
    ensures
        r == first_of(s@, c, 0),
        r <= s@.len(),
{
    let mut j: usize = 0;
    while j < s.len()
        invariant
            j <= s@.len(),
            first_of(s@, c, 0) == first_of(s@, c, j as int),
        decreases s@.len() - j,
    {
        if s[j] == c {
            return j;
        }
        j = j + 1;
    }
    j
}

/// `s` without leading and trailing `:` characters.
pub fn trim_colon_chars(s: &Vec<char>) -> (r: Vec<char>)
    ensures
        r@ == trim_colons(s@),
{
    let mut lo: usize = 0;
    assert(s@.subrange(0, s@.len() as int) =~= s@);
    while lo < s.len() && s[lo] == ':'
        invariant
            lo <= s@.len(),
            drop_lead_colons(s@.subrange(lo as int, s@.len() as int)) == drop_lead_colons(s@),
        decreases s@.len() - lo,
    {
        assert(s@.subrange(lo as int, s@.len() as int).drop_first() =~= s@.subrange(lo + 1, s@.len() as int));
        lo = lo + 1;
    }
    let mid = sub_chars(s, lo, s.len());
    assert(drop_lead_colons(mid@) == mid@);
    let mut hi = mid.len();
    assert(mid@.subrange(0, mid@.len() as int) =~= mid@);
    while hi > 0 && mid[hi - 1] == ':'
        invariant
            hi <= mid@.len(),
            drop_trail_colons(mid@.subrange(0, hi as int)) == drop_trail_colons(mid@),
        decreases hi,
    {
        assert(mid@.subrange(0, hi as int).drop_last() =~= mid@.subrange(0, hi - 1));
        hi = hi - 1;
    }
    sub_chars(&mid, 0, hi)
}

/// One message line with its line number moved by `offset`.
pub fn adjust_one(l: &Vec<char>, offset: i32) -> (r: Vec<char>)
    requires
        line_number(l@) matches Some(n) ==> i32::MIN <= n + offset <= i32::MAX,
    ensures
        r@ == adjust_line(l@, offset as int),
{
    let p1 = first_char(l, ':');
    let tail = sub_chars(l, p1, l.len());
    let p2 = first_char(&tail, '(');
    let num = sub_chars(&tail, 0, p2);
    let rest = sub_chars(&tail, p2, tail.len());
    let numt = trim_colon_chars(&num);
    match parse_i32(&numt) {
        Some(n) => {
            let mut out = i32_to_chars(n + offset);
            let mut k: usize = 0;
            let ghost head = out@;
            while k < rest.len()
                invariant
                    k <= rest@.len(),
                    out@ == head + rest@.subrange(0, k as int),
                decreases rest@.len() - k,
            {
                out.push(rest[k]);
                k = k + 1;
                assert(out@ =~= head + rest@.subrange(0, k as int));
            }
            assert(rest@.subrange(0, rest@.len() as int) =~= rest@);
            out
        },
        None => sub_chars(l, 0, l.len()),
    }
}

pub open spec fn line_views(v: Seq<Vec<char>>) -> Seq<Seq<char>> {
    v.map_values(|x: Vec<char>| x@)
}

/// The lines of `t`.
pub fn split_lines(t: &Vec<char>) -> (r: Vec<Vec<char>>)
    ensures
        line_views(r@) == lines_of(t@),
{
    let mut out: Vec<Vec<char>> = Vec::new();
    let mut rest = sub_chars(t, 0, t.len());
    assert(t@.subrange(0, t@.len() as int) =~= t@);
    while rest.len() > 0
        invariant
            line_views(out@) + lines_of(rest@) == lines_of(t@),
        decreases rest@.len(),
    {
        let i = first_char(&rest, '\n');
        proof {
            lemma_first_of(rest@, '\n', 0);
        }
        let ghost before = out@;
        if i >= rest.len() {
            let whole = sub_chars(&rest, 0, rest.len());
            assert(rest@.subrange(0, rest@.len() as int) =~= rest@);
            out.push(whole);
            assert(line_views(out@) =~= line_views(before) + lines_of(rest@));
            rest = Vec::new();
            assert(lines_of(rest@) =~= seq![]);
            assert(line_views(out@) + lines_of(rest@) =~= line_views(out@));
        } else {
            let mut line = sub_chars(&rest, 0, i);
            if line.len() > 0 && line[line.len() - 1] == '\r' {
                line = sub_chars(&line, 0, line.len() - 1);
                assert(line@ =~= strip_cr(rest@.subrange(0, i as int)));
            }
            assert(line@ == strip_cr(rest@.subrange(0, i as int)));
            out.push(line);
            let next = sub_chars(&rest, i + 1, rest.len());
            assert(line_views(out@) =~= line_views(before).push(line@));
            assert(line_views(out@) + lines_of(next@) =~= line_views(before) + lines_of(rest@));
            rest = next;
        }
    }
    assert(lines_of(rest@) =~= seq![]);
    assert(line_views(out@) =~= lines_of(t@));
    out
}

/// Whether every line number of `log`, moved by `offset`, stays within `i32`.
pub open spec fn offsets_fit(log: Seq<char>, offset: int) -> bool {
    forall|k: int| 0 <= k < lines_of(log).len() ==> (#[trigger] line_number(lines_of(log)[k]) matches Some(n) ==> i32::MIN
        <= n + offset <= i32::MAX)
}

/// Whether the line number of `l`, if it has one, moved by `offset` stays
/// within `i32`.
pub fn line_fits(l: &Vec<char>, offset: i32) -> (r: bool)
    ensures
        r == (line_number(l@) matches Some(n) ==> i32::MIN <= n + offset <= i32::MAX),
{
    let p1 = first_char(l, ':');
    let tail = sub_chars(l, p1, l.len());
    let p2 = first_char(&tail, '(');
    let num = sub_chars(&tail, 0, p2);
    let numt = trim_colon_chars(&num);
    match parse_i32(&numt) {
        Some(n) => {
            let m: i64 = n as i64 + offset as i64;
            i32::MIN as i64 <= m && m <= i32::MAX as i64
        },
        None => true,
    }
}

/// Whether every line number of `log`, moved by `offset`, stays within
/// `i32`, which `adjust_log` needs.
pub fn log_fits(log: &str, offset: i32) -> (r: bool)
    ensures
        r == offsets_fit(log@, offset as int),
{
    let t = chars_of(log);
    let ls = split_lines(&t);
    let mut j: usize = 0;
    while j < ls.len()
        invariant
            line_views(ls@) == lines_of(log@),
            t@ == log@,
            j <= ls@.len(),
            forall|k: int| 0 <= k < j ==> (#[trigger] line_number(lines_of(log@)[k]) matches Some(n) ==> i32::MIN
                <= n + offset <= i32::MAX),
        decreases ls@.len() - j,
    {
        assert(line_views(ls@)[j as int] == ls@[j as int]@);
        if !line_fits(&ls[j], offset) {
            assert(!(line_number(lines_of(log@)[j as int]) matches Some(n) ==> i32::MIN <= n + offset <= i32::MAX));
            return false;
        }
        j = j + 1;
    }
    true
}

/// Moves the line number of every line of a compiler log by `offset`, and
/// puts the lines in reverse order.
pub fn adjust_log(log: String, offset: i32) -> (r: String)
    requires
        offsets_fit(log@, offset as int),
    ensures
        r@ == adjust_log_spec(log@, offset as int),
{
    let t = chars_of(log.as_str());
    let ls = split_lines(&t);
    let ghost m = lines_of(t@).map_values(|l: Seq<char>| adjust_line(l, offset as int));
    let ghost rv = m.reverse();
    let n = ls.len();
    assert(line_views(ls@).len() == n);
    let mut out: Vec<char> = Vec::new();
    let mut j: usize = 0;
    while j < n
        invariant
            n == ls@.len(),
            line_views(ls@) == lines_of(t@),
            t@ == log@,
            offsets_fit(log@, offset as int),
            m == lines_of(t@).map_values(|l: Seq<char>| adjust_line(l, offset as int)),
            rv == m.reverse(),
            j <= n,
            out@ == join_lines(rv.subrange(0, j as int)),
        decreases n - j,
    {
        let ghost before = out@;
        let k = n - 1 - j;
        assert(line_views(ls@)[k as int] == ls@[k as int]@);
        let a = adjust_one(&ls[k], offset);
        assert(rv[j as int] == m[k as int]);
        assert(rv.subrange(0, j + 1).drop_last() =~= rv.subrange(0, j as int));
        if j > 0 {
            out.push('\n');
        }
        let mut q: usize = 0;
        let ghost mid = out@;
        while q < a.len()
            invariant
                q <= a@.len(),
                out@ == mid + a@.subrange(0, q as int),
            decreases a@.len() - q,
        {
            out.push(a[q]);
            q = q + 1;
            assert(out@ =~= mid + a@.subrange(0, q as int));
        }
        assert(a@.subrange(0, a@.len() as int) =~= a@);
        j = j + 1;
        if j == 1 {
            assert(out@ =~= join_lines(rv.subrange(0, j as int)));
        } else {
            assert(out@ =~= join_lines(rv.subrange(0, j as int)));
        }
    }
    assert(rv.subrange(0, n as int) =~= rv);
    string_of(out.as_slice())
}

} // verus!

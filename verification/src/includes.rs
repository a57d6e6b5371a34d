//! The shader header: the `#version` line followed by the include files.
//! Each include is checked by compiling a probe shader made of it alone,
//! then all of them together; the GL compiles happen outside, and their logs
//! come back here to be turned into the header or an error message.
use vstd::prelude::*;
use crate::parsing::{adjust_log, adjust_log_spec, first_char, first_of, log_fits, offsets_fit, sub_chars};
use crate::text::{append_chars, chars_of, debug_quoted, str_debug, string_of};

verus! {

/// The `#version` line every shader starts with.
pub open spec fn glsl_version() -> Seq<char> {
    seq!['#', 'v', 'e', 'r', 's', 'i', 'o', 'n', ' ', '3', '3', '0', ' ', 'c', 'o', 'r', 'e', '\n']
}

/// An empty entry point, which makes a header alone a whole shader.
pub open spec fn empty_main() -> Seq<char> {
    seq!['v', 'o', 'i', 'd', ' ', 'm', 'a', 'i', 'n', '(', ')', '{', '}']
}

pub open spec fn header_prefix() -> Seq<char> {
    seq!['G', 'L', 'S', 'L', ' ', 'e', 'r', 'r', 'o', 'r', ' ', 'i', 'n', ' ', 'h', 'e', 'a', 'd', 'e', 'r', ' ']
}

pub open spec fn collision_prefix() -> Seq<char> {
    seq!['G', 'L', 'S', 'L', ' ', 'h', 'e', 'a', 'd', 'e', 'r', 's', ' ', 'c', 'o', 'l', 'l', 'i', 's', 'i', 'o', 'n', ' ']
}

/// `s` from its first newline on; empty when it has none.
pub open spec fn from_newline(s: Seq<char>) -> Seq<char> {
    s.subrange(first_of(s, '\n', 0), s.len() as int)
}

/// The probe that checks one include file: the version line, an empty entry
/// point, then the file.
pub open spec fn header_probe_spec(text: Seq<char>) -> Seq<char> {
    glsl_version() + empty_main() + seq!['\n'] + text
}

/// The probe that checks all includes together.
pub open spec fn collision_probe_spec(includes: Seq<char>) -> Seq<char> {
    includes + empty_main()
}

/// The version line and the include texts, joined by newlines.
pub open spec fn join_includes_spec(texts: Seq<Seq<char>>) -> Seq<char>
    decreases texts.len(),
{
    if texts.len() == 0 {
        glsl_version()
    } else {
        join_includes_spec(texts.drop_last()) + seq!['\n'] + texts.last()
    }
}

/// The message for include `name` whose probe failed with `log`.
pub open spec fn header_message(name: Seq<char>, log: Seq<char>) -> Seq<char> {
    header_prefix() + str_debug(name) + from_newline(log)
}

/// The message for includes that fail together with `log`.
pub open spec fn collision_message(log: Seq<char>) -> Seq<char> {
    collision_prefix() + str_debug(from_newline(log))
}

/// An include file: its name, its text, and the log of its probe when the
/// probe failed to compile.
pub struct IncludeFile {
    pub name: String,
    pub text: String,
    pub log: Option<String>,
}

pub type IncludeView = (Seq<char>, Seq<char>, Option<Seq<char>>);

pub open spec fn include_view(f: IncludeFile) -> IncludeView {
    (f.name@, f.text@, match f.log {
        Some(l) => Some(l@),
        None => None,
    })
}

pub open spec fn includes_view(fs: Seq<IncludeFile>) -> Seq<IncludeView> {
    fs.map_values(|f: IncludeFile| include_view(f))
}

pub open spec fn texts_of(fs: Seq<IncludeView>) -> Seq<Seq<char>> {
    fs.map_values(|f: IncludeView| f.1)
}

/// Index of the first include at or after `i` whose probe failed, or the
/// number of includes.
pub open spec fn first_failed(fs: Seq<IncludeView>, i: int) -> int
    decreases fs.len() - i,
{
    if i < 0 || i >= fs.len() {
        fs.len() as int
    } else if fs[i].2 is Some {
        i
    } else {
        first_failed(fs, i + 1)
    }
}

/// The header, or the error for the first include whose probe failed, or
/// the error of the probe of all of them.
pub open spec fn includes_result(fs: Seq<IncludeView>, collision: Option<Seq<char>>) -> Result<Seq<char>, Seq<char>> {
    let k = first_failed(fs, 0);
    if k < fs.len() {
        Err(adjust_log_spec(header_message(fs[k].0, fs[k].2.unwrap()), -2))
    } else if collision is Some {
        Err(adjust_log_spec(collision_message(collision.unwrap()), 0))
    } else {
        Ok(join_includes_spec(texts_of(fs)))
    }
}

/// The message of the first failed include moves its line numbers within
/// `i32`.
pub open spec fn includes_fit(fs: Seq<IncludeView>) -> bool {
    let k = first_failed(fs, 0);
    k < fs.len() ==> offsets_fit(header_message(fs[k].0, fs[k].2.unwrap()), -2)
}

fn version_chars() -> (r: Vec<char>)
    ensures
        r@ == glsl_version(),
{
    let r = vec!['#', 'v', 'e', 'r', 's', 'i', 'o', 'n', ' ', '3', '3', '0', ' ', 'c', 'o', 'r', 'e', '\n'];
    assert(r@ =~= glsl_version());
    r
}

fn empty_main_chars() -> (r: Vec<char>)
    ensures
        r@ == empty_main(),
{
    let r = vec!['v', 'o', 'i', 'd', ' ', 'm', 'a', 'i', 'n', '(', ')', '{', '}'];
    assert(r@ =~= empty_main());
    r
}

/// The shader that checks include text `text` on its own.
pub fn header_probe(text: &str) -> (r: String)
    ensures
        r@ == header_probe_spec(text@),
{
    let mut out = version_chars();
    let m = empty_main_chars();
    append_chars(&mut out, m.as_slice());
    out.push('\n');
    let t = chars_of(text);
    append_chars(&mut out, t.as_slice());
    string_of(out.as_slice())
}

/// The shader that checks the header `includes` as a whole.
pub fn collision_probe(includes: &str) -> (r: String)
    ensures
        r@ == collision_probe_spec(includes@),
{
    let mut out = chars_of(includes);
    let m = empty_main_chars();
    append_chars(&mut out, m.as_slice());
    string_of(out.as_slice())
}

/// The header made of the version line and the texts of `files`, joined by
/// newlines.
pub fn join_includes(files: &Vec<IncludeFile>) -> (r: String)
    ensures
        r@ == join_includes_spec(texts_of(includes_view(files@))),
{
    let ghost ts = texts_of(includes_view(files@));
    let mut out = version_chars();
    let mut i: usize = 0;
    while i < files.len()
        invariant
            i <= files@.len(),
            ts == texts_of(includes_view(files@)),
            out@ == join_includes_spec(ts.subrange(0, i as int)),
        decreases files@.len() - i,
    {
        out.push('\n');
        let t = chars_of(files[i].text.as_str());
        append_chars(&mut out, t.as_slice());
        assert(ts.subrange(0, i + 1).drop_last() =~= ts.subrange(0, i as int));
        assert(ts[i as int] == files@[i as int].text@);
        i = i + 1;
    }
    assert(ts.subrange(0, files@.len() as int) =~= ts);
    string_of(out.as_slice())
}

/// `log` from its first newline on.
fn tail_from_newline(log: &str) -> (r: Vec<char>)
    ensures
        r@ == from_newline(log@),
{
    let t = chars_of(log);
    let i = first_char(&t, '\n');
    sub_chars(&t, i, t.len())
}

/// The message for include `name` whose probe failed with `log`.
fn header_error(name: &str, log: &str) -> (r: String)
    ensures
        r@ == header_message(name@, log@),
{
    let mut out: Vec<char> = vec!['G', 'L', 'S', 'L', ' ', 'e', 'r', 'r', 'o', 'r', ' ', 'i', 'n', ' ', 'h', 'e', 'a', 'd', 'e', 'r', ' '];
    assert(out@ =~= header_prefix());
    let q = chars_of(debug_quoted(name).as_str());
    append_chars(&mut out, q.as_slice());
    let e = tail_from_newline(log);
    append_chars(&mut out, e.as_slice());
    string_of(out.as_slice())
}

/// The message for includes that fail together with `log`.
fn collision_error(log: &str) -> (r: String)
    ensures
        r@ == collision_message(log@),
{
    let mut out: Vec<char> = vec![
        'G', 'L', 'S', 'L', ' ', 'h', 'e', 'a', 'd', 'e', 'r', 's', ' ', 'c', 'o', 'l', 'l', 'i', 's', 'i', 'o', 'n', ' ',
    ];
    assert(out@ =~= collision_prefix());
    let e = tail_from_newline(log);
    let q = chars_of(debug_quoted(string_of(e.as_slice()).as_str()).as_str());
    append_chars(&mut out, q.as_slice());
    string_of(out.as_slice())
}

/// Moving line numbers by nothing always fits.
pub proof fn lemma_offset_zero_fits(log: Seq<char>)
    ensures
        offsets_fit(log, 0),
{
}

/// Index of the first include whose probe failed, or the number of includes.
fn find_failed(files: &Vec<IncludeFile>) -> (r: usize)
    ensures
        r == first_failed(includes_view(files@), 0),
        r <= files@.len(),
        r < files@.len() ==> includes_view(files@)[r as int].2 is Some,
{
    let ghost fs = includes_view(files@);
    let mut i: usize = 0;
    while i < files.len()
        invariant
            i <= files@.len(),
            fs == includes_view(files@),
            first_failed(fs, 0) == first_failed(fs, i as int),
        decreases files@.len() - i,
    {
        if files[i].log.is_some() {
            assert(fs[i as int].2 is Some);
            return i;
        }
        assert(fs[i as int].2 is None);
        i = i + 1;
    }
    i
}

/// The shader header: the version line and the include texts joined by
/// newlines, once every include compiled on its own (its `log` is `None`)
/// and all of them together (`collision` is `None`); else the message of
/// the first failure, its lines reversed and their numbers moved to count
/// from the include.
pub fn parse_includes(files: &Vec<IncludeFile>, collision: Option<String>) -> (r: Result<String, String>)
    requires
        includes_fit(includes_view(files@)),
    ensures
        match (r, includes_result(includes_view(files@), match collision {
            Some(c) => Some(c@),
            None => None,
        })) {
            (Ok(h), Ok(s)) => h@ == s,
            (Err(e), Err(s)) => e@ == s,
            _ => false,
        },
{
    let k = find_failed(files);
    if k < files.len() {
        assert(includes_view(files@)[k as int] == include_view(files@[k as int]));
        let f = &files[k];
        let log = match &f.log {
            Some(l) => l,
            None => {
                assert(false);
                return Err(String::new());
            },
        };
        let m = header_error(f.name.as_str(), log.as_str());
        return Err(adjust_log(m, -2));
    }
    match collision {
        Some(c) => {
            let m = collision_error(c.as_str());
            proof {
                lemma_offset_zero_fits(m@);
            }
            Err(adjust_log(m, 0))
        },
        None => Ok(join_includes(files)),
    }
}

/// `parse_includes`, or `None` where the message of the first failed
/// include has a line number that moving it would take out of `i32`.
pub fn parse_includes_checked(files: &Vec<IncludeFile>, collision: Option<String>) -> (r: Option<Result<String, String>>)
    ensures
        r is None <==> !includes_fit(includes_view(files@)),
        r matches Some(res) ==> match (res, includes_result(includes_view(files@), match collision {
            Some(c) => Some(c@),
            None => None,
        })) {
            (Ok(h), Ok(s)) => h@ == s,
            (Err(e), Err(s)) => e@ == s,
            _ => false,
        },
{
    let k = find_failed(files);
    if k < files.len() {
        assert(includes_view(files@)[k as int] == include_view(files@[k as int]));
        let f = &files[k];
        match &f.log {
            Some(l) => {
                let m = header_error(f.name.as_str(), l.as_str());
                if !log_fits(m.as_str(), -2) {
                    return None;
                }
            },
            None => {},
        }
    }
    Some(parse_includes(files, collision))
}

} // verus!

//! Shader objects: the stage a shader name selects, and the messages for
//! names that select none and for sources that fail to compile.
use vstd::prelude::*;
use crate::parsing::{kind_of, shader_kind, ShaderKind};
use crate::text::{append_chars, chars_of, debug_quoted, str_debug, string_of};

verus! {

/// The word for a stage in messages.
pub open spec fn kind_label(k: ShaderKind) -> Seq<char> {
    match k {
        ShaderKind::Vertex => seq!['v', 'e', 'r', 't', 'e', 'x'],
        ShaderKind::Fragment => seq!['p', 'i', 'x', 'e', 'l'],
        ShaderKind::Geometry => seq!['g', 'e', 'o', 'm', 'e', 't', 'r', 'y'],
        ShaderKind::Compute => seq!['c', 'o', 'm', 'p', 'u', 't', 'e'],
        ShaderKind::TessCtrl => seq!['t', 'e', 's', 's', '.', ' ', 'c', 'o', 'n', 't', 'r', 'o', 'l'],
        ShaderKind::TessEval => seq!['t', 'e', 's', 's', '.', ' ', 'e', 'v', 'a', 'l'],
    }
}

pub open spec fn name_rule() -> Seq<char> {
    seq![' ', 's', 'h', 'o', 'u', 'l', 'd', ' ', 's', 't', 'a', 'r', 't', ' ', 'w', 'i', 't', 'h', ' ', 'v', 's', '|', 'p', 's', '|', 'g', 's', '|', 'c', 's', '|', 't', 'c', '|', 't', 'e', ' ', 'a', 'c', 'c', 'o', 'r', 'd', 'i', 'n', 'g', ' ', 't', 'o', ' ', 't', 'y', 'p', 'e']
}

/// The message for a name that selects no stage, the name quoted with `{:?}`.
pub open spec fn bad_name_quoted(name: Seq<char>) -> Seq<char> {
    seq!['S', 'h', 'a', 'd', 'e', 'r', ' ', 'n', 'a', 'm', 'e', ' '] + str_debug(name) + name_rule()
}

/// The message for a name that selects no stage, the name in single quotes.
pub open spec fn bad_name_plain(name: Seq<char>) -> Seq<char> {
    seq!['S', 'h', 'a', 'd', 'e', 'r', ' ', 'n', 'a', 'm', 'e', ' ', '\''] + name + seq!['\''] + name_rule()
}

/// The message for a shader of stage `k` named `name` that failed to
/// compile with `log`.
pub open spec fn compile_message(k: ShaderKind, name: Seq<char>, log: Seq<char>) -> Seq<char> {
    seq!['E', 'r', 'r', 'o', 'r', ' ', 'c', 'o', 'm', 'p', 'i', 'l', 'i', 'n', 'g', ' '] + kind_label(k) + seq![' ', 's', 'h', 'a', 'd', 'e', 'r', ' '] + str_debug(name) + seq!['\n', '\n'] + log
}

/// A compiled shader: its stage and its GL shader object.
#[derive(Clone, Copy, Debug, PartialEq, Eq)]
pub struct ShaderObj {
    pub kind: ShaderKind,
    pub obj: u32,
}

fn rule_chars() -> (r: Vec<char>)
    ensures
        r@ == name_rule(),
{
    let r = vec![' ', 's', 'h', 'o', 'u', 'l', 'd', ' ', 's', 't', 'a', 'r', 't', ' ', 'w', 'i', 't', 'h', ' ', 'v', 's', '|', 'p', 's', '|', 'g', 's', '|', 'c', 's', '|', 't', 'c', '|', 't', 'e', ' ', 'a', 'c', 'c', 'o', 'r', 'd', 'i', 'n', 'g', ' ', 't', 'o', ' ', 't', 'y', 'p', 'e'];
    assert(r@ =~= name_rule());
    r
}

impl ShaderObj {
    /// The stage that `name` selects by its first two characters, or the
    /// message saying which prefixes there are.
    pub fn kind_for(name: &str) -> (r: Result<ShaderKind, String>)
        ensures
            match r {
                Ok(k) => kind_of(name@) == Some(k),
                Err(m) => kind_of(name@) is None && m@ == bad_name_quoted(name@),
            },
    {
        let n = chars_of(name);
        match shader_kind(&n) {
            Some(k) => Ok(k),
            None => {
                let mut out: Vec<char> = vec!['S', 'h', 'a', 'd', 'e', 'r', ' ', 'n', 'a', 'm', 'e', ' '];
                let q = chars_of(debug_quoted(name).as_str());
                append_chars(&mut out, q.as_slice());
                let rule = rule_chars();
                append_chars(&mut out, rule.as_slice());
                assert(out@ =~= bad_name_quoted(name@));
                Err(string_of(out.as_slice()))
            },
        }
    }

    /// Whether `name` selects a stage; the message says which prefixes there are.
    pub fn valid(name: &str) -> (r: Result<(), String>)
        ensures
            match r {
                Ok(_) => kind_of(name@) is Some,
                Err(m) => kind_of(name@) is None && m@ == bad_name_plain(name@),
            },
    {
        let n = chars_of(name);
        match shader_kind(&n) {
            Some(_) => Ok(()),
            None => {
                let mut out: Vec<char> = vec!['S', 'h', 'a', 'd', 'e', 'r', ' ', 'n', 'a', 'm', 'e', ' ', '\''];
                append_chars(&mut out, n.as_slice());
                out.push('\'');
                let rule = rule_chars();
                append_chars(&mut out, rule.as_slice());
                assert(out@ =~= bad_name_plain(name@));
                Err(string_of(out.as_slice()))
            },
        }
    }

    /// The GL shader object.
    pub fn obj(&self) -> (r: u32)
        ensures
            r == self.obj,
    {
        self.obj
    }

    /// The word for its stage in messages.
    pub fn name(&self) -> (r: String)
        ensures
            r@ == kind_label(self.kind),
    {
        let c: Vec<char> = match self.kind {
            ShaderKind::Vertex => vec!['v', 'e', 'r', 't', 'e', 'x'],
            ShaderKind::Fragment => vec!['p', 'i', 'x', 'e', 'l'],
            ShaderKind::Geometry => vec!['g', 'e', 'o', 'm', 'e', 't', 'r', 'y'],
            ShaderKind::Compute => vec!['c', 'o', 'm', 'p', 'u', 't', 'e'],
            ShaderKind::TessCtrl => vec!['t', 'e', 's', 's', '.', ' ', 'c', 'o', 'n', 't', 'r', 'o', 'l'],
            ShaderKind::TessEval => vec!['t', 'e', 's', 's', '.', ' ', 'e', 'v', 'a', 'l'],
        };
        assert(c@ =~= kind_label(self.kind));
        string_of(c.as_slice())
    }

    /// The message for shader `name` of stage `kind` whose source failed to
    /// compile with `log`.
    pub fn failure_message(kind: ShaderKind, name: &str, log: &str) -> (r: String)
        ensures
            r@ == compile_message(kind, name@, log@),
    {
        let mut out: Vec<char> = vec!['E', 'r', 'r', 'o', 'r', ' ', 'c', 'o', 'm', 'p', 'i', 'l', 'i', 'n', 'g', ' '];
        let o = ShaderObj { kind, obj: 0 };
        let l = chars_of(o.name().as_str());
        append_chars(&mut out, l.as_slice());
        let mid: Vec<char> = vec![' ', 's', 'h', 'a', 'd', 'e', 'r', ' '];
        append_chars(&mut out, mid.as_slice());
        let q = chars_of(debug_quoted(name).as_str());
        append_chars(&mut out, q.as_slice());
        out.push('\n');
        out.push('\n');
        let t = chars_of(log);
        append_chars(&mut out, t.as_slice());
        assert(out@ =~= compile_message(kind, name@, log@));
        string_of(out.as_slice())
    }
}

} // verus!

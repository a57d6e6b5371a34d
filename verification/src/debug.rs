//! Filtering and labelling of messages from the GL debug output.
use vstd::prelude::*;
use vstd::string::StringExecFns;
use crate::glenum::GLenum;
use crate::glenum as gl;
use crate::text::{chars_of, string_of, dec_digits_u32, push_u32_digits};

verus! {

/// How much of the GL debug output to keep.
#[derive(Clone, Copy, Debug, PartialEq, Eq)]
pub enum DebugLevel {
    High,
    Medium,
    Low,
    All,
}

/// The filter value a level is stored as: 0 for `High` up to 3 for `All`.
pub fn level_filter(level: DebugLevel) -> (r: u32)
    ensures
        r == match level {
            DebugLevel::High => 0u32,
            DebugLevel::Medium => 1u32,
            DebugLevel::Low => 2u32,
            DebugLevel::All => 3u32,
        },
{
    match level {
        DebugLevel::High => 0,
        DebugLevel::Medium => 1,
        DebugLevel::Low => 2,
        DebugLevel::All => 3,
    }
}

/// Whether a message of severity `lvl` is kept under filter value `f`: high
/// severity always; medium only under 0; low under 0 and 1; notifications
/// under 0 to 2; unknown severities always.
pub open spec fn kept(lvl: GLenum, f: u32) -> bool {
    if lvl == gl::DEBUG_SEVERITY_MEDIUM {
        f == 0
    } else if lvl == gl::DEBUG_SEVERITY_LOW {
        f <= 1
    } else if lvl == gl::DEBUG_SEVERITY_NOTIFICATION {
        f <= 2
    } else {
        true
    }
}

/// Label of a severity.
pub open spec fn severity_label(lvl: GLenum) -> Seq<char> {
    if lvl == gl::DEBUG_SEVERITY_HIGH {
        "HIG"@
    } else if lvl == gl::DEBUG_SEVERITY_MEDIUM {
        "MED"@
    } else if lvl == gl::DEBUG_SEVERITY_LOW {
        "LOW"@
    } else if lvl == gl::DEBUG_SEVERITY_NOTIFICATION {
        "TIP"@
    } else {
        "SEVERITY_?_"@ + dec_digits_u32(lvl)
    }
}

/// Label of a message source.
pub open spec fn source_label(src: GLenum) -> Seq<char> {
    if src == gl::DEBUG_SOURCE_API {
        "SOURCE_API"@
    } else if src == gl::DEBUG_SOURCE_WINDOW_SYSTEM {
        "SOURCE_WINDOW_SYSTEM"@
    } else if src == gl::DEBUG_SOURCE_SHADER_COMPILER {
        "SOURCE_SHADER_COMPILER"@
    } else if src == gl::DEBUG_SOURCE_THIRD_PARTY {
        "SOURCE_THIRD_PARTY"@
    } else if src == gl::DEBUG_SOURCE_APPLICATION {
        "SOURCE_APPLICATION"@
    } else if src == gl::DEBUG_SOURCE_OTHER {
        "SOURCE_OTHER"@
    } else {
        "SOURCE_?_"@ + dec_digits_u32(src)
    }
}

/// Label of a message type.
pub open spec fn type_label(typ: GLenum) -> Seq<char> {
    if typ == gl::DEBUG_TYPE_ERROR {
        "TYPE_ERROR"@
    } else if typ == gl::DEBUG_TYPE_DEPRECATED_BEHAVIOR {
        "TYPE_DEPRECATED_BEHAVIOR"@
    } else if typ == gl::DEBUG_TYPE_UNDEFINED_BEHAVIOR {
        "TYPE_UNDEFINED_BEHAVIOR"@
    } else if typ == gl::DEBUG_TYPE_PORTABILITY {
        "TYPE_PORTABILITY"@
    } else if typ == gl::DEBUG_TYPE_PERFORMANCE {
        "TYPE_PERFORMANCE"@
    } else if typ == gl::DEBUG_TYPE_MARKER {
        "TYPE_MARKER"@
    } else if typ == gl::DEBUG_TYPE_PUSH_GROUP {
        "TYPE_PUSH_GROUP"@
    } else if typ == gl::DEBUG_TYPE_POP_GROUP {
        "TYPE_POP_GROUP"@
    } else if typ == gl::DEBUG_TYPE_OTHER {
        "TYPE_OTHER"@
    } else {
        "TYPE_?_"@ + dec_digits_u32(typ)
    }
}

/// The labels of a kept debug message.
pub struct DebugLabels {
    pub severity: String,
    pub source: String,
    pub kind: String,
}

fn labelled(prefix: &str, v: u32) -> (r: String)
    ensures
        r@ == prefix@ + dec_digits_u32(v),
{
    let mut c = chars_of(prefix);
    push_u32_digits(&mut c, v);
    string_of(c.as_slice())
}

fn severity_string(lvl: GLenum) -> (r: String)
    ensures
        r@ == severity_label(lvl),
{
    if lvl == gl::DEBUG_SEVERITY_HIGH {
        String::from_str("HIG")
    } else if lvl == gl::DEBUG_SEVERITY_MEDIUM {
        String::from_str("MED")
    } else if lvl == gl::DEBUG_SEVERITY_LOW {
        String::from_str("LOW")
    } else if lvl == gl::DEBUG_SEVERITY_NOTIFICATION {
        String::from_str("TIP")
    } else {
        labelled("SEVERITY_?_", lvl)
    }
}

fn source_string(src: GLenum) -> (r: String)
    ensures
        r@ == source_label(src),
{
    if src == gl::DEBUG_SOURCE_API {
        String::from_str("SOURCE_API")
    } else if src == gl::DEBUG_SOURCE_WINDOW_SYSTEM {
        String::from_str("SOURCE_WINDOW_SYSTEM")
    } else if src == gl::DEBUG_SOURCE_SHADER_COMPILER {
        String::from_str("SOURCE_SHADER_COMPILER")
    } else if src == gl::DEBUG_SOURCE_THIRD_PARTY {
        String::from_str("SOURCE_THIRD_PARTY")
    } else if src == gl::DEBUG_SOURCE_APPLICATION {
        String::from_str("SOURCE_APPLICATION")
    } else if src == gl::DEBUG_SOURCE_OTHER {
        String::from_str("SOURCE_OTHER")
    } else {
        labelled("SOURCE_?_", src)
    }
}

fn type_string(typ: GLenum) -> (r: String)
    ensures
        r@ == type_label(typ),
{
    if typ == gl::DEBUG_TYPE_ERROR {
        String::from_str("TYPE_ERROR")
    } else if typ == gl::DEBUG_TYPE_DEPRECATED_BEHAVIOR {
        String::from_str("TYPE_DEPRECATED_BEHAVIOR")
    } else if typ == gl::DEBUG_TYPE_UNDEFINED_BEHAVIOR {
        String::from_str("TYPE_UNDEFINED_BEHAVIOR")
    } else if typ == gl::DEBUG_TYPE_PORTABILITY {
        String::from_str("TYPE_PORTABILITY")
    } else if typ == gl::DEBUG_TYPE_PERFORMANCE {
        String::from_str("TYPE_PERFORMANCE")
    } else if typ == gl::DEBUG_TYPE_MARKER {
        String::from_str("TYPE_MARKER")
    } else if typ == gl::DEBUG_TYPE_PUSH_GROUP {
        String::from_str("TYPE_PUSH_GROUP")
    } else if typ == gl::DEBUG_TYPE_POP_GROUP {
        String::from_str("TYPE_POP_GROUP")
    } else if typ == gl::DEBUG_TYPE_OTHER {
        String::from_str("TYPE_OTHER")
    } else {
        labelled("TYPE_?_", typ)
    }
}

/// Labels of a debug message of source `src`, type `typ` and severity `lvl`,
/// or `None` when filter value `filter` drops it.
pub fn debug_labels(src: GLenum, typ: GLenum, lvl: GLenum, filter: u32) -> (r: Option<DebugLabels>)
    ensures
        r is Some == kept(lvl, filter),
        r matches Some(l) ==> l.severity@ == severity_label(lvl) && l.source@ == source_label(src) && l.kind@
            == type_label(typ),
{
    if (lvl == gl::DEBUG_SEVERITY_MEDIUM && filter > 0) || (lvl == gl::DEBUG_SEVERITY_LOW && filter > 1) || (lvl
        == gl::DEBUG_SEVERITY_NOTIFICATION && filter > 2) {
        return None;
    }
    Some(DebugLabels { severity: severity_string(lvl), source: source_string(src), kind: type_string(typ) })
}

/// Law: high-severity messages are kept at every level, and a level keeps
/// every message that a level with a larger filter value keeps.
pub proof fn law_filter_monotone(lvl: GLenum, f: u32, g: u32)
    requires
        f <= g,
    ensures
        kept(gl::DEBUG_SEVERITY_HIGH, g),
        kept(lvl, g) ==> kept(lvl, f),
{
}

} // verus!

//! The traceback the error handler builds: one line per activation
//! record, from the innermost frame outward, with each frame's local
//! bindings indented beneath it.  A long walk is elided: after the
//! leading frames an ellipsis line replaces the middle and only the
//! trailing frames follow.

use vstd::prelude::*;
use vstd::string::StringExecFns;
use crate::fmt::int_str;
use crate::fmt::int_to_string;

verus! {

/// How many leading frames a traceback shows before eliding.
pub const TRACE_HEAD: usize = 12;

/// How many trailing frames follow the ellipsis.
pub const TRACE_TAIL: usize = 11;

/// What kind of activation record a frame describes.
#[derive(Debug, Clone, PartialEq)]
pub enum FrameKind {
    /// The main chunk.
    Main,
    /// A native function; carries the rendering of its address.
    Native(String),
    /// An ordinary scripted function.
    Scripted,
    /// One of the runtime's built-ins, by number.
    Builtin(i64),
}

/// A local binding's value, as the handler reads it off the live
/// stack.  Number and address text arrive pre-rendered — their
/// formatting is the engine's floating-point and pointer business —
/// while every other kind renders here.
#[derive(Debug, Clone, PartialEq)]
pub enum LocalValue {
    Absent,
    Nil,
    Bool(bool),
    NumberText(String),
    Str(String),
    Light(String),
    Table,
    Function,
    Userdata,
    Thread,
}

/// One activation record, as the frame walker hands it over: the
/// chunk name, current and defining lines, the function's name when
/// the runtime knows one, its kind, and its local bindings.
#[derive(Debug)]
pub struct Frame {
    pub short_src: String,
    pub currentline: i32,
    pub linedefined: i32,
    pub name: Option<String>,
    pub kind: FrameKind,
    pub locals: Vec<(String, LocalValue)>,
}

/// The rendering of one local binding's value.
pub open spec fn local_val_str(v: LocalValue) -> Seq<char> {
    match v {
        LocalValue::Absent => "none"@,
        LocalValue::Nil => "nil"@,
        LocalValue::Bool(b) => if b {
            "true"@
        } else {
            "false"@
        },
        LocalValue::NumberText(t) => t@,
        LocalValue::Str(s) => "'"@ + s@ + "'"@,
        LocalValue::Light(p) => p@,
        LocalValue::Table => "table"@,
        LocalValue::Function => "function"@,
        LocalValue::Userdata => "nil"@,
        LocalValue::Thread => "thread"@,
    }
}

/// The rendering of one local binding.
pub open spec fn local_str(name: Seq<char>, val: LocalValue) -> Seq<char> {
    "\n\t\tlocal "@ + name + " = "@ + local_val_str(val)
}

/// The rendering of a frame's locals, in order.
pub open spec fn locals_str(locals: Seq<(String, LocalValue)>, n: int) -> Seq<char>
    decreases n,
{
    if n <= 0 {
        Seq::<char>::empty()
    } else {
        locals_str(locals, n - 1) + local_str(locals[n - 1].0@, locals[n - 1].1)
    }
}

/// The description of what runs in a frame.
pub open spec fn frame_what_str(f: Frame) -> Seq<char> {
    match f.name {
        Some(n) => " in function "@ + n@,
        None => match f.kind {
            FrameKind::Main => " in main chunk"@,
            FrameKind::Native(addr) => " at "@ + addr@,
            FrameKind::Scripted => " in function <"@ + f.short_src@ + ":"@ + int_str(
                f.linedefined as int,
            ) + ">"@,
            FrameKind::Builtin(_) => Seq::<char>::empty(),
        },
    }
}

/// The complete rendering of one frame.
pub open spec fn frame_str(f: Frame) -> Seq<char> {
    let head = match (f.kind, f.name) {
        (FrameKind::Builtin(b), Option::None) => "\n\t[builtin#"@ + int_str(b as int) + "]:"@,
        _ => "\n\t"@ + f.short_src@ + ":"@,
    };
    let line = if f.currentline > 0 {
        int_str(f.currentline as int) + ":"@
    } else {
        Seq::<char>::empty()
    };
    head + line + frame_what_str(f) + locals_str(f.locals@, f.locals@.len() as int)
}

/// The rendering of frames `lo..hi` of a walk, in order.
pub open spec fn frames_str(frames: Seq<Frame>, lo: int, hi: int) -> Seq<char>
    decreases hi - lo,
{
    if hi <= lo {
        Seq::<char>::empty()
    } else {
        frames_str(frames, lo, hi - 1) + frame_str(frames[hi - 1])
    }
}

/// The whole traceback: the raised message, then every frame — or,
/// past the handler's walk limit, the leading frames, an ellipsis
/// line, and the trailing frames.
pub open spec fn traceback_str(msg: Seq<char>, frames: Seq<Frame>) -> Seq<char> {
    if frames.len() <= TRACE_HEAD + TRACE_TAIL {
        msg + frames_str(frames, 0, frames.len() as int)
    } else {
        msg + frames_str(frames, 0, TRACE_HEAD as int) + "\n\t..."@ + frames_str(
            frames,
            frames.len() - TRACE_TAIL,
            frames.len() as int,
        )
    }
}

/// Renders one local binding's value.
fn render_local_val(v: &LocalValue) -> (out: String)
    ensures
        out@ == local_val_str(*v),
{
    match v {
        LocalValue::Absent => String::from_str("none"),
        LocalValue::Nil => String::from_str("nil"),
        LocalValue::Bool(b) => if *b {
            String::from_str("true")
        } else {
            String::from_str("false")
        },
        LocalValue::NumberText(t) => t.clone(),
        LocalValue::Str(s) => {
            let mut out = String::from_str("'");
            out.append(s.as_str());
            out.append("'");
            out
        },
        LocalValue::Light(p) => p.clone(),
        LocalValue::Table => String::from_str("table"),
        LocalValue::Function => String::from_str("function"),
        LocalValue::Userdata => String::from_str("nil"),
        LocalValue::Thread => String::from_str("thread"),
    }
}

/// Renders one frame.
fn render_frame(f: &Frame) -> (out: String)
    ensures
        out@ == frame_str(*f),
{
    let mut out = String::new();
    match (&f.kind, &f.name) {
        (FrameKind::Builtin(b), Option::None) => {
            out.append("\n\t[builtin#");
            let t = int_to_string(*b);
            out.append(t.as_str());
            out.append("]:");
        },
        _ => {
            out.append("\n\t");
            out.append(f.short_src.as_str());
            out.append(":");
        },
    }
    if f.currentline > 0 {
        let t = int_to_string(f.currentline as i64);
        out.append(t.as_str());
        out.append(":");
    }
    match &f.name {
        Some(n) => {
            out.append(" in function ");
            out.append(n.as_str());
        },
        None => {
            match &f.kind {
                FrameKind::Main => {
                    out.append(" in main chunk");
                },
                FrameKind::Native(addr) => {
                    out.append(" at ");
                    out.append(addr.as_str());
                },
                FrameKind::Scripted => {
                    out.append(" in function <");
                    out.append(f.short_src.as_str());
                    out.append(":");
                    let t = int_to_string(f.linedefined as i64);
                    out.append(t.as_str());
                    out.append(">");
                },
                FrameKind::Builtin(_) => {
                },
            }
        },
    }
    let ghost base = out@;
    let mut i: usize = 0;
    let total = f.locals.len();
    while i < total
        invariant
            total == f.locals@.len(),
            i <= total,
            out@ == base + locals_str(f.locals@, i as int),
        decreases total - i,
    {
        out.append("\n\t\tlocal ");
        out.append(f.locals[i].0.as_str());
        out.append(" = ");
        let v = render_local_val(&f.locals[i].1);
        out.append(v.as_str());
        i = i + 1;
        proof {
            assert(out@ =~= base + locals_str(f.locals@, i as int));
        }
    }
    proof {
        assert(out@ =~= frame_str(*f));
    }
    out
}

/// Renders frames `lo..hi` onto `out`.
fn render_frames(out: &mut String, frames: &Vec<Frame>, lo: usize, hi: usize)
    requires
        lo <= hi <= frames@.len(),
    ensures
        final(out)@ == old(out)@ + frames_str(frames@, lo as int, hi as int),
{
    let ghost base = out@;
    let mut i: usize = lo;
    proof {
        assert(out@ =~= base + frames_str(frames@, lo as int, lo as int));
    }
    while i < hi
        invariant
            lo <= i <= hi <= frames@.len(),
            out@ == base + frames_str(frames@, lo as int, i as int),
        decreases hi - i,
    {
        let fr = render_frame(&frames[i]);
        out.append(fr.as_str());
        i = i + 1;
        proof {
            assert(out@ =~= base + frames_str(frames@, lo as int, i as int));
        }
    }
}

/// Builds the traceback text the error handler produces for a raised
/// message: every activation record, innermost first, each with its
/// rendered locals — eliding the middle of a walk deeper than the
/// handler's limit.
pub fn flu_traceback(msg: &str, frames: &Vec<Frame>) -> (out: String)
    ensures
        out@ == traceback_str(msg@, frames@),
{
    let mut out = String::from_str(msg);
    let total = frames.len();
    if total <= TRACE_HEAD + TRACE_TAIL {
        render_frames(&mut out, frames, 0, total);
    } else {
        render_frames(&mut out, frames, 0, TRACE_HEAD);
        out.append("\n\t...");
        render_frames(&mut out, frames, total - TRACE_TAIL, total);
    }
    out
}

} // verus!

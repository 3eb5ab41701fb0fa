//! The source-location stack that `info frame` reports.

use vstd::prelude::*;

use crate::bytes::{copied, copied_opt, lit, opt_view, text};
use crate::number::{decimal, decimal_u64, decimal_usize};

verus! {

/// A frame's location type, the `type` key of `info frame`.
#[derive(Debug, Clone, Copy, PartialEq, Eq, Structural)]
pub enum FrameKind {
    /// Top level, or an `eval` or `uplevel` body.
    Eval,
    /// A procedure body.
    Proc,
    /// A sourced file, or a procedure defined in one.
    Source,
}

impl FrameKind {
    /// The word for the kind.
    pub open spec fn word(self) -> Seq<u8> {
        match self {
            FrameKind::Eval => text("eval"),
            FrameKind::Proc => text("proc"),
            FrameKind::Source => text("source"),
        }
    }

    /// The word for the kind.
    pub fn as_bytes(self) -> (r: &'static [u8])
        ensures
            r@ == self.word(),
    {
        match self {
            FrameKind::Eval => "eval".as_bytes(),
            FrameKind::Proc => "proc".as_bytes(),
            FrameKind::Source => "source".as_bytes(),
        }
    }
}

/// The method that a frame runs, where it runs one.
#[derive(Debug)]
pub struct MethodContext {
    /// Empty for a constructor or a destructor.
    pub method: Vec<u8>,
    /// `class` or `object`: what declares the method.
    pub kind: Vec<u8>,
    /// The declarer's name.
    pub owner: Vec<u8>,
}

/// What a [`MethodContext`] holds.
pub struct MethodView {
    pub method: Seq<u8>,
    pub kind: Seq<u8>,
    pub owner: Seq<u8>,
}

impl View for MethodContext {
    type V = MethodView;

    open spec fn view(&self) -> MethodView {
        MethodView { method: self.method@, kind: self.kind@, owner: self.owner@ }
    }
}

/// One level of script evaluation: the top-level script, a procedure call, an
/// `eval` or `uplevel` body, a sourced file.
#[derive(Debug)]
pub struct CmdFrame {
    pub kind: FrameKind,
    /// The file the script came from.
    pub file: Option<Vec<u8>>,
    /// The qualified name of the procedure that the frame runs in.
    pub proc_name: Option<Vec<u8>>,
    /// The call level that the frame runs in.
    pub level: usize,
    /// Whether `info frame` leaves the `level` key out.
    pub omit_level: bool,
    /// The position of the call frame on the call stack, `0` for the global one.
    pub frame_index: usize,
    /// Added to a line of the script to get the reported line.
    pub line_base: u32,
    /// The `line_base` of the body that the frame's commands belong to. An
    /// inline body moves `line_base` and leaves this one.
    pub proc_line_base: u32,
    /// The command being executed, and its reported line.
    pub cmd: Vec<u8>,
    pub line: u32,
    pub oo: Option<MethodContext>,
    /// The lambda expression of an `apply` body.
    pub lambda: Option<Vec<u8>>,
}

/// What a [`CmdFrame`] holds.
pub struct FrameView {
    pub kind: FrameKind,
    pub file: Option<Seq<u8>>,
    pub proc_name: Option<Seq<u8>>,
    pub level: usize,
    pub omit_level: bool,
    pub frame_index: usize,
    pub line_base: u32,
    pub proc_line_base: u32,
    pub cmd: Seq<u8>,
    pub line: u32,
    pub oo: Option<MethodView>,
    pub lambda: Option<Seq<u8>>,
}

impl View for CmdFrame {
    type V = FrameView;

    open spec fn view(&self) -> FrameView {
        FrameView {
            kind: self.kind,
            file: opt_view(self.file),
            proc_name: opt_view(self.proc_name),
            level: self.level,
            omit_level: self.omit_level,
            frame_index: self.frame_index,
            line_base: self.line_base,
            proc_line_base: self.proc_line_base,
            cmd: self.cmd@,
            line: self.line,
            oo: match self.oo {
                Some(m) => Some(m@),
                None => None,
            },
            lambda: opt_view(self.lambda),
        }
    }
}

/// The frames of a stack, bottom first.
pub open spec fn frame_views(fs: Seq<CmdFrame>) -> Seq<FrameView> {
    Seq::new(fs.len(), |i: int| fs[i]@)
}

/// The top-level script's frame.
pub open spec fn root_frame() -> FrameView {
    FrameView {
        kind: FrameKind::Eval,
        file: None,
        proc_name: None,
        level: 0,
        omit_level: false,
        frame_index: 0,
        line_base: 0,
        proc_line_base: 0,
        cmd: Seq::empty(),
        line: 1,
        oo: None,
        lambda: None,
    }
}

/// One less, not below zero.
pub open spec fn before_line(line: u32) -> u32 {
    if line == 0 {
        0
    } else {
        (line - 1) as u32
    }
}

/// A frame for an `eval` body: it keeps the enclosing frame's context, and its
/// lines begin at the line of the command being executed.
pub open spec fn inherited(stack: Seq<FrameView>) -> FrameView {
    if stack.len() == 0 {
        root_frame()
    } else {
        let base = before_line(stack.last().line);
        FrameView {
            line_base: base,
            proc_line_base: base,
            cmd: Seq::empty(),
            line: 1,
            ..stack.last()
        }
    }
}

/// A frame for a body whose source location is unknown: no file, and lines
/// relative to the body.
pub open spec fn unlocated(stack: Seq<FrameView>) -> FrameView {
    FrameView { kind: FrameKind::Eval, file: None, line_base: 0, ..inherited(stack) }
}

/// A frame for a body that begins at `line` of `file`.
pub open spec fn located(stack: Seq<FrameView>, file: Option<Seq<u8>>, line: u32) -> FrameView {
    FrameView {
        kind: FrameKind::Source,
        file,
        line_base: before_line(line),
        ..inherited(stack)
    }
}

/// Where a script value was written.
#[derive(Debug)]
pub struct Location {
    pub file: Option<Vec<u8>>,
    pub line: u32,
}

/// What a [`Location`] holds.
pub struct LocationView {
    pub file: Option<Seq<u8>>,
    pub line: u32,
}

impl View for Location {
    type V = LocationView;

    open spec fn view(&self) -> LocationView {
        LocationView { file: opt_view(self.file), line: self.line }
    }
}

/// An optional location as a plain value.
pub open spec fn loc_view(loc: Option<Location>) -> Option<LocationView> {
    match loc {
        Some(l) => Some(l@),
        None => None,
    }
}

/// A frame for the body of an `eval`: at its source location where one is
/// known.
pub open spec fn body_frame(stack: Seq<FrameView>, loc: Option<LocationView>) -> FrameView {
    match loc {
        Some(l) => located(stack, l.file, l.line),
        None => unlocated(stack),
    }
}

/// A frame for the body of an `uplevel` to call level `target`: as for an
/// `eval`, with the scope redirected and the `level` key left out.
pub open spec fn uplevel_frame(
    stack: Seq<FrameView>,
    loc: Option<LocationView>,
    target: usize,
) -> FrameView {
    FrameView { level: target, omit_level: true, ..body_frame(stack, loc) }
}

/// A frame for a sourced file: numbered by the file's own lines.
pub open spec fn sourced_frame(stack: Seq<FrameView>, name: Seq<u8>) -> FrameView {
    FrameView {
        kind: FrameKind::Source,
        file: Some(name),
        line_base: 0,
        ..inherited(stack)
    }
}

/// A frame for a definition script that was written at `line_base` of `file`.
pub open spec fn definition_frame(
    stack: Seq<FrameView>,
    file: Seq<u8>,
    line_base: u32,
) -> FrameView {
    FrameView {
        kind: FrameKind::Source,
        file: Some(file),
        line_base,
        oo: None,
        ..inherited(stack)
    }
}

/// A frame for the body of a `namespace eval`, in the call frame at `index` and
/// `level` that was pushed for it.
pub open spec fn namespace_frame(
    loc: Option<LocationView>,
    level: usize,
    index: usize,
) -> FrameView {
    let base = match loc {
        Some(l) => before_line(l.line),
        None => 0,
    };
    FrameView {
        kind: if loc is Some {
            FrameKind::Source
        } else {
            FrameKind::Eval
        },
        file: match loc {
            Some(l) => l.file,
            None => None,
        },
        level,
        frame_index: index,
        line_base: base,
        proc_line_base: base,
        ..root_frame()
    }
}

/// A frame as it stands when its body begins: the body is its own base.
pub open spec fn entered(f: FrameView) -> FrameView {
    FrameView { proc_line_base: f.line_base, ..f }
}

fn copied_method(m: &Option<MethodContext>) -> (r: Option<MethodContext>)
    ensures
        r is Some == m is Some,
        r is Some ==> r->0@ == m->0@,
{
    match m {
        Some(c) => Some(
            MethodContext {
                method: copied(&c.method),
                kind: copied(&c.kind),
                owner: copied(&c.owner),
            },
        ),
        None => None,
    }
}

/// One less, not below zero.
pub fn line_before(line: u32) -> (r: u32)
    ensures
        r == before_line(line),
{
    if line == 0 {
        0
    } else {
        line - 1
    }
}

impl CmdFrame {
    /// The top-level script's frame.
    pub fn root() -> (f: CmdFrame)
        ensures
            f@ == root_frame(),
    {
        CmdFrame {
            kind: FrameKind::Eval,
            file: None,
            proc_name: None,
            level: 0,
            omit_level: false,
            frame_index: 0,
            line_base: 0,
            proc_line_base: 0,
            cmd: Vec::new(),
            line: 1,
            oo: None,
            lambda: None,
        }
    }

    /// A frame for an `eval` body within `stack`.
    pub fn inherited_cmd_frame(stack: &[CmdFrame]) -> (f: CmdFrame)
        ensures
            f@ == inherited(frame_views(stack@)),
    {
        if stack.len() == 0 {
            return CmdFrame::root();
        }
        let top = &stack[stack.len() - 1];
        let base: u32 = line_before(top.line);
        CmdFrame {
            kind: top.kind,
            file: copied_opt(&top.file),
            proc_name: copied_opt(&top.proc_name),
            level: top.level,
            omit_level: top.omit_level,
            frame_index: top.frame_index,
            line_base: base,
            proc_line_base: base,
            cmd: Vec::new(),
            line: 1,
            oo: copied_method(&top.oo),
            lambda: copied_opt(&top.lambda),
        }
    }

    /// A frame for a body whose source location is unknown.
    pub fn unlocated_frame(stack: &[CmdFrame]) -> (f: CmdFrame)
        ensures
            f@ == unlocated(frame_views(stack@)),
    {
        let mut frame = CmdFrame::inherited_cmd_frame(stack);
        frame.kind = FrameKind::Eval;
        frame.file = None;
        frame.line_base = 0;
        frame
    }

    /// A frame for a body that begins at `line` of `file`.
    pub fn located_frame(stack: &[CmdFrame], file: &Option<Vec<u8>>, line: u32) -> (f: CmdFrame)
        ensures
            f@ == located(frame_views(stack@), opt_view(*file), line),
    {
        let mut frame = CmdFrame::inherited_cmd_frame(stack);
        frame.kind = FrameKind::Source;
        frame.file = copied_opt(file);
        frame.line_base = line_before(line);
        frame
    }

    /// A frame for the body of an `eval`.
    pub fn eval_body_frame(stack: &[CmdFrame], loc: &Option<Location>) -> (f: CmdFrame)
        ensures
            f@ == body_frame(frame_views(stack@), loc_view(*loc)),
    {
        match loc {
            Some(l) => CmdFrame::located_frame(stack, &l.file, l.line),
            None => CmdFrame::unlocated_frame(stack),
        }
    }

    /// A frame for the body of an `uplevel` to call level `target`.
    pub fn uplevel_body_frame(stack: &[CmdFrame], loc: &Option<Location>, target: usize) -> (f:
        CmdFrame)
        ensures
            f@ == uplevel_frame(frame_views(stack@), loc_view(*loc), target),
    {
        let mut frame = CmdFrame::eval_body_frame(stack, loc);
        frame.level = target;
        frame.omit_level = true;
        frame
    }

    /// A frame for the sourced file `name`.
    pub fn sourced_body_frame(stack: &[CmdFrame], name: &[u8]) -> (f: CmdFrame)
        ensures
            f@ == sourced_frame(frame_views(stack@), name@),
    {
        let mut frame = CmdFrame::inherited_cmd_frame(stack);
        frame.kind = FrameKind::Source;
        frame.file = Some(copied(name));
        frame.line_base = 0;
        frame
    }

    /// A frame for a definition script that was written at `line_base` of
    /// `file`.
    pub fn definition_body_frame(stack: &[CmdFrame], file: &[u8], line_base: u32) -> (f: CmdFrame)
        ensures
            f@ == definition_frame(frame_views(stack@), file@, line_base),
    {
        let mut frame = CmdFrame::inherited_cmd_frame(stack);
        frame.kind = FrameKind::Source;
        frame.file = Some(copied(file));
        frame.line_base = line_base;
        frame.oo = None;
        frame
    }

    /// A frame for the body of a `namespace eval`.
    pub fn namespace_body_frame(loc: &Option<Location>, level: usize, index: usize) -> (f: CmdFrame)
        ensures
            f@ == namespace_frame(loc_view(*loc), level, index),
    {
        let mut frame = CmdFrame::root();
        if let Some(l) = loc {
            frame.kind = FrameKind::Source;
            frame.file = copied_opt(&l.file);
            frame.line_base = line_before(l.line);
            frame.proc_line_base = line_before(l.line);
        }
        frame.level = level;
        frame.frame_index = index;
        frame
    }
}

/// One entry of an `info frame` dictionary.
#[derive(Debug)]
pub struct Entry {
    pub key: Vec<u8>,
    pub value: Vec<u8>,
}

/// The entries of a dictionary as plain values.
pub open spec fn entry_views(es: Seq<Entry>) -> Seq<(Seq<u8>, Seq<u8>)> {
    Seq::new(es.len(), |i: int| (es[i].key@, es[i].value@))
}

/// The stack position, from 1, that `info frame n` names: a positive `n` counts
/// from the root, any other from the top.
pub open spec fn frame_position(depth: int, n: int) -> int {
    if n > 0 {
        n
    } else {
        depth + n
    }
}

/// The `file` entry, where the frame has a file.
pub open spec fn file_entry(f: FrameView) -> Seq<(Seq<u8>, Seq<u8>)> {
    match f.file {
        Some(name) => seq![(text("file"), name)],
        None => Seq::empty(),
    }
}

/// The entries that say whose body the frame runs.
pub open spec fn owner_entries(f: FrameView) -> Seq<(Seq<u8>, Seq<u8>)> {
    match (f.oo, f.lambda, f.proc_name) {
        (Some(m), _, _) => if m.method.len() > 0 {
            seq![(text("method"), m.method), (m.kind, m.owner)]
        } else {
            seq![(m.kind, m.owner)]
        },
        (None, Some(l), _) => seq![(text("lambda"), l)],
        (None, None, Some(p)) => seq![(text("proc"), p)],
        (None, None, None) => Seq::empty(),
    }
}

/// The `level` entry: the distance from the current call level, where the
/// frame's call frame is on the caller chain.
pub open spec fn level_entry(f: FrameView, chain: Seq<usize>, current_level: usize) -> Seq<
    (Seq<u8>, Seq<u8>),
> {
    if !f.omit_level && chain.contains(f.frame_index) {
        let distance = if current_level >= f.level {
            current_level - f.level
        } else {
            0
        };
        seq![(text("level"), decimal(distance))]
    } else {
        Seq::empty()
    }
}

/// The `info frame` dictionary of one frame.
pub open spec fn frame_entries(f: FrameView, chain: Seq<usize>, current_level: usize) -> Seq<
    (Seq<u8>, Seq<u8>),
> {
    seq![(text("type"), f.kind.word()), (text("line"), decimal(f.line as int))] + file_entry(f)
        + seq![(text("cmd"), f.cmd)] + owner_entries(f) + level_entry(f, chain, current_level)
}

fn push_entry(out: &mut Vec<Entry>, key: Vec<u8>, value: Vec<u8>)
    ensures
        entry_views(final(out)@) == entry_views(old(out)@) + seq![(key@, value@)],
{
    out.push(Entry { key, value });
    assert(entry_views(out@) =~= entry_views(old(out)@) + seq![(key@, value@)]);
}

fn holds_index(chain: &[usize], index: usize) -> (r: bool)
    ensures
        r == chain@.contains(index),
{
    let mut i: usize = 0;
    while i < chain.len()
        invariant
            i <= chain@.len(),
            forall|j: int| 0 <= j < i ==> chain@[j] != index,
        decreases chain@.len() - i,
    {
        if chain[i] == index {
            return true;
        }
        i = i + 1;
    }
    false
}

/// The `info frame n` description, `None` where no frame has that position.
/// `chain` is the caller chain of the current variable frame, as call-stack
/// positions.
pub fn cmd_frame_info(
    stack: &[CmdFrame],
    n: i64,
    chain: &[usize],
    current_level: usize,
) -> (r: Option<Vec<Entry>>)
    requires
        stack@.len() <= i64::MAX,
    ensures
        ({
            let pos = frame_position(stack@.len() as int, n as int);
            match r {
                Some(es) => 1 <= pos <= stack@.len() && entry_views(es@) == frame_entries(
                    stack@[pos - 1]@,
                    chain@,
                    current_level,
                ),
                None => !(1 <= pos <= stack@.len()),
            }
        }),
{
    let depth: i64 = stack.len() as i64;
    let pos: i64 = if n > 0 {
        n
    } else {
        depth + n
    };
    if pos < 1 || pos > depth {
        return None;
    }
    let f = &stack[(pos - 1) as usize];
    let mut out: Vec<Entry> = Vec::new();
    assert(entry_views(out@) =~= Seq::empty());
    push_entry(&mut out, lit("type"), copied(f.kind.as_bytes()));
    push_entry(&mut out, lit("line"), decimal_u64(f.line as u64));
    if let Some(file) = &f.file {
        push_entry(&mut out, lit("file"), copied(file));
    }
    push_entry(&mut out, lit("cmd"), copied(&f.cmd));
    if let Some(m) = &f.oo {
        if m.method.len() > 0 {
            push_entry(&mut out, lit("method"), copied(&m.method));
        }
        push_entry(&mut out, copied(&m.kind), copied(&m.owner));
    } else if let Some(l) = &f.lambda {
        push_entry(&mut out, lit("lambda"), copied(l));
    } else if let Some(p) = &f.proc_name {
        push_entry(&mut out, lit("proc"), copied(p));
    }
    if !f.omit_level && holds_index(chain, f.frame_index) {
        let distance: usize = if current_level >= f.level {
            current_level - f.level
        } else {
            0
        };
        push_entry(&mut out, lit("level"), decimal_usize(distance));
    }
    assert(entry_views(out@) =~= frame_entries(f@, chain@, current_level));
    Some(out)
}

/// The frame of an `eval` body is that of the command around it, but for the
/// place: the body's first line is the line of that command.
pub proof fn a_body_begins_on_its_commands_line(stack: Seq<FrameView>)
    requires
        stack.len() > 0,
    ensures
        ({
            let f = inherited(stack);
            let top = stack.last();
            &&& f.kind == top.kind && f.file == top.file && f.proc_name == top.proc_name
            &&& f.level == top.level && f.frame_index == top.frame_index
            &&& f.oo == top.oo && f.lambda == top.lambda && f.omit_level == top.omit_level
            &&& top.line >= 1 ==> f.line_base + f.line == top.line
            &&& f.proc_line_base == f.line_base
            &&& f.cmd.len() == 0
        }),
{
}

/// A body whose place is known is numbered by the lines of its file: its first
/// line is the one it begins on. One whose place is not known is numbered by
/// its own, and has no file.
pub proof fn a_located_body_has_the_lines_of_its_file(
    stack: Seq<FrameView>,
    l: LocationView,
    target: usize,
)
    ensures
        ({
            let f = body_frame(stack, Some(l));
            &&& f.file == l.file
            &&& f.kind == FrameKind::Source
            &&& l.line >= 1 ==> f.line_base + 1 == l.line
        }),
        ({
            let f = body_frame(stack, None);
            &&& f.file is None
            &&& f.kind == FrameKind::Eval
            &&& f.line_base == 0
        }),
        body_frame(stack, Some(l)).level == inherited(stack).level,
        body_frame(stack, None).level == inherited(stack).level,
        body_frame(stack, Some(l)).proc_name == inherited(stack).proc_name,
        ({
            let f = uplevel_frame(stack, Some(l), target);
            &&& f.level == target
            &&& f.omit_level
            &&& f.file == l.file
            &&& f.line_base == body_frame(stack, Some(l)).line_base
        }),
{
}

/// A sourced file is numbered by its own lines, and a definition script by those
/// of the file it was written in.
pub proof fn a_file_has_its_own_lines(stack: Seq<FrameView>, name: Seq<u8>, base: u32)
    ensures
        sourced_frame(stack, name).file == Some(name),
        sourced_frame(stack, name).line_base == 0,
        sourced_frame(stack, name).kind == FrameKind::Source,
        sourced_frame(stack, name).level == inherited(stack).level,
        definition_frame(stack, name, base).file == Some(name),
        definition_frame(stack, name, base).line_base == base,
        definition_frame(stack, name, base).kind == FrameKind::Source,
        definition_frame(stack, name, base).oo is None,
{
}

/// The body of a `namespace eval` runs in the call frame that was pushed for it,
/// and belongs to no procedure; its lines are those of its file where its place
/// is known.
pub proof fn a_namespace_body_belongs_to_no_procedure(
    loc: Option<LocationView>,
    level: usize,
    index: usize,
)
    ensures
        ({
            let f = namespace_frame(loc, level, index);
            &&& f.level == level && f.frame_index == index
            &&& f.proc_name is None && f.oo is None && f.lambda is None
            &&& loc matches Some(l) ==> f.file == l.file && (l.line >= 1 ==> f.line_base + 1
                == l.line)
            &&& loc is None ==> f.file is None && f.line_base == 0
            &&& f.kind == FrameKind::Source <==> loc is Some
            &&& loc is None ==> f.kind == FrameKind::Eval
        }),
{
}

/// `info frame n` counts from the root for a positive `n` and back from the
/// innermost frame otherwise: both ways of naming a frame agree.
pub proof fn frames_are_counted_from_either_end(depth: int, n: int)
    requires
        1 <= n <= depth,
    ensures
        frame_position(depth, n) == n,
        frame_position(depth, 0) == depth,
        frame_position(depth, n - depth) == frame_position(depth, n),
{
}

/// What `info frame` tells of a frame: its type, its line and its command in any
/// case, its file where it has one, and whose body it runs.
pub proof fn a_frame_tells_its_place(f: FrameView, chain: Seq<usize>, current_level: usize)
    ensures
        ({
            let es = frame_entries(f, chain, current_level);
            &&& es[0] == (text("type"), f.kind.word())
            &&& es[1] == (text("line"), decimal(f.line as int))
            &&& f.file is Some ==> es[2] == (text("file"), f.file->0) && es[3] == (
                text("cmd"),
                f.cmd,
            )
            &&& f.file is None ==> es[2] == (text("cmd"), f.cmd)
        }),
        FrameKind::Eval.word() == text("eval"),
        FrameKind::Proc.word() == text("proc"),
        FrameKind::Source.word() == text("source"),
        f.oo is None && f.lambda is None && f.proc_name is Some ==> owner_entries(f) == seq![
            (text("proc"), f.proc_name->0),
        ],
        f.oo is None && f.lambda is Some ==> owner_entries(f) == seq![
            (text("lambda"), f.lambda->0),
        ],
        f.oo is Some && (f.oo->0).method.len() > 0 ==> owner_entries(f) == seq![
            (text("method"), (f.oo->0).method),
            ((f.oo->0).kind, (f.oo->0).owner),
        ],
        f.oo is None && f.lambda is None && f.proc_name is None ==> owner_entries(f).len() == 0,
{
}

/// A frame tells how far below the current call level its own is, unless it
/// runs elsewhere than where it was called from.
pub proof fn a_frame_tells_its_distance(f: FrameView, chain: Seq<usize>, current_level: usize)
    requires
        f.level <= current_level,
    ensures
        !f.omit_level && chain.contains(f.frame_index) ==> level_entry(f, chain, current_level)
            == seq![(text("level"), decimal(current_level - f.level))],
        f.omit_level || !chain.contains(f.frame_index) ==> level_entry(
            f,
            chain,
            current_level,
        ).len() == 0,
        ({
            let es = frame_entries(f, chain, current_level);
            let ls = level_entry(f, chain, current_level);
            let os = owner_entries(f);
            &&& es.len() >= ls.len() + os.len()
            &&& es.skip(es.len() - ls.len()) == ls
            &&& es.take(es.len() - ls.len()).skip(es.len() - ls.len() - os.len()) == os
        }),
{
    let es = frame_entries(f, chain, current_level);
    let ls = level_entry(f, chain, current_level);
    let os = owner_entries(f);
    assert(es.skip(es.len() - ls.len()) =~= ls);
    assert(es.take(es.len() - ls.len()).skip(es.len() - ls.len() - os.len()) =~= os);
}

} // verus!

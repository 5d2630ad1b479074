use vstd::prelude::*;
use crate::pattern::{
    capture_groups, captures, compile, compiles, groups_of, is_match, pattern_of, search, text_of,
    Compiled, Groups,
};

verus! {

/// A linear move with its three numeric fields.
pub const LINEAR_MOVE: &'static str =
    r"^G1 X([+-]?(?:\d+\.?\d*|\.\d+)) Y([+-]?(?:\d+\.?\d*|\.\d+)) E([+-]?(?:\d+\.?\d*|\.\d+))";

/// A motion command that sets the X position.
pub const POSITION_X: &'static str = r"^G[0123] .*X([+-]?(?:\d+\.?\d*|\.\d+))";

/// A motion command that sets the Y position.
pub const POSITION_Y: &'static str = r"^G[0123] .*Y([+-]?(?:\d+\.?\d*|\.\d+))";

/// The switch to absolute deposition amounts.
pub const ABSOLUTE_MODE: &'static str = r"^M82\D";

/// The switch to relative deposition amounts.
pub const RELATIVE_MODE: &'static str = r"^M83\D";

/// Which of the line patterns is meant.
#[derive(Clone, Copy, Debug, PartialEq, Eq, Structural)]
pub enum PatternKind {
    LinearMove,
    PositionX,
    PositionY,
    AbsoluteMode,
    RelativeMode,
}

impl PatternKind {
    /// The text of the pattern.
    pub open spec fn text(self) -> Seq<char> {
        match self {
            PatternKind::LinearMove => LINEAR_MOVE@,
            PatternKind::PositionX => POSITION_X@,
            PatternKind::PositionY => POSITION_Y@,
            PatternKind::AbsoluteMode => ABSOLUTE_MODE@,
            PatternKind::RelativeMode => RELATIVE_MODE@,
        }
    }
}

/// A line pattern that the expression engine refused.
pub struct PatternError {
    pub kind: PatternKind,
    pub cause: regex::Error,
}

/// What a line of input is, with its numeric fields as they are written.
#[derive(Debug, PartialEq, Eq)]
pub enum Line {
    /// A linear move to `x`, `y` that deposits `e`.
    Linear { x: String, y: String, e: String },
    /// Any other line, with the X and Y positions that it sets, if any.
    Other { set_x: Option<String>, set_y: Option<String> },
}

pub enum LineView {
    Linear { x: Seq<char>, y: Seq<char>, e: Seq<char> },
    Other { set_x: Option<Seq<char>>, set_y: Option<Seq<char>> },
}

impl View for Line {
    type V = LineView;

    open spec fn view(&self) -> LineView {
        match *self {
            Line::Linear { x, y, e } => LineView::Linear { x: x@, y: y@, e: e@ },
            Line::Other { set_x, set_y } => LineView::Other {
                set_x: text_of(set_x),
                set_y: text_of(set_y),
            },
        }
    }
}

/// The text of group `i`, where the pattern matched and the group took part.
pub open spec fn field(groups: Option<Groups>, i: int) -> Option<Seq<char>> {
    match groups {
        Some(g) => if 0 <= i < g.len() {
            g[i]
        } else {
            None
        },
        None => None,
    }
}

/// A line is a linear move where the pattern for one matched with all three
/// of its fields; any other line sets the positions that the two position
/// patterns find in it.
pub open spec fn line_of(linear: Option<Groups>, x: Option<Groups>, y: Option<Groups>) -> LineView {
    match (field(linear, 1), field(linear, 2), field(linear, 3)) {
        (Some(x), Some(y), Some(e)) => LineView::Linear { x, y, e },
        _ => LineView::Other { set_x: field(x, 1), set_y: field(y, 1) },
    }
}

/// The accounting that a line switches to: relative where the pattern for
/// it matches, else absolute where that one matches, else none.
pub open spec fn mode_of(relative: bool, absolute: bool) -> Option<bool> {
    if relative {
        Some(true)
    } else if absolute {
        Some(false)
    } else {
        None
    }
}

/// Copies out the text of group `i`.
pub fn take_field(groups: &Option<Vec<Option<String>>>, i: usize) -> (s: Option<String>)
    ensures
        text_of(s) == field(groups_of(*groups), i as int),
{
    match groups {
        Some(g) => {
            if i < g.len() {
                match &g[i] {
                    Some(s) => Some(s.clone()),
                    None => None,
                }
            } else {
                None
            }
        },
        None => None,
    }
}

/// Whether the groups hold the three fields of a linear move.
pub open spec fn has_fields(groups: Option<Groups>) -> bool {
    field(groups, 1) is Some && field(groups, 2) is Some && field(groups, 3) is Some
}

pub fn is_linear(groups: &Option<Vec<Option<String>>>) -> (b: bool)
    ensures
        b == has_fields(groups_of(*groups)),
{
    match groups {
        Some(g) => g.len() > 3 && g[1].is_some() && g[2].is_some() && g[3].is_some(),
        None => false,
    }
}

/// Tells a linear move from any other line, given what the three patterns
/// captured.
pub fn classify(
    linear: &Option<Vec<Option<String>>>,
    x: &Option<Vec<Option<String>>>,
    y: &Option<Vec<Option<String>>>,
) -> (line: Line)
    ensures
        line@ == line_of(groups_of(*linear), groups_of(*x), groups_of(*y)),
{
    match (take_field(linear, 1), take_field(linear, 2), take_field(linear, 3)) {
        (Some(x), Some(y), Some(e)) => Line::Linear { x, y, e },
        _ => Line::Other { set_x: take_field(x, 1), set_y: take_field(y, 1) },
    }
}

/// The accounting that a line switches to, given which of the two mode
/// patterns matched.
pub fn mode_switch(relative: bool, absolute: bool) -> (mode: Option<bool>)
    ensures
        mode == mode_of(relative, absolute),
{
    if relative {
        Some(true)
    } else if absolute {
        Some(false)
    } else {
        None
    }
}

/// The five line patterns, compiled.
pub struct Patterns {
    linear: Compiled,
    x: Compiled,
    y: Compiled,
    absolute: Compiled,
    relative: Compiled,
}

/// Compiles one pattern, and says which one it was where that fails.
pub fn compile_as(kind: PatternKind, pattern: &str) -> (r: Result<Compiled, PatternError>)
    ensures
        r is Ok == compiles(pattern@),
        r matches Ok(c) ==> pattern_of(c) == pattern@,
        r matches Err(e) ==> e.kind == kind,
{
    match compile(pattern) {
        Ok(c) => Ok(c),
        Err(cause) => Err(PatternError { kind, cause }),
    }
}

impl Patterns {
    /// Each expression was compiled from the pattern that it stands for.
    pub closed spec fn wf(&self) -> bool {
        &&& pattern_of(self.linear) == LINEAR_MOVE@
        &&& pattern_of(self.x) == POSITION_X@
        &&& pattern_of(self.y) == POSITION_Y@
        &&& pattern_of(self.absolute) == ABSOLUTE_MODE@
        &&& pattern_of(self.relative) == RELATIVE_MODE@
    }

    /// The first pattern, in the order of the fields, that does not compile.
    pub open spec fn first_refused() -> Option<PatternKind> {
        if !compiles(LINEAR_MOVE@) {
            Some(PatternKind::LinearMove)
        } else if !compiles(POSITION_X@) {
            Some(PatternKind::PositionX)
        } else if !compiles(POSITION_Y@) {
            Some(PatternKind::PositionY)
        } else if !compiles(ABSOLUTE_MODE@) {
            Some(PatternKind::AbsoluteMode)
        } else if !compiles(RELATIVE_MODE@) {
            Some(PatternKind::RelativeMode)
        } else {
            None
        }
    }

    /// Compiles the five patterns; fails with the first that is refused.
    pub fn new() -> (r: Result<Patterns, PatternError>)
        ensures
            match r {
                Ok(p) => p.wf() && Self::first_refused() is None,
                Err(e) => Self::first_refused() == Some(e.kind),
            },
    {
        let linear = match compile_as(PatternKind::LinearMove, LINEAR_MOVE) {
            Ok(re) => re,
            Err(e) => { return Err(e); },
        };
        let x = match compile_as(PatternKind::PositionX, POSITION_X) {
            Ok(re) => re,
            Err(e) => { return Err(e); },
        };
        let y = match compile_as(PatternKind::PositionY, POSITION_Y) {
            Ok(re) => re,
            Err(e) => { return Err(e); },
        };
        let absolute = match compile_as(PatternKind::AbsoluteMode, ABSOLUTE_MODE) {
            Ok(re) => re,
            Err(e) => { return Err(e); },
        };
        let relative = match compile_as(PatternKind::RelativeMode, RELATIVE_MODE) {
            Ok(re) => re,
            Err(e) => { return Err(e); },
        };
        Ok(Patterns { linear, x, y, absolute, relative })
    }

    /// The pattern text that the expression of the given kind was compiled
    /// from.
    pub fn source(&self, kind: PatternKind) -> (text: String)
        requires
            self.wf(),
        ensures
            text@ == kind.text(),
    {
        match kind {
            PatternKind::LinearMove => self.linear.pattern(),
            PatternKind::PositionX => self.x.pattern(),
            PatternKind::PositionY => self.y.pattern(),
            PatternKind::AbsoluteMode => self.absolute.pattern(),
            PatternKind::RelativeMode => self.relative.pattern(),
        }
    }

    /// Reads one line of input.
    pub fn read(&self, text: &str) -> (line: Line)
        requires
            self.wf(),
        ensures
            line@ == line_of(
                capture_groups(LINEAR_MOVE@, text@),
                capture_groups(POSITION_X@, text@),
                capture_groups(POSITION_Y@, text@),
            ),
    {
        let linear = captures(&self.linear, text);
        if is_linear(&linear) {
            classify(&linear, &None, &None)
        } else {
            let x = captures(&self.x, text);
            let y = captures(&self.y, text);
            classify(&linear, &x, &y)
        }
    }

    /// The deposition accounting that the line switches to, if any.
    pub fn mode(&self, text: &str) -> (mode: Option<bool>)
        requires
            self.wf(),
        ensures
            mode == mode_of(is_match(RELATIVE_MODE@, text@), is_match(ABSOLUTE_MODE@, text@)),
    {
        let relative = search(&self.relative, text);
        let absolute = search(&self.absolute, text);
        mode_switch(relative, absolute)
    }
}

} // verus!

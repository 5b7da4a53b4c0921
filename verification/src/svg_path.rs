//! A builder of SVG path data from outline drawing commands.
//!
//! Coordinates arrive already converted to the SVG coordinate system and
//! printed as text; the builder decides which path command to emit,
//! shortening straight lines to `H`/`V` or dropping them when they do not
//! move, and keeps track of the pen.
use vstd::prelude::*;
use vstd::string::*;

verus! {

/// Represents a builder for constructing SVG path data from font outlines.
pub struct SvgPathBuilder {
    /// Where the current subpath started.
    pub start_x: String,
    pub start_y: String,
    /// Where the pen is.
    pub current_x: String,
    pub current_y: String,
    /// The path data emitted so far.
    pub path_data: String,
}

/// The state of a path builder: the start of the current subpath, the pen
/// and the path data, as text.
#[verifier::ext_equal]
pub struct PathState {
    pub start_x: Seq<char>,
    pub start_y: Seq<char>,
    pub current_x: Seq<char>,
    pub current_y: Seq<char>,
    pub data: Seq<char>,
}

impl View for SvgPathBuilder {
    type V = PathState;

    open spec fn view(&self) -> PathState {
        PathState {
            start_x: self.start_x@,
            start_y: self.start_y@,
            current_x: self.current_x@,
            current_y: self.current_y@,
            data: self.path_data@,
        }
    }
}

/// The state of a new builder: pen and start at `0 0`, no data.
pub open spec fn initial_state() -> PathState {
    PathState {
        start_x: "0"@,
        start_y: "0"@,
        current_x: "0"@,
        current_y: "0"@,
        data: Seq::empty(),
    }
}

/// A point printed as `x y`.
pub open spec fn point_text(x: Seq<char>, y: Seq<char>) -> Seq<char> {
    x + " "@ + y
}

/// The state after moving to `(x, y)`: a new subpath starts there.
pub open spec fn moved_to(st: PathState, x: Seq<char>, y: Seq<char>) -> PathState {
    PathState {
        start_x: x,
        start_y: y,
        current_x: x,
        current_y: y,
        data: st.data + "M"@ + point_text(x, y),
    }
}

/// The command that draws a straight line from `(cx, cy)` to `(x, y)`:
/// nothing when the pen does not move, `V` or `H` when one coordinate
/// stays, else `L`.
pub open spec fn line_command(cx: Seq<char>, cy: Seq<char>, x: Seq<char>, y: Seq<char>) -> Seq<
    char,
> {
    if cx == x && cy == y {
        Seq::empty()
    } else if cx == x {
        "V"@ + y
    } else if cy == y {
        "H"@ + x
    } else {
        "L"@ + point_text(x, y)
    }
}

/// The state after a straight line to `(x, y)`.
pub open spec fn lined_to(st: PathState, x: Seq<char>, y: Seq<char>) -> PathState {
    PathState {
        current_x: x,
        current_y: y,
        data: st.data + line_command(st.current_x, st.current_y, x, y),
        ..st
    }
}

/// The state after a quadratic curve through `(x1, y1)` to `(x, y)`.
pub open spec fn quad_to_state(
    st: PathState,
    x1: Seq<char>,
    y1: Seq<char>,
    x: Seq<char>,
    y: Seq<char>,
) -> PathState {
    PathState {
        current_x: x,
        current_y: y,
        data: st.data + "Q"@ + point_text(x1, y1) + " "@ + point_text(x, y),
        ..st
    }
}

/// The state after a cubic curve through `(x1, y1)` and `(x2, y2)` to
/// `(x, y)`.
pub open spec fn curve_to_state(
    st: PathState,
    x1: Seq<char>,
    y1: Seq<char>,
    x2: Seq<char>,
    y2: Seq<char>,
    x: Seq<char>,
    y: Seq<char>,
) -> PathState {
    PathState {
        current_x: x,
        current_y: y,
        data: st.data + "C"@ + point_text(x1, y1) + " "@ + point_text(x2, y2) + " "@ + point_text(
            x,
            y,
        ),
        ..st
    }
}

/// The state after closing the subpath: the pen returns to its start.
pub open spec fn closed(st: PathState) -> PathState {
    PathState { current_x: st.start_x, current_y: st.start_y, data: st.data + "Z"@, ..st }
}

impl SvgPathBuilder {
    /// A builder with the pen at `0 0` and no path data.
    pub fn new() -> (r: Self)
        ensures
            r@ == initial_state(),
    {
        SvgPathBuilder {
            start_x: String::from_str("0"),
            start_y: String::from_str("0"),
            current_x: String::from_str("0"),
            current_y: String::from_str("0"),
            path_data: String::new(),
        }
    }

    fn append_point(&mut self, x: &str, y: &str)
        ensures
            final(self)@ == (PathState { data: old(self)@.data + point_text(x@, y@), ..old(self)@ }),
    {
        self.path_data.append(x);
        self.path_data.append(" ");
        self.path_data.append(y);
        assert(self@.data =~= old(self)@.data + point_text(x@, y@));
    }

    /// Starts a new subpath at `(x, y)`.
    pub fn move_to(&mut self, x: &str, y: &str)
        ensures
            final(self)@ == moved_to(old(self)@, x@, y@),
            final(self).current_x@ == x@,
            final(self).current_y@ == y@,
            final(self).start_x@ == x@,
            final(self).start_y@ == y@,
    {
        self.path_data.append("M");
        self.append_point(x, y);
        self.start_x = String::from_str(x);
        self.start_y = String::from_str(y);
        self.current_x = String::from_str(x);
        self.current_y = String::from_str(y);
        assert(self@.data =~= old(self)@.data + "M"@ + point_text(x@, y@));
    }

    /// Draws a straight line from the pen to `(x, y)`.
    pub fn line_to(&mut self, x: &str, y: &str)
        ensures
            final(self)@ == lined_to(old(self)@, x@, y@),
            final(self).current_x@ == x@,
            final(self).current_y@ == y@,
            final(self).start_x@ == old(self).start_x@,
            final(self).start_y@ == old(self).start_y@,
    {
        let same_x = crate::text::str_equals(self.current_x.as_str(), x);
        let same_y = crate::text::str_equals(self.current_y.as_str(), y);
        if same_x && same_y {
            // The pen does not move: there is nothing to draw.
            assert(self@.data =~= old(self)@.data + Seq::<char>::empty());
        } else if same_x {
            self.path_data.append("V");
            self.path_data.append(y);
            assert(self@.data =~= old(self)@.data + ("V"@ + y@));
        } else if same_y {
            self.path_data.append("H");
            self.path_data.append(x);
            assert(self@.data =~= old(self)@.data + ("H"@ + x@));
        } else {
            self.path_data.append("L");
            self.append_point(x, y);
            assert(self@.data =~= old(self)@.data + ("L"@ + point_text(x@, y@)));
        }
        self.current_x = String::from_str(x);
        self.current_y = String::from_str(y);
    }

    /// Draws a quadratic curve through `(x1, y1)` to `(x, y)`.
    pub fn quad_to(&mut self, x1: &str, y1: &str, x: &str, y: &str)
        ensures
            final(self)@ == quad_to_state(old(self)@, x1@, y1@, x@, y@),
            final(self).current_x@ == x@,
            final(self).current_y@ == y@,
            final(self).start_x@ == old(self).start_x@,
            final(self).start_y@ == old(self).start_y@,
    {
        self.path_data.append("Q");
        self.append_point(x1, y1);
        self.path_data.append(" ");
        self.append_point(x, y);
        self.current_x = String::from_str(x);
        self.current_y = String::from_str(y);
        assert(self@.data =~= old(self)@.data + "Q"@ + point_text(x1@, y1@) + " "@ + point_text(
            x@,
            y@,
        ));
    }

    /// Draws a cubic curve through `(x1, y1)` and `(x2, y2)` to `(x, y)`.
    pub fn curve_to(&mut self, x1: &str, y1: &str, x2: &str, y2: &str, x: &str, y: &str)
        ensures
            final(self)@ == curve_to_state(old(self)@, x1@, y1@, x2@, y2@, x@, y@),
            final(self).current_x@ == x@,
            final(self).current_y@ == y@,
            final(self).start_x@ == old(self).start_x@,
            final(self).start_y@ == old(self).start_y@,
    {
        self.path_data.append("C");
        self.append_point(x1, y1);
        self.path_data.append(" ");
        self.append_point(x2, y2);
        self.path_data.append(" ");
        self.append_point(x, y);
        self.current_x = String::from_str(x);
        self.current_y = String::from_str(y);
        assert(self@.data =~= old(self)@.data + "C"@ + point_text(x1@, y1@) + " "@ + point_text(
            x2@,
            y2@,
        ) + " "@ + point_text(x@, y@));
    }

    /// Closes the subpath: the pen returns to where it started.
    pub fn close(&mut self)
        ensures
            final(self)@ == closed(old(self)@),
    {
        self.current_x = self.start_x.clone();
        self.current_y = self.start_y.clone();
        self.path_data.append("Z");
    }
}

/// Drawing only appends: every command keeps the path data drawn before it
/// as a prefix.
pub proof fn law_path_data_only_grows(st: PathState, x: Seq<char>, y: Seq<char>)
    ensures
        moved_to(st, x, y).data.take(st.data.len() as int) == st.data,
        lined_to(st, x, y).data.take(st.data.len() as int) == st.data,
        closed(st).data.take(st.data.len() as int) == st.data,
{
    assert(moved_to(st, x, y).data.take(st.data.len() as int) =~= st.data);
    assert(lined_to(st, x, y).data.take(st.data.len() as int) =~= st.data);
    assert(closed(st).data.take(st.data.len() as int) =~= st.data);
}

/// After closing a subpath, a straight line to its start draws nothing and
/// leaves the builder as it was.
pub proof fn law_line_to_start_after_close_is_empty(st: PathState)
    ensures
        lined_to(closed(st), st.start_x, st.start_y) == closed(st),
{
    assert(lined_to(closed(st), st.start_x, st.start_y) =~= closed(st));
}

/// Right after a move, a line to the same point draws nothing.
pub proof fn law_line_to_current_point_is_empty(st: PathState, x: Seq<char>, y: Seq<char>)
    ensures
        lined_to(moved_to(st, x, y), x, y) == moved_to(st, x, y),
{
    assert(lined_to(moved_to(st, x, y), x, y) =~= moved_to(st, x, y));
}

/// Every drawing command leaves the pen at the point it drew to, so the
/// next straight line is measured from there: after a curve to `(x, y)`, a
/// line to `(x2, y2)` is the one a line from `(x, y)` would be. Only a move
/// starts a new subpath.
pub proof fn law_pen_ends_at_target(
    st: PathState,
    x1: Seq<char>,
    y1: Seq<char>,
    x2: Seq<char>,
    y2: Seq<char>,
    x: Seq<char>,
    y: Seq<char>,
)
    ensures
        quad_to_state(st, x1, y1, x, y).current_x == x,
        quad_to_state(st, x1, y1, x, y).current_y == y,
        quad_to_state(st, x1, y1, x, y).start_x == st.start_x,
        quad_to_state(st, x1, y1, x, y).start_y == st.start_y,
        curve_to_state(st, x1, y1, x2, y2, x, y).current_x == x,
        curve_to_state(st, x1, y1, x2, y2, x, y).current_y == y,
        curve_to_state(st, x1, y1, x2, y2, x, y).start_x == st.start_x,
        curve_to_state(st, x1, y1, x2, y2, x, y).start_y == st.start_y,
        lined_to(st, x, y).current_x == x,
        lined_to(st, x, y).current_y == y,
        moved_to(st, x, y).current_x == x,
        moved_to(st, x, y).current_y == y,
        moved_to(st, x, y).start_x == x,
        moved_to(st, x, y).start_y == y,
        lined_to(quad_to_state(st, x1, y1, x, y), x2, y2).data == quad_to_state(
            st,
            x1,
            y1,
            x,
            y,
        ).data + lined_to(PathState { current_x: x, current_y: y, data: Seq::empty(), ..st }, x2, y2).data,
{
    let q = quad_to_state(st, x1, y1, x, y);
    assert(lined_to(q, x2, y2).data =~= q.data + lined_to(
        PathState { current_x: x, current_y: y, data: Seq::empty(), ..st },
        x2,
        y2,
    ).data);
}

/// A straight line whose end differs from the pen in both coordinates is a
/// diagonal `L` command; one that keeps the x coordinate is a vertical `V`,
/// one that keeps the y coordinate a horizontal `H`, and one that does not
/// move adds nothing.
pub proof fn law_line_command_kinds(st: PathState, x: Seq<char>, y: Seq<char>)
    ensures
        st.current_x != x && st.current_y != y ==> lined_to(st, x, y).data == st.data + "L"@ + x
            + " "@ + y,
        st.current_x == x && st.current_y != y ==> lined_to(st, x, y).data == st.data + "V"@ + y,
        st.current_x != x && st.current_y == y ==> lined_to(st, x, y).data == st.data + "H"@ + x,
        st.current_x == x && st.current_y == y ==> lined_to(st, x, y).data == st.data,
{
    assert(st.data + Seq::<char>::empty() =~= st.data);
    assert(st.data + ("L"@ + (x + " "@ + y)) =~= st.data + "L"@ + x + " "@ + y);
    assert(st.data + ("V"@ + y) =~= st.data + "V"@ + y);
    assert(st.data + ("H"@ + x) =~= st.data + "H"@ + x);
}

} // verus!

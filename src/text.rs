//! Text placement and labels: anchors, label options, ticks, and decimal
//! rendering of tick values.
use vstd::prelude::*;
use crate::page::{Edge, Rect};
use crate::scale::{pow10, Decimal, Ratio};
use crate::plot::{clamp_i32, place, place_spec, saturate};

verus! {

/// Text label point
#[derive(Copy, Clone, Debug, PartialEq, Eq, Structural)]
pub enum LabelPoint {
    /// Minimum point (start of bar/column)
    Minimum,
    /// Center point
    Center,
    /// Maximum point (end of bar/column)
    Maximum,
}

/// Vertical offset relative to point
#[derive(Copy, Clone, Debug, PartialEq, Eq, Structural)]
pub enum VerticalOffset {
    /// Label below point
    Below,
    /// Label at point
    At,
    /// Label above point
    Above,
}

/// Text anchor
#[derive(Copy, Clone, Debug, PartialEq, Eq, Structural)]
pub enum Anchor {
    /// Anchor at start of text
    Start,
    /// Anchor at middle of text
    Middle,
    /// Anchor at end of text
    End,
}

/// Label placement options
#[derive(Clone, Debug, PartialEq, Eq, Structural)]
pub struct Label {
    pub point: LabelPoint,
    pub offset: VerticalOffset,
    pub anchor: Anchor,
    pub rounding_precision: Option<usize>,
}

impl Label {
    pub open spec fn default_spec() -> Label {
        Label {
            point: LabelPoint::Center,
            offset: VerticalOffset::At,
            anchor: Anchor::Middle,
            rounding_precision: None,
        }
    }

    /// A label centered at its point, with no rounding
    pub fn new() -> (r: Self)
        ensures
            r == Label::default_spec(),
    {
        Label {
            point: LabelPoint::Center,
            offset: VerticalOffset::At,
            anchor: Anchor::Middle,
            rounding_precision: None,
        }
    }

    pub fn label_point(&self) -> (r: LabelPoint)
        ensures
            r == self.point,
    {
        self.point
    }

    /// Offset in text lines: `-1` above, `0` at, `1` below the point
    pub fn vertical_offset(&self) -> (r: i32)
        ensures
            r == match self.offset {
                VerticalOffset::Above => -1i32,
                VerticalOffset::At => 0i32,
                VerticalOffset::Below => 1i32,
            },
    {
        match self.offset {
            VerticalOffset::Above => -1,
            VerticalOffset::At => 0,
            VerticalOffset::Below => 1,
        }
    }

    pub fn minimum(self) -> (r: Self)
        ensures
            r == (Label { point: LabelPoint::Minimum, ..self }),
    {
        Label { point: LabelPoint::Minimum, ..self }
    }

    pub fn maximum(self) -> (r: Self)
        ensures
            r == (Label { point: LabelPoint::Maximum, ..self }),
    {
        Label { point: LabelPoint::Maximum, ..self }
    }

    pub fn above(self) -> (r: Self)
        ensures
            r == (Label { offset: VerticalOffset::Above, ..self }),
    {
        Label { offset: VerticalOffset::Above, ..self }
    }

    pub fn below(self) -> (r: Self)
        ensures
            r == (Label { offset: VerticalOffset::Below, ..self }),
    {
        Label { offset: VerticalOffset::Below, ..self }
    }

    pub fn start(self) -> (r: Self)
        ensures
            r == (Label { anchor: Anchor::Start, ..self }),
    {
        Label { anchor: Anchor::Start, ..self }
    }

    pub fn end(self) -> (r: Self)
        ensures
            r == (Label { anchor: Anchor::End, ..self }),
    {
        Label { anchor: Anchor::End, ..self }
    }
}

impl Default for Label {
    fn default() -> (r: Self)
        ensures
            r == Label::default_spec(),
    {
        Label::new()
    }
}

/// Tick mark for an axis label
#[derive(Clone, Debug, PartialEq, Eq)]
pub struct Tick {
    /// The data value at the tick
    pub value: Decimal,
    /// Normalized position of the value on its scale
    pub position: Ratio,
    /// The label
    pub text: String,
}

impl Tick {
    pub fn new(value: Decimal, position: Ratio, text: String) -> (r: Self)
        ensures
            r.value == value,
            r.position == position,
            r.text@ == text@,
    {
        Tick { value, position, text }
    }

    pub fn text(&self) -> (r: &str)
        ensures
            r@ == self.text@,
    {
        self.text.as_str()
    }

    /// Length of a tick line
    pub const LEN: i32 = 20;
    /// Horizontal distance from an axis line to a tick label
    pub const HLEN: i32 = Tick::LEN + 8;
    /// Vertical distance from an axis line to a tick label
    pub const VLEN: i32 = Tick::LEN * 2;

    /// X coordinate of the tick within `rect` for an axis on `edge`: `len`
    /// in from the side facing the plot for a vertical axis, else at the
    /// tick's position across the width.
    pub fn x(&self, edge: Edge, rect: &Rect, len: i32) -> (r: i32)
        requires
            self.position.den > 0,
        ensures
            r == match edge {
                Edge::Left => clamp_i32(rect.x + rect.width - len),
                Edge::Right => clamp_i32(rect.x + len),
                _ => place_spec(self.position.num as int, self.position.den as int, rect.x as int, rect.width as int),
            },
    {
        match edge {
            Edge::Left => saturate(rect.x as i128 + rect.width as i128 - len as i128),
            Edge::Right => saturate(rect.x as i128 + len as i128),
            _ => place(self.position, rect.x, rect.width),
        }
    }

    /// Y coordinate of the tick within `rect` for an axis on `edge`: `len`
    /// in from the side facing the plot for a horizontal axis, else at the
    /// tick's position down the height.
    pub fn y(&self, edge: Edge, rect: &Rect, len: i32) -> (r: i32)
        requires
            self.position.den > 0,
        ensures
            r == match edge {
                Edge::Top => clamp_i32(rect.y + rect.height - len),
                Edge::Bottom => clamp_i32(rect.y + len),
                _ => place_spec(self.position.num as int, self.position.den as int, rect.y as int, rect.height as int),
            },
    {
        match edge {
            Edge::Top => saturate(rect.y as i128 + rect.height as i128 - len as i128),
            Edge::Bottom => saturate(rect.y as i128 + len as i128),
            _ => place(self.position, rect.y, rect.height),
        }
    }
}

/// Point at which text on `edge` with `anchor` is placed within `rect`:
/// along the text's direction at the start, middle or end; across it at the
/// middle. Text on the left side reads upward, on the right side downward.
pub open spec fn anchor_point_spec(edge: Edge, anchor: Anchor, rect: Rect) -> (int, int) {
    let mid_x = rect.x + rect.width / 2;
    let mid_y = rect.y + rect.height / 2;
    let x = match (edge, anchor) {
        (Edge::Top, Anchor::Start) | (Edge::Bottom, Anchor::Start) => rect.x as int,
        (Edge::Top, Anchor::End) | (Edge::Bottom, Anchor::End) => rect.x + rect.width,
        _ => mid_x,
    };
    let y = match (edge, anchor) {
        (Edge::Left, Anchor::End) | (Edge::Right, Anchor::Start) => rect.y as int,
        (Edge::Left, Anchor::Start) | (Edge::Right, Anchor::End) => rect.y + rect.height,
        _ => mid_y,
    };
    (x, y)
}

/// Where to place text on `edge` with `anchor` within `rect`
pub fn anchor_point(edge: Edge, anchor: Anchor, rect: &Rect) -> (r: (i32, i32))
    requires
        rect.wf(),
    ensures
        (r.0 as int, r.1 as int) == anchor_point_spec(edge, anchor, *rect),
{
    let mid_x = (rect.x as i64 + (rect.width / 2) as i64) as i32;
    let mid_y = (rect.y as i64 + (rect.height / 2) as i64) as i32;
    let x = match (edge, anchor) {
        (Edge::Top, Anchor::Start) | (Edge::Bottom, Anchor::Start) => rect.x,
        (Edge::Top, Anchor::End) | (Edge::Bottom, Anchor::End) => rect.x_max(),
        _ => mid_x,
    };
    let y = match (edge, anchor) {
        (Edge::Left, Anchor::End) | (Edge::Right, Anchor::Start) => rect.y,
        (Edge::Left, Anchor::Start) | (Edge::Right, Anchor::End) => rect.y_max(),
        _ => mid_y,
    };
    (x, y)
}

/// Rotation in degrees of text on `edge`
pub fn rotation(edge: Edge) -> (r: i32)
    ensures
        r == match edge {
            Edge::Left => -90i32,
            Edge::Right => 90i32,
            _ => 0i32,
        },
{
    match edge {
        Edge::Left => -90,
        Edge::Right => 90,
        _ => 0,
    }
}

/// The character of a decimal digit
pub open spec fn digit_char(d: int) -> char {
    if d == 0 {
        '0'
    } else if d == 1 {
        '1'
    } else if d == 2 {
        '2'
    } else if d == 3 {
        '3'
    } else if d == 4 {
        '4'
    } else if d == 5 {
        '5'
    } else if d == 6 {
        '6'
    } else if d == 7 {
        '7'
    } else if d == 8 {
        '8'
    } else {
        '9'
    }
}

/// Decimal digits of `n`, without leading zeros
pub open spec fn digits(n: nat) -> Seq<char>
    decreases n,
{
    if n < 10 {
        seq![digit_char(n as int)]
    } else {
        digits(n / 10).push(digit_char((n % 10) as int))
    }
}

/// The last `w` decimal digits of `n`, padded with leading zeros
pub open spec fn fixed_digits(n: nat, w: nat) -> Seq<char>
    decreases w,
{
    if w == 0 {
        seq![]
    } else {
        fixed_digits(n / 10, (w - 1) as nat).push(digit_char((n % 10) as int))
    }
}

/// Text of the number `units / 10^d` with exactly `d` digits after the
/// decimal point (none, and no point, when `d` is zero)
pub open spec fn decimal_text(units: int, d: nat) -> Seq<char> {
    let mag: nat = (if units < 0 { -units } else { units }) as nat;
    let sign: Seq<char> = if units < 0 { seq!['-'] } else { seq![] };
    let whole = digits(mag / pow10(d) as nat);
    if d == 0 {
        sign + whole
    } else {
        sign + whole + seq!['.'] + fixed_digits(mag % pow10(d) as nat, d)
    }
}

/// Relies on `String::push`: appends one character.
#[verifier::external_body]
fn push_char(s: &mut String, c: char)
    ensures
        final(s)@ == old(s)@.push(c),
{
    s.push(c)
}

fn digit(d: u64) -> (c: char)
    requires
        d < 10,
    ensures
        c == digit_char(d as int),
{
    if d == 0 {
        '0'
    } else if d == 1 {
        '1'
    } else if d == 2 {
        '2'
    } else if d == 3 {
        '3'
    } else if d == 4 {
        '4'
    } else if d == 5 {
        '5'
    } else if d == 6 {
        '6'
    } else if d == 7 {
        '7'
    } else if d == 8 {
        '8'
    } else {
        '9'
    }
}

fn push_digits(s: &mut String, n: u64)
    ensures
        final(s)@ == old(s)@ + digits(n as nat),
    decreases n,
{
    if n >= 10 {
        push_digits(s, n / 10);
    }
    push_char(s, digit(n % 10));
    assert(final(s)@ =~= old(s)@ + digits(n as nat));
}

fn push_fixed(s: &mut String, n: u64, w: u32)
    ensures
        final(s)@ == old(s)@ + fixed_digits(n as nat, w as nat),
    decreases w,
{
    if w > 0 {
        push_fixed(s, n / 10, w - 1);
        push_char(s, digit(n % 10));
        assert(final(s)@ =~= old(s)@ + fixed_digits(n as nat, w as nat));
    } else {
        assert(final(s)@ =~= old(s)@ + fixed_digits(n as nat, w as nat));
    }
}

/// Render `value` with exactly `value.decimals` digits after the point.
pub fn decimal_string(value: Decimal) -> (r: String)
    requires
        value.decimals <= 10,
    ensures
        r@ == decimal_text(value.units as int, value.decimals as nat),
{
    let mut s = String::new();
    let mag: u64 = if value.units < 0 { (-(value.units as i128)) as u64 } else { value.units as u64 };
    if value.units < 0 {
        push_char(&mut s, '-');
    }
    let ghost sign = s@;
    let p = crate::scale::pow10_exec(value.decimals);
    proof {
        crate::scale::lemma_pow10_positive(value.decimals as nat);
    }
    push_digits(&mut s, mag / p);
    if value.decimals > 0 {
        push_char(&mut s, '.');
        push_fixed(&mut s, mag % p, value.decimals);
    }
    proof {
        let ghost mg: nat = (if value.units < 0 { -value.units } else { value.units as int }) as nat;
        assert(mg == mag);
        assert(s@ =~= decimal_text(value.units as int, value.decimals as nat));
    }
    s
}

} // verus!

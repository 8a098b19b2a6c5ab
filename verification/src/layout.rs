//! A multiplexer-independent binary space partitioning (BSP) layout model
//! and the parser for tmux's checksum-prefixed serialized layouts.

use vstd::prelude::*;
use crate::text::{chars_of, string_of, extend_str, str_eq};
use vstd::string::StringSliceAdditionalSpecFns;

verus! {

/// Where the second child of a split is placed relative to the first.
#[derive(Debug, Clone, Copy, PartialEq, Eq, Hash)]
pub enum SplitDirection {
    /// Place the second child to the right of the first.
    Right,
    /// Place the second child below the first.
    Down,
}

pub open spec fn spec_direction_name(d: SplitDirection) -> Seq<char> {
    match d {
        SplitDirection::Right => "right"@,
        SplitDirection::Down => "down"@,
    }
}

impl SplitDirection {
    /// Returns the stable, human-readable name of this direction.
    pub fn as_str(self) -> (r: &'static str)
        ensures
            r@ == spec_direction_name(self),
    {
        match self {
            SplitDirection::Right => {
                proof {
                    reveal_strlit("right");
                }
                "right"
            },
            SplitDirection::Down => {
                proof {
                    reveal_strlit("down");
                }
                "down"
            },
        }
    }
}


/// The tmux layout checksum of some bytes: for each byte, rotate the 16-bit
/// sum right by one bit, then add the byte (wrapping).
pub open spec fn spec_checksum(bytes: Seq<u8>) -> nat
    decreases bytes.len(),
{
    if bytes.len() == 0 {
        0
    } else {
        let c = spec_checksum(bytes.drop_last());
        ((c / 2 + (c % 2) * 32768) + bytes.last() as nat) % 65536
    }
}

/// Computes the checksum at the start of a tmux serialized layout, over
/// the payload after the first comma.
pub fn tmux_layout_checksum(payload: &str) -> (r: u16)
    ensures
        r as nat == spec_checksum(payload.spec_bytes()),
{
    let bytes = payload.as_bytes();
    let mut sum: u32 = 0;
    let mut i: usize = 0;
    while i < bytes.len()
        invariant
            i <= bytes@.len(),
            bytes@ == payload.spec_bytes(),
            sum as nat == spec_checksum(bytes@.take(i as int)),
            sum < 65536,
        decreases bytes.len() - i,
    {
        proof {
            assert(bytes@.take(i + 1).drop_last() == bytes@.take(i as int));
            assert(bytes@.take(i + 1).last() == bytes@[i as int]);
            assert(spec_checksum(bytes@.take(i as int)) < 65536) by {
                if i > 0 {
                    assert(bytes@.take(i as int).drop_last() == bytes@.take(i - 1));
                }
            }
        }
        let rotated: u32 = sum / 2 + (sum % 2) * 32768;
        sum = (rotated + bytes[i] as u32) % 65536;
        i += 1;
    }
    assert(bytes@.take(bytes@.len() as int) == bytes@);
    sum as u16
}

/// Named layouts of the neutral model.
#[derive(Debug, Clone, Copy, PartialEq, Eq, Hash)]
pub enum LayoutPreset {
    Tiled,
    EvenHorizontal,
    EvenVertical,
    MainHorizontal,
    MainVertical,
}

pub open spec fn preset_name(p: LayoutPreset) -> Seq<char> {
    match p {
        LayoutPreset::Tiled => "tiled"@,
        LayoutPreset::EvenHorizontal => "even-horizontal"@,
        LayoutPreset::EvenVertical => "even-vertical"@,
        LayoutPreset::MainHorizontal => "main-horizontal"@,
        LayoutPreset::MainVertical => "main-vertical"@,
    }
}

/// A name that is no preset.
#[derive(Debug, Clone, PartialEq, Eq)]
pub struct UnknownLayoutPreset(pub String);

impl UnknownLayoutPreset {
    /// The message shown to the user.
    pub fn message(&self) -> (r: String)
        ensures
            r@ == "unknown layout preset "@ + crate::process::debug_quoted(self.0@),
    {
        let mut out: Vec<char> = Vec::new();
        extend_str(&mut out, "unknown layout preset ");
        let q = crate::process::debug_quote(self.0.as_str());
        extend_str(&mut out, q.as_str());
        string_of(out.as_slice())
    }
}

impl LayoutPreset {
    /// The tmux spelling of this preset.
    pub fn as_str(self) -> (r: &'static str)
        ensures
            r@ == preset_name(self),
    {
        match self {
            LayoutPreset::Tiled => "tiled",
            LayoutPreset::EvenHorizontal => "even-horizontal",
            LayoutPreset::EvenVertical => "even-vertical",
            LayoutPreset::MainHorizontal => "main-horizontal",
            LayoutPreset::MainVertical => "main-vertical",
        }
    }

    /// The tmux spelling as an owned string.
    pub fn to_string(&self) -> (r: String)
        ensures
            r@ == preset_name(*self),
    {
        self.as_str().to_owned()
    }

    /// The preset with this tmux spelling.
    pub fn parse(value: &str) -> (r: Result<LayoutPreset, UnknownLayoutPreset>)
        ensures
            match r {
                Ok(p) => preset_name(p) == value@,
                Err(e) => e.0@ == value@ && forall|p: LayoutPreset| preset_name(p) != value@,
            },
    {
        if str_eq(value, "tiled") {
            Ok(LayoutPreset::Tiled)
        } else if str_eq(value, "even-horizontal") {
            Ok(LayoutPreset::EvenHorizontal)
        } else if str_eq(value, "even-vertical") {
            Ok(LayoutPreset::EvenVertical)
        } else if str_eq(value, "main-horizontal") {
            Ok(LayoutPreset::MainHorizontal)
        } else if str_eq(value, "main-vertical") {
            Ok(LayoutPreset::MainVertical)
        } else {
            Err(UnknownLayoutPreset(value.to_owned()))
        }
    }
}

impl std::str::FromStr for LayoutPreset {
    type Err = UnknownLayoutPreset;

    fn from_str(value: &str) -> Result<LayoutPreset, UnknownLayoutPreset> {
        LayoutPreset::parse(value)
    }
}

/// A pane's geometry in a tmux layout, in cells.
#[derive(Debug, Clone, Copy, PartialEq, Eq, Structural)]
pub struct Rectangle {
    pub width: usize,
    pub height: usize,
    pub x: usize,
    pub y: usize,
}

/// The length of a rectangle along the axis a split divides.
pub open spec fn axis_length(r: Rectangle, d: SplitDirection) -> nat {
    match d {
        SplitDirection::Right => r.width as nat,
        SplitDirection::Down => r.height as nat,
    }
}

/// Why two rectangles are not the two sides of a split.
#[derive(Debug, Clone, Copy, PartialEq, Eq)]
pub enum CombineError {
    /// They are not aligned across the split.
    Misaligned,
    /// They are not adjacent with one divider between them.
    NotAdjacent,
    /// The combined geometry does not fit in `usize`.
    Overflow,
}

pub open spec fn combine_message(e: CombineError, d: SplitDirection) -> Seq<char> {
    match (e, d) {
        (CombineError::Misaligned, SplitDirection::Right) => "right-split children must have equal y offsets and heights"@,
        (CombineError::NotAdjacent, SplitDirection::Right) => "right-split children must be adjacent with one divider column"@,
        (CombineError::Overflow, SplitDirection::Right) => "right-split geometry overflows usize"@,
        (CombineError::Misaligned, SplitDirection::Down) => "down-split children must have equal x offsets and widths"@,
        (CombineError::NotAdjacent, SplitDirection::Down) => "down-split children must be adjacent with one divider row"@,
        (CombineError::Overflow, SplitDirection::Down) => "down-split geometry overflows usize"@,
    }
}

/// The rectangle covering `first`, one divider and `second`, when they are
/// the two sides of a split in direction `d`.
pub open spec fn spec_combine(first: Rectangle, second: Rectangle, d: SplitDirection) -> Result<
    Rectangle,
    CombineError,
> {
    match d {
        SplitDirection::Right => if first.y != second.y || first.height != second.height {
            Err(CombineError::Misaligned)
        } else if first.x + first.width + 1 > usize::MAX {
            Err(CombineError::Overflow)
        } else if second.x != first.x + first.width + 1 {
            Err(CombineError::NotAdjacent)
        } else if first.width + 1 + second.width > usize::MAX {
            Err(CombineError::Overflow)
        } else {
            Ok(
                Rectangle {
                    width: (first.width + 1 + second.width) as usize,
                    height: first.height,
                    x: first.x,
                    y: first.y,
                },
            )
        },
        SplitDirection::Down => if first.x != second.x || first.width != second.width {
            Err(CombineError::Misaligned)
        } else if first.y + first.height + 1 > usize::MAX {
            Err(CombineError::Overflow)
        } else if second.y != first.y + first.height + 1 {
            Err(CombineError::NotAdjacent)
        } else if first.height + 1 + second.height > usize::MAX {
            Err(CombineError::Overflow)
        } else {
            Ok(
                Rectangle {
                    width: first.width,
                    height: (first.height + 1 + second.height) as usize,
                    x: first.x,
                    y: first.y,
                },
            )
        },
    }
}

impl CombineError {
    /// The message of this error for a split in direction `d`.
    pub fn message(self, d: SplitDirection) -> (r: &'static str)
        ensures
            r@ == combine_message(self, d),
    {
        match (self, d) {
            (CombineError::Misaligned, SplitDirection::Right) => "right-split children must have equal y offsets and heights",
            (CombineError::NotAdjacent, SplitDirection::Right) => "right-split children must be adjacent with one divider column",
            (CombineError::Overflow, SplitDirection::Right) => "right-split geometry overflows usize",
            (CombineError::Misaligned, SplitDirection::Down) => "down-split children must have equal x offsets and widths",
            (CombineError::NotAdjacent, SplitDirection::Down) => "down-split children must be adjacent with one divider row",
            (CombineError::Overflow, SplitDirection::Down) => "down-split geometry overflows usize",
        }
    }
}

impl Rectangle {
    /// The length along the axis a split in direction `d` divides.
    pub fn axis_length(self, direction: SplitDirection) -> (r: usize)
        ensures
            r as nat == axis_length(self, direction),
    {
        match direction {
            SplitDirection::Right => self.width,
            SplitDirection::Down => self.height,
        }
    }

    /// Combines the two sides of a split: they must be aligned across the
    /// split and adjacent along it with one divider cell between them.
    pub fn combine(first: Rectangle, second: Rectangle, direction: SplitDirection) -> (r: Result<
        Rectangle,
        CombineError,
    >)
        ensures
            r == spec_combine(first, second, direction),
    {
        match direction {
            SplitDirection::Right => {
                if first.y != second.y || first.height != second.height {
                    return Err(CombineError::Misaligned);
                }
                let edge = match first.x.checked_add(first.width) {
                    Some(e) => e,
                    None => {
                        return Err(CombineError::Overflow);
                    },
                };
                let expected_x = match edge.checked_add(1) {
                    Some(e) => e,
                    None => {
                        return Err(CombineError::Overflow);
                    },
                };
                if second.x != expected_x {
                    return Err(CombineError::NotAdjacent);
                }
                let span = match first.width.checked_add(1) {
                    Some(s) => s,
                    None => {
                        return Err(CombineError::Overflow);
                    },
                };
                let width = match span.checked_add(second.width) {
                    Some(w) => w,
                    None => {
                        return Err(CombineError::Overflow);
                    },
                };
                Ok(Rectangle { width, height: first.height, x: first.x, y: first.y })
            },
            SplitDirection::Down => {
                if first.x != second.x || first.width != second.width {
                    return Err(CombineError::Misaligned);
                }
                let edge = match first.y.checked_add(first.height) {
                    Some(e) => e,
                    None => {
                        return Err(CombineError::Overflow);
                    },
                };
                let expected_y = match edge.checked_add(1) {
                    Some(e) => e,
                    None => {
                        return Err(CombineError::Overflow);
                    },
                };
                if second.y != expected_y {
                    return Err(CombineError::NotAdjacent);
                }
                let span = match first.height.checked_add(1) {
                    Some(s) => s,
                    None => {
                        return Err(CombineError::Overflow);
                    },
                };
                let height = match span.checked_add(second.height) {
                    Some(h) => h,
                    None => {
                        return Err(CombineError::Overflow);
                    },
                };
                Ok(Rectangle { width: first.width, height, x: first.x, y: first.y })
            },
        }
    }
}

/// `value / divisor` rounded up.
pub open spec fn spec_div_ceil(value: nat, divisor: nat) -> nat {
    value / divisor + if value % divisor != 0 {
        1nat
    } else {
        0nat
    }
}

pub fn div_ceil(value: usize, divisor: usize) -> (r: usize)
    requires
        divisor > 0,
    ensures
        r as nat == spec_div_ceil(value as nat, divisor as nat),
{
    let q = value / divisor;
    if value % divisor != 0 {
        assert(q < value) by (nonlinear_arith)
            requires
                divisor > 0,
                q == value / divisor,
                value % divisor != 0,
        {
            if divisor == 1 {
                assert(value % 1 == 0);
            }
        };
        q + 1
    } else {
        q
    }
}

proof fn lemma_ceil_test(v: nat, m: nat)
    requires
        m >= 1,
    ensures
        (m >= spec_div_ceil(v, m)) <==> (m * m >= v),
{
    let q = v / m;
    let r = v % m;
    assert(v == q * m + r && 0 <= r < m) by (nonlinear_arith)
        requires
            m >= 1,
            q == v / m,
            r == v % m,
    ;
    if r == 0 {
        assert((m >= q) <==> (m * m >= q * m)) by (nonlinear_arith)
            requires
                m >= 1,
        ;
    } else {
        assert((m >= q + 1) <==> (m * m >= q * m + r)) by (nonlinear_arith)
            requires
                m >= 1,
                0 < r < m,
        ;
    }
}

proof fn lemma_square_mono(x: nat, y: nat)
    requires
        x <= y,
    ensures
        x * x <= y * y,
{
    assert(x * x <= y * y) by (nonlinear_arith)
        requires
            x <= y,
    ;
}

/// The smallest `x` with `x * x >= value`, found without computing `x * x`,
/// so it cannot overflow even for `usize::MAX`.
pub fn ceil_sqrt(value: usize) -> (r: usize)
    requires
        value > 0,
    ensures
        r >= 1,
        r * r >= value,
        (r - 1) * (r - 1) < value,
{
    let mut low: usize = 1;
    let mut high: usize = value;
    proof {
        lemma_square_mono(1, value as nat);
        assert(value * value >= value) by (nonlinear_arith)
            requires
                value >= 1,
        ;
    }
    while low < high
        invariant
            1 <= low <= high <= value,
            high * high >= value,
            (low - 1) * (low - 1) < value,
        decreases high - low,
    {
        let midpoint = low + (high - low) / 2;
        let d = div_ceil(value, midpoint);
        proof {
            lemma_ceil_test(value as nat, midpoint as nat);
        }
        if midpoint >= d {
            high = midpoint;
        } else {
            proof {
                assert((midpoint + 1 - 1) * (midpoint + 1 - 1) < value);
            }
            low = midpoint + 1;
        }
    }
    low
}


/// The share of the first child of a split, as the fraction
/// `first / whole`.
#[derive(Debug, Clone, Copy, PartialEq, Eq)]
pub struct Ratio {
    pub first: u64,
    pub whole: u64,
}

/// A share strictly between zero and one.
pub open spec fn ratio_ok(r: Ratio) -> bool {
    0 < r.first < r.whole
}

/// A neutral binary space partitioning layout. A split puts `second` to
/// the right of (`Right`) or below (`Down`) `first`, and gives `first` the
/// share `ratio`.
#[derive(Debug, PartialEq)]
pub enum Layout {
    /// A leaf holding a zero-based pane index.
    Pane(usize),
    /// A binary split.
    Split { direction: SplitDirection, ratio: Ratio, first: Box<Layout>, second: Box<Layout> },
}

/// The pane indices of a layout in visual, depth-first order.
pub open spec fn layout_panes(l: Layout) -> Seq<usize>
    decreases l,
{
    match l {
        Layout::Pane(i) => seq![i],
        Layout::Split { first, second, .. } => layout_panes(*first) + layout_panes(*second),
    }
}

/// Every split share is strictly between zero and one.
pub open spec fn ratios_ok(l: Layout) -> bool
    decreases l,
{
    match l {
        Layout::Pane(_) => true,
        Layout::Split { ratio, first, second, .. } => ratio_ok(ratio) && ratios_ok(*first)
            && ratios_ok(*second),
    }
}

/// A valid layout: proper shares and no pane index twice.
pub open spec fn layout_ok(l: Layout) -> bool {
    ratios_ok(l) && layout_panes(l).no_duplicates()
}

/// Why a layout was refused.
#[derive(Debug, Clone, Copy, PartialEq, Eq)]
pub enum LayoutError {
    /// A layout must contain at least one pane.
    Empty,
    /// A split share was not strictly between 0 and 1.
    InvalidRatio { ratio: Ratio },
    /// The same pane index appeared more than once.
    DuplicatePane { index: usize },
    /// A pane-chain share was outside its conservative range, 0.1 to 0.9.
    InvalidPaneShare { ratio: Ratio },
    /// No sequential pane index remains after `usize::MAX`.
    PaneIndexOverflow,
    /// The pane to split is not in the layout.
    PaneNotFound { index: usize },
}

/// The first problem `validate` meets, visiting splits before their
/// children and children left to right; `seen` holds the panes visited
/// before. `Ok` carries the panes seen afterwards.
pub open spec fn spec_validate(l: Layout, seen: Seq<usize>) -> Result<Seq<usize>, LayoutError>
    decreases l,
{
    match l {
        Layout::Pane(i) => if seen.contains(i) {
            Err(LayoutError::DuplicatePane { index: i })
        } else {
            Ok(seen.push(i))
        },
        Layout::Split { ratio, first, second, .. } => if !ratio_ok(ratio) {
            Err(LayoutError::InvalidRatio { ratio })
        } else {
            match spec_validate(*first, seen) {
                Err(e) => Err(e),
                Ok(s1) => spec_validate(*second, s1),
            }
        },
    }
}

proof fn lemma_validate(l: Layout, seen: Seq<usize>)
    requires
        seen.no_duplicates(),
    ensures
        spec_validate(l, seen) is Ok <==> (ratios_ok(l) && (seen + layout_panes(l)).no_duplicates()),
        spec_validate(l, seen) matches Ok(s) ==> s == seen + layout_panes(l),
    decreases l,
{
    match l {
        Layout::Pane(i) => {
            assert(seen + seq![i] == seen.push(i));
            if seen.contains(i) {
                let k = choose|k: int| 0 <= k < seen.len() && seen[k] == i;
                assert((seen + seq![i])[k] == (seen + seq![i])[seen.len() as int]);
            }
        },
        Layout::Split { ratio, first, second, .. } => {
            lemma_validate(*first, seen);
            let a = seen + layout_panes(*first);
            assert(seen + layout_panes(l) == a + layout_panes(*second));
            if (seen + layout_panes(l)).no_duplicates() {
                assert(a.no_duplicates()) by {
                    assert forall|x: int, y: int| 0 <= x < a.len() && 0 <= y < a.len() && x != y implies a[x] != a[y] by {
                        assert(a[x] == (seen + layout_panes(l))[x]);
                        assert(a[y] == (seen + layout_panes(l))[y]);
                    }
                }
            }
            if spec_validate(*first, seen) is Ok {
                lemma_validate(*second, a);
            }
        },
    }
}

impl Layout {
    /// A pane leaf.
    pub fn pane(index: usize) -> (r: Layout)
        ensures
            r == Layout::Pane(index),
    {
        Layout::Pane(index)
    }

    fn collect_panes(&self, panes: &mut Vec<usize>)
        ensures
            final(panes)@ == old(panes)@ + layout_panes(*self),
        decreases self,
    {
        match self {
            Layout::Pane(i) => {
                panes.push(*i);
            },
            Layout::Split { first, second, .. } => {
                let ghost before = panes@;
                first.collect_panes(panes);
                second.collect_panes(panes);
                assert(panes@ == before + (layout_panes(**first) + layout_panes(**second)));
            },
        }
    }

    /// The pane indices in visual, depth-first order.
    pub fn pane_indices(&self) -> (r: Vec<usize>)
        ensures
            r@ == layout_panes(*self),
    {
        let mut panes: Vec<usize> = Vec::new();
        self.collect_panes(&mut panes);
        assert(panes@ == Seq::<usize>::empty() + layout_panes(*self));
        panes
    }

    /// The number of pane leaves.
    pub fn pane_count(&self) -> (r: usize)
        ensures
            r as nat == layout_panes(*self).len(),
    {
        self.pane_indices().len()
    }

    /// Whether this layout holds `pane_index`.
    pub fn contains_pane(&self, pane_index: usize) -> (r: bool)
        ensures
            r == layout_panes(*self).contains(pane_index),
        decreases self,
    {
        match self {
            Layout::Pane(i) => {
                proof {
                    if *i == pane_index {
                        assert(seq![*i][0] == pane_index);
                    }
                }
                *i == pane_index
            },
            Layout::Split { first, second, .. } => {
                let a = first.contains_pane(pane_index);
                let b = second.contains_pane(pane_index);
                proof {
                    let s1 = layout_panes(**first);
                    let s2 = layout_panes(**second);
                    if a {
                        let k = choose|k: int| 0 <= k < s1.len() && s1[k] == pane_index;
                        assert((s1 + s2)[k] == pane_index);
                    }
                    if b {
                        let k = choose|k: int| 0 <= k < s2.len() && s2[k] == pane_index;
                        assert((s1 + s2)[s1.len() + k] == pane_index);
                    }
                    if (s1 + s2).contains(pane_index) {
                        let k = choose|k: int| 0 <= k < (s1 + s2).len() && (s1 + s2)[k] == pane_index;
                        if k < s1.len() {
                            assert(s1[k] == pane_index);
                        } else {
                            assert(s2[k - s1.len()] == pane_index);
                        }
                    }
                }
                a || b
            },
        }
    }

    fn visit(&self, seen: &mut Vec<usize>) -> (r: Result<(), LayoutError>)
        ensures
            match spec_validate(*self, old(seen)@) {
                Ok(s) => r is Ok && final(seen)@ == s,
                Err(e) => r == Err::<(), LayoutError>(e),
            },
        decreases self,
    {
        match self {
            Layout::Pane(i) => {
                let mut k: usize = 0;
                while k < seen.len()
                    invariant
                        k <= seen@.len(),
                        seen@ == old(seen)@,
                        *self == Layout::Pane(*i),
                        forall|j: int| 0 <= j < k ==> seen@[j] != *i,
                    decreases seen.len() - k,
                {
                    if seen[k] == *i {
                        assert(seen@[k as int] == *i);
                        assert(seen@.contains(*i));
                        return Err(LayoutError::DuplicatePane { index: *i });
                    }
                    k += 1;
                }
                seen.push(*i);
                Ok(())
            },
            Layout::Split { ratio, first, second, .. } => {
                if !(0 < ratio.first && ratio.first < ratio.whole) {
                    return Err(LayoutError::InvalidRatio { ratio: *ratio });
                }
                first.visit(seen)?;
                second.visit(seen)
            },
        }
    }

    /// Checks that every share is strictly between zero and one and that no
    /// pane index occurs twice; the first problem found is reported.
    pub fn validate(&self) -> (r: Result<(), LayoutError>)
        ensures
            r is Ok <==> layout_ok(*self),
            r is Ok <==> spec_validate(*self, seq![]) is Ok,
            r matches Err(e) ==> spec_validate(*self, seq![]) == Err::<Seq<usize>, LayoutError>(e),
    {
        let mut seen: Vec<usize> = Vec::new();
        proof {
            lemma_validate(*self, seq![]);
            assert(Seq::<usize>::empty() + layout_panes(*self) == layout_panes(*self));
        }
        self.visit(&mut seen)
    }

    /// A validated split: the share must be strictly between zero and one
    /// and the two sides must not share a pane index.
    pub fn split(direction: SplitDirection, ratio: Ratio, first: Layout, second: Layout) -> (r:
        Result<Layout, LayoutError>)
        ensures
            ({
                let l = Layout::Split {
                    direction,
                    ratio,
                    first: Box::new(first),
                    second: Box::new(second),
                };
                match r {
                    Ok(x) => x == l && layout_ok(l),
                    Err(e) => !layout_ok(l) && if !ratio_ok(ratio) {
                        e == LayoutError::InvalidRatio { ratio }
                    } else {
                        spec_validate(l, seq![]) == Err::<Seq<usize>, LayoutError>(e)
                    },
                }
            }),
    {
        if !(0 < ratio.first && ratio.first < ratio.whole) {
            return Err(LayoutError::InvalidRatio { ratio });
        }
        let l = Layout::Split { direction, ratio, first: Box::new(first), second: Box::new(second) };
        match l.validate() {
            Ok(()) => Ok(l),
            Err(e) => Err(e),
        }
    }
}


/// Layouts side by side in direction `d`, each with an equal share: the
/// list is halved recursively and each split gives its first half the
/// share `half / count`.
pub open spec fn spec_equal(ls: Seq<Layout>, d: SplitDirection) -> Layout
    decreases ls.len(),
{
    if ls.len() <= 1 {
        if ls.len() == 1 {
            ls[0]
        } else {
            Layout::Pane(0)
        }
    } else {
        let k = ls.len() / 2;
        Layout::Split {
            direction: d,
            ratio: Ratio { first: k as u64, whole: ls.len() as u64 },
            first: Box::new(spec_equal(ls.take(k as int), d)),
            second: Box::new(spec_equal(ls.skip(k as int), d)),
        }
    }
}

/// The panes of several layouts, one after another.
pub open spec fn flat_panes(ls: Seq<Layout>) -> Seq<usize>
    decreases ls.len(),
{
    if ls.len() == 0 {
        seq![]
    } else {
        flat_panes(ls.drop_last()) + layout_panes(ls.last())
    }
}

/// Pane leaves `a`, `a + 1`, ..., `b - 1`.
pub open spec fn pane_range(a: nat, b: nat) -> Seq<Layout> {
    Seq::new((b - a) as nat, |i: int| Layout::Pane((a + i) as usize))
}

/// The numbers `a`, `a + 1`, ..., `b - 1`.
pub open spec fn index_range(a: nat, b: nat) -> Seq<usize> {
    Seq::new((b - a) as nat, |i: int| (a + i) as usize)
}

proof fn lemma_flat_append(a: Seq<Layout>, b: Seq<Layout>)
    ensures
        flat_panes(a + b) == flat_panes(a) + flat_panes(b),
    decreases b.len(),
{
    if b.len() == 0 {
        assert(a + b == a);
    } else {
        lemma_flat_append(a, b.drop_last());
        assert((a + b).drop_last() == a + b.drop_last());
        assert((a + b).last() == b.last());
    }
}

proof fn lemma_equal_panes(ls: Seq<Layout>, d: SplitDirection)
    requires
        1 <= ls.len() <= usize::MAX,
    ensures
        layout_panes(spec_equal(ls, d)) == flat_panes(ls),
        (forall|i: int| 0 <= i < ls.len() ==> ratios_ok(#[trigger] ls[i])) ==> ratios_ok(
            spec_equal(ls, d),
        ),
    decreases ls.len(),
{
    if ls.len() == 1 {
        assert(ls.drop_last() == Seq::<Layout>::empty());
        assert(flat_panes(ls) == flat_panes(Seq::<Layout>::empty()) + layout_panes(ls[0]));
    } else {
        let k = ls.len() / 2;
        assert((k as u64) as nat == k);
        assert((ls.len() as u64) as nat == ls.len());
        lemma_equal_panes(ls.take(k as int), d);
        lemma_equal_panes(ls.skip(k as int), d);
        lemma_flat_append(ls.take(k as int), ls.skip(k as int));
        assert(ls.take(k as int) + ls.skip(k as int) == ls);
        if forall|i: int| 0 <= i < ls.len() ==> ratios_ok(#[trigger] ls[i]) {
            assert forall|i: int| 0 <= i < k implies ratios_ok(#[trigger] ls.take(k as int)[i]) by {
                assert(ls.take(k as int)[i] == ls[i]);
            }
            assert forall|i: int| 0 <= i < ls.len() - k implies ratios_ok(
                #[trigger] ls.skip(k as int)[i],
            ) by {
                assert(ls.skip(k as int)[i] == ls[k + i]);
            }
        }
    }
}

proof fn lemma_pane_range_flat(a: nat, b: nat)
    requires
        a <= b <= usize::MAX + 1,
    ensures
        flat_panes(pane_range(a, b)) == index_range(a, b),
        forall|i: int| 0 <= i < pane_range(a, b).len() ==> ratios_ok(#[trigger] pane_range(a, b)[i]),
    decreases b - a,
{
    if a < b {
        lemma_pane_range_flat(a, (b - 1) as nat);
        assert(pane_range(a, b).drop_last() == pane_range(a, (b - 1) as nat));
        assert(index_range(a, b) == index_range(a, (b - 1) as nat).push((b - 1) as usize));
    } else {
        assert(pane_range(a, b) == Seq::<Layout>::empty());
        assert(index_range(a, b) == Seq::<usize>::empty());
    }
}

/// Builds `spec_equal`, halving the list recursively.
fn equal_layouts(layouts: Vec<Layout>, direction: SplitDirection) -> (r: Layout)
    requires
        layouts@.len() >= 1,
    ensures
        r == spec_equal(layouts@, direction),
    decreases layouts@.len(),
{
    let mut layouts = layouts;
    let count = layouts.len();
    if count == 1 {
        let ghost l0 = layouts@[0];
        match layouts.pop() {
            Some(l) => {
                return l;
            },
            None => {
                return Layout::Pane(0);
            },
        }
    }
    let first_count = count / 2;
    let ghost all = layouts@;
    let second_layouts = layouts.split_off(first_count);
    assert(layouts@ == all.take(first_count as int));
    assert(second_layouts@ == all.skip(first_count as int));
    let first = equal_layouts(layouts, direction);
    let second = equal_layouts(second_layouts, direction);
    Layout::Split {
        direction,
        ratio: Ratio { first: first_count as u64, whole: count as u64 },
        first: Box::new(first),
        second: Box::new(second),
    }
}

/// Panes `a` to `b - 1` side by side with equal shares.
fn equal_panes(a: usize, b: usize, direction: SplitDirection) -> (r: Layout)
    requires
        a < b,
    ensures
        r == spec_equal(pane_range(a as nat, b as nat), direction),
{
    let mut ls: Vec<Layout> = Vec::new();
    let mut i: usize = a;
    while i < b
        invariant
            a <= i <= b,
            ls@ == pane_range(a as nat, i as nat),
        decreases b - i,
    {
        ls.push(Layout::Pane(i));
        assert(ls@ == pane_range(a as nat, (i + 1) as nat));
        i += 1;
    }
    equal_layouts(ls, direction)
}

/// The smallest `x` with `x * x >= n`.
pub open spec fn spec_ceil_sqrt(n: nat) -> nat {
    choose|r: nat| #[trigger] is_ceil_sqrt(n, r)
}

pub open spec fn is_ceil_sqrt(n: nat, r: nat) -> bool {
    r >= 1 && r * r >= n && (r - 1) * (r - 1) < n
}

proof fn lemma_ceil_sqrt_unique(n: nat, r: nat)
    requires
        r >= 1,
        r * r >= n,
        (r - 1) * (r - 1) < n,
    ensures
        spec_ceil_sqrt(n) == r,
{
    assert(is_ceil_sqrt(n, r));
    let c = spec_ceil_sqrt(n);
    assert(is_ceil_sqrt(n, c));
    if c < r {
        lemma_square_mono(c, (r - 1) as nat);
    }
    if r < c {
        lemma_square_mono(r, (c - 1) as nat);
    }
}

proof fn lemma_ceil_sqrt_exists(n: nat)
    requires
        n >= 1,
    ensures
        exists|r: nat| #[trigger] is_ceil_sqrt(n, r),
    decreases n,
{
    if n == 1 {
        assert(1nat * 1nat == 1nat);
        assert(0int * 0int == 0int);
        assert(is_ceil_sqrt(1, 1));
    } else {
        lemma_ceil_sqrt_exists((n - 1) as nat);
        let r = choose|r: nat| #[trigger] is_ceil_sqrt((n - 1) as nat, r);
        if r * r >= n {
            assert(is_ceil_sqrt(n, r));
        } else {
            assert((r + 1) * (r + 1) == r * r + 2 * r + 1) by (nonlinear_arith);
            assert(is_ceil_sqrt(n, r + 1));
        }
    }
}

/// The length of row `i` of the tiled layout of `n` panes in `rows` rows:
/// the first `n % rows` rows hold one pane more.
pub open spec fn row_len(n: nat, rows: nat, i: nat) -> nat {
    n / rows + if i < n % rows {
        1nat
    } else {
        0nat
    }
}

/// The first pane of row `i`.
pub open spec fn row_start(n: nat, rows: nat, i: nat) -> nat {
    i * (n / rows) + if i < n % rows {
        i
    } else {
        n % rows
    }
}

/// The rows of the tiled layout, each a `Right` run of equal panes.
pub open spec fn tiled_rows(n: nat, rows: nat) -> Seq<Layout> {
    Seq::new(
        rows,
        |i: int|
            spec_equal(
                pane_range(row_start(n, rows, i as nat), row_start(n, rows, i as nat) + row_len(n, rows, i as nat)),
                SplitDirection::Right,
            ),
    )
}

/// The default tiled layout of `n` panes: `ceil(sqrt(n))` columns, so
/// `ceil(n / columns)` rows whose lengths differ by at most one, stacked
/// with equal heights.
pub open spec fn spec_tiled(n: nat) -> Layout {
    let columns = spec_ceil_sqrt(n);
    let rows = spec_div_ceil(n, columns);
    spec_equal(tiled_rows(n, rows), SplitDirection::Down)
}


pub(crate) proof fn lemma_index_range_unique(a: nat, b: nat)
    requires
        a <= b <= usize::MAX + 1,
    ensures
        index_range(a, b).no_duplicates(),
{
    let r = index_range(a, b);
    assert forall|i: int, j: int| 0 <= i < r.len() && 0 <= j < r.len() && i != j implies r[i]
        != r[j] by {
        assert(r[i] == (a + i) as usize && r[j] == (a + j) as usize);
    }
}

proof fn lemma_range_panes(a: nat, b: nat, d: SplitDirection)
    requires
        a < b <= usize::MAX,
    ensures
        layout_panes(spec_equal(pane_range(a, b), d)) == index_range(a, b),
        ratios_ok(spec_equal(pane_range(a, b), d)),
{
    lemma_pane_range_flat(a, b);
    lemma_equal_panes(pane_range(a, b), d);
}

proof fn lemma_row_step(n: nat, rows: nat, i: nat)
    requires
        rows >= 1,
    ensures
        row_start(n, rows, i + 1) == row_start(n, rows, i) + row_len(n, rows, i),
{
    let q = n / rows;
    assert((i + 1) * q == i * q + q) by (nonlinear_arith);
}

proof fn lemma_row_end(n: nat, rows: nat)
    requires
        rows >= 1,
    ensures
        row_start(n, rows, rows) == n,
{
    let q = n / rows;
    let m = n % rows;
    assert(n == rows * q + m && m < rows) by (nonlinear_arith)
        requires
            rows >= 1,
            q == n / rows,
            m == n % rows,
    ;
    assert(rows * q == q * rows) by (nonlinear_arith);
}

proof fn lemma_tiled_rows(n: nat, rows: nat, k: nat)
    requires
        1 <= rows <= n,
        n <= usize::MAX,
        k <= rows,
    ensures
        flat_panes(tiled_rows(n, rows).take(k as int)) == index_range(0, row_start(n, rows, k)),
        forall|i: int| 0 <= i < k ==> ratios_ok(#[trigger] tiled_rows(n, rows)[i]),
        row_start(n, rows, k) <= n,
    decreases k,
{
    let t = tiled_rows(n, rows);
    assert(n / rows >= 1) by (nonlinear_arith)
        requires
            1 <= rows <= n,
    ;
    if k == 0 {
        assert(t.take(0) == Seq::<Layout>::empty());
        assert(index_range(0, 0) == Seq::<usize>::empty());
        assert(0nat * (n / rows) == 0);
        assert(row_start(n, rows, 0) == 0);
        lemma_row_monotone(n, rows, 0);
        lemma_row_end(n, rows);
    } else {
        let j = (k - 1) as nat;
        lemma_tiled_rows(n, rows, j);
        lemma_row_step(n, rows, j);
        lemma_row_end(n, rows);
        lemma_row_monotone(n, rows, k);
        let s = row_start(n, rows, j);
        let e = s + row_len(n, rows, j);
        assert(e == row_start(n, rows, k));
        assert(e <= n);
        assert(s < e);
        lemma_range_panes(s, e, SplitDirection::Right);
        assert(t[j as int] == spec_equal(pane_range(s, e), SplitDirection::Right));
        assert(t.take(k as int).drop_last() == t.take(j as int));
        assert(t.take(k as int).last() == t[j as int]);
        assert(flat_panes(t.take(k as int)) == flat_panes(t.take(j as int)) + layout_panes(t[j as int]));
        assert(index_range(0, e) == index_range(0, s) + index_range(s, e));
    }
}

proof fn lemma_row_monotone(n: nat, rows: nat, k: nat)
    requires
        1 <= rows,
        k <= rows,
    ensures
        row_start(n, rows, k) <= row_start(n, rows, rows),
    decreases rows - k,
{
    if k < rows {
        lemma_row_monotone(n, rows, k + 1);
        lemma_row_step(n, rows, k);
    }
}

/// The default tiled layout of `n` panes never has more rows than panes.
proof fn lemma_rows_bounded(n: nat, c: nat)
    requires
        n >= 1,
        c >= 1,
    ensures
        1 <= spec_div_ceil(n, c) <= n,
{
    assert(1 <= spec_div_ceil(n, c) <= n) by (nonlinear_arith)
        requires
            n >= 1,
            c >= 1,
    {
        assert(n / c <= n);
        if n % c != 0 {
            assert(n / c < n) by {
                if c == 1 {
                    assert(n % 1 == 0);
                }
            }
        } else {
            assert(n / c >= 1);
        }
    }
}

impl Layout {
    /// The default tiled layout: `ceil(sqrt(pane_count))` columns, panes
    /// assigned in index order to `ceil(pane_count / columns)` rows whose
    /// sizes differ by at most one, rows of equal height and panes of equal
    /// width within a row.
    pub fn default_tiled(pane_count: usize) -> (r: Result<Layout, LayoutError>)
        ensures
            pane_count == 0 ==> r == Err::<Layout, LayoutError>(LayoutError::Empty),
            pane_count > 0 ==> r == Ok::<Layout, LayoutError>(spec_tiled(pane_count as nat)),
    {
        if pane_count == 0 {
            return Err(LayoutError::Empty);
        }
        let columns = ceil_sqrt(pane_count);
        proof {
            lemma_ceil_sqrt_unique(pane_count as nat, columns as nat);
        }
        let row_count = div_ceil(pane_count, columns);
        proof {
            lemma_rows_bounded(pane_count as nat, columns as nat);
        }
        let short_row_len = pane_count / row_count;
        let longer_rows = pane_count % row_count;
        let ghost n = pane_count as nat;
        let ghost rc = row_count as nat;
        let mut next_pane: usize = 0;
        let mut rows: Vec<Layout> = Vec::new();
        let mut row_index: usize = 0;
        proof {
            lemma_row_end(n, rc);
        }
        while row_index < row_count
            invariant
                1 <= rc <= n,
                n == pane_count,
                rc == row_count,
                n <= usize::MAX,
                short_row_len == n / rc,
                longer_rows == n % rc,
                row_index <= row_count,
                next_pane == row_start(n, rc, row_index as nat),
                rows@ == tiled_rows(n, rc).take(row_index as int),
                row_start(n, rc, rc) == n,
            decreases row_count - row_index,
        {
            proof {
                lemma_row_step(n, rc, row_index as nat);
                lemma_row_monotone(n, rc, (row_index + 1) as nat);
                assert(n / rc >= 1) by (nonlinear_arith)
                    requires
                        1 <= rc <= n,
                ;
            }
            let row_len: usize = if row_index < longer_rows {
                short_row_len + 1
            } else {
                short_row_len
            };
            let row = equal_panes(next_pane, next_pane + row_len, SplitDirection::Right);
            assert(rows@.push(row) == tiled_rows(n, rc).take(row_index + 1));
            rows.push(row);
            next_pane = next_pane + row_len;
            row_index += 1;
        }
        assert(rows@ == tiled_rows(n, rc));
        Ok(equal_layouts(rows, SplitDirection::Down))
    }

    /// Same as [`Layout::default_tiled`].
    pub fn tiled(pane_count: usize) -> (r: Result<Layout, LayoutError>)
        ensures
            pane_count == 0 ==> r == Err::<Layout, LayoutError>(LayoutError::Empty),
            pane_count > 0 ==> r == Ok::<Layout, LayoutError>(spec_tiled(pane_count as nat)),
    {
        Layout::default_tiled(pane_count)
    }

    /// Every pane from left to right with an equal share.
    pub fn even_horizontal(pane_count: usize) -> (r: Result<Layout, LayoutError>)
        ensures
            pane_count == 0 ==> r == Err::<Layout, LayoutError>(LayoutError::Empty),
            pane_count > 0 ==> r == Ok::<Layout, LayoutError>(
                spec_equal(pane_range(0, pane_count as nat), SplitDirection::Right),
            ),
    {
        if pane_count == 0 {
            return Err(LayoutError::Empty);
        }
        Ok(equal_panes(0, pane_count, SplitDirection::Right))
    }

    /// Every pane from top to bottom with an equal share.
    pub fn even_vertical(pane_count: usize) -> (r: Result<Layout, LayoutError>)
        ensures
            pane_count == 0 ==> r == Err::<Layout, LayoutError>(LayoutError::Empty),
            pane_count > 0 ==> r == Ok::<Layout, LayoutError>(
                spec_equal(pane_range(0, pane_count as nat), SplitDirection::Down),
            ),
    {
        if pane_count == 0 {
            return Err(LayoutError::Empty);
        }
        Ok(equal_panes(0, pane_count, SplitDirection::Down))
    }

    /// Pane zero above the others with half the height; the others share
    /// the bottom half equally from left to right.
    pub fn main_horizontal(pane_count: usize) -> (r: Result<Layout, LayoutError>)
        ensures
            pane_count == 0 ==> r == Err::<Layout, LayoutError>(LayoutError::Empty),
            pane_count == 1 ==> r == Ok::<Layout, LayoutError>(Layout::Pane(0)),
            pane_count > 1 ==> r == Ok::<Layout, LayoutError>(
                Layout::Split {
                    direction: SplitDirection::Down,
                    ratio: Ratio { first: 1, whole: 2 },
                    first: Box::new(Layout::Pane(0)),
                    second: Box::new(spec_equal(pane_range(1, pane_count as nat), SplitDirection::Right)),
                },
            ),
    {
        if pane_count == 0 {
            return Err(LayoutError::Empty);
        }
        if pane_count == 1 {
            return Ok(Layout::Pane(0));
        }
        let remaining = equal_panes(1, pane_count, SplitDirection::Right);
        Ok(
            Layout::Split {
                direction: SplitDirection::Down,
                ratio: Ratio { first: 1, whole: 2 },
                first: Box::new(Layout::Pane(0)),
                second: Box::new(remaining),
            },
        )
    }

    /// Pane zero left of the others with half the width; the others share
    /// the right half equally from top to bottom.
    pub fn main_vertical(pane_count: usize) -> (r: Result<Layout, LayoutError>)
        ensures
            pane_count == 0 ==> r == Err::<Layout, LayoutError>(LayoutError::Empty),
            pane_count == 1 ==> r == Ok::<Layout, LayoutError>(Layout::Pane(0)),
            pane_count > 1 ==> r == Ok::<Layout, LayoutError>(
                Layout::Split {
                    direction: SplitDirection::Right,
                    ratio: Ratio { first: 1, whole: 2 },
                    first: Box::new(Layout::Pane(0)),
                    second: Box::new(spec_equal(pane_range(1, pane_count as nat), SplitDirection::Down)),
                },
            ),
    {
        if pane_count == 0 {
            return Err(LayoutError::Empty);
        }
        if pane_count == 1 {
            return Ok(Layout::Pane(0));
        }
        let remaining = equal_panes(1, pane_count, SplitDirection::Down);
        Ok(
            Layout::Split {
                direction: SplitDirection::Right,
                ratio: Ratio { first: 1, whole: 2 },
                first: Box::new(Layout::Pane(0)),
                second: Box::new(remaining),
            },
        )
    }
}

/// What a preset builds for `n` panes.
pub open spec fn spec_preset(p: LayoutPreset, n: nat) -> Layout {
    match p {
        LayoutPreset::Tiled => spec_tiled(n),
        LayoutPreset::EvenHorizontal => spec_equal(pane_range(0, n), SplitDirection::Right),
        LayoutPreset::EvenVertical => spec_equal(pane_range(0, n), SplitDirection::Down),
        LayoutPreset::MainHorizontal => if n == 1 {
            Layout::Pane(0)
        } else {
            Layout::Split {
                direction: SplitDirection::Down,
                ratio: Ratio { first: 1, whole: 2 },
                first: Box::new(Layout::Pane(0)),
                second: Box::new(spec_equal(pane_range(1, n), SplitDirection::Right)),
            }
        },
        LayoutPreset::MainVertical => if n == 1 {
            Layout::Pane(0)
        } else {
            Layout::Split {
                direction: SplitDirection::Right,
                ratio: Ratio { first: 1, whole: 2 },
                first: Box::new(Layout::Pane(0)),
                second: Box::new(spec_equal(pane_range(1, n), SplitDirection::Down)),
            }
        },
    }
}

impl LayoutPreset {
    /// Builds this preset for panes numbered from zero to `pane_count - 1`.
    pub fn build(self, pane_count: usize) -> (r: Result<Layout, LayoutError>)
        ensures
            pane_count == 0 ==> r == Err::<Layout, LayoutError>(LayoutError::Empty),
            pane_count > 0 ==> r == Ok::<Layout, LayoutError>(spec_preset(self, pane_count as nat)),
    {
        match self {
            LayoutPreset::Tiled => Layout::default_tiled(pane_count),
            LayoutPreset::EvenHorizontal => Layout::even_horizontal(pane_count),
            LayoutPreset::EvenVertical => Layout::even_vertical(pane_count),
            LayoutPreset::MainHorizontal => Layout::main_horizontal(pane_count),
            LayoutPreset::MainVertical => Layout::main_vertical(pane_count),
        }
    }
}

/// Every preset of `n` panes is a valid layout holding exactly the panes
/// `0..n`, in index order.
pub proof fn presets_hold_every_pane_once(p: LayoutPreset, n: nat)
    requires
        1 <= n <= usize::MAX,
    ensures
        layout_panes(spec_preset(p, n)) == index_range(0, n),
        layout_ok(spec_preset(p, n)),
{
    lemma_index_range_unique(0, n);
    match p {
        LayoutPreset::Tiled => {
            let c = spec_ceil_sqrt(n);
            lemma_ceil_sqrt_exists(n);
            assert(is_ceil_sqrt(n, c));
            lemma_rows_bounded(n, c);
            let rows = spec_div_ceil(n, c);
            lemma_tiled_rows(n, rows, rows);
            lemma_row_end(n, rows);
            let t = tiled_rows(n, rows);
            assert(t.take(rows as int) == t);
            assert(t.len() == rows);
            lemma_equal_panes(t, SplitDirection::Down);
            assert(flat_panes(t) == index_range(0, n));
            assert(spec_preset(p, n) == spec_equal(t, SplitDirection::Down));
            assert(forall|i: int| 0 <= i < t.len() ==> ratios_ok(#[trigger] t[i]));
            assert(ratios_ok(spec_equal(t, SplitDirection::Down)));
            assert(layout_panes(spec_preset(p, n)) == index_range(0, n));
            assert(layout_ok(spec_preset(p, n)));
        },
        LayoutPreset::EvenHorizontal => {
            lemma_range_panes(0, n, SplitDirection::Right);
            assert(layout_panes(spec_preset(p, n)) == index_range(0, n));
            assert(layout_ok(spec_preset(p, n)));
        },
        LayoutPreset::EvenVertical => {
            lemma_range_panes(0, n, SplitDirection::Down);
        },
        LayoutPreset::MainHorizontal => {
            if n > 1 {
                lemma_range_panes(1, n, SplitDirection::Right);
                let rest = spec_equal(pane_range(1, n), SplitDirection::Right);
                assert(layout_panes(spec_preset(p, n)) == layout_panes(Layout::Pane(0)) + layout_panes(rest));
                assert(layout_panes(Layout::Pane(0)) == seq![0usize]);
                assert(ratios_ok(Layout::Pane(0)));
                assert(ratios_ok(rest));
                assert(ratio_ok(Ratio { first: 1, whole: 2 }));
                assert(ratios_ok(spec_preset(p, n)));
                assert(index_range(0, n) == seq![0usize] + index_range(1, n));
            } else {
                assert(index_range(0, 1) == seq![0usize]);
            }
            assert(layout_panes(spec_preset(p, n)) == index_range(0, n));
            assert(layout_ok(spec_preset(p, n)));
        },
        LayoutPreset::MainVertical => {
            if n > 1 {
                lemma_range_panes(1, n, SplitDirection::Down);
                let rest = spec_equal(pane_range(1, n), SplitDirection::Down);
                assert(layout_panes(spec_preset(p, n)) == layout_panes(Layout::Pane(0)) + layout_panes(rest));
                assert(layout_panes(Layout::Pane(0)) == seq![0usize]);
                assert(ratios_ok(Layout::Pane(0)));
                assert(ratios_ok(rest));
                assert(ratio_ok(Ratio { first: 1, whole: 2 }));
                assert(ratios_ok(spec_preset(p, n)));
                assert(index_range(0, n) == seq![0usize] + index_range(1, n));
            } else {
                assert(index_range(0, 1) == seq![0usize]);
            }
        },
    }
}


/// An error in a checksum-prefixed tmux layout string.
#[derive(Debug, Clone, PartialEq, Eq)]
pub struct TmuxLayoutParseError {
    position: usize,
    message: String,
}

impl TmuxLayoutParseError {
    pub closed spec fn position_view(&self) -> nat {
        self.position as nat
    }

    pub closed spec fn message_view(&self) -> Seq<char> {
        self.message@
    }

    /// Byte position in the complete serialized string.
    pub fn position(&self) -> (r: usize)
        ensures
            r as nat == self.position_view(),
    {
        self.position
    }

    /// A concise description of the parse or validation failure.
    pub fn message(&self) -> (r: &str)
        ensures
            r@ == self.message_view(),
    {
        self.message.as_str()
    }

    /// The error as it is shown: its byte position and its message.
    pub fn to_string(&self) -> (r: String)
        ensures
            r@ == "invalid tmux layout at byte "@ + crate::zellij::decimal(self.position_view())
                + ": "@ + self.message_view(),
    {
        let mut m: Vec<char> = Vec::new();
        extend_str(&mut m, "invalid tmux layout at byte ");
        let d = crate::zellij::decimal_string_u64(self.position as u64);
        extend_str(&mut m, d.as_str());
        extend_str(&mut m, ": ");
        extend_str(&mut m, self.message.as_str());
        string_of(m.as_slice())
    }
}

pub open spec fn is_digit_byte(b: u8) -> bool {
    48 <= b <= 57
}

/// The end of the run of ASCII digits starting at `i`.
pub open spec fn digits_end(s: Seq<u8>, i: int) -> int
    decreases s.len() - i,
{
    if 0 <= i < s.len() && is_digit_byte(s[i]) {
        digits_end(s, i + 1)
    } else {
        i
    }
}

pub open spec fn byte_chars(s: Seq<u8>) -> Seq<char> {
    s.map_values(|b: u8| b as char)
}

/// A parse failure: a position in the payload and a message.
pub type Failure = (int, Seq<char>);

/// A decimal `usize` at `i`, named `label` in messages.
pub open spec fn spec_uint(s: Seq<u8>, i: int, label: Seq<char>) -> Result<(nat, int), Failure> {
    let e = digits_end(s, i);
    if e == i {
        Err((i, "expected decimal "@ + label))
    } else {
        match crate::text::parse_unsigned(byte_chars(s.subrange(i, e)), usize::MAX as nat) {
            Some(v) => Ok((v, e)),
            None => Err((i, label + " does not fit in usize"@)),
        }
    }
}

/// A decimal `usize` above zero.
pub open spec fn spec_positive(s: Seq<u8>, i: int, label: Seq<char>) -> Result<(nat, int), Failure> {
    match spec_uint(s, i, label) {
        Ok((v, e)) => if v == 0 {
            Err((i, label + " must be greater than zero"@))
        } else {
            Ok((v, e))
        },
        Err(f) => Err(f),
    }
}

/// The byte `b` at `i`.
pub open spec fn spec_expect(s: Seq<u8>, i: int, b: u8, msg: Seq<char>) -> Result<int, Failure> {
    if 0 <= i < s.len() && s[i] == b {
        Ok(i + 1)
    } else {
        Err((i, msg))
    }
}

/// A node's position `WIDTHxHEIGHT,X,Y`.
pub open spec fn spec_header(s: Seq<u8>, i: int) -> Result<(Rectangle, int), Failure> {
    match spec_positive(s, i, "width"@) {
        Err(f) => Err(f),
        Ok((w, c1)) => match spec_expect(s, c1, 120u8, "expected `x` after width"@) {
            Err(f) => Err(f),
            Ok(c2) => match spec_positive(s, c2, "height"@) {
                Err(f) => Err(f),
                Ok((h, c3)) => match spec_expect(s, c3, 44u8, "expected `,` after height"@) {
                    Err(f) => Err(f),
                    Ok(c4) => match spec_uint(s, c4, "x offset"@) {
                        Err(f) => Err(f),
                        Ok((x, c5)) => match spec_expect(s, c5, 44u8, "expected `,` after x offset"@) {
                            Err(f) => Err(f),
                            Ok(c6) => match spec_uint(s, c6, "y offset"@) {
                                Err(f) => Err(f),
                                Ok((y, c7)) => Ok(
                                    (
                                        Rectangle {
                                            width: w as usize,
                                            height: h as usize,
                                            x: x as usize,
                                            y: y as usize,
                                        },
                                        c7,
                                    ),
                                ),
                            },
                        },
                    },
                },
            },
        },
    }
}

/// Left to right, each rectangle combined with the next.
pub open spec fn fold_combine(rs: Seq<Rectangle>, d: SplitDirection) -> Result<Rectangle, CombineError>
    decreases rs.len(),
{
    if rs.len() <= 1 {
        if rs.len() == 1 {
            Ok(rs[0])
        } else {
            Err(CombineError::Misaligned)
        }
    } else {
        match fold_combine(rs.drop_last(), d) {
            Ok(c) => spec_combine(c, rs.last(), d),
            Err(e) => Err(e),
        }
    }
}

/// The length along the split axis that rectangles side by side cover,
/// dividers included.
pub open spec fn span(rs: Seq<Rectangle>, d: SplitDirection) -> nat
    decreases rs.len(),
{
    if rs.len() == 0 {
        0
    } else if rs.len() == 1 {
        axis_length(rs[0], d)
    } else {
        axis_length(rs[0], d) + 1 + span(rs.drop_first(), d)
    }
}

pub open spec fn rects(kids: Seq<(Layout, Rectangle)>) -> Seq<Rectangle> {
    kids.map_values(|k: (Layout, Rectangle)| k.1)
}

/// The children of a container as a right-leaning chain of splits: each
/// split gives its first child its length over its length plus the length
/// of the rest (the divider between them left out).
pub open spec fn fold_layout(kids: Seq<(Layout, Rectangle)>, d: SplitDirection) -> Layout
    decreases kids.len(),
{
    if kids.len() <= 1 {
        if kids.len() == 1 {
            kids[0].0
        } else {
            Layout::Pane(0)
        }
    } else {
        let first_len = axis_length(kids[0].1, d);
        Layout::Split {
            direction: d,
            ratio: Ratio {
                first: first_len as u64,
                whole: (first_len + span(rects(kids.drop_first()), d)) as u64,
            },
            first: Box::new(kids[0].0),
            second: Box::new(fold_layout(kids.drop_first(), d)),
        }
    }
}

pub open spec fn geometry_message(r: Rectangle) -> Seq<char> {
    "declared parent geometry "@ + crate::zellij::decimal(r.width as nat) + "x"@
        + crate::zellij::decimal(r.height as nat) + ","@ + crate::zellij::decimal(r.x as nat) + ","@
        + crate::zellij::decimal(r.y as nat) + " does not match its children"@
}

/// A container once its closing bracket is read at `c - 1`.
pub open spec fn spec_finish(
    c: int,
    node_start: int,
    parent: Rectangle,
    d: SplitDirection,
    kids: Seq<(Layout, Rectangle)>,
) -> Result<(Layout, Rectangle, int), Failure> {
    if kids.len() < 2 {
        Err((c, "a split container requires at least two children"@))
    } else {
        match fold_combine(rects(kids), d) {
            Err(e) => Err((node_start, combine_message(e, d))),
            Ok(comb) => if comb != parent {
                Err((node_start, geometry_message(parent)))
            } else {
                Ok((fold_layout(kids, d), parent, c))
            },
        }
    }
}

pub open spec fn closing_char(closing: u8) -> char {
    if closing == 125u8 {
        '}'
    } else {
        ']'
    }
}

/// A tmux layout node at `i`: a position then `,PANE`, `{...}` (children
/// left to right) or `[...]` (children top to bottom).
pub open spec fn spec_node(s: Seq<u8>, i: int) -> Result<(Layout, Rectangle, int), Failure>
    decreases 2 * (s.len() - i) + 1, 0int,
{
    match spec_header(s, i) {
        Err(f) => Err(f),
        Ok((rect, c)) => if c <= i || c > s.len() {
            Err((c, seq![]))
        } else if c < s.len() && s[c] == 44u8 {
            match spec_uint(s, c + 1, "pane index"@) {
                Ok((p, e)) => Ok((Layout::Pane(p as usize), rect, e)),
                Err(f) => Err(f),
            }
        } else if c < s.len() && (s[c] == 123u8 || s[c] == 91u8) {
            let d = if s[c] == 123u8 {
                SplitDirection::Right
            } else {
                SplitDirection::Down
            };
            let closing: u8 = if s[c] == 123u8 {
                125u8
            } else {
                93u8
            };
            if c + 1 < s.len() && s[c + 1] == closing {
                Err((c + 1, "a split container cannot be empty"@))
            } else {
                spec_children(s, c + 1, i, rect, d, closing, seq![])
            }
        } else if c < s.len() {
            Err((c, "expected pane index, `{` right-split children, or `[` down-split children"@))
        } else {
            Err((c, "unexpected end of input after node position"@))
        }
    }
}

/// The children of a container from `c` on, after those in `acc`.
pub open spec fn spec_children(
    s: Seq<u8>,
    c: int,
    node_start: int,
    parent: Rectangle,
    d: SplitDirection,
    closing: u8,
    acc: Seq<(Layout, Rectangle)>,
) -> Result<(Layout, Rectangle, int), Failure>
    decreases 2 * (s.len() - c) + 2, acc.len(),
{
    if c < 0 || c > s.len() {
        Err((c, seq![]))
    } else {
        match spec_node(s, c) {
            Err(f) => Err(f),
            Ok((l, r, e)) => if e <= c || e > s.len() {
                Err((e, seq![]))
            } else {
                let kids = acc.push((l, r));
                if e < s.len() && s[e] == closing {
                    spec_finish(e + 1, node_start, parent, d, kids)
                } else if e < s.len() && s[e] == 44u8 {
                    if e + 1 < s.len() && s[e + 1] == closing {
                        Err((e + 1, "trailing comma in split container"@))
                    } else {
                        spec_children(s, e + 1, node_start, parent, d, closing, kids)
                    }
                } else if e < s.len() {
                    Err((e, "expected `,` or `"@ + seq![closing_char(closing)] + "` after split child"@))
                } else {
                    Err((e, "unterminated split container; expected `"@ + seq![closing_char(closing)] + "`"@))
                }
            }
        }
    }
}


/// An exec failure: a payload position and a message.
pub open spec fn failure_is(r: (usize, String), f: Failure) -> bool {
    r.0 as int == f.0 && r.1@ == f.1
}

fn fail(position: usize, message: &str) -> (r: (usize, String))
    ensures
        r.0 == position && r.1@ == message@,
{
    (position, message.to_owned())
}

fn digits_to(s: &[u8], i: usize) -> (e: usize)
    requires
        i <= s@.len(),
    ensures
        e as int == digits_end(s@, i as int),
        i <= e <= s@.len(),
        forall|k: int| i <= k < e ==> is_digit_byte(#[trigger] s@[k]),
{
    let mut e = i;
    while e < s.len() && 48u8 <= s[e] && s[e] <= 57u8
        invariant
            i <= e <= s@.len(),
            digits_end(s@, i as int) == digits_end(s@, e as int),
            forall|k: int| i <= k < e ==> is_digit_byte(#[trigger] s@[k]),
        decreases s.len() - e,
    {
        e += 1;
    }
    e
}

fn scan_uint(s: &[u8], i: usize, label: &str) -> (r: Result<(usize, usize), (usize, String)>)
    requires
        i <= s@.len(),
    ensures
        match spec_uint(s@, i as int, label@) {
            Ok((v, e)) => r matches Ok(p) && p.0 as nat == v && p.1 as int == e && e <= s@.len()
                && e > i,
            Err(f) => r matches Err(x) && failure_is(x, f),
        },
{
    let e = digits_to(s, i);
    if e == i {
        let mut m: Vec<char> = Vec::new();
        extend_str(&mut m, "expected decimal ");
        extend_str(&mut m, label);
        return Err((i, string_of(m.as_slice())));
    }
    let mut cs: Vec<char> = Vec::new();
    let mut k: usize = i;
    while k < e
        invariant
            i <= k <= e <= s@.len(),
            cs@ == byte_chars(s@.subrange(i as int, k as int)),
        decreases e - k,
    {
        cs.push(s[k] as char);
        assert(byte_chars(s@.subrange(i as int, k + 1)) == byte_chars(s@.subrange(i as int, k as int)).push(
            s@[k as int] as char,
        ));
        k += 1;
    }
    match parse_decimal_usize(cs.as_slice()) {
        Some(v) => Ok((v, e)),
        None => {
            let mut m: Vec<char> = Vec::new();
            extend_str(&mut m, label);
            extend_str(&mut m, " does not fit in usize");
            Err((i, string_of(m.as_slice())))
        },
    }
}

fn parse_decimal_usize(v: &[char]) -> (r: Option<usize>)
    ensures
        match r {
            Some(n) => crate::text::parse_unsigned(v@, usize::MAX as nat) == Some(n as nat),
            None => crate::text::parse_unsigned(v@, usize::MAX as nat) is None,
        },
{
    match crate::text::parse_decimal(v, usize::MAX as u64) {
        Some(n) => Some(n as usize),
        None => None,
    }
}

fn scan_positive(s: &[u8], i: usize, label: &str) -> (r: Result<(usize, usize), (usize, String)>)
    requires
        i <= s@.len(),
    ensures
        match spec_positive(s@, i as int, label@) {
            Ok((v, e)) => r matches Ok(p) && p.0 as nat == v && p.1 as int == e && e <= s@.len()
                && e > i,
            Err(f) => r matches Err(x) && failure_is(x, f),
        },
{
    let (v, e) = scan_uint(s, i, label)?;
    if v == 0 {
        let mut m: Vec<char> = Vec::new();
        extend_str(&mut m, label);
        extend_str(&mut m, " must be greater than zero");
        return Err((i, string_of(m.as_slice())));
    }
    Ok((v, e))
}

fn expect_byte(s: &[u8], i: usize, b: u8, msg: &str) -> (r: Result<usize, (usize, String)>)
    requires
        i <= s@.len(),
    ensures
        match spec_expect(s@, i as int, b, msg@) {
            Ok(e) => r matches Ok(c) && c as int == e && e <= s@.len(),
            Err(f) => r matches Err(x) && failure_is(x, f),
        },
{
    if i < s.len() && s[i] == b {
        Ok(i + 1)
    } else {
        Err(fail(i, msg))
    }
}

fn header(s: &[u8], i: usize) -> (r: Result<(Rectangle, usize), (usize, String)>)
    requires
        i <= s@.len(),
    ensures
        match spec_header(s@, i as int) {
            Ok((rect, c)) => r matches Ok(p) && p.0 == rect && p.1 as int == c && i < c <= s@.len(),
            Err(f) => r matches Err(x) && failure_is(x, f),
        },
{
    let (w, c1) = match scan_positive(s, i, "width") {
        Ok(p) => p,
        Err(x) => {
            return Err(x);
        },
    };
    let c2 = match expect_byte(s, c1, 120u8, "expected `x` after width") {
        Ok(c) => c,
        Err(x) => {
            return Err(x);
        },
    };
    let (h, c3) = match scan_positive(s, c2, "height") {
        Ok(p) => p,
        Err(x) => {
            return Err(x);
        },
    };
    let c4 = match expect_byte(s, c3, 44u8, "expected `,` after height") {
        Ok(c) => c,
        Err(x) => {
            return Err(x);
        },
    };
    let (x, c5) = match scan_uint(s, c4, "x offset") {
        Ok(p) => p,
        Err(x) => {
            return Err(x);
        },
    };
    let c6 = match expect_byte(s, c5, 44u8, "expected `,` after x offset") {
        Ok(c) => c,
        Err(x) => {
            return Err(x);
        },
    };
    let (y, c7) = match scan_uint(s, c6, "y offset") {
        Ok(p) => p,
        Err(x) => {
            return Err(x);
        },
    };
    Ok((Rectangle { width: w, height: h, x, y }, c7))
}


proof fn lemma_span_last(rs: Seq<Rectangle>, d: SplitDirection)
    requires
        rs.len() >= 2,
    ensures
        span(rs, d) == span(rs.drop_last(), d) + 1 + axis_length(rs.last(), d),
    decreases rs.len(),
{
    let t = rs.drop_first();
    let u = rs.drop_last();
    assert(span(rs, d) == axis_length(rs[0], d) + 1 + span(t, d));
    if rs.len() > 2 {
        lemma_span_last(t, d);
        assert(t.drop_last() == u.drop_first());
        assert(u[0] == rs[0]);
        assert(t.last() == rs.last());
        assert(span(u, d) == axis_length(u[0], d) + 1 + span(u.drop_first(), d));
    } else {
        assert(t.len() == 1 && u.len() == 1);
        assert(span(t, d) == axis_length(t[0], d));
        assert(span(u, d) == axis_length(u[0], d));
        assert(t[0] == rs.last());
        assert(u[0] == rs[0]);
    }
}

proof fn lemma_fold_combine_span(rs: Seq<Rectangle>, d: SplitDirection)
    requires
        rs.len() >= 1,
        fold_combine(rs, d) is Ok,
    ensures
        fold_combine(rs, d) matches Ok(c) && axis_length(c, d) == span(rs, d),
    decreases rs.len(),
{
    if rs.len() >= 2 {
        lemma_fold_combine_span(rs.drop_last(), d);
        lemma_span_last(rs, d);
    }
}

proof fn lemma_span_suffix(rs: Seq<Rectangle>, d: SplitDirection, k: int)
    requires
        0 <= k < rs.len(),
    ensures
        span(rs.skip(k), d) <= span(rs, d),
    decreases k,
{
    if k > 0 {
        lemma_span_suffix(rs, d, k - 1);
        assert(rs.skip(k - 1).drop_first() == rs.skip(k));
        assert(rs.skip(k - 1).len() >= 2);
        assert(span(rs.skip(k - 1), d) == axis_length(rs.skip(k - 1)[0], d) + 1 + span(
            rs.skip(k - 1).drop_first(),
            d,
        ));
    } else {
        assert(rs.skip(0) == rs);
    }
}

fn combine_all(kids: &Vec<(Layout, Rectangle)>, d: SplitDirection) -> (r: Result<Rectangle, CombineError>)
    requires
        kids@.len() >= 2,
    ensures
        r == fold_combine(rects(kids@), d),
{
    let ghost rs = rects(kids@);
    let mut comb = kids[0].1;
    let mut i: usize = 1;
    assert(rs.take(1).drop_last().len() == 0);
    assert(fold_combine(rs.take(1), d) == Ok::<Rectangle, CombineError>(rs[0]));
    while i < kids.len()
        invariant
            1 <= i <= kids@.len(),
            rs == rects(kids@),
            fold_combine(rs.take(i as int), d) == Ok::<Rectangle, CombineError>(comb),
        decreases kids.len() - i,
    {
        assert(rs.take(i + 1).drop_last() == rs.take(i as int));
        assert(rs.take(i + 1).last() == kids@[i as int].1);
        match Rectangle::combine(comb, kids[i].1, d) {
            Ok(c) => {
                comb = c;
            },
            Err(e) => {
                proof {
                    lemma_fold_prefix_err(rs, d, (i + 1) as int);
                }
                return Err(e);
            },
        }
        i += 1;
    }
    assert(rs.take(kids@.len() as int) == rs);
    Ok(comb)
}

proof fn lemma_fold_prefix_err(rs: Seq<Rectangle>, d: SplitDirection, k: int)
    requires
        2 <= k <= rs.len(),
        fold_combine(rs.take(k), d) is Err,
    ensures
        fold_combine(rs, d) == fold_combine(rs.take(k), d),
    decreases rs.len() - k,
{
    if k < rs.len() {
        assert(rs.take(k + 1).drop_last() == rs.take(k));
        lemma_fold_prefix_err(rs, d, k + 1);
    } else {
        assert(rs.take(k) == rs);
    }
}

fn fold_children(kids: Vec<(Layout, Rectangle)>, d: SplitDirection, Ghost(total): Ghost<nat>) -> (r: Layout)
    requires
        kids@.len() >= 1,
        span(rects(kids@), d) == total,
        total <= usize::MAX,
    ensures
        r == fold_layout(kids@, d),
{
    let ghost all = kids@;
    let ghost rs = rects(all);
    let mut kids = kids;
    let n = kids.len();
    let (last_layout, last_rect) = match kids.pop() {
        Some(k) => k,
        None => {
            return Layout::Pane(0);
        },
    };
    let mut acc = last_layout;
    let mut acc_span: usize = last_rect.axis_length(d);
    proof {
        assert(all.skip(n - 1) == seq![(last_layout, last_rect)]);
        assert(rects(all.skip(n - 1)) == seq![last_rect]);
        lemma_span_suffix(rs, d, n - 1);
        assert(rects(all).skip(n - 1) == rects(all.skip(n - 1)));
    }
    while kids.len() > 0
        invariant
            all.len() == n,
            rs == rects(all),
            span(rs, d) == total,
            total <= usize::MAX,
            kids@ == all.take(kids@.len() as int),
            kids@.len() < n,
            acc == fold_layout(all.skip(kids@.len() as int), d),
            acc_span as nat == span(rects(all.skip(kids@.len() as int)), d),
        decreases kids@.len(),
    {
        let k = kids.len();
        let ghost before = kids@;
        let (l, r) = match kids.pop() {
            Some(x) => x,
            None => {
                return acc;
            },
        };
        proof {
            assert(all.take(k as int).last() == all[k - 1]);
            let suf = all.skip(k - 1);
            assert(suf.drop_first() == all.skip(k as int));
            assert(suf[0] == all[k - 1]);
            assert(rects(suf).drop_first() == rects(all.skip(k as int)));
            assert(rects(suf)[0] == r);
            assert(rects(all).skip(k - 1) == rects(suf));
            lemma_span_suffix(rs, d, k - 1);
            assert(span(rects(suf), d) == axis_length(r, d) + 1 + span(rects(all.skip(k as int)), d));
            assert(kids@ == all.take(k - 1));
        }
        let len = r.axis_length(d);
        let ratio = Ratio { first: len as u64, whole: (len + acc_span) as u64 };
        acc = Layout::Split { direction: d, ratio, first: Box::new(l), second: Box::new(acc) };
        acc_span = len + 1 + acc_span;
    }
    assert(all.skip(0) == all);
    acc
}

fn finish(
    c: usize,
    node_start: usize,
    parent: Rectangle,
    d: SplitDirection,
    kids: Vec<(Layout, Rectangle)>,
) -> (r: Result<(Layout, Rectangle, usize), (usize, String)>)
    ensures
        match spec_finish(c as int, node_start as int, parent, d, kids@) {
            Ok((l, rect, e)) => r matches Ok(p) && p.0 == l && p.1 == rect && p.2 as int == e,
            Err(f) => r matches Err(x) && failure_is(x, f),
        },
{
    if kids.len() < 2 {
        return Err(fail(c, "a split container requires at least two children"));
    }
    match combine_all(&kids, d) {
        Err(e) => Err(fail(node_start, e.message(d))),
        Ok(comb) => {
            if comb != parent {
                let mut m: Vec<char> = Vec::new();
                extend_str(&mut m, "declared parent geometry ");
                let w = crate::zellij::decimal_string_u64(parent.width as u64);
                extend_str(&mut m, w.as_str());
                extend_str(&mut m, "x");
                let h = crate::zellij::decimal_string_u64(parent.height as u64);
                extend_str(&mut m, h.as_str());
                extend_str(&mut m, ",");
                let x = crate::zellij::decimal_string_u64(parent.x as u64);
                extend_str(&mut m, x.as_str());
                extend_str(&mut m, ",");
                let y = crate::zellij::decimal_string_u64(parent.y as u64);
                extend_str(&mut m, y.as_str());
                extend_str(&mut m, " does not match its children");
                return Err((node_start, string_of(m.as_slice())));
            }
            proof {
                lemma_fold_combine_span(rects(kids@), d);
            }
            let layout = fold_children(kids, d, Ghost(axis_length(comb, d)));
            Ok((layout, parent, c))
        },
    }
}

fn parse_node(s: &[u8], i: usize) -> (r: Result<(Layout, Rectangle, usize), (usize, String)>)
    requires
        i <= s@.len(),
    ensures
        match spec_node(s@, i as int) {
            Ok((l, rect, e)) => r matches Ok(p) && p.0 == l && p.1 == rect && p.2 as int == e && i
                < e <= s@.len(),
            Err(f) => r matches Err(x) && failure_is(x, f),
        },
    decreases 2 * (s@.len() - i) + 1, 0int,
{
    let (rect, c) = match header(s, i) {
        Ok(p) => p,
        Err(x) => {
            return Err(x);
        },
    };
    if c < s.len() && s[c] == 44u8 {
        match scan_uint(s, c + 1, "pane index") {
            Ok((p, e)) => Ok((Layout::Pane(p), rect, e)),
            Err(x) => Err(x),
        }
    } else if c < s.len() && (s[c] == 123u8 || s[c] == 91u8) {
        let d = if s[c] == 123u8 {
            SplitDirection::Right
        } else {
            SplitDirection::Down
        };
        let closing: u8 = if s[c] == 123u8 {
            125u8
        } else {
            93u8
        };
        if c + 1 < s.len() && s[c + 1] == closing {
            return Err(fail(c + 1, "a split container cannot be empty"));
        }
        parse_children(s, c + 1, i, rect, d, closing, Vec::new())
    } else if c < s.len() {
        Err(fail(c, "expected pane index, `{` right-split children, or `[` down-split children"))
    } else {
        Err(fail(c, "unexpected end of input after node position"))
    }
}

fn closing_text(closing: u8) -> (r: char)
    ensures
        r == closing_char(closing),
{
    if closing == 125u8 {
        '}'
    } else {
        ']'
    }
}

fn parse_children(
    s: &[u8],
    c: usize,
    node_start: usize,
    parent: Rectangle,
    d: SplitDirection,
    closing: u8,
    acc: Vec<(Layout, Rectangle)>,
) -> (r: Result<(Layout, Rectangle, usize), (usize, String)>)
    requires
        c <= s@.len(),
    ensures
        match spec_children(s@, c as int, node_start as int, parent, d, closing, acc@) {
            Ok((l, rect, e)) => r matches Ok(p) && p.0 == l && p.1 == rect && p.2 as int == e && c
                < e <= s@.len(),
            Err(f) => r matches Err(x) && failure_is(x, f),
        },
    decreases 2 * (s@.len() - c) + 2, acc@.len(),
{
    let (l, rect, e) = match parse_node(s, c) {
        Ok(p) => p,
        Err(x) => {
            return Err(x);
        },
    };
    let mut kids = acc;
    kids.push((l, rect));
    if e < s.len() && s[e] == closing {
        match finish(e + 1, node_start, parent, d, kids) {
            Ok(p) => Ok(p),
            Err(x) => Err(x),
        }
    } else if e < s.len() && s[e] == 44u8 {
        if e + 1 < s.len() && s[e + 1] == closing {
            return Err(fail(e + 1, "trailing comma in split container"));
        }
        parse_children(s, e + 1, node_start, parent, d, closing, kids)
    } else if e < s.len() {
        let mut m: Vec<char> = Vec::new();
        extend_str(&mut m, "expected `,` or `");
        let ghost m0 = m@;
        m.push(closing_text(closing));
        assert(m@ == m0 + seq![closing_char(closing)]);
        extend_str(&mut m, "` after split child");
        Err((e, string_of(m.as_slice())))
    } else {
        let mut m: Vec<char> = Vec::new();
        extend_str(&mut m, "unterminated split container; expected `");
        let ghost m0 = m@;
        m.push(closing_text(closing));
        assert(m@ == m0 + seq![closing_char(closing)]);
        extend_str(&mut m, "`");
        Err((e, string_of(m.as_slice())))
    }
}


pub open spec fn is_hex_byte(b: u8) -> bool {
    (48 <= b <= 57) || (97 <= b <= 102) || (65 <= b <= 70)
}

pub open spec fn hex_value(b: u8) -> nat {
    if 48 <= b <= 57 {
        (b - 48) as nat
    } else if 97 <= b <= 102 {
        (b - 87) as nat
    } else {
        (b - 55) as nat
    }
}

/// A lowercase hexadecimal digit.
pub open spec fn hex_digit(n: nat) -> char {
    if n < 10 {
        ((n + 48) as u8) as char
    } else {
        ((n + 87) as u8) as char
    }
}

/// `format!("{:04x}", n)` for a 16-bit number.
pub open spec fn hex4(n: nat) -> Seq<char> {
    seq![
        hex_digit((n / 4096) % 16),
        hex_digit((n / 256) % 16),
        hex_digit((n / 16) % 16),
        hex_digit(n % 16),
    ]
}

pub open spec fn checksum_prefix_message() -> Seq<char> {
    "expected four hexadecimal checksum digits followed by a comma"@
}

/// The message of a layout refused by validation.
pub open spec fn layout_error_message(e: LayoutError) -> Seq<char> {
    match e {
        LayoutError::Empty => "a layout requires at least one pane"@,
        LayoutError::InvalidRatio { .. } => "split ratio must be strictly between 0 and 1"@,
        LayoutError::DuplicatePane { index } => "pane index "@ + crate::zellij::decimal(index as nat)
            + " occurs more than once"@,
        LayoutError::InvalidPaneShare { ratio } => "existing-pane share must be between 0.1 and 0.9, got "@
            + crate::zellij::decimal(ratio.first as nat) + seq!['/'] + crate::zellij::decimal(
            ratio.whole as nat,
        ),
        LayoutError::PaneIndexOverflow => "cannot allocate another sequential pane index"@,
        LayoutError::PaneNotFound { index } => "pane index "@ + crate::zellij::decimal(index as nat)
            + " was not found in the layout"@,
    }
}

/// `parse_tmux_layout` of some bytes: four hexadecimal checksum digits, a
/// comma, and a payload with that checksum holding exactly one valid node.
/// Errors carry a byte position in the whole string.
pub open spec fn spec_parse_tmux(b: Seq<u8>) -> Result<Layout, (int, Seq<char>)> {
    if b.len() < 5 || b[4] != 44u8 || !(is_hex_byte(b[0]) && is_hex_byte(b[1]) && is_hex_byte(b[2])
        && is_hex_byte(b[3])) {
        Err((0, checksum_prefix_message()))
    } else {
        let declared = declared_checksum(b);
        let calculated = spec_checksum(b.skip(5));
        if declared != calculated {
            Err(
                (
                    0,
                    "checksum mismatch: declared "@ + hex4(declared) + ", calculated "@ + hex4(
                        calculated,
                    ),
                ),
            )
        } else {
            spec_payload(b.skip(5))
        }
    }
}

/// The checksum that the first four hexadecimal digits declare.
pub open spec fn declared_checksum(b: Seq<u8>) -> nat {
    hex_value(b[0]) * 4096 + hex_value(b[1]) * 256 + hex_value(b[2]) * 16 + hex_value(b[3])
}

pub open spec fn offset_position(p: int) -> int {
    if p + 5 > usize::MAX {
        usize::MAX as int
    } else {
        p + 5
    }
}

/// The payload after the checksum: exactly one node, whose layout must
/// validate. Positions are in the whole string.
pub open spec fn spec_payload(payload: Seq<u8>) -> Result<Layout, (int, Seq<char>)> {
    match spec_node(payload, 0) {
        Err((p, m)) => Err((offset_position(p), m)),
        Ok((l, _, e)) => if e != payload.len() {
            Err((offset_position(e), "unexpected trailing input"@))
        } else {
            match spec_validate(l, seq![]) {
                Err(err) => Err((5, layout_error_message(err))),
                Ok(_) => Ok(l),
            }
        },
    }
}

fn is_hex(b: u8) -> (r: bool)
    ensures
        r == is_hex_byte(b),
{
    (48u8 <= b && b <= 57u8) || (97u8 <= b && b <= 102u8) || (65u8 <= b && b <= 70u8)
}

fn hex_of(b: u8) -> (r: u32)
    requires
        is_hex_byte(b),
    ensures
        r as nat == hex_value(b),
        r < 16,
{
    if 48u8 <= b && b <= 57u8 {
        (b - 48) as u32
    } else if 97u8 <= b && b <= 102u8 {
        (b - 87) as u32
    } else {
        (b - 55) as u32
    }
}

fn hex_char(n: u32) -> (r: char)
    requires
        n < 16,
    ensures
        r == hex_digit(n as nat),
{
    if n < 10 {
        ((n + 48) as u8) as char
    } else {
        ((n + 87) as u8) as char
    }
}

fn push_hex4(out: &mut Vec<char>, n: u32)
    ensures
        final(out)@ == old(out)@ + hex4(n as nat),
{
    let ghost before = out@;
    out.push(hex_char((n / 4096) % 16));
    out.push(hex_char((n / 256) % 16));
    out.push(hex_char((n / 16) % 16));
    out.push(hex_char(n % 16));
    assert(out@ == before + hex4(n as nat));
}

fn checksum_from(bytes: &[u8], start: usize) -> (r: u32)
    requires
        start <= bytes@.len(),
    ensures
        r as nat == spec_checksum(bytes@.skip(start as int)),
        r < 65536,
{
    let ghost p = bytes@.skip(start as int);
    let mut sum: u32 = 0;
    let mut i: usize = start;
    assert(p.take(0) == Seq::<u8>::empty());
    while i < bytes.len()
        invariant
            start <= i <= bytes@.len(),
            p == bytes@.skip(start as int),
            sum as nat == spec_checksum(p.take(i - start)),
            sum < 65536,
        decreases bytes.len() - i,
    {
        proof {
            let k = i - start;
            assert(p.take(k + 1).drop_last() == p.take(k));
            assert(p.take(k + 1).last() == bytes@[i as int]);
        }
        let rotated: u32 = sum / 2 + (sum % 2) * 32768;
        sum = (rotated + bytes[i] as u32) % 65536;
        i += 1;
    }
    assert(p.take(p.len() as int) == p);
    sum
}

fn tmux_error(position: usize, message: String) -> (r: TmuxLayoutParseError)
    ensures
        r.position_view() == position,
        r.message_view() == message@,
{
    TmuxLayoutParseError { position, message }
}

fn layout_error_text(err: LayoutError) -> (r: String)
    ensures
        r@ == layout_error_message(err),
{
    match err {
        LayoutError::Empty => "a layout requires at least one pane".to_owned(),
        LayoutError::InvalidRatio { .. } => "split ratio must be strictly between 0 and 1".to_owned(),
        LayoutError::DuplicatePane { index } => {
            let mut m: Vec<char> = Vec::new();
            extend_str(&mut m, "pane index ");
            let d = crate::zellij::decimal_string_u64(index as u64);
            extend_str(&mut m, d.as_str());
            extend_str(&mut m, " occurs more than once");
            string_of(m.as_slice())
        },
        LayoutError::InvalidPaneShare { ratio } => {
            let mut m: Vec<char> = Vec::new();
            extend_str(&mut m, "existing-pane share must be between 0.1 and 0.9, got ");
            let a = crate::zellij::decimal_string_u64(ratio.first);
            extend_str(&mut m, a.as_str());
            m.push('/');
            let b = crate::zellij::decimal_string_u64(ratio.whole);
            extend_str(&mut m, b.as_str());
            string_of(m.as_slice())
        },
        LayoutError::PaneIndexOverflow => "cannot allocate another sequential pane index".to_owned(),
        LayoutError::PaneNotFound { index } => {
            let mut m: Vec<char> = Vec::new();
            extend_str(&mut m, "pane index ");
            let d = crate::zellij::decimal_string_u64(index as u64);
            extend_str(&mut m, d.as_str());
            extend_str(&mut m, " was not found in the layout");
            string_of(m.as_slice())
        },
    }
}

impl LayoutError {
    /// The message shown to the user.
    pub fn message(&self) -> (r: String)
        ensures
            r@ == layout_error_message(*self),
    {
        layout_error_text(*self)
    }
}

fn parse_payload(payload: &[u8]) -> (r: Result<Layout, TmuxLayoutParseError>)
    ensures
        match spec_payload(payload@) {
            Ok(l) => r == Ok::<Layout, TmuxLayoutParseError>(l),
            Err((p, m)) => r matches Err(e) && e.position_view() == p && e.message_view() == m,
        },
{
    match parse_node(payload, 0) {
        Err((p, m)) => Err(tmux_error(p.saturating_add(5), m)),
        Ok((l, _, e)) => {
            if e != payload.len() {
                return Err(tmux_error(e.saturating_add(5), "unexpected trailing input".to_owned()));
            }
            match l.validate() {
                Ok(()) => Ok(l),
                Err(err) => Err(tmux_error(5, layout_error_text(err))),
            }
        },
    }
}

fn declared_of(bytes: &[u8]) -> (r: u32)
    requires
        bytes@.len() >= 5,
        is_hex_byte(bytes@[0]) && is_hex_byte(bytes@[1]) && is_hex_byte(bytes@[2]) && is_hex_byte(
            bytes@[3],
        ),
    ensures
        r as nat == declared_checksum(bytes@),
{
    let a = hex_of(bytes[0]);
    let b = hex_of(bytes[1]);
    let c = hex_of(bytes[2]);
    let d = hex_of(bytes[3]);
    a * 4096 + b * 256 + c * 16 + d
}

fn copy_from(bytes: &[u8], start: usize) -> (r: Vec<u8>)
    requires
        start <= bytes@.len(),
    ensures
        r@ == bytes@.skip(start as int),
{
    let mut payload: Vec<u8> = Vec::new();
    let mut i: usize = start;
    while i < bytes.len()
        invariant
            start <= i <= bytes@.len(),
            payload@ == bytes@.subrange(start as int, i as int),
        decreases bytes.len() - i,
    {
        payload.push(bytes[i]);
        assert(bytes@.subrange(start as int, i + 1) == bytes@.subrange(start as int, i as int).push(
            bytes@[i as int],
        ));
        i += 1;
    }
    assert(payload@ == bytes@.skip(start as int));
    payload
}

/// Parses and validates a checksum-prefixed tmux serialized layout:
/// `checksum,WxH,X,Y,PANE`, `checksum,WxH,X,Y{child,...}` (children left to
/// right) or `checksum,WxH,X,Y[child,...]` (children top to bottom).
/// Containers with more than two children become right-leaning chains of
/// splits. Dimensions, offsets, dividers, pane uniqueness, complete input
/// and the checksum are all checked.
pub fn parse_tmux_layout(serialized: &str) -> (r: Result<Layout, TmuxLayoutParseError>)
    ensures
        match spec_parse_tmux(serialized.spec_bytes()) {
            Ok(l) => r == Ok::<Layout, TmuxLayoutParseError>(l),
            Err((p, m)) => r matches Err(e) && e.position_view() == p && e.message_view() == m,
        },
{
    let bytes = serialized.as_bytes();
    if bytes.len() < 5 || bytes[4] != 44u8 || !(is_hex(bytes[0]) && is_hex(bytes[1]) && is_hex(
        bytes[2],
    ) && is_hex(bytes[3])) {
        return Err(
            tmux_error(0, "expected four hexadecimal checksum digits followed by a comma".to_owned()),
        );
    }
    let declared = declared_of(bytes);
    let calculated = checksum_from(bytes, 5);
    if declared != calculated {
        let mut m: Vec<char> = Vec::new();
        extend_str(&mut m, "checksum mismatch: declared ");
        push_hex4(&mut m, declared);
        extend_str(&mut m, ", calculated ");
        push_hex4(&mut m, calculated);
        return Err(tmux_error(0, string_of(m.as_slice())));
    }
    let payload = copy_from(bytes, 5);
    parse_payload(payload.as_slice())
}

impl Layout {
    /// Parses a checksum-prefixed tmux serialized layout.
    pub fn parse_tmux(serialized: &str) -> (r: Result<Layout, TmuxLayoutParseError>)
        ensures
            match spec_parse_tmux(serialized.spec_bytes()) {
                Ok(l) => r == Ok::<Layout, TmuxLayoutParseError>(l),
                Err((p, m)) => r matches Err(e) && e.position_view() == p && e.message_view() == m,
            },
    {
        parse_tmux_layout(serialized)
    }
}


impl std::str::FromStr for Layout {
    type Err = TmuxLayoutParseError;

    fn from_str(serialized: &str) -> Result<Layout, TmuxLayoutParseError> {
        parse_tmux_layout(serialized)
    }
}

/// Every layout the tmux parser accepts is valid: its shares are strictly
/// between zero and one and no pane index occurs twice.
pub proof fn parsed_layouts_are_valid(b: Seq<u8>)
    ensures
        spec_parse_tmux(b) matches Ok(l) ==> layout_ok(l),
{
    if spec_parse_tmux(b) is Ok {
        let payload = b.skip(5);
        let (l, r, e) = spec_node(payload, 0)->Ok_0;
        lemma_validate(l, seq![]);
        assert(Seq::<usize>::empty() + layout_panes(l) == layout_panes(l));
    }
}

} // verus!

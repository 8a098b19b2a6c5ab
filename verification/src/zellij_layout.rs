//! KDL building blocks of the zellij layout documents: escaped strings and the
//! divider orientation of a split.

use vstd::prelude::*;
use crate::layout::{layout_panes, Layout, Ratio, SplitDirection};
use crate::project_spec::{panes_view, spec_effective, spec_layout_tree, PaneSpec, PaneView, ProjectSpec, ProjectView, WindowView};
use crate::text::{chars_of, extend_chars, extend_str, string_of};
use crate::zellij::decimal;

verus! {

/// The upper-case hexadecimal digit for `d < 16`.
pub open spec fn hex_digit(d: u32) -> char {
    if d < 10 {
        (d + 48) as char
    } else {
        (d + 55) as char
    }
}

/// Upper-case hexadecimal without leading zeros, for `n < 256`.
pub open spec fn hex_min(n: u32) -> Seq<char> {
    if n < 16 {
        seq![hex_digit(n)]
    } else {
        seq![hex_digit(n / 16), hex_digit(n % 16)]
    }
}

/// Control characters that have no short escape.
pub open spec fn is_other_control(c: char) -> bool {
    (c as u32) <= 0x1f || (c as u32) == 0x7f
}

/// The KDL escaped-string form of one character.
pub open spec fn kdl_escape_char(c: char) -> Seq<char> {
    if c == '"' {
        seq!['\\', '"']
    } else if c == '\\' {
        seq!['\\', '\\']
    } else if c == '\u{8}' {
        seq!['\\', 'b']
    } else if c == '\t' {
        seq!['\\', 't']
    } else if c == '\n' {
        seq!['\\', 'n']
    } else if c == '\u{c}' {
        seq!['\\', 'f']
    } else if c == '\r' {
        seq!['\\', 'r']
    } else if is_other_control(c) {
        seq!['\\', 'u', '{'] + hex_min(c as u32) + seq!['}']
    } else {
        seq![c]
    }
}

pub open spec fn kdl_escape_chars(s: Seq<char>) -> Seq<char>
    decreases s.len(),
{
    if s.len() == 0 {
        seq![]
    } else {
        kdl_escape_chars(s.drop_last()) + kdl_escape_char(s.last())
    }
}

/// A KDL escaped string: the escaped characters between double quotes.
pub open spec fn spec_kdl_string(s: Seq<char>) -> Seq<char> {
    seq!['"'] + kdl_escape_chars(s) + seq!['"']
}

/// The KDL word for the divider that separates the two sides of a split.
pub open spec fn spec_split_direction(d: SplitDirection) -> Seq<char> {
    match d {
        SplitDirection::Right => "vertical"@,
        SplitDirection::Down => "horizontal"@,
    }
}

pub fn hex_char(d: u32) -> (c: char)
    requires
        d < 16,
    ensures
        c == hex_digit(d),
{
    if d < 10 {
        ((d + 48) as u8) as char
    } else {
        ((d + 55) as u8) as char
    }
}

/// Appends the KDL escaped form of `c`.
fn push_kdl_escaped(out: &mut Vec<char>, c: char)
    ensures
        final(out)@ == old(out)@ + kdl_escape_char(c),
{
    let u = c as u32;
    if c == '"' {
        out.push('\\');
        out.push('"');
    } else if c == '\\' {
        out.push('\\');
        out.push('\\');
    } else if c == '\u{8}' {
        out.push('\\');
        out.push('b');
    } else if c == '\t' {
        out.push('\\');
        out.push('t');
    } else if c == '\n' {
        out.push('\\');
        out.push('n');
    } else if c == '\u{c}' {
        out.push('\\');
        out.push('f');
    } else if c == '\r' {
        out.push('\\');
        out.push('r');
    } else if u <= 0x1f || u == 0x7f {
        out.push('\\');
        out.push('u');
        out.push('{');
        if u < 16 {
            out.push(hex_char(u));
        } else {
            out.push(hex_char(u / 16));
            out.push(hex_char(u % 16));
        }
        out.push('}');
    } else {
        out.push(c);
    }
}

/// Quotes a value as a KDL escaped string; unicode escapes are spelled
/// `\u{X}`.
pub fn kdl_string(value: &str) -> (r: String)
    ensures
        r@ == spec_kdl_string(value@),
{
    let cs = chars_of(value);
    let mut out: Vec<char> = Vec::new();
    out.push('"');
    let mut i: usize = 0;
    while i < cs.len()
        invariant
            i <= cs@.len(),
            out@ == seq!['"'] + kdl_escape_chars(cs@.subrange(0, i as int)),
        decreases cs.len() - i,
    {
        push_kdl_escaped(&mut out, cs[i]);
        proof {
            let t = cs@.subrange(0, i + 1);
            assert(t.drop_last() == cs@.subrange(0, i as int));
        }
        i += 1;
    }
    assert(cs@.subrange(0, cs@.len() as int) == cs@);
    out.push('"');
    string_of(out.as_slice())
}

/// zellij names a split by its divider, the opposite word from the direction
/// of the split: side-by-side panes are separated by a vertical divider.
pub fn split_direction(direction: SplitDirection) -> (r: &'static str)
    ensures
        r@ == spec_split_direction(direction),
{
    match direction {
        SplitDirection::Right => {
            let r = "vertical";
            proof {
                reveal_strlit("vertical");
            }
            r
        },
        SplitDirection::Down => {
            let r = "horizontal";
            proof {
                reveal_strlit("horizontal");
            }
            r
        },
    }
}

} // verus!

verus! {

/// Shares of a container are counted in units of 10^-18 of it.
pub const SHARE_SCALE: u64 = 1_000_000_000_000_000_000;

/// The part of a container of share `s` that the first side of a split
/// with ratio `r` takes, rounded down; the second side takes the rest.
pub open spec fn first_share(s: nat, r: Ratio) -> nat {
    if r.whole == 0 || r.first >= r.whole {
        s
    } else {
        s * (r.first as nat) / (r.whole as nat)
    }
}

/// How many children the container rooted at `l` has once the run of
/// splits in direction `d` is flattened.
pub open spec fn group_len(l: Layout, d: SplitDirection) -> nat
    decreases l,
{
    match l {
        Layout::Split { direction, first, second, .. } => if direction == d {
            group_len(*first, d) + group_len(*second, d)
        } else {
            1
        },
        Layout::Pane(_) => 1,
    }
}

/// Where the sizing of a container's children stands: how many children
/// there are, which one is next, the share of those before it, and the
/// boundary (in percent) the last sized one ended at.
pub struct Sizing {
    pub count: nat,
    pub index: nat,
    pub cumulative: nat,
    pub assigned: int,
}

/// `cum` (in share units) as a percentage, rounded half up.
pub open spec fn round_percent(cum: nat) -> int {
    ((200 * cum + (SHARE_SCALE as nat)) / (2 * (SHARE_SCALE as nat))) as int
}

pub open spec fn clamp(x: int, lo: int, hi: int) -> int {
    if x < lo {
        lo
    } else if x > hi {
        hi
    } else {
        x
    }
}

/// The size of the next child, whose share is `s`, and the state after
/// it. zellij sizes panes in whole percent, so the running total of the
/// shares sets each boundary: rounding never accumulates, every child
/// still to come keeps at least one percent, and the last child is left
/// unsized so zellij gives it the exact remainder.
pub open spec fn size_step(st: Sizing, s: nat) -> (Option<nat>, Sizing) {
    let cum = st.cumulative + s;
    if st.index + 1 == st.count {
        (None, Sizing { count: st.count, index: st.index + 1, cumulative: cum, assigned: st.assigned })
    } else {
        let floor = st.assigned + 1;
        let room = 100 - (st.count - st.index - 1);
        let ceiling = if room > floor {
            room
        } else {
            floor
        };
        let b = clamp(round_percent(cum), floor, ceiling);
        (
            Some((b - st.assigned) as nat),
            Sizing { count: st.count, index: st.index + 1, cumulative: cum, assigned: b },
        )
    }
}

pub open spec fn sizes_from(shares: Seq<nat>, st: Sizing) -> Seq<Option<nat>>
    decreases shares.len(),
{
    if shares.len() == 0 {
        seq![]
    } else {
        seq![size_step(st, shares[0]).0] + sizes_from(shares.drop_first(), size_step(st, shares[0]).1)
    }
}

/// The sizes of a container's children from their shares.
pub open spec fn spec_percentages(shares: Seq<nat>) -> Seq<Option<nat>> {
    sizes_from(shares, Sizing { count: shares.len(), index: 0, cumulative: 0, assigned: 0 })
}

pub open spec fn percent_text(n: nat) -> Seq<char> {
    decimal(n) + "%"@
}

/// The sizing state as machine integers.
pub struct SizingState {
    pub count: u128,
    pub index: u128,
    pub cumulative: u128,
    pub assigned: i128,
}

impl View for SizingState {
    type V = Sizing;

    open spec fn view(&self) -> Sizing {
        Sizing {
            count: self.count as nat,
            index: self.index as nat,
            cumulative: self.cumulative as nat,
            assigned: self.assigned as int,
        }
    }
}

pub open spec fn sizing_ok(st: Sizing) -> bool {
    &&& st.count < 0x1_0000_0000_0000_0000
    &&& st.index <= st.count
    &&& 0 <= st.assigned <= st.index + 100
}

fn size_step_exec(st: &mut SizingState, s: u64) -> (sz: Option<u64>)
    requires
        sizing_ok(old(st)@),
        old(st)@.index < old(st)@.count,
        old(st)@.cumulative + s < 0x1_0000_0000_0000_0000_0000_0000,
    ensures
        (match sz {
            Some(n) => Some(n as nat),
            None => None,
        }, final(st)@) == size_step(old(st)@, s as nat),
        sizing_ok(final(st)@),
{
    let cum = st.cumulative + s as u128;
    if st.index + 1 == st.count {
        st.index = st.index + 1;
        st.cumulative = cum;
        return None;
    }
    let floor: i128 = st.assigned + 1;
    let room: i128 = 100 - ((st.count - st.index - 1) as i128);
    let ceiling: i128 = if room > floor {
        room
    } else {
        floor
    };
    let rounded: u128 = (200 * cum + SHARE_SCALE as u128) / (2 * SHARE_SCALE as u128);
    let r: i128 = rounded as i128;
    let b: i128 = if r < floor {
        floor
    } else if r > ceiling {
        ceiling
    } else {
        r
    };
    let size = (b - st.assigned) as u64;
    st.index = st.index + 1;
    st.cumulative = cum;
    st.assigned = b;
    Some(size)
}

/// The sizes zellij is given for the children of a container, from their
/// shares (in units of [`SHARE_SCALE`]): a percentage for each but the
/// last.
pub fn group_percentages(shares: &Vec<u64>) -> (r: Vec<Option<String>>)
    requires
        shares@.len() < 0x1_0000_0000,
    ensures
        r@.map_values(|o: Option<String>| match o {
            Some(s) => Some(s@),
            None => None,
        }) == spec_percentages(shares@.map_values(|s: u64| s as nat)).map_values(
            |o: Option<nat>| match o {
                Some(n) => Some(percent_text(n)),
                None => None,
            },
        ),
{
    let ghost all = shares@.map_values(|s: u64| s as nat);
    let ghost f = |o: Option<nat>| match o {
        Some(n) => Some(percent_text(n)),
        None => None,
    };
    let ghost g = |o: Option<String>| match o {
        Some(s) => Some(s@),
        None => None,
    };
    let mut st = SizingState { count: shares.len() as u128, index: 0, cumulative: 0, assigned: 0 };
    let mut out: Vec<Option<String>> = Vec::new();
    let ghost mut done: Seq<Option<nat>> = seq![];
    let mut i: usize = 0;
    assert(all.skip(0) == all);
    assert(spec_percentages(all) == done + sizes_from(all.skip(0), st@));
    while i < shares.len()
        invariant
            i <= shares@.len(),
            shares@.len() < 0x1_0000_0000,
            all == shares@.map_values(|s: u64| s as nat),
            f == (|o: Option<nat>| match o {
                Some(n) => Some(percent_text(n)),
                None => None,
            }),
            g == (|o: Option<String>| match o {
                Some(s) => Some(s@),
                None => None,
            }),
            st@.count == shares@.len(),
            st@.index == i,
            st@.cumulative <= i * 0x1_0000_0000_0000_0000,
            sizing_ok(st@),
            spec_percentages(all) == done + sizes_from(all.skip(i as int), st@),
            out@.map_values(g) == done.map_values(f),
        decreases shares.len() - i,
    {
        let ghost before = st@;
        let ghost rest = all.skip(i as int);
        assert(rest[0] == shares@[i as int] as nat);
        assert(rest.drop_first() == all.skip(i + 1));
        let sz = size_step_exec(&mut st, shares[i]);
        let item: Option<String> = match sz {
            Some(n) => {
                let mut t: Vec<char> = Vec::new();
                crate::zellij::push_decimal(&mut t, n);
                t.push('%');
                proof {
                    reveal_strlit("%");
                }
                assert(t@ =~= percent_text(n as nat));
                Some(string_of(t.as_slice()))
            },
            None => None,
        };
        let ghost o = size_step(before, rest[0]).0;
        let ghost out_before = out@;
        out.push(item);
        proof {
            assert(sizes_from(rest, before) == seq![o] + sizes_from(rest.drop_first(), st@));
            assert(done + sizes_from(rest, before) =~= done.push(o) + sizes_from(all.skip(i + 1), st@));
            assert(out@.map_values(g) =~= out_before.map_values(g).push(g(item)));
            assert(done.push(o).map_values(f) =~= done.map_values(f).push(f(o)));
            done = done.push(o);
        }
        i += 1;
    }
    assert(all.skip(i as int) =~= Seq::<nat>::empty());
    assert(done + sizes_from(all.skip(i as int), st@) =~= done);
    out
}

} // verus!

verus! {

pub open spec fn size_attr(size: Option<nat>) -> Seq<char> {
    match size {
        Some(n) => " size="@ + spec_kdl_string(percent_text(n)),
        None => seq![],
    }
}

/// A leaf pane: its title, its size and whether it opens focused.
pub open spec fn pane_line(i: usize, panes: Seq<PaneView>, focused: nat, ind: Seq<char>, size: Option<nat>) -> Seq<char> {
    ind + "pane"@ + (if i < panes.len() && panes[i as int].title is Some {
        " name="@ + spec_kdl_string(panes[i as int].title.unwrap())
    } else {
        seq![]
    }) + size_attr(size) + (if i == focused {
        " focus=true"@
    } else {
        seq![]
    }) + "\n"@
}

pub open spec fn more(ind: Seq<char>) -> Seq<char> {
    ind + "    "@
}

/// One child of a container: a leaf pane, or a nested container holding
/// the splits that run the other way.
#[verifier::opaque]
pub open spec fn node_text(
    l: Layout,
    panes: Seq<PaneView>,
    focused: nat,
    ind: Seq<char>,
    size: Option<nat>,
) -> Seq<char>
    decreases l, 2nat,
{
    match l {
        Layout::Pane(i) => pane_line(i, panes, focused, ind, size),
        Layout::Split { direction, .. } => ind + "pane split_direction="@ + spec_kdl_string(
            spec_split_direction(direction),
        ) + size_attr(size) + " {\n"@ + children_text(l, panes, focused, more(ind)) + ind + "}\n"@,
    }
}

/// Everything the container rooted at `l` holds, its run of same-direction
/// splits flattened into one list of children: zellij merges a container
/// into a parent that splits the same way and keeps the merged children's
/// sizes, so they are written merged, each sized against the container.
#[verifier::opaque]
pub open spec fn children_text(l: Layout, panes: Seq<PaneView>, focused: nat, ind: Seq<char>) -> Seq<char>
    decreases l, 1nat,
{
    match l {
        Layout::Pane(i) => pane_line(i, panes, focused, ind, None),
        Layout::Split { direction, .. } => walk(
            l,
            direction,
            SHARE_SCALE as nat,
            Sizing { count: group_len(l, direction), index: 0, cumulative: 0, assigned: 0 },
            panes,
            focused,
            ind,
            true,
        ).0,
    }
}

/// The children of a container in order, each sized from its share `s`
/// and the state of the container's sizing.
#[verifier::opaque]
pub open spec fn walk(
    l: Layout,
    d: SplitDirection,
    s: nat,
    st: Sizing,
    panes: Seq<PaneView>,
    focused: nat,
    ind: Seq<char>,
    top: bool,
) -> (Seq<char>, Sizing)
    decreases l, (if top {
        0nat
    } else {
        3nat
    }),
{
    match l {
        Layout::Split { direction, ratio, first, second } => if direction == d {
            let s1 = first_share(s, ratio);
            let a = walk(*first, d, s1, st, panes, focused, ind, false);
            let b = walk(*second, d, (s - s1) as nat, a.1, panes, focused, ind, false);
            (a.0 + b.0, b.1)
        } else if top {
            (seq![], st)
        } else {
            (node_text(l, panes, focused, ind, size_step(st, s).0), size_step(st, s).1)
        },
        Layout::Pane(_) => if top {
            (seq![], st)
        } else {
            (node_text(l, panes, focused, ind, size_step(st, s).0), size_step(st, s).1)
        },
    }
}

fn same_direction(a: SplitDirection, b: SplitDirection) -> (r: bool)
    ensures
        r == (a == b),
{
    match (a, b) {
        (SplitDirection::Right, SplitDirection::Right) => true,
        (SplitDirection::Down, SplitDirection::Down) => true,
        _ => false,
    }
}

pub proof fn lemma_group_len(l: Layout, d: SplitDirection)
    ensures
        1 <= group_len(l, d) <= layout_panes(l).len(),
    decreases l,
{
    match l {
        Layout::Split { direction, first, second, .. } => {
            lemma_group_len(*first, d);
            lemma_group_len(*second, d);
        },
        Layout::Pane(_) => {},
    }
}

fn group_len_exec(l: &Layout, d: SplitDirection) -> (r: usize)
    requires
        group_len(*l, d) <= usize::MAX,
    ensures
        r == group_len(*l, d),
    decreases l,
{
    match l {
        Layout::Split { direction, first, second, .. } => {
            if same_direction(*direction, d) {
                proof {
                    lemma_group_len(**first, d);
                    lemma_group_len(**second, d);
                }
                group_len_exec(first, d) + group_len_exec(second, d)
            } else {
                1
            }
        },
        Layout::Pane(_) => 1,
    }
}

fn push_size_attr(out: &mut Vec<char>, size: Option<u64>)
    ensures
        final(out)@ == old(out)@ + size_attr(match size {
            Some(n) => Some(n as nat),
            None => None,
        }),
{
    match size {
        Some(n) => {
            let ghost start = out@;
            extend_str(out, " size=");
            let mut t: Vec<char> = Vec::new();
            crate::zellij::push_decimal(&mut t, n);
            t.push('%');
            proof {
                reveal_strlit("%");
            }
            assert(t@ =~= percent_text(n as nat));
            let q = kdl_string(string_of(t.as_slice()).as_str());
            extend_str(out, q.as_str());
        },
        None => {
            assert(old(out)@ + size_attr(None) =~= old(out)@);
        },
    }
}

fn push_pane_line(
    out: &mut Vec<char>,
    i: usize,
    panes: &Vec<PaneSpec>,
    focused: usize,
    ind: &Vec<char>,
    size: Option<u64>,
)
    ensures
        final(out)@ == old(out)@ + pane_line(i, panes_view(panes@), focused as nat, ind@, match size {
            Some(n) => Some(n as nat),
            None => None,
        }),
{
    let ghost start = out@;
    extend_chars(out, ind.as_slice());
    extend_str(out, "pane");
    let ghost a = out@;
    if i < panes.len() {
        match &panes[i].title {
            Some(t) => {
                extend_str(out, " name=");
                extend_str(out, kdl_string(t.as_str()).as_str());
            },
            None => {},
        }
    }
    let ghost b = out@;
    push_size_attr(out, size);
    let ghost c = out@;
    if i == focused {
        extend_str(out, " focus=true");
    }
    extend_str(out, "\n");
    assert(out@ =~= start + pane_line(i, panes_view(panes@), focused as nat, ind@, match size {
        Some(n) => Some(n as nat),
        None => None,
    }));
}

fn more_indent(ind: &Vec<char>) -> (r: Vec<char>)
    ensures
        r@ == more(ind@),
{
    let mut r: Vec<char> = Vec::new();
    extend_chars(&mut r, ind.as_slice());
    extend_str(&mut r, "    ");
    r
}

fn push_node(
    out: &mut Vec<char>,
    l: &Layout,
    panes: &Vec<PaneSpec>,
    focused: usize,
    ind: &Vec<char>,
    size: Option<u64>,
)
    requires
        layout_panes(*l).len() <= usize::MAX,
    ensures
        final(out)@ == old(out)@ + node_text(*l, panes_view(panes@), focused as nat, ind@, match size {
            Some(n) => Some(n as nat),
            None => None,
        }),
    decreases l, 2nat,
{
    proof {
        reveal(node_text);
        reveal(children_text);
        reveal(walk);
    }
    match l {
        Layout::Pane(i) => push_pane_line(out, *i, panes, focused, ind, size),
        Layout::Split { direction, .. } => {
            let ghost start = out@;
            extend_chars(out, ind.as_slice());
            extend_str(out, "pane split_direction=");
            extend_str(out, kdl_string(split_direction(*direction)).as_str());
            push_size_attr(out, size);
            extend_str(out, " {\n");
            let ghost a = out@;
            let inner = more_indent(ind);
            push_children(out, l, panes, focused, &inner);
            let ghost b = out@;
            extend_chars(out, ind.as_slice());
            extend_str(out, "}\n");
            assert(out@ =~= start + node_text(*l, panes_view(panes@), focused as nat, ind@, match size {
                Some(n) => Some(n as nat),
                None => None,
            }));
        },
    }
}

fn push_children(out: &mut Vec<char>, l: &Layout, panes: &Vec<PaneSpec>, focused: usize, ind: &Vec<char>)
    requires
        layout_panes(*l).len() <= usize::MAX,
    ensures
        final(out)@ == old(out)@ + children_text(*l, panes_view(panes@), focused as nat, ind@),
    decreases l, 1nat,
{
    proof {
        reveal(node_text);
        reveal(children_text);
        reveal(walk);
    }
    match l {
        Layout::Pane(i) => push_pane_line(out, *i, panes, focused, ind, None),
        Layout::Split { direction, .. } => {
            proof {
                lemma_group_len(*l, *direction);
            }
            let count = group_len_exec(l, *direction);
            let mut st = SizingState { count: count as u128, index: 0, cumulative: 0, assigned: 0 };
            push_walk(out, l, *direction, SHARE_SCALE, &mut st, panes, focused, ind, true);
        },
    }
}

fn push_walk(
    out: &mut Vec<char>,
    l: &Layout,
    d: SplitDirection,
    s: u64,
    st: &mut SizingState,
    panes: &Vec<PaneSpec>,
    focused: usize,
    ind: &Vec<char>,
    top: bool,
)
    requires
        layout_panes(*l).len() <= usize::MAX,
        sizing_ok(old(st)@),
        old(st)@.cumulative + s <= SHARE_SCALE,
        old(st)@.index + group_len(*l, d) <= old(st)@.count,
    ensures
        final(out)@ == old(out)@ + walk(*l, d, s as nat, old(st)@, panes_view(panes@), focused as nat, ind@, top).0,
        final(st)@ == walk(*l, d, s as nat, old(st)@, panes_view(panes@), focused as nat, ind@, top).1,
        sizing_ok(final(st)@),
        final(st)@.count == old(st)@.count,
        (!top || (*l matches Layout::Split { direction, .. } && direction == d)) ==> (final(st)@.index
            == old(st)@.index + group_len(*l, d) && final(st)@.cumulative == old(st)@.cumulative + s),
    decreases l, (if top {
        0nat
    } else {
        3nat
    }),
{
    proof {
        reveal(node_text);
        reveal(children_text);
        reveal(walk);
    }
    match l {
        Layout::Split { direction, ratio, first, second } => {
            if same_direction(*direction, d) {
                let s1: u64 = if ratio.whole == 0 || ratio.first >= ratio.whole {
                    s
                } else {
                    assert((s as int) * (ratio.first as int) <= 1_000_000_000_000_000_000int
                        * 0xffff_ffff_ffff_ffffint) by (nonlinear_arith)
                        requires
                            s <= 1_000_000_000_000_000_000int,
                            ratio.first <= 0xffff_ffff_ffff_ffffint,
                            s >= 0,
                            ratio.first >= 0,
                    ;
                    let prod: u128 = s as u128 * ratio.first as u128;
                    let whole: u128 = ratio.whole as u128;
                    let q: u128 = prod / whole;
                    assert(q <= s) by (nonlinear_arith)
                        requires
                            q == prod / whole,
                            prod == (s as int) * (ratio.first as int),
                            whole == ratio.whole as int,
                            ratio.first < ratio.whole,
                    ;
                    q as u64
                };
                assert(s1 == first_share(s as nat, *ratio));
                proof {
                    lemma_layout_panes_split(*l);
                }
                let ghost before = out@;
                push_walk(out, first, d, s1, st, panes, focused, ind, false);
                push_walk(out, second, d, s - s1, st, panes, focused, ind, false);
                assert(out@ =~= before + walk(*l, d, s as nat, old(st)@, panes_view(panes@), focused as nat, ind@, top).0);
            } else if top {
                assert(old(out)@ + seq![] =~= old(out)@);
            } else {
                let size = size_step_exec(st, s);
                push_node(out, l, panes, focused, ind, size);
            }
        },
        Layout::Pane(_) => {
            if top {
                assert(old(out)@ + seq![] =~= old(out)@);
            } else {
                let size = size_step_exec(st, s);
                push_node(out, l, panes, focused, ind, size);
            }
        },
    }
}

proof fn lemma_layout_panes_split(l: Layout)
    ensures
        l matches Layout::Split { first, second, .. } ==> layout_panes(*first).len() <= layout_panes(l).len()
            && layout_panes(*second).len() <= layout_panes(l).len(),
{
}

} // verus!

verus! {

/// The pane a tab opens focused on: the project's `startup_pane` in the
/// startup tab when it is set, else the window's own `focused_pane`.
pub open spec fn focused_for(p: ProjectView, w: WindowView, index: nat) -> nat {
    if index == p.startup_window {
        match p.startup_pane {
            Some(i) => i,
            None => w.focused_pane,
        }
    } else {
        w.focused_pane
    }
}

/// A window as a tab node: its name, its directory, whether it is the
/// startup tab, and the direction of its root split.
#[verifier::opaque]
pub open spec fn tab_text(p: ProjectView, w: WindowView, index: nat, l: Layout) -> Seq<char> {
    tab_head(p, w, index, l) + children_text(l, spec_effective(w.panes, w.commands), focused_for(p, w, index), "        "@)
        + "    }\n"@
}

/// The tabs of windows `start..` (the windows given); the first window
/// whose layout cannot be built reports.
pub open spec fn spec_tabs(p: ProjectView, ws: Seq<WindowView>, start: nat) -> Result<Seq<char>, Seq<char>>
    decreases ws.len(),
{
    if ws.len() == 0 {
        Ok(seq![])
    } else {
        match spec_tabs(p, ws.drop_last(), start) {
            Err(e) => Err(e),
            Ok(t) => match spec_layout_tree(ws.last()) {
                Err(e) => Err(e),
                Ok(l) => Ok(t + tab_text(p, ws.last(), (start + ws.len() - 1) as nat, l)),
            },
        }
    }
}

/// The layout document of windows `a..b`.
#[verifier::opaque]
pub open spec fn spec_render(p: ProjectView, a: nat, b: nat) -> Result<Seq<char>, Seq<char>> {
    match spec_tabs(p, p.windows.subrange(a as int, b as int), a) {
        Ok(t) => Ok("layout {\n"@ + t + "}\n"@),
        Err(e) => Err(e),
    }
}

#[verifier::spinoff_prover]
#[verifier::rlimit(40)]
proof fn lemma_tabs_prefix_error(p: ProjectView, ws: Seq<WindowView>, start: nat, n: nat)
    requires
        n <= ws.len(),
        spec_tabs(p, ws.take(n as int), start) is Err,
    ensures
        spec_tabs(p, ws, start) == spec_tabs(p, ws.take(n as int), start),
    decreases ws.len() - n,
{
    if n < ws.len() {
        let t = ws.take(n + 1int);
        assert(t.drop_last() == ws.take(n as int));
        lemma_tabs_prefix_error(p, ws, start, n + 1);
    } else {
        assert(ws.take(n as int) == ws);
    }
}

/// The opening line of a tab node.
pub open spec fn tab_head(p: ProjectView, w: WindowView, index: nat, l: Layout) -> Seq<char> {
    "    tab "@ + (match w.name {
        Some(n) => "name="@ + spec_kdl_string(n) + " "@,
        None => seq![],
    }) + "cwd="@ + spec_kdl_string(w.root) + (if index == p.startup_window {
        " focus=true"@
    } else {
        seq![]
    }) + (match l {
        Layout::Split { direction, .. } => " split_direction="@ + spec_kdl_string(
            spec_split_direction(direction),
        ),
        Layout::Pane(_) => seq![],
    }) + " {\n"@
}

fn push_tab_head(out: &mut Vec<char>, spec: &ProjectSpec, index: usize, layout: &Layout)
    requires
        index < spec.windows@.len(),
    ensures
        final(out)@ == old(out)@ + tab_head(spec@, spec@.windows[index as int], index as nat, *layout),
{
    let window = &spec.windows[index];
    assert(spec@.windows[index as int] == window@);
    let mut head: Vec<char> = Vec::new();
    extend_str(&mut head, "    tab ");
    match &window.name {
        Some(n) => {
            extend_str(&mut head, "name=");
            extend_str(&mut head, kdl_string(n.as_str()).as_str());
            extend_str(&mut head, " ");
        },
        None => {},
    }
    extend_str(&mut head, "cwd=");
    extend_str(&mut head, kdl_string(window.root.as_str()).as_str());
    if index == spec.startup_window {
        extend_str(&mut head, " focus=true");
    }
    match layout {
        Layout::Split { direction, .. } => {
            extend_str(&mut head, " split_direction=");
            extend_str(&mut head, kdl_string(split_direction(*direction)).as_str());
        },
        Layout::Pane(_) => {},
    }
    extend_str(&mut head, " {\n");
    assert(head@ =~= tab_head(spec@, spec@.windows[index as int], index as nat, *layout));
    extend_chars(out, head.as_slice());
}

fn push_tab(out: &mut Vec<char>, spec: &ProjectSpec, index: usize, layout: &Layout)
    requires
        index < spec.windows@.len(),
        layout_panes(*layout).len() <= usize::MAX,
    ensures
        final(out)@ == old(out)@ + tab_text(spec@, spec@.windows[index as int], index as nat, *layout),
{
    let window = &spec.windows[index];
    assert(spec@.windows[index as int] == window@);
    let panes = window.effective_panes();
    let focused: usize = if index == spec.startup_window {
        match spec.startup_pane {
            Some(i) => i,
            None => window.focused_pane,
        }
    } else {
        window.focused_pane
    };
    let ghost start = out@;
    let ghost w = spec@.windows[index as int];
    let ghost h = tab_head(spec@, w, index as nat, *layout);
    push_tab_head(out, spec, index, layout);
    let mut ind: Vec<char> = Vec::new();
    extend_str(&mut ind, "        ");
    let ghost c = out@;
    push_children(out, layout, &panes, focused, &ind);
    let ghost body = children_text(*layout, spec_effective(w.panes, w.commands), focused_for(spec@, w, index as nat), "        "@);
    assert(out@ == c + body);
    extend_str(out, "    }\n");
    proof {
        reveal(tab_text);
        assert(tab_text(spec@, w, index as nat, *layout) == h + body + "    }\n"@);
        assert(out@ =~= start + (h + body + "    }\n"@));
    }
}

/// The layout document of windows `a..b`.
fn render_tabs(spec: &ProjectSpec, a: usize, b: usize) -> (r: Result<String, String>)
    requires
        a <= b <= spec.windows@.len(),
    ensures
        match r {
            Ok(t) => spec_render(spec@, a as nat, b as nat) == Ok::<Seq<char>, Seq<char>>(t@),
            Err(e) => spec_render(spec@, a as nat, b as nat) == Err::<Seq<char>, Seq<char>>(e@),
        },
{
    let ghost ws = spec@.windows.subrange(a as int, b as int);
    let mut tabs: Vec<char> = Vec::new();
    let mut i: usize = a;
    assert(ws.take(0) =~= Seq::<WindowView>::empty());
    while i < b
        invariant
            a <= i <= b,
            b <= spec.windows@.len(),
            ws == spec@.windows.subrange(a as int, b as int),
            spec_tabs(spec@, ws.take(i - a), a as nat) == Ok::<Seq<char>, Seq<char>>(tabs@),
        decreases b - i,
    {
        let ghost t = ws.take(i - a + 1);
        assert(t.drop_last() == ws.take(i - a));
        assert(t.last() == spec@.windows[i as int]);
        assert(spec@.windows[i as int] == spec.windows@[i as int]@);
        match spec.windows[i].layout_tree() {
            Ok(layout) => {
                let n = layout.pane_count();
                push_tab(&mut tabs, spec, i, &layout);
            },
            Err(e) => {
                proof {
                    lemma_tabs_prefix_error(spec@, ws, a as nat, (i - a + 1) as nat);
                    reveal(spec_render);
                }
                return Err(e);
            },
        }
        i += 1;
    }
    assert(ws.take(b - a) == ws);
    proof {
        reveal(spec_render);
    }
    let mut out: Vec<char> = Vec::new();
    extend_str(&mut out, "layout {\n");
    extend_chars(&mut out, tabs.as_slice());
    extend_str(&mut out, "}\n");
    Ok(string_of(out.as_slice()))
}

/// Every window of the project as one layout document, for creating the
/// session in one call.
pub fn render_project(spec: &ProjectSpec) -> (r: Result<String, String>)
    ensures
        match r {
            Ok(t) => spec_render(spec@, 0, spec@.windows.len()) == Ok::<Seq<char>, Seq<char>>(t@),
            Err(e) => spec_render(spec@, 0, spec@.windows.len()) == Err::<Seq<char>, Seq<char>>(e@),
        },
{
    render_tabs(spec, 0, spec.windows.len())
}

/// One window as a document of its own, for `--append`.
pub fn render_window(spec: &ProjectSpec, window_index: usize) -> (r: Result<String, String>)
    requires
        window_index < spec.windows@.len(),
    ensures
        match r {
            Ok(t) => spec_render(spec@, window_index as nat, window_index as nat + 1)
                == Ok::<Seq<char>, Seq<char>>(t@),
            Err(e) => spec_render(spec@, window_index as nat, window_index as nat + 1)
                == Err::<Seq<char>, Seq<char>>(e@),
        },
{
    let n = spec.windows.len();
    render_tabs(spec, window_index, window_index + 1)
}

} // verus!

verus! {

/// The percent the sized children take together.
pub open spec fn sized_total(sizes: Seq<Option<nat>>) -> nat
    decreases sizes.len(),
{
    if sizes.len() == 0 {
        0
    } else {
        sized_total(sizes.drop_first()) + match sizes[0] {
            Some(n) => n,
            None => 0,
        }
    }
}

proof fn lemma_sizes_from(shares: Seq<nat>, st: Sizing)
    requires
        st.count <= 100,
        st.index + shares.len() == st.count,
        shares.len() >= 1,
        0 <= st.assigned <= 100 - (st.count - st.index),
    ensures
        sizes_from(shares, st).len() == shares.len(),
        sizes_from(shares, st).last() is None,
        forall|k: int| 0 <= k < shares.len() - 1 ==> ((#[trigger] sizes_from(shares, st)[k]) matches Some(n)
            && n >= 1),
        st.assigned + sized_total(sizes_from(shares, st)) <= 99,
    decreases shares.len(),
{
    let (o, st2) = size_step(st, shares[0]);
    let rest = sizes_from(shares.drop_first(), st2);
    assert(sizes_from(shares, st) == seq![o] + rest);
    let all = seq![o] + rest;
    assert(all.drop_first() =~= rest);
    if shares.len() == 1 {
        assert(st.index + 1 == st.count);
        assert(o is None);
        assert(rest.len() == 0);
        assert(sized_total(all) == sized_total(rest));
    } else {
        assert(st.index + 1 < st.count);
        let room = 100 - (st.count - st.index - 1);
        assert(st.assigned + 1 <= room);
        assert(st2.assigned <= room);
        assert(st2.assigned >= st.assigned + 1);
        lemma_sizes_from(shares.drop_first(), st2);
        assert forall|k: int| 0 <= k < shares.len() - 1 implies ((#[trigger] all[k]) matches Some(n) && n
            >= 1) by {
            if k > 0 {
                assert(all[k] == rest[k - 1]);
            }
        }
        assert(all.last() == rest.last());
        assert(sized_total(all) == sized_total(rest) + (st2.assigned - st.assigned));
    }
}

/// A container of at most a hundred children gets a size of at least one
/// percent for every child but the last, which stays unsized, and the
/// sized children leave at least one percent for the last.
pub proof fn every_child_keeps_at_least_one_percent(shares: Seq<nat>)
    requires
        1 <= shares.len() <= 100,
    ensures
        spec_percentages(shares).len() == shares.len(),
        spec_percentages(shares).last() is None,
        forall|k: int| 0 <= k < shares.len() - 1 ==> ((#[trigger] spec_percentages(shares)[k]) matches Some(n)
            && n >= 1),
        sized_total(spec_percentages(shares)) <= 99,
{
    lemma_sizes_from(shares, Sizing { count: shares.len(), index: 0, cumulative: 0, assigned: 0 });
}

} // verus!

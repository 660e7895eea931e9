//! The tree as text: a header, then one line for each level, the root first.
use crate::tree::node::{Node, NodeView};
use crate::tree::{spec_nodes_at_level, spec_root, Tree};
use crate::util::{lemma_log2_lt, spec_log2};
use vstd::arithmetic::power2::{lemma2_to64, lemma2_to64_rest, pow2};
use vstd::bits::{lemma_u32_pow2_no_overflow, lemma_u32_shl_is_mul};
use vstd::prelude::*;
use vstd::string::StringExecFns;

verus! {

/// `n` spaces.
pub open spec fn spec_spaces(n: nat) -> Seq<char> {
    Seq::new(n, |i: int| ' ')
}

/// The decimal digit `d`.
pub open spec fn spec_digit(d: nat) -> char {
    if d == 0 {
        '0'
    } else if d == 1 {
        '1'
    } else if d == 2 {
        '2'
    } else if d == 3 {
        '3'
    } else if d == 4 {
        '4'
    } else if d == 5 {
        '5'
    } else if d == 6 {
        '6'
    } else if d == 7 {
        '7'
    } else if d == 8 {
        '8'
    } else {
        '9'
    }
}

/// The number `n` in decimal digits.
pub open spec fn spec_decimal(n: nat) -> Seq<char>
    decreases n,
{
    if n < 10 {
        seq![spec_digit(n)]
    } else {
        spec_decimal(n / 10).push(spec_digit(n % 10))
    }
}

/// The index of a node as text: in decimal digits, with zeros before it up to
/// a width of four.
pub open spec fn spec_node_label(id: nat) -> Seq<char> {
    (if id < 10 {
        seq!['0', '0', '0']
    } else if id < 100 {
        seq!['0', '0']
    } else if id < 1000 {
        seq!['0']
    } else {
        Seq::<char>::empty()
    }) + spec_decimal(id)
}

/// What stands before and behind a node of the level `level - 1`: two
/// spaces, `2^level - 1` times.
pub open spec fn spec_indent(level: nat) -> Seq<char> {
    spec_spaces((2 * (pow2(level) - 1)) as nat)
}

/// The nodes `nodes` of the level `level` as text, each between its indent
/// and its spacer.
pub open spec fn spec_cells(nodes: Seq<NodeView>, level: nat) -> Seq<char>
    decreases nodes.len(),
{
    if nodes.len() == 0 {
        Seq::empty()
    } else {
        spec_cells(nodes.drop_last(), level) + spec_indent(level + 1) + spec_node_label(
            nodes.last().id as nat,
        ) + spec_indent(level + 1)
    }
}

/// The lines of the levels below `level`, the highest first.
pub open spec fn spec_rows(nodes: Seq<NodeView>, level: nat) -> Seq<char>
    decreases level,
{
    if level == 0 {
        Seq::empty()
    } else {
        spec_cells(spec_nodes_at_level(nodes, (level - 1) as nat), (level - 1) as nat).push('\n')
            + spec_rows(nodes, (level - 1) as nat)
    }
}

/// The header of the text of a tree.
pub open spec fn spec_header(nodes: Seq<NodeView>) -> Seq<char> {
    seq!['T', 'r', 'e', 'e', ' ', 'H', 'e', 'i', 'g', 'h', 't', ':', ' '] + spec_decimal(
        spec_log2(nodes.len()) + 1,
    ) + seq!['\n', 'R', 'o', 'o', 't', ':', ' '] + spec_node_label(spec_root(nodes.len()))
        + seq!['\n', '\n']
}

/// A tree as text.
pub open spec fn spec_tree_text(nodes: Seq<NodeView>) -> Seq<char> {
    spec_header(nodes) + spec_rows(nodes, spec_log2(nodes.len()) + 1).push('\n')
}

/// Two spaces, `x` times.
pub fn build_space(x: u32) -> (res: String)
    ensures
        res@ == spec_spaces(2 * x as nat),
{
    let mut res = String::new();
    let mut i: u32 = 0;
    assert(res@ =~= spec_spaces(0));
    while i < x
        invariant
            i <= x,
            res@ == spec_spaces(2 * i as nat),
        decreases x - i,
    {
        proof {
            reveal_strlit("  ");
        }
        res.append("  ");
        i += 1;
        assert(res@ =~= spec_spaces(2 * i as nat));
    }
    res
}

/// What stands before a node of the level `level - 1`.
pub fn build_indent(level: u32, _height: u32) -> (res: String)
    requires
        level < 32,
    ensures
        res@ == spec_indent(level as nat),
{
    proof {
        lemma_u32_pow2_no_overflow(level as nat);
        lemma_u32_shl_is_mul(1u32, level);
    }
    let indent = (1u32 << level) - 1;
    build_space(indent)
}

/// What stands behind a node of the level `level - 1`.
pub fn build_spacer(level: u32, _height: u32) -> (res: String)
    requires
        level < 32,
    ensures
        res@ == spec_indent(level as nat),
{
    proof {
        lemma_u32_pow2_no_overflow(level as nat);
        lemma_u32_shl_is_mul(1u32, level);
    }
    let spacer = (1u32 << level) - 1;
    build_space(spacer)
}

/// Appends the decimal digit `d` to `s`.
fn append_digit(s: &mut String, d: u32)
    requires
        d < 10,
    ensures
        final(s)@ == old(s)@.push(spec_digit(d as nat)),
{
    proof {
        reveal_strlit("0");
        reveal_strlit("1");
        reveal_strlit("2");
        reveal_strlit("3");
        reveal_strlit("4");
        reveal_strlit("5");
        reveal_strlit("6");
        reveal_strlit("7");
        reveal_strlit("8");
        reveal_strlit("9");
    }
    if d == 0 {
        s.append("0");
    } else if d == 1 {
        s.append("1");
    } else if d == 2 {
        s.append("2");
    } else if d == 3 {
        s.append("3");
    } else if d == 4 {
        s.append("4");
    } else if d == 5 {
        s.append("5");
    } else if d == 6 {
        s.append("6");
    } else if d == 7 {
        s.append("7");
    } else if d == 8 {
        s.append("8");
    } else {
        s.append("9");
    }
    assert(s@ =~= old(s)@.push(spec_digit(d as nat)));
}

/// Appends `n` in decimal digits to `s`.
pub fn append_decimal(s: &mut String, n: u32)
    ensures
        final(s)@ == old(s)@ + spec_decimal(n as nat),
    decreases n,
{
    if n >= 10 {
        append_decimal(s, n / 10);
    }
    append_digit(s, n % 10);
    assert(s@ =~= old(s)@ + spec_decimal(n as nat));
}

/// Appends the index `id` of a node to `s`, at a width of four.
pub fn append_node_label(s: &mut String, id: u32)
    ensures
        final(s)@ == old(s)@ + spec_node_label(id as nat),
{
    proof {
        reveal_strlit("000");
        reveal_strlit("00");
        reveal_strlit("0");
    }
    if id < 10 {
        s.append("000");
    } else if id < 100 {
        s.append("00");
    } else if id < 1000 {
        s.append("0");
    }
    append_decimal(s, id);
    assert(s@ =~= old(s)@ + spec_node_label(id as nat));
}

impl Node {
    /// The node as text: its index, at a width of four.
    pub fn to_string(&self) -> (s: String)
        ensures
            s@ == spec_node_label(self.id as nat),
    {
        let mut s = String::new();
        append_node_label(&mut s, self.id);
        assert(s@ =~= spec_node_label(self.id as nat));
        s
    }
}

impl Tree {
    /// The tree as text: its height and its root, then one line for each level
    /// from the root down, then an empty line. An empty tree has no root, and no
    /// text.
    pub fn to_string(&self) -> (s: String)
        requires
            self.wf(),
            self@.len() > 0,
        ensures
            s@ == spec_tree_text(self@),
    {
        proof {
            lemma2_to64();
            lemma2_to64_rest();
            lemma_log2_lt(self@.len(), 31);
            reveal_strlit("Tree Height: ");
            reveal_strlit("\nRoot: ");
            reveal_strlit("\n\n");
            reveal_strlit("\n");
        }
        let height = self.get_height() + 1;
        let mut s = String::new();
        s.append("Tree Height: ");
        append_decimal(&mut s, height);
        s.append("\nRoot: ");
        append_node_label(&mut s, self.get_root().id);
        s.append("\n\n");
        assert(s@ =~= spec_header(self@));
        let ghost header = s@;
        let mut i = height;
        assert(spec_rows(self@, i as nat) =~= Seq::<char>::empty() + spec_rows(self@, i as nat));
        let ghost done = Seq::<char>::empty();
        while i > 0
            invariant
                self.wf(),
                i <= height,
                height == spec_log2(self@.len()) + 1,
                height <= 31,
                s@ == header + done,
                done + spec_rows(self@, i as nat) == spec_rows(self@, height as nat),
            decreases i,
        {
            i -= 1;
            let level = self.get_level(i);
            let ghost views = spec_nodes_at_level(self@, i as nat);
            let ghost row_start = s@;
            let mut j: usize = 0;
            assert(views.subrange(0, 0) =~= Seq::<NodeView>::empty());
            assert(s@ =~= row_start + spec_cells(views.subrange(0, 0), i as nat));
            while j < level.len()
                invariant
                    j <= level@.len(),
                    level@.map_values(|n: &Node| n@) == views,
                    i < 31,
                    s@ == row_start + spec_cells(views.subrange(0, j as int), i as nat),
                decreases level@.len() - j,
            {
                let node = level[j];
                let ghost before = s@;
                let indent = build_indent(i + 1, height);
                s.append(indent.as_str());
                append_node_label(&mut s, node.id);
                let spacer = build_spacer(i + 1, height);
                s.append(spacer.as_str());
                j += 1;
                proof {
                    let part = views.subrange(0, j as int);
                    assert(part.drop_last() =~= views.subrange(0, j - 1));
                    assert(part.last() == views[j - 1]);
                    assert(views[j - 1] == level@[j - 1]@);
                    assert(s@ =~= row_start + spec_cells(part, i as nat));
                }
            }
            proof {
                reveal_strlit("\n");
            }
            s.append("\n");
            proof {
                assert(views.subrange(0, j as int) =~= views);
                let row = spec_cells(views, i as nat).push('\n');
                assert(s@ =~= header + (done + row));
                assert((done + row) + spec_rows(self@, i as nat) =~= done + spec_rows(
                    self@,
                    (i + 1) as nat,
                ));
                done = done + row;
            }
        }
        s.append("\n");
        assert(s@ =~= spec_tree_text(self@));
        s
    }
}

} // verus!

//! The renderer's specification: what one line of a report says about a
//! node, and what the full multi-line report says about a chain.
//!
//! A chain is modelled as a sequence of node views, outermost (most recently
//! attached) context first, root cause last. The report holds one line per
//! node, in that same order, each line self-contained: file, line, column
//! and message.

use vstd::prelude::*;
use crate::text::dec_spec;
use crate::text::has_no_newline;
use crate::text::newline_count;
use crate::text::lemma_newline_count_add;
use crate::text::lemma_newline_count_zero;
use crate::text::lemma_dec_no_newline;

verus! {

/// The mathematical content of one chain node: its message text and the
/// call site it was captured at.
pub struct NodeView {
    /// The rendered message of the node.
    pub msg: Seq<char>,
    /// The source file identifier of the call site.
    pub file: Seq<char>,
    /// The line of the call site.
    pub line: u32,
    /// The column of the call site.
    pub column: u32,
}

/// One line of the report: the node's file, line, column and message,
/// terminated by a newline.
pub open spec fn line_spec(nv: NodeView) -> Seq<char> {
    nv.file + seq![':'] + dec_spec(nv.line as int) + seq![':'] + dec_spec(nv.column as int)
        + seq![':', ' '] + nv.msg + seq!['\n']
}

/// The full report for a chain: one line per node, outermost context first,
/// root cause last.
pub open spec fn render_chain(ch: Seq<NodeView>) -> Seq<char>
    decreases ch.len(),
{
    if ch.len() == 0 {
        Seq::empty()
    } else {
        line_spec(ch[0]) + render_chain(ch.drop_first())
    }
}

/// True when the node's message and file identifier hold no newline, so
/// that the node occupies exactly one line of the report.
pub open spec fn node_single_line(nv: NodeView) -> bool {
    has_no_newline(nv.msg) && has_no_newline(nv.file)
}

/// True when every node of the chain is single-line.
pub open spec fn chain_single_line(ch: Seq<NodeView>) -> bool {
    forall|i: int| 0 <= i < ch.len() ==> node_single_line(#[trigger] ch[i])
}

/// A single-line node's report line holds exactly one newline character,
/// the terminating one.
pub proof fn lemma_line_newline_count(nv: NodeView)
    requires
        node_single_line(nv),
    ensures
        newline_count(line_spec(nv)) == 1,
{
    let colon = seq![':'];
    let sep = seq![':', ' '];
    let nl = seq!['\n'];
    let line_digits = dec_spec(nv.line as int);
    let column_digits = dec_spec(nv.column as int);
    lemma_dec_no_newline(nv.line as int);
    lemma_dec_no_newline(nv.column as int);
    lemma_newline_count_zero(nv.file);
    lemma_newline_count_zero(colon);
    lemma_newline_count_zero(line_digits);
    lemma_newline_count_zero(column_digits);
    lemma_newline_count_zero(sep);
    lemma_newline_count_zero(nv.msg);
    assert(nl.drop_last() =~= Seq::<char>::empty());
    assert(newline_count(Seq::<char>::empty()) == 0);
    assert(nl.last() == '\n');
    assert(newline_count(nl) == 1);
    let p1 = nv.file + colon;
    lemma_newline_count_add(nv.file, colon);
    let p2 = p1 + line_digits;
    lemma_newline_count_add(p1, line_digits);
    let p3 = p2 + colon;
    lemma_newline_count_add(p2, colon);
    let p4 = p3 + column_digits;
    lemma_newline_count_add(p3, column_digits);
    let p5 = p4 + sep;
    lemma_newline_count_add(p4, sep);
    let p6 = p5 + nv.msg;
    lemma_newline_count_add(p5, nv.msg);
    lemma_newline_count_add(p6, nl);
}

/// Law: the report holds exactly one line per node. A chain built from one
/// originating node and `n` successive context wrappers has `n + 1` nodes,
/// so its report ends in exactly `n + 1` newline characters, provided every
/// message and file identifier is itself single-line.
pub proof fn lemma_render_line_count(ch: Seq<NodeView>)
    requires
        chain_single_line(ch),
    ensures
        newline_count(render_chain(ch)) == ch.len(),
    decreases ch.len(),
{
    if ch.len() == 0 {
    } else {
        lemma_line_newline_count(ch[0]);
        lemma_newline_count_add(line_spec(ch[0]), render_chain(ch.drop_first()));
        assert(chain_single_line(ch.drop_first())) by {
            assert forall|i: int| 0 <= i < ch.drop_first().len() implies node_single_line(
                #[trigger] ch.drop_first()[i],
            ) by {
                assert(ch.drop_first()[i] == ch[i + 1]);
            }
        }
        lemma_render_line_count(ch.drop_first());
    }
}

} // verus!

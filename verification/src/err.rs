//! The error-chain core: an immutable, strictly linear chain of context
//! nodes, each holding a message and the source location it was captured at,
//! and owning the previous node — its cause — if any.
//!
//! A chain is created by [`ContextNode::new`] (an originating error, length
//! one) and grows only by prepending, through [`combine`] or
//! [`ContextNode::wrap`]. Existing nodes are never altered: a node's view is
//! the whole chain as a sequence of [`NodeView`]s, outermost first, and every
//! growth step states that the tail of the new view equals the old view.

use vstd::prelude::*;
use std::io::Write;
use crate::render::NodeView;
use crate::render::line_spec;
use crate::render::render_chain;
use crate::text::push_dec;

verus! {

/// A rendered message: either caller-supplied text, or the debug rendering
/// of an arbitrary typed payload, produced when the node was captured.
#[derive(Debug)]
pub enum Msg {
    /// A literal or formatted piece of text.
    Text(String),
    /// The debug rendering of a typed payload.
    Rendered(String),
}

impl Msg {
    /// The message's text, however it was produced.
    pub open spec fn text(self) -> Seq<char> {
        match self {
            Msg::Text(s) => s@,
            Msg::Rendered(s) => s@,
        }
    }

    /// The default placeholder used when a capture site supplies no message.
    pub fn placeholder() -> (r: Msg)
        ensures
            r.text() == "..."@,
    {
        Msg::Text("...".to_owned())
    }

    /// This message's text.
    pub fn as_str(&self) -> (r: &str)
        ensures
            r@ == self.text(),
    {
        match self {
            Msg::Text(s) => s.as_str(),
            Msg::Rendered(s) => s.as_str(),
        }
    }
}

/// An immutable snapshot of a call site, captured when a context node is
/// created.
#[derive(Debug)]
pub struct Location {
    /// The source file identifier.
    pub file: String,
    /// The line of the call site.
    pub line: u32,
    /// The column of the call site.
    pub column: u32,
}

impl Location {
    /// Builds a location snapshot from its three parts.
    pub fn new(file: &str, line: u32, column: u32) -> (r: Location)
        ensures
            r.file@ == file@,
            r.line == line,
            r.column == column,
    {
        Location { file: file.to_owned(), line, column }
    }

    /// The view of one captured site together with a message.
    pub open spec fn node_view(self, msg: Msg) -> NodeView {
        NodeView { msg: msg.text(), file: self.file@, line: self.line, column: self.column }
    }
}

/// One link of an error chain: a message, the location it was captured at,
/// and exclusive ownership of the previous node, if any. The chain is
/// strictly linear and never mutated after construction; it only grows by
/// prepending a new head.
#[derive(Debug)]
pub struct ContextNode {
    msg: Msg,
    location: Location,
    cause: Option<Box<ContextNode>>,
}

impl ContextNode {
    /// The view of this node alone.
    closed spec fn head(self) -> NodeView {
        self.location.node_view(self.msg)
    }

    /// The view of the whole chain, outermost context first, root cause
    /// last; never empty.
    pub closed spec fn chain(self) -> Seq<NodeView>
        decreases self,
    {
        seq![self.head()] + match self.cause {
            Option::Some(c) => c.chain(),
            Option::None => Seq::empty(),
        }
    }

    /// Builds an originating error: a chain of length one, with no cause.
    pub fn new(msg: Msg, location: Location) -> (r: ContextNode)
        ensures
            r@ == seq![location.node_view(msg)],
    {
        let r = ContextNode { msg, location, cause: Option::None };
        proof {
            assert(r@ =~= seq![r.head()]);
        }
        r
    }

    /// Prepends a new head node that takes ownership of this chain as its
    /// cause. The prior chain is carried over unchanged: the new view is the
    /// new node's view followed by exactly the old view.
    pub fn wrap(self, msg: Msg, location: Location) -> (r: ContextNode)
        ensures
            r@ == seq![location.node_view(msg)] + self@,
            r@.drop_first() == self@,
    {
        let ghost prior = self@;
        let r = ContextNode { msg, location, cause: Option::Some(Box::new(self)) };
        proof {
            assert(r@ == seq![r.head()] + prior);
            assert(r@.drop_first() =~= prior);
        }
        r
    }

    /// This node's own message, not the chain's.
    pub fn message(&self) -> (r: &str)
        ensures
            r@ == self@[0].msg,
    {
        proof {
            assert(self@[0] == self.head());
        }
        self.msg.as_str()
    }

    /// This node's own captured location.
    pub fn location(&self) -> (r: &Location)
        ensures
            r.file@ == self@[0].file,
            r.line == self@[0].line,
            r.column == self@[0].column,
    {
        proof {
            assert(self@[0] == self.head());
        }
        &self.location
    }

    /// A read-only borrow of the previous node: the rest of the chain on a
    /// wrapped error, nothing on an originating one.
    pub fn cause(&self) -> (r: Option<&ContextNode>)
        ensures
            match r {
                Option::Some(c) => self@.len() > 1 && c@ == self@.drop_first(),
                Option::None => self@.len() == 1,
            },
    {
        match &self.cause {
            Option::Some(c) => {
                proof {
                    assert(self@.drop_first() =~= c.chain());
                }
                Option::Some(&**c)
            },
            Option::None => {
                proof {
                    assert(self@ =~= seq![self.head()]);
                }
                Option::None
            },
        }
    }

    /// Renders the full chain as the deterministic multi-line report: one
    /// line per node, outermost context first, root cause last.
    pub fn render(&self) -> (r: String)
        ensures
            r@ == render_chain(self@),
    {
        let mut out = String::new();
        let mut cur: &ContextNode = self;
        loop
            invariant
                render_chain(self@) == out@ + render_chain(cur@),
            decreases cur@.len(),
        {
            let ghost out_entry = out@;
            push_line(&mut out, cur);
            proof {
                assert(cur@[0] == cur.head());
            }
            match &cur.cause {
                Option::Some(c) => {
                    proof {
                        assert(cur@.drop_first() =~= c.chain());
                        assert(render_chain(cur@) == line_spec(cur@[0]) + render_chain(c.chain()));
                        assert(out@ + render_chain(c.chain()) =~= out_entry + render_chain(cur@));
                    }
                    cur = &**c;
                },
                Option::None => {
                    proof {
                        assert(cur@.drop_first() =~= Seq::<NodeView>::empty());
                        assert(render_chain(Seq::<NodeView>::empty()) == Seq::<char>::empty());
                        assert(out@ =~= out_entry + render_chain(cur@));
                        assert(out@ =~= render_chain(self@));
                    }
                    return out;
                },
            }
        }
    }

    /// Renders the chain and writes the report to the diagnostic stream;
    /// non-fatal, the chain stays usable.
    pub fn emit(&self) {
        let r = self.render();
        stderr_write(r.as_str());
    }
}

impl View for ContextNode {
    type V = Seq<NodeView>;

    open spec fn view(&self) -> Seq<NodeView> {
        self.chain()
    }
}

/// Law: a chain always holds at least one node, its own head, so a report
/// is never empty.
pub proof fn lemma_chain_nonempty(n: ContextNode)
    ensures
        n@.len() >= 1,
{
}

/// The context combinator, the sole chain-growth operation: a success passes
/// through unchanged and no node is built; a failure is wrapped in a new
/// head node that owns the prior chain — unchanged — as its cause.
pub fn combine<T>(r: Result<T, ContextNode>, msg: Msg, location: Location) -> (out: Result<
    T,
    ContextNode,
>)
    ensures
        r is Ok ==> out == r,
        r is Err ==> out is Err && out->Err_0@ == seq![location.node_view(msg)] + r->Err_0@
            && out->Err_0@.drop_first() == r->Err_0@,
{
    match r {
        Result::Ok(v) => Result::Ok(v),
        Result::Err(e) => Result::Err(e.wrap(msg, location)),
    }
}

/// Renders a failure to the diagnostic stream — wrapped first with one more
/// context node for the logging site — and swallows the error; a success
/// passes through. Never fails itself.
pub fn log_and_discard<T>(r: Result<T, ContextNode>, msg: Msg, location: Location) -> (out: Result<
    T,
    (),
>)
    ensures
        r is Ok ==> out is Ok && out->Ok_0 == r->Ok_0,
        r is Err ==> out is Err,
{
    match combine(r, msg, location) {
        Result::Ok(v) => Result::Ok(v),
        Result::Err(e) => {
            e.emit();
            Result::Err(())
        },
    }
}

/// Drops a result without rendering anything; used where even diagnostics
/// are unwanted. Never fails and writes nothing.
pub fn discard_silently<T>(r: Result<T, ContextNode>) {
    let _ = r;
}

/// Appends one report line for the head node of `node` to `out`.
fn push_line(out: &mut String, node: &ContextNode)
    ensures
        final(out)@ == old(out)@ + line_spec(node@[0]),
{
    proof {
        assert(node@[0] == node.head());
    }
    out.append(node.location.file.as_str());
    out.append(":");
    push_dec(out, node.location.line);
    out.append(":");
    push_dec(out, node.location.column);
    out.append(": ");
    out.append(node.msg.as_str());
    out.append("\n");
    proof {
        reveal_strlit(":");
        reveal_strlit(": ");
        reveal_strlit("\n");
        assert(":"@ =~= seq![':']);
        assert(": "@ =~= seq![':', ' ']);
        assert("\n"@ =~= seq!['\n']);
        assert(out@ =~= old(out)@ + line_spec(node@[0]));
    }
}

/// Relies on std::io::stderr with the write macro: writes the text to the
/// process's diagnostic stream.
#[verifier::external_body]
fn stderr_write(s: &str) {
    let _ = write!(std::io::stderr(), "{}", s);
}

/// Relies on core::fmt's debug formatting: renders an arbitrary typed
/// payload as its debug text, for attaching it to a chain as a
/// [`Msg::Rendered`] message. The text comes from the payload's own `Debug`
/// implementation, so nothing is claimed of it.
#[verifier::external_body]
pub fn debug_render<T: core::fmt::Debug>(payload: &T) -> String {
    format!("{:?}", payload)
}

} // verus!

//! The scope tokens.
//!
//! A token stands for one nesting level and offers the operations that are
//! legal there. [`ScopeNone`] is held outside any region, [`ScopeEditor`]
//! inside the editor region, [`ScopeNode`] inside a node. A token is made
//! only by the operation that opens its region and is handed to the caller's
//! block by value; the block hands it back when it is done, and only then is
//! the region closed.
//!
//! Each token carries the calls issued inside its own region so far, in
//! order. Whatever a block does with its token, the calls it hands back are
//! nested inside that region, so a region that is closed around them is
//! nested where it was opened, and the trace of a finished frame is well
//! nested.

use vstd::prelude::*;
use crate::calls::{
    lemma_bracket_nested, lemma_regions_after_concat, lemma_regions_after_push, nested_inside,
    well_nested, Call, EditorContext, Region,
};
use crate::hover::Hoverable;
use crate::ids::{
    AnyPin, AttributeId, InputPinId, Link, LinkId, NodeId, OutputPinId, PinId, PinShape,
};
use crate::replies::{DropReply, HoverReply, IdReply, LinkReply};

verus! {

/// Held while no region is open.
#[derive(Debug)]
pub struct ScopeNone {
    calls: Vec<Call>,
}

/// Held while the editor region is the innermost open one.
#[derive(Debug)]
pub struct ScopeEditor {
    calls: Vec<Call>,
}

/// Held while a node region is the innermost open one.
#[derive(Debug)]
pub struct ScopeNode {
    calls: Vec<Call>,
}

/// The calls that enter the editor region of `context`.
pub open spec fn entering(context: EditorContext) -> Seq<Call> {
    seq![Call::SetCurrentContext(context), Call::BeginNodeEditor]
}

/// Makes `context` the current one, opens the editor region, runs `f` with
/// the region's token, and closes the region around the calls that `f` hands
/// back. The token returned shows that no region is open any more.
pub fn editor<F: FnOnce(ScopeEditor) -> ScopeEditor>(context: &EditorContext, f: F) -> (scope:
    ScopeNone)
    requires
        forall|inner: ScopeEditor|
            inner.trace() == Seq::<Call>::empty() ==> call_requires(f, (inner,)),
    ensures
        well_nested(scope.trace()),
        exists|inner: ScopeEditor, outcome: ScopeEditor|
            inner.trace() == Seq::<Call>::empty() && call_ensures(f, (inner,), outcome)
                && scope.trace() == entering(*context) + outcome.trace()
                + seq![Call::EndNodeEditor],
{
    let inner = ScopeEditor { calls: Vec::new() };
    assert(inner.trace() =~= Seq::<Call>::empty());
    let outcome = f(inner);
    proof {
        use_type_invariant(&outcome);
    }
    let ghost body = outcome.trace();
    let mut drawn = outcome.calls;
    let mut calls: Vec<Call> = Vec::new();
    calls.push(Call::SetCurrentContext(*context));
    calls.push(Call::BeginNodeEditor);
    calls.append(&mut drawn);
    calls.push(Call::EndNodeEditor);
    proof {
        let none = Seq::<Region>::empty();
        let region = seq![Call::BeginNodeEditor] + body + seq![Call::EndNodeEditor];
        assert(none.push(Region::Editor) =~= seq![Region::Editor]);
        lemma_bracket_nested(none, Call::BeginNodeEditor, body, Call::EndNodeEditor);
        lemma_regions_after_push(none, Seq::empty(), Call::SetCurrentContext(*context));
        assert(Seq::<Call>::empty().push(Call::SetCurrentContext(*context)) =~= seq![
            Call::SetCurrentContext(*context),
        ]);
        lemma_regions_after_concat(none, seq![Call::SetCurrentContext(*context)], region);
        assert(calls@ =~= seq![Call::SetCurrentContext(*context)] + region);
        assert(calls@ =~= entering(*context) + body + seq![Call::EndNodeEditor]);
    }
    ScopeNone { calls }
}

impl ScopeNone {
    #[verifier::type_invariant]
    spec fn closed_again(&self) -> bool {
        well_nested(self.calls@)
    }

    /// The calls of the frame that was closed last; none before the first.
    pub closed spec fn trace(&self) -> Seq<Call> {
        self.calls@
    }

    /// The token of a caller that has not entered any region yet.
    pub fn new() -> (scope: ScopeNone)
        ensures
            scope.trace() == Seq::<Call>::empty(),
    {
        ScopeNone { calls: Vec::new() }
    }

    /// The calls of the frame that was closed last. They are well nested.
    pub fn calls(&self) -> (calls: &Vec<Call>)
        ensures
            calls@ == self.trace(),
            well_nested(self.trace()),
    {
        proof {
            use_type_invariant(self);
        }
        &self.calls
    }

    /// Whether the pointer is over the element `id`.
    pub fn is_hovered<H: Hoverable>(&self, id: H, hover: &HoverReply) -> (r: bool)
        ensures
            r == id.hovered_in(*hover),
    {
        id.is_hovered(self, hover)
    }

    /// Whether the link that the user is dragging started at pin `id`, where
    /// `reply` answers which pin a dragged link started at.
    pub fn link_started_at<T: AnyPin>(&self, id: T, reply: IdReply) -> (r: bool)
        ensures
            r == (reply.pin() == Some(id.pin())),
    {
        let pin: PinId = id.to_pin();
        match self.from_where_link_started(reply) {
            Some(start) => start.id == pin.id,
            None => false,
        }
    }

    /// Whether a link that was dropped without reaching a pin started at pin
    /// `id`. With `including_detached_links`, a link that was pulled off a
    /// connection and then dropped counts too.
    pub fn link_dropped_from<T: AnyPin>(
        &self,
        id: T,
        including_detached_links: bool,
        reply: &DropReply,
    ) -> (r: bool)
        ensures
            r == (reply.asked(including_detached_links).pin() == Some(id.pin())),
    {
        let pin: PinId = id.to_pin();
        match self.from_where_link_dropped(including_detached_links, reply) {
            Some(start) => start.id == pin.id,
            None => false,
        }
    }

    /// The number of selected nodes, from the count that the editor gave.
    pub fn num_selected_nodes(&self, count: i32) -> (r: u32)
        requires
            0 <= count,
        ensures
            r == count,
    {
        count as u32
    }

    /// The number of selected links, from the count that the editor gave.
    pub fn num_selected_links(&self, count: i32) -> (r: u32)
        requires
            0 <= count,
        ensures
            r == count,
    {
        count as u32
    }

    /// The buffer for the editor to write the selection to: `count` numbers,
    /// all zero. Asking for it while nothing is selected is an error of the
    /// caller.
    pub fn selection_buffer(&self, count: u32) -> (buffer: Vec<i32>)
        requires
            count > 0,
        ensures
            buffer@.len() == count,
            forall|i: int| 0 <= i < count ==> buffer@[i] == 0,
    {
        let mut buffer: Vec<i32> = Vec::new();
        let mut i: u32 = 0;
        while i < count
            invariant
                i <= count,
                buffer@.len() == i,
                forall|k: int| 0 <= k < i ==> buffer@[k] == 0,
            decreases count - i,
        {
            buffer.push(0);
            i += 1;
        }
        buffer
    }

    /// The selected nodes, in the editor's order. `ids` is the buffer of
    /// `count` numbers that the editor filled. Asking for the selection while
    /// nothing is selected is an error of the caller.
    pub fn selected_nodes(&self, count: u32, ids: &Vec<i32>) -> (nodes: Vec<NodeId>)
        requires
            count > 0,
            ids@.len() == count,
        ensures
            nodes@.len() == count,
            forall|i: int| 0 <= i < count ==> (#[trigger] nodes@[i]).id == ids@[i],
    {
        let mut nodes: Vec<NodeId> = Vec::new();
        let mut i: usize = 0;
        while i < ids.len()
            invariant
                i <= ids@.len(),
                nodes@.len() == i,
                forall|k: int| 0 <= k < i ==> (#[trigger] nodes@[k]).id == ids@[k],
            decreases ids@.len() - i,
        {
            nodes.push(NodeId { id: ids[i] });
            i += 1;
        }
        nodes
    }

    /// The selected links, in the editor's order. `ids` is the buffer of
    /// `count` numbers that the editor filled. Asking for the selection while
    /// nothing is selected is an error of the caller.
    pub fn selected_links(&self, count: u32, ids: &Vec<i32>) -> (links: Vec<LinkId>)
        requires
            count > 0,
            ids@.len() == count,
        ensures
            links@.len() == count,
            forall|i: int| 0 <= i < count ==> (#[trigger] links@[i]).id == ids@[i],
    {
        let mut links: Vec<LinkId> = Vec::new();
        let mut i: usize = 0;
        while i < ids.len()
            invariant
                i <= ids@.len(),
                links@.len() == i,
                forall|k: int| 0 <= k < i ==> (#[trigger] links@[k]).id == ids@[k],
            decreases ids@.len() - i,
        {
            links.push(LinkId { id: ids[i] });
            i += 1;
        }
        links
    }

    /// The link that the user has just drawn, if `reply` describes one. A
    /// link declared with [`ScopeEditor::add_link`] is not reported here: only
    /// the answer decides.
    pub fn links_created(&self, reply: LinkReply) -> (r: Option<Link>)
        ensures
            r == reply.link(),
    {
        reply.read()
    }

    /// The link that the user has just torn off, if `reply` names one.
    pub fn get_dropped_link(&self, reply: IdReply) -> (r: Option<LinkId>)
        ensures
            r == reply.link(),
    {
        match reply.read() {
            Some(id) => Some(LinkId { id }),
            None => None,
        }
    }

    /// The pin that the pointer is over, if `reply` names one.
    pub fn get_hovered_pin(&self, reply: IdReply) -> (r: Option<PinId>)
        ensures
            r == reply.pin(),
    {
        match reply.read() {
            Some(id) => Some(PinId { id }),
            None => None,
        }
    }

    /// The link that the pointer is over, if `reply` names one.
    pub fn get_hovered_link(&self, reply: IdReply) -> (r: Option<LinkId>)
        ensures
            r == reply.link(),
    {
        match reply.read() {
            Some(id) => Some(LinkId { id }),
            None => None,
        }
    }

    /// The attribute that the user is working in, if `reply` names one.
    pub fn get_active_attribute(&self, reply: IdReply) -> (r: Option<AttributeId>)
        ensures
            r == reply.attribute(),
    {
        match reply.read() {
            Some(id) => Some(AttributeId { id }),
            None => None,
        }
    }

    /// The pin that the link being dragged started at, if `reply` names one.
    pub fn from_where_link_started(&self, reply: IdReply) -> (r: Option<PinId>)
        ensures
            r == reply.pin(),
    {
        match reply.read() {
            Some(id) => Some(PinId { id }),
            None => None,
        }
    }

    /// The pin that a link dropped without reaching a pin started at, if the
    /// answer for `including_detached_links` names one.
    pub fn from_where_link_dropped(&self, including_detached_links: bool, reply: &DropReply) -> (r:
        Option<PinId>)
        ensures
            r == reply.asked(including_detached_links).pin(),
    {
        let answer = if including_detached_links {
            reply.dragged_or_detached
        } else {
            reply.dragged
        };
        match answer.read() {
            Some(id) => Some(PinId { id }),
            None => None,
        }
    }
}

impl ScopeEditor {
    #[verifier::type_invariant]
    spec fn inside_editor(&self) -> bool {
        nested_inside(seq![Region::Editor], self.calls@)
    }

    /// The calls issued inside the editor region so far.
    pub closed spec fn trace(&self) -> Seq<Call> {
        self.calls@
    }

    /// The calls issued inside the editor region so far. They are nested
    /// inside it: they leave the editor region, and nothing else, open.
    pub fn calls(&self) -> (calls: &Vec<Call>)
        ensures
            calls@ == self.trace(),
            nested_inside(seq![Region::Editor], self.trace()),
    {
        proof {
            use_type_invariant(self);
        }
        &self.calls
    }

    /// Opens the region of node `id`, runs `f` with the region's token, and
    /// closes the region around the calls that `f` hands back.
    pub fn node<F: FnOnce(ScopeNode) -> ScopeNode>(self, id: NodeId, f: F) -> (scope: ScopeEditor)
        requires
            forall|inner: ScopeNode|
                inner.trace() == Seq::<Call>::empty() ==> call_requires(f, (inner,)),
        ensures
            exists|inner: ScopeNode, outcome: ScopeNode|
                inner.trace() == Seq::<Call>::empty() && call_ensures(f, (inner,), outcome)
                    && scope.trace() == self.trace() + seq![Call::BeginNode(id)] + outcome.trace()
                    + seq![Call::EndNode],
    {
        proof {
            use_type_invariant(&self);
        }
        let ghost before = self.trace();
        let inner = ScopeNode { calls: Vec::new() };
        assert(inner.trace() =~= Seq::<Call>::empty());
        let outcome = f(inner);
        proof {
            use_type_invariant(&outcome);
        }
        let ghost body = outcome.trace();
        let mut drawn = outcome.calls;
        let mut calls = self.calls;
        calls.push(Call::BeginNode(id));
        calls.append(&mut drawn);
        calls.push(Call::EndNode);
        proof {
            let open = seq![Region::Editor];
            let region = seq![Call::BeginNode(id)] + body + seq![Call::EndNode];
            assert(open.push(Region::Node) =~= seq![Region::Editor, Region::Node]);
            lemma_bracket_nested(open, Call::BeginNode(id), body, Call::EndNode);
            lemma_regions_after_concat(open, before, region);
            assert(calls@ =~= before + region);
            assert(calls@ =~= before + seq![Call::BeginNode(id)] + body + seq![Call::EndNode]);
        }
        ScopeEditor { calls }
    }

    /// Declares the link `id` from `output` to `input`.
    pub fn add_link(self, id: LinkId, input: InputPinId, output: OutputPinId) -> (scope:
        ScopeEditor)
        ensures
            scope.trace() == self.trace().push(Call::Link(id, input, output)),
    {
        proof {
            use_type_invariant(&self);
            lemma_regions_after_push(
                seq![Region::Editor],
                self.trace(),
                Call::Link(id, input, output),
            );
        }
        let mut calls = self.calls;
        calls.push(Call::Link(id, input, output));
        ScopeEditor { calls }
    }

    /// The attribute that the user is working in, if `reply` names one. Inside
    /// the editor region the answer is that of the frame being drawn.
    pub fn get_active_attribute(&self, reply: IdReply) -> (r: Option<AttributeId>)
        ensures
            r == reply.attribute(),
    {
        match reply.read() {
            Some(id) => Some(AttributeId { id }),
            None => None,
        }
    }

    /// Whether the pointer is over the editor's background, which is what
    /// `hovered` answers.
    pub fn is_hovered(&self, hovered: bool) -> (r: bool)
        ensures
            r == hovered,
    {
        hovered
    }
}

impl ScopeNode {
    #[verifier::type_invariant]
    spec fn inside_node(&self) -> bool {
        nested_inside(seq![Region::Editor, Region::Node], self.calls@)
    }

    /// The calls issued inside the node's region so far.
    pub closed spec fn trace(&self) -> Seq<Call> {
        self.calls@
    }

    /// The calls issued inside the node's region so far. They are nested
    /// inside it: they leave the node's region inside the editor region, and
    /// nothing else, open.
    pub fn calls(&self) -> (calls: &Vec<Call>)
        ensures
            calls@ == self.trace(),
            nested_inside(seq![Region::Editor, Region::Node], self.trace()),
    {
        proof {
            use_type_invariant(self);
        }
        &self.calls
    }

    /// Issues `begin`, runs `f`, and issues `end`, for a pair of calls that
    /// open and close one region directly inside a node.
    fn bracket<F: FnOnce()>(self, begin: Call, end: Call, f: F) -> (scope: ScopeNode)
        requires
            call_requires(f, ()),
            begin.needs() == Some(Region::Node),
            begin.opens() is Some,
            end.needs() == begin.opens(),
            end.closes(),
        ensures
            scope.trace() == self.trace().push(begin).push(end),
    {
        proof {
            use_type_invariant(&self);
        }
        let ghost before = self.trace();
        let mut calls = self.calls;
        calls.push(begin);
        f();
        calls.push(end);
        proof {
            let open = seq![Region::Editor, Region::Node];
            let region = seq![begin] + Seq::<Call>::empty() + seq![end];
            lemma_bracket_nested(open, begin, Seq::empty(), end);
            lemma_regions_after_concat(open, before, region);
            assert(calls@ =~= before + region);
        }
        ScopeNode { calls }
    }

    /// Brackets the node's title bar around `f`.
    pub fn add_titlebar<F: FnOnce()>(self, f: F) -> (scope: ScopeNode)
        requires
            call_requires(f, ()),
        ensures
            scope.trace() == self.trace().push(Call::BeginNodeTitleBar).push(
                Call::EndNodeTitleBar,
            ),
    {
        self.bracket(Call::BeginNodeTitleBar, Call::EndNodeTitleBar, f)
    }

    /// Brackets the input pin `id`, drawn as `shape`, around `f`.
    pub fn add_input<F: FnOnce()>(self, id: InputPinId, shape: PinShape, f: F) -> (scope:
        ScopeNode)
        requires
            call_requires(f, ()),
        ensures
            scope.trace() == self.trace().push(Call::BeginInputAttribute(id, shape)).push(
                Call::EndInputAttribute,
            ),
    {
        self.bracket(Call::BeginInputAttribute(id, shape), Call::EndInputAttribute, f)
    }

    /// Brackets the output pin `id`, drawn as `shape`, around `f`.
    pub fn add_output<F: FnOnce()>(self, id: OutputPinId, shape: PinShape, f: F) -> (scope:
        ScopeNode)
        requires
            call_requires(f, ()),
        ensures
            scope.trace() == self.trace().push(Call::BeginOutputAttribute(id, shape)).push(
                Call::EndOutputAttribute,
            ),
    {
        self.bracket(Call::BeginOutputAttribute(id, shape), Call::EndOutputAttribute, f)
    }

    /// Brackets the attribute `id`, which cannot be connected, around `f`.
    pub fn attribute<F: FnOnce()>(self, id: AttributeId, f: F) -> (scope: ScopeNode)
        requires
            call_requires(f, ()),
        ensures
            scope.trace() == self.trace().push(Call::BeginStaticAttribute(id)).push(
                Call::EndStaticAttribute,
            ),
    {
        self.bracket(Call::BeginStaticAttribute(id), Call::EndStaticAttribute, f)
    }
}

} // verus!

//! The bracket calls of the editor and the order they may come in.
//!
//! A trace is the sequence of calls issued so far. Reading it from the start
//! gives the regions that are open after it, innermost last, or nothing if
//! some call came where it is not allowed. A trace is well nested when every
//! call was allowed and no region is left open.

use vstd::prelude::*;
use crate::ids::{AttributeId, InputPinId, LinkId, NodeId, OutputPinId, PinShape};

verus! {

/// Names an editor context: the canvas that the calls of one frame draw on.
#[derive(Clone, Copy, Debug, PartialEq, Eq, Hash, Structural)]
pub struct EditorContext {
    pub handle: usize,
}

/// A bracketed span of calls.
#[derive(Clone, Copy, Debug, PartialEq, Eq, Hash, Structural)]
pub enum Region {
    Editor,
    Node,
    TitleBar,
    InputPin,
    OutputPin,
    StaticAttribute,
}

/// One call to the editor that a scope token issues.
#[derive(Clone, Copy, Debug, PartialEq, Eq, Hash, Structural)]
pub enum Call {
    SetCurrentContext(EditorContext),
    BeginNodeEditor,
    EndNodeEditor,
    BeginNode(NodeId),
    EndNode,
    BeginNodeTitleBar,
    EndNodeTitleBar,
    BeginInputAttribute(InputPinId, PinShape),
    EndInputAttribute,
    BeginOutputAttribute(OutputPinId, PinShape),
    EndOutputAttribute,
    BeginStaticAttribute(AttributeId),
    EndStaticAttribute,
    Link(LinkId, InputPinId, OutputPinId),
}

impl Call {
    /// The region that must be the innermost open one when the call is
    /// issued; `None` where no region may be open at all.
    pub open spec fn needs(self) -> Option<Region> {
        match self {
            Call::SetCurrentContext(_) | Call::BeginNodeEditor => None,
            Call::EndNodeEditor | Call::BeginNode(_) | Call::Link(_, _, _) => Some(Region::Editor),
            Call::EndNode
            | Call::BeginNodeTitleBar
            | Call::BeginInputAttribute(_, _)
            | Call::BeginOutputAttribute(_, _)
            | Call::BeginStaticAttribute(_) => Some(Region::Node),
            Call::EndNodeTitleBar => Some(Region::TitleBar),
            Call::EndInputAttribute => Some(Region::InputPin),
            Call::EndOutputAttribute => Some(Region::OutputPin),
            Call::EndStaticAttribute => Some(Region::StaticAttribute),
        }
    }

    /// The region that the call opens, if it opens one.
    pub open spec fn opens(self) -> Option<Region> {
        match self {
            Call::BeginNodeEditor => Some(Region::Editor),
            Call::BeginNode(_) => Some(Region::Node),
            Call::BeginNodeTitleBar => Some(Region::TitleBar),
            Call::BeginInputAttribute(_, _) => Some(Region::InputPin),
            Call::BeginOutputAttribute(_, _) => Some(Region::OutputPin),
            Call::BeginStaticAttribute(_) => Some(Region::StaticAttribute),
            _ => None,
        }
    }

    /// Whether the call closes the innermost open region.
    pub open spec fn closes(self) -> bool {
        match self {
            Call::EndNodeEditor
            | Call::EndNode
            | Call::EndNodeTitleBar
            | Call::EndInputAttribute
            | Call::EndOutputAttribute
            | Call::EndStaticAttribute => true,
            _ => false,
        }
    }
}

impl Call {
    /// Computes [`Call::needs`].
    pub fn needed_region(&self) -> (r: Option<Region>)
        ensures
            r == self.needs(),
    {
        match self {
            Call::SetCurrentContext(_) | Call::BeginNodeEditor => None,
            Call::EndNodeEditor | Call::BeginNode(_) | Call::Link(_, _, _) => Some(Region::Editor),
            Call::EndNode
            | Call::BeginNodeTitleBar
            | Call::BeginInputAttribute(_, _)
            | Call::BeginOutputAttribute(_, _)
            | Call::BeginStaticAttribute(_) => Some(Region::Node),
            Call::EndNodeTitleBar => Some(Region::TitleBar),
            Call::EndInputAttribute => Some(Region::InputPin),
            Call::EndOutputAttribute => Some(Region::OutputPin),
            Call::EndStaticAttribute => Some(Region::StaticAttribute),
        }
    }

    /// Computes [`Call::opens`].
    pub fn opened_region(&self) -> (r: Option<Region>)
        ensures
            r == self.opens(),
    {
        match self {
            Call::BeginNodeEditor => Some(Region::Editor),
            Call::BeginNode(_) => Some(Region::Node),
            Call::BeginNodeTitleBar => Some(Region::TitleBar),
            Call::BeginInputAttribute(_, _) => Some(Region::InputPin),
            Call::BeginOutputAttribute(_, _) => Some(Region::OutputPin),
            Call::BeginStaticAttribute(_) => Some(Region::StaticAttribute),
            _ => None,
        }
    }

    /// Computes [`Call::closes`].
    pub fn is_closing(&self) -> (r: bool)
        ensures
            r == self.closes(),
    {
        match self {
            Call::EndNodeEditor
            | Call::EndNode
            | Call::EndNodeTitleBar
            | Call::EndInputAttribute
            | Call::EndOutputAttribute
            | Call::EndStaticAttribute => true,
            _ => false,
        }
    }
}

/// The innermost of the open regions.
pub open spec fn innermost(open: Seq<Region>) -> Option<Region> {
    if open.len() == 0 {
        None
    } else {
        Some(open.last())
    }
}

/// The open regions after `call`, issued while `open` were open; `None` if the
/// call is not allowed there.
pub open spec fn step(open: Seq<Region>, call: Call) -> Option<Seq<Region>> {
    if innermost(open) != call.needs() {
        None
    } else if let Some(region) = call.opens() {
        Some(open.push(region))
    } else if call.closes() {
        Some(open.drop_last())
    } else {
        Some(open)
    }
}

/// The open regions after the trace, issued while `open` were open,
/// innermost last; `None` if some call of it was not allowed where it came.
pub open spec fn regions_after(open: Seq<Region>, trace: Seq<Call>) -> Option<Seq<Region>>
    decreases trace.len(),
{
    if trace.len() == 0 {
        Some(open)
    } else {
        match regions_after(open, trace.drop_last()) {
            Some(before_last) => step(before_last, trace.last()),
            None => None,
        }
    }
}

/// The open regions after the trace, issued from the start, where no region
/// is open.
pub open spec fn open_regions(trace: Seq<Call>) -> Option<Seq<Region>> {
    regions_after(Seq::empty(), trace)
}

/// Every call of the trace, issued while `before` were open, was allowed, and
/// the trace leaves exactly `after` open.
pub open spec fn leads(before: Seq<Region>, trace: Seq<Call>, after: Seq<Region>) -> bool {
    regions_after(before, trace) matches Some(left) && left =~= after
}

/// Every call of the trace, issued while `open` were open, was allowed, and
/// every region that the trace opened it closed again: it leaves `open` as it
/// found them.
pub open spec fn nested_inside(open: Seq<Region>, trace: Seq<Call>) -> bool {
    leads(open, trace, open)
}

/// The trace is a whole frame: issued from the start, every call of it was
/// allowed and no region is left open.
pub open spec fn well_nested(trace: Seq<Call>) -> bool {
    nested_inside(Seq::empty(), trace)
}

/// Issuing one more call takes one more step.
pub proof fn lemma_regions_after_push(open: Seq<Region>, trace: Seq<Call>, call: Call)
    ensures
        regions_after(open, trace.push(call)) == match regions_after(open, trace) {
            Some(before_last) => step(before_last, call),
            None => None,
        },
{
    assert(trace.push(call).drop_last() =~= trace);
}

/// A trace followed by another is read by reading the first and going on
/// with the second from the regions that the first leaves open.
pub proof fn lemma_regions_after_concat(open: Seq<Region>, first: Seq<Call>, second: Seq<Call>)
    ensures
        regions_after(open, first + second) == match regions_after(open, first) {
            Some(between) => regions_after(between, second),
            None => None,
        },
    decreases second.len(),
{
    if second.len() == 0 {
        assert(first + second =~= first);
    } else {
        let shorter = second.drop_last();
        lemma_regions_after_concat(open, first, shorter);
        assert((first + second).drop_last() =~= first + shorter);
        assert((first + second).last() == second.last());
    }
}

/// A region that is opened where it may be, filled with calls that are
/// nested inside it, and closed again, is nested where it was opened.
pub proof fn lemma_bracket_nested(
    open: Seq<Region>,
    begin: Call,
    body: Seq<Call>,
    end: Call,
)
    requires
        begin.needs() == innermost(open),
        begin.opens() is Some,
        end.closes(),
        end.needs() == begin.opens(),
        nested_inside(open.push(begin.opens().unwrap()), body),
    ensures
        nested_inside(open, seq![begin] + body + seq![end]),
{
    let region = begin.opens().unwrap();
    let inside = open.push(region);
    lemma_regions_after_push(open, Seq::empty(), begin);
    assert(Seq::<Call>::empty().push(begin) =~= seq![begin]);
    lemma_regions_after_concat(open, seq![begin], body);
    lemma_regions_after_push(open, seq![begin] + body, end);
    assert((seq![begin] + body).push(end) =~= seq![begin] + body + seq![end]);
    let left = regions_after(open, seq![begin] + body).unwrap();
    assert(left =~= inside);
    assert(inside.drop_last() =~= open);
}

/// A trace that goes wrong stays wrong, whatever follows.
pub proof fn lemma_refused_stays_refused(open: Seq<Region>, first: Seq<Call>, second: Seq<Call>)
    requires
        regions_after(open, first) is None,
    ensures
        regions_after(open, first + second) is None,
{
    lemma_regions_after_concat(open, first, second);
}

/// Takes one step: issues `call` while `open` are open. Where the call is
/// allowed, `open` becomes the regions open after it; where it is not, `open`
/// stays as it was.
pub fn advance(open: &mut Vec<Region>, call: &Call) -> (allowed: bool)
    ensures
        allowed == step(old(open)@, *call).is_some(),
        allowed ==> step(old(open)@, *call) == Some(final(open)@),
        !allowed ==> final(open)@ == old(open)@,
{
    let top: Option<Region> = if open.len() == 0 {
        None
    } else {
        Some(open[open.len() - 1])
    };
    let fits = match (top, call.needed_region()) {
        (None, None) => true,
        (Some(have), Some(need)) => have == need,
        _ => false,
    };
    if !fits {
        return false;
    }
    match call.opened_region() {
        Some(region) => {
            open.push(region);
        },
        None => {
            if call.is_closing() {
                let closed = open.pop();
                assert(open@ =~= old(open)@.drop_last());
            }
        },
    }
    true
}

/// Reads a trace from the start. Gives the regions that it leaves open,
/// innermost last, or nothing where some call of it was not allowed.
pub fn regions_left_open(trace: &Vec<Call>) -> (left: Option<Vec<Region>>)
    ensures
        match left {
            Some(open) => open_regions(trace@) == Some(open@),
            None => open_regions(trace@) is None,
        },
{
    let mut open: Vec<Region> = Vec::new();
    let mut i: usize = 0;
    while i < trace.len()
        invariant
            i <= trace@.len(),
            regions_after(Seq::empty(), trace@.take(i as int)) == Some(open@),
        decreases trace@.len() - i,
    {
        let ghost read = trace@.take(i as int);
        proof {
            lemma_regions_after_push(Seq::empty(), read, trace@[i as int]);
            assert(read.push(trace@[i as int]) =~= trace@.take(i + 1));
        }
        let allowed = advance(&mut open, &trace[i]);
        if !allowed {
            proof {
                lemma_refused_stays_refused(
                    Seq::empty(),
                    trace@.take(i + 1),
                    trace@.skip(i + 1),
                );
                assert(trace@.take(i + 1) + trace@.skip(i + 1) =~= trace@);
            }
            return None;
        }
        i += 1;
    }
    proof {
        assert(trace@.take(i as int) =~= trace@);
    }
    Some(open)
}

/// Whether the trace is a whole frame: every call allowed where it came, and
/// no region left open.
pub fn is_well_nested(trace: &Vec<Call>) -> (r: bool)
    ensures
        r == well_nested(trace@),
{
    match regions_left_open(trace) {
        Some(open) => open.len() == 0,
        None => false,
    }
}

} // verus!

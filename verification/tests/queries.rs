use node_scopes::calls::{Call, EditorContext};
use node_scopes::hover::Hoverable;
use node_scopes::ids::{
    AnyPin, AttributeId, InputPinId, Link, LinkId, NodeId, OutputPinId, PinId, PinShape,
};
use node_scopes::replies::{DropReply, HoverReply, IdReply, LinkReply, NO_ID};
use node_scopes::scopes::{editor, ScopeNone};

fn nothing() -> IdReply {
    IdReply { found: false, id: -1 }
}

fn found(id: i32) -> IdReply {
    IdReply { found: true, id }
}

fn no_link() -> LinkReply {
    LinkReply {
        found: false,
        start_node: -1,
        start_pin: -1,
        end_node: -1,
        end_pin: -1,
        created_from_snap: true,
    }
}

#[test]
fn reserved_number_is_minus_one() {
    assert_eq!(NO_ID, -1);
}

#[test]
fn answer_that_found_nothing_reads_as_none() {
    let scope = ScopeNone::new();
    assert_eq!(nothing().read(), None);
    assert_eq!(scope.get_dropped_link(nothing()), None);
    assert_eq!(scope.get_hovered_pin(nothing()), None);
    assert_eq!(scope.get_hovered_link(nothing()), None);
    assert_eq!(scope.get_active_attribute(nothing()), None);
    assert_eq!(scope.from_where_link_started(nothing()), None);
    assert_eq!(scope.links_created(no_link()), None);
}

#[test]
fn reserved_number_is_never_handed_out() {
    let scope = ScopeNone::new();
    assert_eq!(found(-1).read(), None);
    assert_eq!(scope.get_hovered_pin(found(-1)), None);
    assert_eq!(scope.get_hovered_link(found(-1)), None);
    assert_eq!(scope.get_dropped_link(found(-1)), None);
    assert_eq!(scope.get_active_attribute(found(-1)), None);
    assert_eq!(scope.from_where_link_started(found(-1)), None);
}

#[test]
fn unset_flag_wins_over_a_number() {
    let scope = ScopeNone::new();
    let stale = IdReply { found: false, id: 12 };
    assert_eq!(stale.read(), None);
    assert_eq!(scope.get_hovered_pin(stale), None);
    assert_eq!(scope.get_active_attribute(stale), None);
}

#[test]
fn answer_that_found_an_element_reads_as_its_identifier() {
    let scope = ScopeNone::new();
    assert_eq!(found(0).read(), Some(0));
    assert_eq!(found(i32::MIN).read(), Some(i32::MIN));
    assert_eq!(scope.get_dropped_link(found(3)), Some(LinkId { id: 3 }));
    assert_eq!(scope.get_hovered_pin(found(4)), Some(PinId { id: 4 }));
    assert_eq!(scope.get_hovered_link(found(5)), Some(LinkId { id: 5 }));
    assert_eq!(
        scope.get_active_attribute(found(6)),
        Some(AttributeId { id: 6 })
    );
    assert_eq!(scope.from_where_link_started(found(7)), Some(PinId { id: 7 }));
    assert_eq!(scope.get_hovered_pin(found(-2)), Some(PinId { id: -2 }));
}

#[test]
fn drawn_link_is_reported_with_its_four_ends() {
    let scope = editor(&EditorContext { handle: 1 }, |e| {
        let e = e.node(NodeId { id: 1 }, |n| {
            n.add_output(OutputPinId { id: 11 }, PinShape::Circle, || {})
        });
        e.node(NodeId { id: 2 }, |n| {
            n.add_input(InputPinId { id: 22 }, PinShape::Circle, || {})
        })
    });
    let dragged = LinkReply {
        found: true,
        start_node: 1,
        start_pin: 11,
        end_node: 2,
        end_pin: 22,
        created_from_snap: false,
    };
    assert_eq!(
        scope.links_created(dragged),
        Some(Link {
            start_node: NodeId { id: 1 },
            end_node: NodeId { id: 2 },
            start_pin: OutputPinId { id: 11 },
            end_pin: InputPinId { id: 22 },
            created_from_snap: false,
        })
    );
}

#[test]
fn snapped_link_keeps_its_flag() {
    let scope = ScopeNone::new();
    let snapped = LinkReply {
        found: true,
        start_node: 1,
        start_pin: 2,
        end_node: 3,
        end_pin: 4,
        created_from_snap: true,
    };
    let link = scope.links_created(snapped).unwrap();
    assert!(link.created_from_snap);
    assert_eq!(link.start_pin, OutputPinId { id: 2 });
    assert_eq!(link.end_pin, InputPinId { id: 4 });
}

#[test]
fn declared_link_is_not_reported_as_drawn() {
    let scope = editor(&EditorContext { handle: 1 }, |e| {
        let e = e.node(NodeId { id: 1 }, |n| {
            n.add_input(InputPinId { id: 1 }, PinShape::Circle, || {})
                .add_output(OutputPinId { id: 2 }, PinShape::Circle, || {})
        });
        e.add_link(LinkId { id: 9 }, InputPinId { id: 1 }, OutputPinId { id: 2 })
    });
    assert!(scope.calls().contains(&Call::Link(
        LinkId { id: 9 },
        InputPinId { id: 1 },
        OutputPinId { id: 2 }
    )));
    assert_eq!(scope.links_created(no_link()), None);
}

#[test]
fn link_with_a_missing_end_is_no_link() {
    let scope = ScopeNone::new();
    let whole = LinkReply {
        found: true,
        start_node: 1,
        start_pin: 2,
        end_node: 3,
        end_pin: 4,
        created_from_snap: false,
    };
    assert!(scope.links_created(whole).is_some());
    assert_eq!(scope.links_created(LinkReply { found: false, ..whole }), None);
    assert_eq!(scope.links_created(LinkReply { start_node: -1, ..whole }), None);
    assert_eq!(scope.links_created(LinkReply { start_pin: -1, ..whole }), None);
    assert_eq!(scope.links_created(LinkReply { end_node: -1, ..whole }), None);
    assert_eq!(scope.links_created(LinkReply { end_pin: -1, ..whole }), None);
}

#[test]
fn hover_is_asked_of_the_answer_for_the_element_kind() {
    let scope = ScopeNone::new();
    let hover = HoverReply {
        node: found(1),
        pin: found(2),
        link: found(3),
    };
    assert!(scope.is_hovered(NodeId { id: 1 }, &hover));
    assert!(!scope.is_hovered(NodeId { id: 2 }, &hover));
    assert!(scope.is_hovered(PinId { id: 2 }, &hover));
    assert!(scope.is_hovered(InputPinId { id: 2 }, &hover));
    assert!(scope.is_hovered(OutputPinId { id: 2 }, &hover));
    assert!(!scope.is_hovered(OutputPinId { id: 1 }, &hover));
    assert!(scope.is_hovered(LinkId { id: 3 }, &hover));
    assert!(!scope.is_hovered(LinkId { id: 1 }, &hover));
    assert!(NodeId { id: 1 }.is_hovered(&scope, &hover));
}

#[test]
fn nothing_is_hovered_when_nothing_was_found() {
    let scope = ScopeNone::new();
    let hover = HoverReply {
        node: nothing(),
        pin: nothing(),
        link: IdReply { found: false, id: 3 },
    };
    assert!(!scope.is_hovered(NodeId { id: -1 }, &hover));
    assert!(!scope.is_hovered(PinId { id: -1 }, &hover));
    assert!(!scope.is_hovered(LinkId { id: 3 }, &hover));
}

#[test]
fn link_start_is_compared_by_pin_number() {
    let scope = ScopeNone::new();
    assert!(scope.link_started_at(PinId { id: 4 }, found(4)));
    assert!(scope.link_started_at(InputPinId { id: 4 }, found(4)));
    assert!(scope.link_started_at(OutputPinId { id: 4 }, found(4)));
    assert!(!scope.link_started_at(OutputPinId { id: 5 }, found(4)));
    assert!(!scope.link_started_at(PinId { id: 4 }, nothing()));
    assert!(!scope.link_started_at(PinId { id: -1 }, nothing()));
}

#[test]
fn dropped_link_is_asked_with_or_without_detached_links() {
    let scope = ScopeNone::new();
    let detached_only = DropReply {
        dragged: nothing(),
        dragged_or_detached: found(8),
    };
    assert_eq!(
        scope.from_where_link_dropped(true, &detached_only),
        Some(PinId { id: 8 })
    );
    assert_eq!(scope.from_where_link_dropped(false, &detached_only), None);
    assert!(scope.link_dropped_from(OutputPinId { id: 8 }, true, &detached_only));
    assert!(!scope.link_dropped_from(OutputPinId { id: 8 }, false, &detached_only));
    assert!(!scope.link_dropped_from(OutputPinId { id: 9 }, true, &detached_only));

    let dragged = DropReply {
        dragged: found(8),
        dragged_or_detached: found(8),
    };
    assert!(scope.link_dropped_from(PinId { id: 8 }, false, &dragged));
    assert!(scope.link_dropped_from(InputPinId { id: 8 }, true, &dragged));
}

#[test]
fn selection_has_as_many_elements_as_were_counted() {
    let scope = ScopeNone::new();
    let count = scope.num_selected_nodes(3);
    assert_eq!(count, 3);
    let mut buffer = scope.selection_buffer(count);
    assert_eq!(buffer, vec![0, 0, 0]);
    buffer.copy_from_slice(&[30, 10, 20]);
    assert_eq!(
        scope.selected_nodes(count, &buffer),
        vec![NodeId { id: 30 }, NodeId { id: 10 }, NodeId { id: 20 }]
    );

    let count = scope.num_selected_links(1);
    assert_eq!(count, 1);
    let buffer = vec![-5];
    assert_eq!(scope.selected_links(count, &buffer), vec![LinkId { id: -5 }]);
}

#[test]
fn count_of_nothing_selected_is_zero() {
    let scope = ScopeNone::new();
    assert_eq!(scope.num_selected_nodes(0), 0);
    assert_eq!(scope.num_selected_links(0), 0);
    assert_eq!(scope.num_selected_nodes(i32::MAX), 2147483647);
}

#[test]
fn editor_scope_reads_its_own_answers() {
    let mut active = None;
    let mut hovered = false;
    let mut idle = true;
    editor(&EditorContext { handle: 1 }, |e| {
        active = e.get_active_attribute(found(6));
        hovered = e.is_hovered(true);
        idle = e.get_active_attribute(nothing()).is_none() && !e.is_hovered(false);
        e
    });
    assert_eq!(active, Some(AttributeId { id: 6 }));
    assert!(hovered);
    assert!(idle);
}

#[test]
fn pins_of_both_directions_convert_to_a_pin() {
    assert_eq!(PinId::from(InputPinId { id: 3 }), PinId { id: 3 });
    assert_eq!(PinId::from(OutputPinId { id: 4 }), PinId { id: 4 });
    let pin: PinId = InputPinId { id: 5 }.into();
    assert_eq!(pin, PinId { id: 5 });
    assert_eq!(OutputPinId { id: 6 }.to_pin(), PinId { id: 6 });
    assert_eq!(PinId { id: 7 }.to_pin(), PinId { id: 7 });
    assert_ne!(InputPinId { id: 1 }.to_pin(), InputPinId { id: 2 }.to_pin());
}

#[test]
fn each_shape_has_its_own_code() {
    assert_eq!(PinShape::Circle.code(), 0);
    assert_eq!(PinShape::CircleFilled.code(), 1);
    assert_eq!(PinShape::Triangle.code(), 2);
    assert_eq!(PinShape::TriangleFilled.code(), 3);
    assert_eq!(PinShape::Quad.code(), 4);
    assert_eq!(PinShape::QuadFilled.code(), 5);
}

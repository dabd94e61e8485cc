//! The configuration API: framing, routing, tag operations and the
//! layout service.

use pinnacle::api::layout::{LayoutDecision, LayoutRequestBody, LayoutService, WindowGeometry};
use pinnacle::api::msg::{
    frame_message, make_request, parse_frame_len, route_incoming, CallbackId, IncomingMsg, Layout,
    Msg, Request, RequestId, RequestResponse, Route, TagId,
};
use pinnacle::api::tag::{OutputHandle, Pinnacle as ApiPinnacle, Tag, TagHandle, TagProperties};
use pinnacle::geometry::{Point, Rect, Size};
use pinnacle::output::OutputName;

#[test]
fn framing_round_trips() {
    let payload: Vec<u8> = vec![1, 2, 3, 4, 5];
    let framed = frame_message(&payload);
    assert_eq!(framed.len(), 9);
    assert_eq!(&framed[0..4], &[5, 0, 0, 0]);
    assert_eq!(&framed[4..], &payload[..]);
    assert_eq!(parse_frame_len(&framed), Some(5));
}

#[test]
fn framing_encodes_length_little_endian() {
    let payload: Vec<u8> = vec![0; 0x0102_0304];
    let framed = frame_message(&payload);
    assert_eq!(&framed[0..4], &[0x04, 0x03, 0x02, 0x01]);
}

#[test]
fn short_header_has_no_length() {
    assert_eq!(parse_frame_len(&vec![1, 2, 3]), None);
}

#[test]
fn routing_without_outstanding_request_delivers() {
    let msg = IncomingMsg::CallCallback {
        callback_id: CallbackId(3),
        args: None,
    };
    assert_eq!(route_incoming(&msg, None), Route::Deliver);
}

#[test]
fn routing_stashes_everything_but_the_awaited_answer() {
    let waiting = Some(RequestId(7));
    let cb = IncomingMsg::CallCallback {
        callback_id: CallbackId(3),
        args: Some(vec![1]),
    };
    assert_eq!(route_incoming(&cb, waiting), Route::StashCallback(CallbackId(3)));

    let other = IncomingMsg::RequestResponse {
        request_id: RequestId(8),
        response: RequestResponse::Tags {
            tag_ids: Vec::new(),
        },
    };
    assert_eq!(route_incoming(&other, waiting), Route::StashRequest(RequestId(8)));

    let mine = IncomingMsg::RequestResponse {
        request_id: RequestId(7),
        response: RequestResponse::Tags {
            tag_ids: Vec::new(),
        },
    };
    assert_eq!(route_incoming(&mine, waiting), Route::Deliver);
}

#[test]
fn request_messages_carry_their_id() {
    let m = make_request(5, Request::GetTags);
    assert_eq!(
        m,
        Msg::Request {
            request_id: RequestId(5),
            request: Request::GetTags
        }
    );
}

fn props(name: &str, output: &str, active: bool) -> TagProperties {
    TagProperties {
        active: Some(active),
        name: Some(name.to_string()),
        output: Some(OutputHandle(OutputName(output.to_string()))),
    }
}

#[test]
fn tag_get_finds_first_match_on_requested_output() {
    let tags = vec![
        (TagId::Id(1), props("web", "DP-1", true)),
        (TagId::Id(2), props("code", "HDMI-A-1", false)),
        (TagId::Id(3), props("code", "HDMI-A-1", true)),
    ];
    let target = OutputHandle(OutputName("HDMI-A-1".to_string()));
    let r = Tag.get("code", Some(&target), None, &tags);
    assert_eq!(r, Some(TagHandle(TagId::Id(2))));
}

#[test]
fn tag_get_falls_back_to_focused_output() {
    let tags = vec![(TagId::Id(4), props("mail", "eDP-1", true))];
    let focused = OutputHandle(OutputName("eDP-1".to_string()));
    assert_eq!(
        Tag.get("mail", None, Some(&focused), &tags),
        Some(TagHandle(TagId::Id(4)))
    );
    // Without any output to filter by, nothing matches.
    assert_eq!(Tag.get("mail", None, None, &tags), None);
}

#[test]
fn tag_get_all_unwraps_the_response() {
    let response = RequestResponse::Tags {
        tag_ids: vec![TagId::Id(1), TagId::Unset, TagId::Id(9)],
    };
    let handles = Tag.get_all(&response);
    assert_eq!(
        handles,
        vec![
            TagHandle(TagId::Id(1)),
            TagHandle(TagId::Unset),
            TagHandle(TagId::Id(9))
        ]
    );
}

#[test]
fn tag_add_builds_the_message() {
    let output = OutputHandle(OutputName("DP-2".to_string()));
    let names = vec!["one".to_string(), "two".to_string()];
    let m = Tag.add(&output, &names);
    assert_eq!(
        m,
        Msg::AddTags {
            output_name: "DP-2".to_string(),
            tag_names: names
        }
    );
}

#[test]
fn tag_handle_messages() {
    let h = TagHandle(TagId::Id(6));
    assert_eq!(h.toggle(), Msg::ToggleTag { tag_id: TagId::Id(6) });
    assert_eq!(h.switch_to(), Msg::SwitchToTag { tag_id: TagId::Id(6) });
    assert_eq!(
        h.set_layout(Layout::Dwindle),
        Msg::SetLayout {
            tag_id: TagId::Id(6),
            layout: Layout::Dwindle
        }
    );
    assert_eq!(
        h.properties_request(),
        Request::GetTagProps {
            tag_id: TagId::Id(6)
        }
    );
}

#[test]
fn tag_properties_parse_the_response() {
    let response = RequestResponse::TagProps {
        active: Some(true),
        name: Some("web".to_string()),
        output_name: Some("DP-1".to_string()),
    };
    let p = TagHandle(TagId::Id(1)).properties(&response);
    assert_eq!(p.active, Some(true));
    assert_eq!(p.name, Some("web".to_string()));
    assert_eq!(
        p.output,
        Some(OutputHandle(OutputName("DP-1".to_string())))
    );
}

#[test]
fn quit_message() {
    let pinnacle = ApiPinnacle { tag: Tag };
    assert_eq!(pinnacle.quit(), Msg::Quit);
}

#[test]
fn layout_cycler_wraps_forward_and_backward() {
    let layouts = vec![Layout::MasterStack, Layout::Dwindle, Layout::Spiral];
    let mut cycler = Tag.layout_cycler(&layouts);
    let tag = TagId::Id(1);

    // First step moves off the initial position.
    assert_eq!(
        cycler.next(tag),
        Msg::SetLayout {
            tag_id: tag,
            layout: Layout::Dwindle
        }
    );
    assert_eq!(
        cycler.next(tag),
        Msg::SetLayout {
            tag_id: tag,
            layout: Layout::Spiral
        }
    );
    // Wrap around at the end.
    assert_eq!(
        cycler.next(tag),
        Msg::SetLayout {
            tag_id: tag,
            layout: Layout::MasterStack
        }
    );
    // Backward wraps at the start.
    assert_eq!(
        cycler.prev(tag),
        Msg::SetLayout {
            tag_id: tag,
            layout: Layout::Spiral
        }
    );
}

#[test]
fn layout_cycler_tracks_tags_independently() {
    let layouts = vec![Layout::MasterStack, Layout::Dwindle];
    let mut cycler = Tag.layout_cycler(&layouts);
    cycler.next(TagId::Id(1));
    // A different tag starts from its own position.
    assert_eq!(
        cycler.prev(TagId::Id(2)),
        Msg::SetLayout {
            tag_id: TagId::Id(2),
            layout: Layout::Dwindle
        }
    );
}

fn compositor_with_output(name: &str) -> pinnacle::state::Pinnacle {
    pinnacle::state::Pinnacle {
        outputs: vec![pinnacle::output::Output {
            name: OutputName(name.to_string()),
            device_id: 1,
            crtc: 1,
            make: String::new(),
            model: String::new(),
            physical_size: Size { w: 0, h: 0 },
            transform: pinnacle::output::Transform::Normal,
            current_mode: None,
            preferred_mode: None,
            scale_millis: 1000,
            loc: Point { x: 0, y: 0 },
            mapped: true,
            state: pinnacle::output::OutputState::new(),
        }],
        config: pinnacle::state::Config {
            connector_saved_states: Vec::new(),
        },
        lock_state: pinnacle::state::LockState::Unlocked,
    }
}

#[test]
fn layout_service_dispatches_requests() {
    let compositor = compositor_with_output("HDMI-A-1");
    let mut service = LayoutService::new();

    let geos = vec![WindowGeometry {
        window_id: 1,
        geo: Rect {
            loc: Point { x: 0, y: 0 },
            size: Size { w: 800, h: 600 },
        },
    }];
    match service.handle_request(
        &compositor,
        LayoutRequestBody::Geometries(geos.clone()),
        None,
    ) {
        LayoutDecision::ApplyGeometries(g) => assert_eq!(g, geos),
        other => panic!("unexpected decision {:?}", decision_name(&other)),
    }

    // An explicit layout resolves its output by name.
    let d = service.handle_request(
        &compositor,
        LayoutRequestBody::ExplicitLayout(Some("HDMI-A-1".to_string())),
        None,
    );
    assert!(matches!(d, LayoutDecision::RequestLayout(0)));

    // An unknown name falls back to the focused output.
    let d = service.handle_request(
        &compositor,
        LayoutRequestBody::ExplicitLayout(Some("DP-9".to_string())),
        Some(0),
    );
    assert!(matches!(d, LayoutDecision::RequestLayout(0)));

    // With nothing to resolve, the request is ignored.
    let d = service.handle_request(&compositor, LayoutRequestBody::ExplicitLayout(None), None);
    assert!(matches!(d, LayoutDecision::Ignored));
    assert_eq!(service.handled, 4);
}

fn decision_name(d: &LayoutDecision) -> &'static str {
    match d {
        LayoutDecision::ApplyGeometries(_) => "ApplyGeometries",
        LayoutDecision::RequestLayout(_) => "RequestLayout",
        LayoutDecision::Ignored => "Ignored",
    }
}

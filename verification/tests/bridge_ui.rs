use gui_nvim::bridge::ui::{parse_redraw, GridCell, RedrawEvent};
use gui_nvim::bridge::value::MsgValue;
use gui_nvim::editor::{Color, CursorShape};

fn s(x: &str) -> MsgValue {
    MsgValue::Str(x.to_string())
}

fn u(x: u64) -> MsgValue {
    MsgValue::UInt(x)
}

/// A signed integer as MessagePack stores it: by sign.
fn i(x: i64) -> MsgValue {
    if x < 0 {
        MsgValue::NInt(x)
    } else {
        MsgValue::UInt(x as u64)
    }
}

fn b(x: bool) -> MsgValue {
    MsgValue::Boolean(x)
}

fn arr(v: Vec<MsgValue>) -> MsgValue {
    MsgValue::Array(v)
}

fn map(v: Vec<(MsgValue, MsgValue)>) -> MsgValue {
    MsgValue::Mapping(v)
}

fn make_grid_resize_event(grid: u64, width: u64, height: u64) -> Vec<MsgValue> {
    vec![arr(vec![s("grid_resize"), arr(vec![u(grid), u(width), u(height)])])]
}

#[test]
fn test_parse_grid_resize() {
    let args = make_grid_resize_event(1, 80, 24);
    let events = parse_redraw(args);

    assert_eq!(events.len(), 1);
    assert_eq!(events[0], RedrawEvent::GridResize { grid: 1, width: 80, height: 24 });
}

#[test]
fn test_parse_grid_clear() {
    let args = vec![arr(vec![s("grid_clear"), arr(vec![u(1)])])];
    let events = parse_redraw(args);

    assert_eq!(events.len(), 1);
    assert_eq!(events[0], RedrawEvent::GridClear { grid: 1 });
}

#[test]
fn test_parse_grid_line() {
    let args = vec![arr(vec![
        s("grid_line"),
        arr(vec![
            u(1), // grid
            u(0), // row
            u(0), // col_start
            arr(vec![
                // cells
                arr(vec![s("H"), u(1)]),
                arr(vec![s("i")]), // hl_id inherited
                arr(vec![s(" "), u(0), u(3)]), // repeat 3
            ]),
        ]),
    ])];
    let events = parse_redraw(args);

    assert_eq!(events.len(), 1);
    if let RedrawEvent::GridLine { grid, row, col_start, cells } = &events[0] {
        assert_eq!(*grid, 1);
        assert_eq!(*row, 0);
        assert_eq!(*col_start, 0);
        assert_eq!(cells.len(), 3);
        assert_eq!(cells[0].text, "H");
        assert_eq!(cells[0].hl_id, Some(1));
        assert_eq!(cells[0].repeat, 1);
        assert_eq!(cells[1].text, "i");
        assert_eq!(cells[1].hl_id, None); // inherited
        assert_eq!(cells[2].text, " ");
        assert_eq!(cells[2].hl_id, Some(0));
        assert_eq!(cells[2].repeat, 3);
    } else {
        panic!("Expected GridLine event");
    }
}

#[test]
fn test_parse_grid_scroll() {
    let args = vec![arr(vec![
        s("grid_scroll"),
        arr(vec![
            u(1),  // grid
            u(0),  // top
            u(24), // bot
            u(0),  // left
            u(80), // right
            i(1),  // rows (positive = scroll up)
        ]),
    ])];
    let events = parse_redraw(args);

    assert_eq!(events.len(), 1);
    assert_eq!(events[0], RedrawEvent::GridScroll { grid: 1, top: 0, bot: 24, left: 0, right: 80, rows: 1 });
}

#[test]
fn test_parse_grid_cursor_goto() {
    let args = vec![arr(vec![s("grid_cursor_goto"), arr(vec![u(1), u(10), u(5)])])];
    let events = parse_redraw(args);

    assert_eq!(events.len(), 1);
    assert_eq!(events[0], RedrawEvent::GridCursorGoto { grid: 1, row: 10, col: 5 });
}

#[test]
fn test_parse_hl_attr_define() {
    let rgb_attrs = vec![
        (s("foreground"), u(0xFF0000)),
        (s("background"), u(0x00FF00)),
        (s("bold"), b(true)),
        (s("italic"), b(true)),
    ];

    let args = vec![arr(vec![
        s("hl_attr_define"),
        arr(vec![
            u(1),
            map(rgb_attrs),
            map(vec![]), // cterm attrs (ignored)
            arr(vec![]), // info (ignored)
        ]),
    ])];
    let events = parse_redraw(args);

    assert_eq!(events.len(), 1);
    if let RedrawEvent::HlAttrDefine { id, attrs } = &events[0] {
        assert_eq!(*id, 1);
        assert_eq!(attrs.foreground, Some(Color::from_u24(0xFF0000)));
        assert_eq!(attrs.background, Some(Color::from_u24(0x00FF00)));
        assert!(attrs.is_bold());
        assert!(attrs.is_italic());
    } else {
        panic!("Expected HlAttrDefine event");
    }
}

#[test]
fn test_parse_default_colors_set() {
    let args = vec![arr(vec![
        s("default_colors_set"),
        arr(vec![
            u(0xFFFFFF), // fg
            u(0x000000), // bg
            u(0xFF0000), // sp
            i(-1),       // cterm_fg (ignored)
            i(-1),       // cterm_bg (ignored)
        ]),
    ])];
    let events = parse_redraw(args);

    assert_eq!(events.len(), 1);
    assert_eq!(events[0], RedrawEvent::DefaultColorsSet { fg: 0xFFFFFF, bg: 0x000000, sp: 0xFF0000 });
}

#[test]
fn test_parse_mode_info_set() {
    let mode_attrs = vec![(s("cursor_shape"), s("vertical")), (s("cell_percentage"), u(25)), (s("attr_id"), u(0))];

    let args = vec![arr(vec![
        s("mode_info_set"),
        arr(vec![
            b(true), // cursor_style_enabled
            arr(vec![map(mode_attrs)]),
        ]),
    ])];
    let events = parse_redraw(args);

    assert_eq!(events.len(), 1);
    if let RedrawEvent::ModeInfoSet { cursor_style_enabled, modes } = &events[0] {
        assert!(*cursor_style_enabled);
        assert_eq!(modes.len(), 1);
        assert_eq!(modes[0].cursor_shape, CursorShape::Vertical);
        assert_eq!(modes[0].cell_percentage, 25);
    } else {
        panic!("Expected ModeInfoSet event");
    }
}

#[test]
fn test_parse_mode_change() {
    let args = vec![arr(vec![s("mode_change"), arr(vec![s("insert"), u(1)])])];
    let events = parse_redraw(args);

    assert_eq!(events.len(), 1);
    assert_eq!(events[0], RedrawEvent::ModeChange { mode: "insert".to_string(), mode_idx: 1 });
}

#[test]
fn test_parse_flush() {
    let args = vec![arr(vec![s("flush"), arr(vec![])])];
    let events = parse_redraw(args);

    assert_eq!(events.len(), 1);
    assert_eq!(events[0], RedrawEvent::Flush);
}

#[test]
fn test_parse_set_title() {
    let args = vec![arr(vec![s("set_title"), arr(vec![s("My Title")])])];
    let events = parse_redraw(args);

    assert_eq!(events.len(), 1);
    assert_eq!(events[0], RedrawEvent::SetTitle { title: "My Title".to_string() });
}

#[test]
fn test_parse_multiple_events_in_batch() {
    let args = vec![arr(vec![s("grid_resize"), arr(vec![u(1), u(80), u(24)]), arr(vec![u(2), u(40), u(10)])])];
    let events = parse_redraw(args);

    assert_eq!(events.len(), 2);
    assert_eq!(events[0], RedrawEvent::GridResize { grid: 1, width: 80, height: 24 });
    assert_eq!(events[1], RedrawEvent::GridResize { grid: 2, width: 40, height: 10 });
}

#[test]
fn test_parse_empty_args() {
    let events = parse_redraw(vec![]);
    assert!(events.is_empty());
}

#[test]
fn test_parse_unknown_event() {
    let args = vec![arr(vec![s("unknown_event"), arr(vec![u(1)])])];
    let events = parse_redraw(args);

    assert!(events.is_empty());
}

#[test]
fn test_parse_busy_events() {
    let args = vec![arr(vec![s("busy_start"), arr(vec![])]), arr(vec![s("busy_stop"), arr(vec![])])];
    let events = parse_redraw(args);

    assert_eq!(events.len(), 2);
    assert_eq!(events[0], RedrawEvent::Busy { busy: true });
    assert_eq!(events[1], RedrawEvent::Busy { busy: false });
}

#[test]
fn ui_bad_arguments_are_skipped() {
    let args = vec![
        // too few arguments
        arr(vec![s("grid_resize"), arr(vec![u(1), u(2)])]),
        // a negative width
        arr(vec![s("grid_resize"), arr(vec![u(1), i(-3), u(2)])]),
        // a batch whose name is no string, and a value that is no batch
        arr(vec![u(5), arr(vec![u(1)])]),
        u(3),
        // argument lists that are no arrays are skipped, the others kept
        arr(vec![s("grid_clear"), u(9), arr(vec![u(4)])]),
    ];
    let events = parse_redraw(args);
    assert_eq!(events, vec![RedrawEvent::GridClear { grid: 4 }]);
}

#[test]
fn ui_grid_line_skips_zero_repeat_and_defaults_text() {
    let args = vec![arr(vec![
        s("grid_line"),
        arr(vec![
            u(1),
            u(2),
            u(3),
            arr(vec![arr(vec![s("a"), u(1), u(0)]), arr(vec![]), u(7), arr(vec![u(9), u(4), s("x")])]),
        ]),
    ])];
    let events = parse_redraw(args);
    let expected = vec![RedrawEvent::GridLine {
        grid: 1,
        row: 2,
        col_start: 3,
        cells: vec![GridCell { text: " ".to_string(), hl_id: Some(4), repeat: 1 }],
    }];
    assert_eq!(events, expected);
}

#[test]
fn ui_hl_attrs_all_fields() {
    let attrs = vec![
        (s("special"), u(0x123456)),
        (s("underline"), b(true)),
        (s("reverse"), b(true)),
        (s("strikethrough"), b(false)),
        (s("blend"), u(300)),
        (s("url"), s("https://example.com")),
        (u(1), b(true)),
    ];
    let events = parse_redraw(vec![arr(vec![s("hl_attr_define"), arr(vec![u(3), map(attrs)])])]);
    if let RedrawEvent::HlAttrDefine { id, attrs } = &events[0] {
        assert_eq!(*id, 3);
        assert_eq!(attrs.special, Some(Color::from_u24(0x123456)));
        assert_eq!(attrs.style.bits(), 0x004 | 0x100);
        assert_eq!(attrs.blend, 44); // cut to its low 8 bits
        assert_eq!(attrs.url.as_deref(), Some("https://example.com"));
        assert_eq!(attrs.foreground, None);
    } else {
        panic!("Expected HlAttrDefine event");
    }
}

#[test]
fn ui_mode_info_set_refuses_a_mode_that_is_no_table() {
    let args = vec![arr(vec![s("mode_info_set"), arr(vec![b(false), arr(vec![map(vec![]), u(1)])])])];
    assert!(parse_redraw(args).is_empty());
    let args = vec![arr(vec![
        s("mode_info_set"),
        arr(vec![u(0), arr(vec![map(vec![(s("cursor_shape"), s("horizontal")), (s("blinkon"), u(400))])])]),
    ])];
    let events = parse_redraw(args);
    if let RedrawEvent::ModeInfoSet { cursor_style_enabled, modes } = &events[0] {
        assert!(*cursor_style_enabled);
        assert_eq!(modes[0].cursor_shape, CursorShape::Horizontal);
        assert_eq!(modes[0].blink_on, 400);
    } else {
        panic!("Expected ModeInfoSet event");
    }
}

#[test]
fn ui_option_set_and_others() {
    let value = arr(vec![s("x"), MsgValue::Float64(1.5f64.to_bits()), MsgValue::Nil]);
    let args = vec![
        arr(vec![s("option_set"), arr(vec![s("guifont"), value.clone()])]),
        arr(vec![s("set_icon"), arr(vec![s("nvim")])]),
        arr(vec![s("hl_group_set"), arr(vec![s("Normal"), u(5)])]),
        arr(vec![s("grid_destroy"), arr(vec![u(2)])]),
        arr(vec![s("mouse_on"), arr(vec![])]),
        arr(vec![s("mouse_off"), arr(vec![])]),
    ];
    let events = parse_redraw(args);
    assert_eq!(
        events,
        vec![
            RedrawEvent::OptionSet { name: "guifont".to_string(), value },
            RedrawEvent::SetIcon { icon: "nvim".to_string() },
            RedrawEvent::HlGroupSet { name: "Normal".to_string(), id: 5 },
            RedrawEvent::GridDestroy { grid: 2 },
            RedrawEvent::MouseOn,
            RedrawEvent::MouseOff,
        ]
    );
}

//! Decoding of Neovim's `redraw` notifications into UI events.

use vstd::prelude::*;
use vstd::string::*;

use super::value::{
    as_bool, as_i64, as_str, as_u32, as_u64, as_usize, copy_value, key_str, key_text, same_value, text_is,
    value_bool, value_i64, value_str, value_u32, value_u64, value_usize, MsgValue,
};
use crate::editor::highlight::{Color, HighlightAttributes, StyleFlags};
use crate::editor::state::{CursorShape, ModeInfo};

verus! {

/// One event of a `redraw` notification.
#[derive(Debug, Clone, PartialEq)]
pub enum RedrawEvent {
    GridResize { grid: u64, width: usize, height: usize },
    GridClear { grid: u64 },
    GridLine { grid: u64, row: usize, col_start: usize, cells: Vec<GridCell> },
    GridScroll { grid: u64, top: usize, bot: usize, left: usize, right: usize, rows: i64 },
    GridCursorGoto { grid: u64, row: usize, col: usize },
    GridDestroy { grid: u64 },
    HlAttrDefine { id: u64, attrs: HighlightAttributes },
    HlGroupSet { name: String, id: u64 },
    DefaultColorsSet { fg: u32, bg: u32, sp: u32 },
    ModeInfoSet { cursor_style_enabled: bool, modes: Vec<ModeInfo> },
    ModeChange { mode: String, mode_idx: usize },
    SetTitle { title: String },
    SetIcon { icon: String },
    OptionSet { name: String, value: MsgValue },
    Flush,
    Busy { busy: bool },
    MouseOn,
    MouseOff,
}

/// One entry of a `grid_line` event: a text, its highlight id if given, and
/// how many cells it covers.
#[derive(Debug, Clone, PartialEq)]
pub struct GridCell {
    pub text: String,
    pub hl_id: Option<u64>,
    pub repeat: usize,
}

/// What a `grid_line` entry holds, with the text as characters.
pub struct GridCellView {
    pub text: Seq<char>,
    pub hl_id: Option<u64>,
    pub repeat: usize,
}

/// The entry that a `grid_line` cell gives: none for a value that is no
/// array, an empty array, or a repeat count of zero. A text that is no
/// string reads as a space; a missing highlight id is `None`; a missing or
/// invalid repeat count is one.
pub open spec fn cell_of(v: MsgValue) -> Option<GridCellView> {
    match v {
        MsgValue::Array(d) => if d@.len() == 0 {
            None
        } else {
            let text = match value_str(d@[0]) {
                Some(s) => s,
                None => " "@,
            };
            let hl_id = if d@.len() > 1 {
                value_u64(d@[1])
            } else {
                None
            };
            let repeat: usize = if d@.len() > 2 {
                match value_usize(d@[2]) {
                    Some(r) => r,
                    None => 1,
                }
            } else {
                1
            };
            if repeat == 0 {
                None
            } else {
                Some(GridCellView { text, hl_id, repeat })
            }
        },
        _ => None,
    }
}

/// The entries of a `grid_line` event, in order, skipping the values that
/// give none.
pub open spec fn cells_of(vs: Seq<MsgValue>) -> Seq<GridCellView>
    decreases vs.len(),
{
    if vs.len() == 0 {
        Seq::empty()
    } else {
        match cell_of(vs.last()) {
            Some(c) => cells_of(vs.drop_last()).push(c),
            None => cells_of(vs.drop_last()),
        }
    }
}

/// The decoded entries are those that `views` describes.
pub open spec fn cells_match(cells: Seq<GridCell>, views: Seq<GridCellView>) -> bool {
    &&& cells.len() == views.len()
    &&& forall|i: int|
        0 <= i < cells.len() ==> (#[trigger] cells[i]).text@ == views[i].text && cells[i].hl_id
            == views[i].hl_id && cells[i].repeat == views[i].repeat
}

/// What a highlight definition holds, with the URL as characters.
pub struct HlAttrsView {
    pub foreground: Option<Color>,
    pub background: Option<Color>,
    pub special: Option<Color>,
    pub style: u16,
    pub blend: u8,
    pub url: Option<Seq<char>>,
}

/// The color that a 24-bit value sent by Neovim stands for.
pub open spec fn color_of_u24(rgb: u32) -> Color {
    Color(((rgb % 0x100_0000) * 0x100 + 0xFF) as u32)
}

/// The style bit that an attribute name sets, or 0 for a name that is no
/// style attribute.
pub open spec fn style_bit(key: Seq<char>) -> u16 {
    if key == "bold"@ {
        0x001
    } else if key == "italic"@ {
        0x002
    } else if key == "underline"@ {
        0x004
    } else if key == "undercurl"@ {
        0x008
    } else if key == "underdouble"@ {
        0x010
    } else if key == "underdotted"@ {
        0x020
    } else if key == "underdashed"@ {
        0x040
    } else if key == "strikethrough"@ {
        0x080
    } else if key == "reverse"@ {
        0x100
    } else if key == "altfont"@ {
        0x200
    } else {
        0
    }
}

/// A highlight definition after one of its attributes: a style attribute
/// sets its bit when true; colors, blend and URL are set when their value
/// has the right type; anything else is left alone.
pub open spec fn hl_entry(a: HlAttrsView, key: Seq<char>, value: MsgValue) -> HlAttrsView {
    if style_bit(key) != 0 {
        if value_bool(value) == Some(true) {
            HlAttrsView { style: a.style | style_bit(key), ..a }
        } else {
            a
        }
    } else if key == "foreground"@ {
        match value_u32(value) {
            Some(c) => HlAttrsView { foreground: Some(color_of_u24(c)), ..a },
            None => a,
        }
    } else if key == "background"@ {
        match value_u32(value) {
            Some(c) => HlAttrsView { background: Some(color_of_u24(c)), ..a },
            None => a,
        }
    } else if key == "special"@ {
        match value_u32(value) {
            Some(c) => HlAttrsView { special: Some(color_of_u24(c)), ..a },
            None => a,
        }
    } else if key == "blend"@ {
        match value_u64(value) {
            Some(b) => HlAttrsView { blend: b as u8, ..a },
            None => a,
        }
    } else if key == "url"@ {
        match value_str(value) {
            Some(u) => HlAttrsView { url: Some(u), ..a },
            None => a,
        }
    } else {
        a
    }
}

/// The highlight definition that a table of attributes gives, later
/// entries over earlier ones, starting from nothing set.
pub open spec fn hl_attrs_of(entries: Seq<(MsgValue, MsgValue)>) -> HlAttrsView
    decreases entries.len(),
{
    if entries.len() == 0 {
        HlAttrsView { foreground: None, background: None, special: None, style: 0, blend: 0, url: None }
    } else {
        hl_entry(hl_attrs_of(entries.drop_last()), key_text(entries.last().0), entries.last().1)
    }
}

/// The decoded attributes are those that `v` describes.
pub open spec fn attrs_match(a: HighlightAttributes, v: HlAttrsView) -> bool {
    &&& a.foreground == v.foreground
    &&& a.background == v.background
    &&& a.special == v.special
    &&& a.style.0 == v.style
    &&& a.blend == v.blend
    &&& match (a.url, v.url) {
        (Some(u), Some(s)) => u@ == s,
        (None, None) => true,
        _ => false,
    }
}

/// The cursor shape a name stands for; unknown names are a block.
pub open spec fn shape_of(name: Seq<char>) -> CursorShape {
    if name == "horizontal"@ {
        CursorShape::Horizontal
    } else if name == "vertical"@ {
        CursorShape::Vertical
    } else {
        CursorShape::Block
    }
}

/// A mode after one of its attributes; attributes with a value of the wrong
/// type, and unknown ones, leave it alone (a shape that is no string is a
/// block).
pub open spec fn mode_entry(m: ModeInfo, key: Seq<char>, value: MsgValue) -> ModeInfo {
    if key == "cursor_shape"@ {
        ModeInfo {
            cursor_shape: match value_str(value) {
                Some(s) => shape_of(s),
                None => CursorShape::Block,
            },
            ..m
        }
    } else if key == "cell_percentage"@ {
        match value_u64(value) {
            Some(p) => ModeInfo { cell_percentage: p as u8, ..m },
            None => m,
        }
    } else if key == "attr_id"@ {
        match value_u64(value) {
            Some(id) => ModeInfo { attr_id: id, ..m },
            None => m,
        }
    } else if key == "blinkwait"@ {
        match value_u32(value) {
            Some(ms) => ModeInfo { blink_wait: ms, ..m },
            None => m,
        }
    } else if key == "blinkon"@ {
        match value_u32(value) {
            Some(ms) => ModeInfo { blink_on: ms, ..m },
            None => m,
        }
    } else if key == "blinkoff"@ {
        match value_u32(value) {
            Some(ms) => ModeInfo { blink_off: ms, ..m },
            None => m,
        }
    } else {
        m
    }
}

/// The mode that a table of attributes gives, later entries over earlier
/// ones, starting from the plain mode.
pub open spec fn mode_of(entries: Seq<(MsgValue, MsgValue)>) -> ModeInfo
    decreases entries.len(),
{
    if entries.len() == 0 {
        ModeInfo::plain()
    } else {
        mode_entry(mode_of(entries.drop_last()), key_text(entries.last().0), entries.last().1)
    }
}

/// The modes that a list of mode tables gives, or `None` when one of them
/// is no table.
pub open spec fn modes_of(list: Seq<MsgValue>) -> Option<Seq<ModeInfo>>
    decreases list.len(),
{
    if list.len() == 0 {
        Some(Seq::empty())
    } else {
        match (modes_of(list.drop_last()), list.last()) {
            (Some(ms), MsgValue::Mapping(t)) => Some(ms.push(mode_of(t@))),
            _ => None,
        }
    }
}

/// The event with one grid id, when the arguments give it.
pub open spec fn grid_id_of(args: Seq<MsgValue>) -> Option<u64> {
    if args.len() < 1 {
        None
    } else {
        value_u64(args[0])
    }
}

/// The `grid_resize` event that the arguments give.
pub open spec fn grid_resize_of(args: Seq<MsgValue>) -> Option<RedrawEvent> {
    if args.len() < 3 {
        None
    } else {
        match (value_u64(args[0]), value_usize(args[1]), value_usize(args[2])) {
            (Some(grid), Some(width), Some(height)) => Some(RedrawEvent::GridResize { grid, width, height }),
            _ => None,
        }
    }
}

/// The `grid_scroll` event that the arguments give.
pub open spec fn grid_scroll_of(args: Seq<MsgValue>) -> Option<RedrawEvent> {
    if args.len() < 6 {
        None
    } else {
        match (
            value_u64(args[0]),
            value_usize(args[1]),
            value_usize(args[2]),
            value_usize(args[3]),
            value_usize(args[4]),
            value_i64(args[5]),
        ) {
            (Some(grid), Some(top), Some(bot), Some(left), Some(right), Some(rows)) => Some(
                RedrawEvent::GridScroll { grid, top, bot, left, right, rows },
            ),
            _ => None,
        }
    }
}

/// The `grid_cursor_goto` event that the arguments give.
pub open spec fn grid_cursor_goto_of(args: Seq<MsgValue>) -> Option<RedrawEvent> {
    if args.len() < 3 {
        None
    } else {
        match (value_u64(args[0]), value_usize(args[1]), value_usize(args[2])) {
            (Some(grid), Some(row), Some(col)) => Some(RedrawEvent::GridCursorGoto { grid, row, col }),
            _ => None,
        }
    }
}

/// The `default_colors_set` event that the arguments give.
pub open spec fn default_colors_of(args: Seq<MsgValue>) -> Option<RedrawEvent> {
    if args.len() < 3 {
        None
    } else {
        match (value_u32(args[0]), value_u32(args[1]), value_u32(args[2])) {
            (Some(fg), Some(bg), Some(sp)) => Some(RedrawEvent::DefaultColorsSet { fg, bg, sp }),
            _ => None,
        }
    }
}

/// `r` is the `grid_line` event that the arguments give.
pub open spec fn grid_line_parsed(args: Seq<MsgValue>, r: Option<RedrawEvent>) -> bool {
    if args.len() < 4 {
        r is None
    } else {
        match (value_u64(args[0]), value_usize(args[1]), value_usize(args[2]), args[3]) {
            (Some(g), Some(rw), Some(cs), MsgValue::Array(items)) => match r {
                Some(RedrawEvent::GridLine { grid, row, col_start, cells }) => grid == g && row == rw
                    && col_start == cs && cells_match(cells@, cells_of(items@)),
                _ => false,
            },
            _ => r is None,
        }
    }
}

/// `r` is the `hl_attr_define` event that the arguments give.
pub open spec fn hl_attr_define_parsed(args: Seq<MsgValue>, r: Option<RedrawEvent>) -> bool {
    if args.len() < 2 {
        r is None
    } else {
        match (value_u64(args[0]), args[1]) {
            (Some(i), MsgValue::Mapping(t)) => match r {
                Some(RedrawEvent::HlAttrDefine { id, attrs }) => id == i && attrs_match(attrs, hl_attrs_of(t@)),
                _ => false,
            },
            _ => r is None,
        }
    }
}

/// `r` is the `mode_info_set` event that the arguments give; a missing
/// flag means the cursor style is enabled.
pub open spec fn mode_info_set_parsed(args: Seq<MsgValue>, r: Option<RedrawEvent>) -> bool {
    if args.len() < 2 {
        r is None
    } else {
        let enabled = match value_bool(args[0]) {
            Some(b) => b,
            None => true,
        };
        match args[1] {
            MsgValue::Array(list) => match modes_of(list@) {
                Some(ms) => match r {
                    Some(RedrawEvent::ModeInfoSet { cursor_style_enabled, modes }) => cursor_style_enabled
                        == enabled && modes@ == ms,
                    _ => false,
                },
                None => r is None,
            },
            _ => r is None,
        }
    }
}

/// `r` is the `hl_group_set` event that the arguments give.
pub open spec fn hl_group_set_parsed(args: Seq<MsgValue>, r: Option<RedrawEvent>) -> bool {
    if args.len() < 2 {
        r is None
    } else {
        match (value_str(args[0]), value_u64(args[1])) {
            (Some(n), Some(i)) => match r {
                Some(RedrawEvent::HlGroupSet { name, id }) => name@ == n && id == i,
                _ => false,
            },
            _ => r is None,
        }
    }
}

/// `r` is the `mode_change` event that the arguments give.
pub open spec fn mode_change_parsed(args: Seq<MsgValue>, r: Option<RedrawEvent>) -> bool {
    if args.len() < 2 {
        r is None
    } else {
        match (value_str(args[0]), value_usize(args[1])) {
            (Some(n), Some(i)) => match r {
                Some(RedrawEvent::ModeChange { mode, mode_idx }) => mode@ == n && mode_idx == i,
                _ => false,
            },
            _ => r is None,
        }
    }
}

/// `r` is the `set_title` event that the arguments give.
pub open spec fn set_title_parsed(args: Seq<MsgValue>, r: Option<RedrawEvent>) -> bool {
    if args.len() < 1 {
        r is None
    } else {
        match value_str(args[0]) {
            Some(t) => match r {
                Some(RedrawEvent::SetTitle { title }) => title@ == t,
                _ => false,
            },
            None => r is None,
        }
    }
}

/// `r` is the `set_icon` event that the arguments give.
pub open spec fn set_icon_parsed(args: Seq<MsgValue>, r: Option<RedrawEvent>) -> bool {
    if args.len() < 1 {
        r is None
    } else {
        match value_str(args[0]) {
            Some(t) => match r {
                Some(RedrawEvent::SetIcon { icon }) => icon@ == t,
                _ => false,
            },
            None => r is None,
        }
    }
}

/// `r` is the `option_set` event that the arguments give.
pub open spec fn option_set_parsed(args: Seq<MsgValue>, r: Option<RedrawEvent>) -> bool {
    if args.len() < 2 {
        r is None
    } else {
        match value_str(args[0]) {
            Some(n) => match r {
                Some(RedrawEvent::OptionSet { name, value }) => name@ == n && same_value(value, args[1]),
                _ => false,
            },
            None => r is None,
        }
    }
}

/// `r` is the event that one call of the redraw event `name` with `args`
/// gives; unknown names, and arguments that do not fit, give none.
pub open spec fn event_parsed(name: Seq<char>, args: Seq<MsgValue>, r: Option<RedrawEvent>) -> bool {
    if name == "grid_resize"@ {
        r == grid_resize_of(args)
    } else if name == "grid_clear"@ {
        r == match grid_id_of(args) {
            Some(grid) => Some(RedrawEvent::GridClear { grid }),
            None => None,
        }
    } else if name == "grid_line"@ {
        grid_line_parsed(args, r)
    } else if name == "grid_scroll"@ {
        r == grid_scroll_of(args)
    } else if name == "grid_cursor_goto"@ {
        r == grid_cursor_goto_of(args)
    } else if name == "grid_destroy"@ {
        r == match grid_id_of(args) {
            Some(grid) => Some(RedrawEvent::GridDestroy { grid }),
            None => None,
        }
    } else if name == "hl_attr_define"@ {
        hl_attr_define_parsed(args, r)
    } else if name == "hl_group_set"@ {
        hl_group_set_parsed(args, r)
    } else if name == "default_colors_set"@ {
        r == default_colors_of(args)
    } else if name == "mode_info_set"@ {
        mode_info_set_parsed(args, r)
    } else if name == "mode_change"@ {
        mode_change_parsed(args, r)
    } else if name == "set_title"@ {
        set_title_parsed(args, r)
    } else if name == "set_icon"@ {
        set_icon_parsed(args, r)
    } else if name == "option_set"@ {
        option_set_parsed(args, r)
    } else if name == "flush"@ {
        r == Some(RedrawEvent::Flush)
    } else if name == "busy_start"@ {
        r == Some(RedrawEvent::Busy { busy: true })
    } else if name == "busy_stop"@ {
        r == Some(RedrawEvent::Busy { busy: false })
    } else if name == "mouse_on"@ {
        r == Some(RedrawEvent::MouseOn)
    } else if name == "mouse_off"@ {
        r == Some(RedrawEvent::MouseOff)
    } else {
        r is None
    }
}

/// The calls of one event name: each argument list (an array) after the
/// name, in order; other values are skipped.
pub open spec fn calls_of(name: Seq<char>, rest: Seq<MsgValue>) -> Seq<(Seq<char>, Seq<MsgValue>)>
    decreases rest.len(),
{
    if rest.len() == 0 {
        Seq::empty()
    } else {
        match rest.last() {
            MsgValue::Array(a) => calls_of(name, rest.drop_last()).push((name, a@)),
            _ => calls_of(name, rest.drop_last()),
        }
    }
}

/// The calls of one batch: an array whose first value names the event (a
/// string that is not valid UTF-8 names no known event) and whose other
/// values are argument lists. Anything else holds none.
pub open spec fn batch_calls(batch: MsgValue) -> Seq<(Seq<char>, Seq<MsgValue>)> {
    match batch {
        MsgValue::Array(b) => if b@.len() == 0 {
            Seq::empty()
        } else {
            match b@[0] {
                MsgValue::Str(s) => calls_of(s@, b@.skip(1)),
                MsgValue::BadStr(_) => calls_of(Seq::empty(), b@.skip(1)),
                _ => Seq::empty(),
            }
        },
        _ => Seq::empty(),
    }
}

/// The calls of a whole `redraw` notification, batch after batch.
pub open spec fn redraw_calls(batches: Seq<MsgValue>) -> Seq<(Seq<char>, Seq<MsgValue>)>
    decreases batches.len(),
{
    if batches.len() == 0 {
        Seq::empty()
    } else {
        redraw_calls(batches.drop_last()) + batch_calls(batches.last())
    }
}

/// `events` are the events of the calls that give one, in the calls' order.
pub open spec fn events_match(events: Seq<RedrawEvent>, calls: Seq<(Seq<char>, Seq<MsgValue>)>) -> bool
    decreases calls.len(),
{
    if calls.len() == 0 {
        events.len() == 0
    } else if event_parsed(calls.last().0, calls.last().1, None) {
        events_match(events, calls.drop_last())
    } else {
        events.len() > 0 && event_parsed(calls.last().0, calls.last().1, Some(events.last()))
            && events_match(events.drop_last(), calls.drop_last())
    }
}

/// Decodes the events of a `redraw` notification, in order; unknown events
/// and events whose arguments do not fit are skipped.
pub fn parse_redraw(args: Vec<MsgValue>) -> (events: Vec<RedrawEvent>)
    ensures
        events_match(events@, redraw_calls(args@)),
{
    let mut events: Vec<RedrawEvent> = Vec::new();
    let ghost mut calls: Seq<(Seq<char>, Seq<MsgValue>)> = Seq::empty();
    let mut i: usize = 0;
    while i < args.len()
        invariant
            i <= args@.len(),
            calls == redraw_calls(args@.take(i as int)),
            events_match(events@, calls),
        decreases args@.len() - i,
    {
        proof {
            assert(args@.take(i + 1).drop_last() =~= args@.take(i as int));
            assert(args@.take(i + 1).last() == args@[i as int]);
        }
        let ghost before = calls;
        if let MsgValue::Array(batch) = &args[i] {
            if batch.len() > 0 {
                let name: &str = match &batch[0] {
                    MsgValue::Str(s) => s.as_str(),
                    MsgValue::BadStr(_) => {
                        proof {
                            reveal_strlit("");
                            assert(""@ =~= Seq::<char>::empty());
                        }
                        ""
                    },
                    _ => "",
                };
                let named = match &batch[0] {
                    MsgValue::Str(_) => true,
                    MsgValue::BadStr(_) => true,
                    _ => false,
                };
                if named {
                    let mut j: usize = 1;
                    while j < batch.len()
                        invariant
                            1 <= j <= batch@.len(),
                            calls == before + calls_of(name@, batch@.skip(1).take(j - 1)),
                            events_match(events@, calls),
                        decreases batch@.len() - j,
                    {
                        proof {
                            assert(batch@.skip(1).take(j as int).drop_last() =~= batch@.skip(1).take(j - 1));
                            assert(batch@.skip(1).take(j as int).last() == batch@[j as int]);
                        }
                        if let MsgValue::Array(event_args) = &batch[j] {
                            let r = parse_single_event(name, event_args.as_slice());
                            let ghost call = (name@, event_args@);
                            proof {
                                assert(before + calls_of(name@, batch@.skip(1).take(j as int)) =~= calls.push(call));
                                calls = calls.push(call);
                                assert(calls.drop_last() =~= before + calls_of(name@, batch@.skip(1).take(j - 1)));
                            }
                            match r {
                                Some(e) => {
                                    let ghost old_events = events@;
                                    events.push(e);
                                    proof {
                                        assert(events@.drop_last() =~= old_events);
                                    }
                                },
                                None => {},
                            }
                        }
                        j = j + 1;
                    }
                    proof {
                        assert(batch@.skip(1).take(batch@.len() - 1) =~= batch@.skip(1));
                        assert(args@[i as int] == MsgValue::Array(*batch));
                        assert(batch_calls(args@[i as int]) == calls_of(name@, batch@.skip(1)));
                        assert(calls == before + batch_calls(args@[i as int]));
                    }
                }
            }
        }
        proof {
            assert(calls =~= redraw_calls(args@.take(i + 1)));
        }
        i = i + 1;
    }
    proof {
        assert(args@.take(args@.len() as int) =~= args@);
    }
    events
}

/// Decodes one call of the redraw event `name`.
pub fn parse_single_event(name: &str, args: &[MsgValue]) -> (r: Option<RedrawEvent>)
    ensures
        event_parsed(name@, args@, r),
{
    if text_is(name, "grid_resize") {
        parse_grid_resize(args)
    } else if text_is(name, "grid_clear") {
        parse_grid_clear(args)
    } else if text_is(name, "grid_line") {
        parse_grid_line(args)
    } else if text_is(name, "grid_scroll") {
        parse_grid_scroll(args)
    } else if text_is(name, "grid_cursor_goto") {
        parse_grid_cursor_goto(args)
    } else if text_is(name, "grid_destroy") {
        parse_grid_destroy(args)
    } else if text_is(name, "hl_attr_define") {
        parse_hl_attr_define(args)
    } else if text_is(name, "hl_group_set") {
        parse_hl_group_set(args)
    } else if text_is(name, "default_colors_set") {
        parse_default_colors_set(args)
    } else if text_is(name, "mode_info_set") {
        parse_mode_info_set(args)
    } else if text_is(name, "mode_change") {
        parse_mode_change(args)
    } else if text_is(name, "set_title") {
        parse_set_title(args)
    } else if text_is(name, "set_icon") {
        parse_set_icon(args)
    } else if text_is(name, "option_set") {
        parse_option_set(args)
    } else if text_is(name, "flush") {
        Some(RedrawEvent::Flush)
    } else if text_is(name, "busy_start") {
        Some(RedrawEvent::Busy { busy: true })
    } else if text_is(name, "busy_stop") {
        Some(RedrawEvent::Busy { busy: false })
    } else if text_is(name, "mouse_on") {
        Some(RedrawEvent::MouseOn)
    } else if text_is(name, "mouse_off") {
        Some(RedrawEvent::MouseOff)
    } else {
        None
    }
}

/// Decodes `grid_resize`: grid, width, height.
pub fn parse_grid_resize(args: &[MsgValue]) -> (r: Option<RedrawEvent>)
    ensures
        r == grid_resize_of(args@),
{
    if args.len() < 3 {
        return None;
    }
    match (as_u64(&args[0]), as_usize(&args[1]), as_usize(&args[2])) {
        (Some(grid), Some(width), Some(height)) => Some(RedrawEvent::GridResize { grid, width, height }),
        _ => None,
    }
}

/// Decodes `grid_clear`: grid.
pub fn parse_grid_clear(args: &[MsgValue]) -> (r: Option<RedrawEvent>)
    ensures
        r == match grid_id_of(args@) {
            Some(grid) => Some(RedrawEvent::GridClear { grid }),
            None => None,
        },
{
    if args.len() == 0 {
        return None;
    }
    match as_u64(&args[0]) {
        Some(grid) => Some(RedrawEvent::GridClear { grid }),
        None => None,
    }
}

/// Decodes the entries of `grid_line`.
pub fn parse_cells(items: &Vec<MsgValue>) -> (cells: Vec<GridCell>)
    ensures
        cells_match(cells@, cells_of(items@)),
{
    let mut cells: Vec<GridCell> = Vec::new();
    let mut i: usize = 0;
    while i < items.len()
        invariant
            i <= items@.len(),
            cells_match(cells@, cells_of(items@.take(i as int))),
        decreases items@.len() - i,
    {
        proof {
            assert(items@.take(i + 1).drop_last() =~= items@.take(i as int));
        }
        if let MsgValue::Array(cell_data) = &items[i] {
            if cell_data.len() > 0 {
                let text = match as_str(&cell_data[0]) {
                    Some(s) => String::from_str(s),
                    None => {
                        proof {
                            reveal_strlit(" ");
                        }
                        String::from_str(" ")
                    },
                };
                let hl_id = if cell_data.len() > 1 {
                    as_u64(&cell_data[1])
                } else {
                    None
                };
                let repeat: usize = if cell_data.len() > 2 {
                    match as_usize(&cell_data[2]) {
                        Some(r) => r,
                        None => 1,
                    }
                } else {
                    1
                };
                if repeat != 0 {
                    let ghost old_cells = cells@;
                    cells.push(GridCell { text, hl_id, repeat });
                    proof {
                        let v = cells_of(items@.take(i + 1));
                        assert(cells@.len() == v.len());
                        assert forall|k: int| 0 <= k < cells@.len() implies (#[trigger] cells@[k]).text@ == v[k].text
                            && cells@[k].hl_id == v[k].hl_id && cells@[k].repeat == v[k].repeat by {
                            if k < old_cells.len() {
                                assert(cells@[k] == old_cells[k]);
                            }
                        }
                    }
                }
            }
        }
        i = i + 1;
    }
    proof {
        assert(items@.take(items@.len() as int) =~= items@);
    }
    cells
}

/// Decodes `grid_line`: grid, row, first column and the entries.
pub fn parse_grid_line(args: &[MsgValue]) -> (r: Option<RedrawEvent>)
    ensures
        grid_line_parsed(args@, r),
{
    if args.len() < 4 {
        return None;
    }
    let grid = match as_u64(&args[0]) {
        Some(g) => g,
        None => {
            return None;
        },
    };
    let row = match as_usize(&args[1]) {
        Some(x) => x,
        None => {
            return None;
        },
    };
    let col_start = match as_usize(&args[2]) {
        Some(x) => x,
        None => {
            return None;
        },
    };
    match &args[3] {
        MsgValue::Array(items) => {
            let cells = parse_cells(items);
            Some(RedrawEvent::GridLine { grid, row, col_start, cells })
        },
        _ => None,
    }
}

/// Decodes `grid_scroll`: grid, top, bottom, left, right, rows.
pub fn parse_grid_scroll(args: &[MsgValue]) -> (r: Option<RedrawEvent>)
    ensures
        r == grid_scroll_of(args@),
{
    if args.len() < 6 {
        return None;
    }
    match (
        as_u64(&args[0]),
        as_usize(&args[1]),
        as_usize(&args[2]),
        as_usize(&args[3]),
        as_usize(&args[4]),
        as_i64(&args[5]),
    ) {
        (Some(grid), Some(top), Some(bot), Some(left), Some(right), Some(rows)) => Some(
            RedrawEvent::GridScroll { grid, top, bot, left, right, rows },
        ),
        _ => None,
    }
}

/// Decodes `grid_cursor_goto`: grid, row, column.
pub fn parse_grid_cursor_goto(args: &[MsgValue]) -> (r: Option<RedrawEvent>)
    ensures
        r == grid_cursor_goto_of(args@),
{
    if args.len() < 3 {
        return None;
    }
    match (as_u64(&args[0]), as_usize(&args[1]), as_usize(&args[2])) {
        (Some(grid), Some(row), Some(col)) => Some(RedrawEvent::GridCursorGoto { grid, row, col }),
        _ => None,
    }
}

/// Decodes `grid_destroy`: grid.
pub fn parse_grid_destroy(args: &[MsgValue]) -> (r: Option<RedrawEvent>)
    ensures
        r == match grid_id_of(args@) {
            Some(grid) => Some(RedrawEvent::GridDestroy { grid }),
            None => None,
        },
{
    if args.len() == 0 {
        return None;
    }
    match as_u64(&args[0]) {
        Some(grid) => Some(RedrawEvent::GridDestroy { grid }),
        None => None,
    }
}

/// The style bit that an attribute name sets, or 0.
pub fn style_bit_of(key: &str) -> (b: u16)
    ensures
        b == style_bit(key@),
{
    if text_is(key, "bold") {
        0x001
    } else if text_is(key, "italic") {
        0x002
    } else if text_is(key, "underline") {
        0x004
    } else if text_is(key, "undercurl") {
        0x008
    } else if text_is(key, "underdouble") {
        0x010
    } else if text_is(key, "underdotted") {
        0x020
    } else if text_is(key, "underdashed") {
        0x040
    } else if text_is(key, "strikethrough") {
        0x080
    } else if text_is(key, "reverse") {
        0x100
    } else if text_is(key, "altfont") {
        0x200
    } else {
        0
    }
}

/// Applies one attribute of a highlight definition.
fn apply_hl_entry(attrs: &mut HighlightAttributes, key: &str, value: &MsgValue, Ghost(v): Ghost<HlAttrsView>)
    requires
        attrs_match(*old(attrs), v),
    ensures
        attrs_match(*final(attrs), hl_entry(v, key@, *value)),
{
    let bit = style_bit_of(key);
    if bit != 0 {
        if as_bool(value) == Some(true) {
            attrs.style = StyleFlags(attrs.style.0 | bit);
        }
    } else if text_is(key, "foreground") {
        if let Some(fg) = as_u32(value) {
            attrs.foreground = Some(Color::from_u24(fg));
        }
    } else if text_is(key, "background") {
        if let Some(bg) = as_u32(value) {
            attrs.background = Some(Color::from_u24(bg));
        }
    } else if text_is(key, "special") {
        if let Some(sp) = as_u32(value) {
            attrs.special = Some(Color::from_u24(sp));
        }
    } else if text_is(key, "blend") {
        if let Some(b) = as_u64(value) {
            attrs.blend = b as u8;
        }
    } else if text_is(key, "url") {
        if let Some(url) = as_str(value) {
            attrs.url = Some(String::from_str(url));
        }
    }
}

/// Decodes `hl_attr_define`: id and the table of RGB attributes.
pub fn parse_hl_attr_define(args: &[MsgValue]) -> (r: Option<RedrawEvent>)
    ensures
        hl_attr_define_parsed(args@, r),
{
    if args.len() < 2 {
        return None;
    }
    let id = match as_u64(&args[0]) {
        Some(i) => i,
        None => {
            return None;
        },
    };
    match &args[1] {
        MsgValue::Mapping(table) => {
            let mut attrs = HighlightAttributes::new();
            let mut i: usize = 0;
            while i < table.len()
                invariant
                    i <= table@.len(),
                    attrs_match(attrs, hl_attrs_of(table@.take(i as int))),
                decreases table@.len() - i,
            {
                proof {
                    assert(table@.take(i + 1).drop_last() =~= table@.take(i as int));
                }
                let key = key_str(&table[i].0);
                apply_hl_entry(&mut attrs, key, &table[i].1, Ghost(hl_attrs_of(table@.take(i as int))));
                i = i + 1;
            }
            proof {
                assert(table@.take(table@.len() as int) =~= table@);
            }
            Some(RedrawEvent::HlAttrDefine { id, attrs })
        },
        _ => None,
    }
}

/// Decodes `hl_group_set`: group name and id.
pub fn parse_hl_group_set(args: &[MsgValue]) -> (r: Option<RedrawEvent>)
    ensures
        hl_group_set_parsed(args@, r),
{
    if args.len() < 2 {
        return None;
    }
    match (as_str(&args[0]), as_u64(&args[1])) {
        (Some(name), Some(id)) => Some(RedrawEvent::HlGroupSet { name: String::from_str(name), id }),
        _ => None,
    }
}

/// Decodes `default_colors_set`: foreground, background, special.
pub fn parse_default_colors_set(args: &[MsgValue]) -> (r: Option<RedrawEvent>)
    ensures
        r == default_colors_of(args@),
{
    if args.len() < 3 {
        return None;
    }
    match (as_u32(&args[0]), as_u32(&args[1]), as_u32(&args[2])) {
        (Some(fg), Some(bg), Some(sp)) => Some(RedrawEvent::DefaultColorsSet { fg, bg, sp }),
        _ => None,
    }
}

/// The cursor shape a name stands for.
fn shape_named(name: &str) -> (s: CursorShape)
    ensures
        s == shape_of(name@),
{
    if text_is(name, "horizontal") {
        CursorShape::Horizontal
    } else if text_is(name, "vertical") {
        CursorShape::Vertical
    } else {
        CursorShape::Block
    }
}

/// Applies one attribute of a mode.
fn apply_mode_entry(mode: &mut ModeInfo, key: &str, value: &MsgValue)
    ensures
        *final(mode) == mode_entry(*old(mode), key@, *value),
{
    if text_is(key, "cursor_shape") {
        mode.cursor_shape = match as_str(value) {
            Some(s) => shape_named(s),
            None => CursorShape::Block,
        };
    } else if text_is(key, "cell_percentage") {
        if let Some(pct) = as_u64(value) {
            mode.cell_percentage = pct as u8;
        }
    } else if text_is(key, "attr_id") {
        if let Some(id) = as_u64(value) {
            mode.attr_id = id;
        }
    } else if text_is(key, "blinkwait") {
        if let Some(ms) = as_u32(value) {
            mode.blink_wait = ms;
        }
    } else if text_is(key, "blinkon") {
        if let Some(ms) = as_u32(value) {
            mode.blink_on = ms;
        }
    } else if text_is(key, "blinkoff") {
        if let Some(ms) = as_u32(value) {
            mode.blink_off = ms;
        }
    }
}

/// Decodes one mode table.
fn parse_mode(table: &Vec<(MsgValue, MsgValue)>) -> (m: ModeInfo)
    ensures
        m == mode_of(table@),
{
    let mut mode = ModeInfo::default();
    let mut i: usize = 0;
    while i < table.len()
        invariant
            i <= table@.len(),
            mode == mode_of(table@.take(i as int)),
        decreases table@.len() - i,
    {
        proof {
            assert(table@.take(i + 1).drop_last() =~= table@.take(i as int));
        }
        let key = key_str(&table[i].0);
        apply_mode_entry(&mut mode, key, &table[i].1);
        i = i + 1;
    }
    proof {
        assert(table@.take(table@.len() as int) =~= table@);
    }
    mode
}

/// Decodes `mode_info_set`: whether the cursor style is enabled, and the
/// list of modes.
pub fn parse_mode_info_set(args: &[MsgValue]) -> (r: Option<RedrawEvent>)
    ensures
        mode_info_set_parsed(args@, r),
{
    if args.len() < 2 {
        return None;
    }
    let cursor_style_enabled = match as_bool(&args[0]) {
        Some(b) => b,
        None => true,
    };
    match &args[1] {
        MsgValue::Array(list) => {
            let mut modes: Vec<ModeInfo> = Vec::new();
            let mut i: usize = 0;
            while i < list.len()
                invariant
                    args@.len() >= 2,
                    args@[1] == MsgValue::Array(*list),
                    i <= list@.len(),
                    modes_of(list@.take(i as int)) == Some(modes@),
                decreases list@.len() - i,
            {
                proof {
                    assert(list@.take(i + 1).drop_last() =~= list@.take(i as int));
                }
                match &list[i] {
                    MsgValue::Mapping(table) => {
                        let m = parse_mode(table);
                        modes.push(m);
                    },
                    _ => {
                        proof {
                            assert(list@.take(i + 1).last() == list@[i as int]);
                            lemma_modes_of_prefix(list@, i + 1);
                        }
                        return None;
                    },
                }
                i = i + 1;
            }
            proof {
                assert(list@.take(list@.len() as int) =~= list@);
            }
            Some(RedrawEvent::ModeInfoSet { cursor_style_enabled, modes })
        },
        _ => None,
    }
}

/// Once a prefix of the list holds a value that is no table, so does the
/// whole list.
proof fn lemma_modes_of_prefix(list: Seq<MsgValue>, k: int)
    requires
        0 <= k <= list.len(),
        modes_of(list.take(k)) is None,
    ensures
        modes_of(list) is None,
    decreases list.len() - k,
{
    if k < list.len() {
        assert(list.take(k + 1).drop_last() =~= list.take(k));
        lemma_modes_of_prefix(list, k + 1);
    } else {
        assert(list.take(k) =~= list);
    }
}

/// Decodes `mode_change`: mode name and index.
pub fn parse_mode_change(args: &[MsgValue]) -> (r: Option<RedrawEvent>)
    ensures
        mode_change_parsed(args@, r),
{
    if args.len() < 2 {
        return None;
    }
    match (as_str(&args[0]), as_usize(&args[1])) {
        (Some(mode), Some(mode_idx)) => Some(RedrawEvent::ModeChange { mode: String::from_str(mode), mode_idx }),
        _ => None,
    }
}

/// Decodes `set_title`: the title.
pub fn parse_set_title(args: &[MsgValue]) -> (r: Option<RedrawEvent>)
    ensures
        set_title_parsed(args@, r),
{
    if args.len() == 0 {
        return None;
    }
    match as_str(&args[0]) {
        Some(title) => Some(RedrawEvent::SetTitle { title: String::from_str(title) }),
        None => None,
    }
}

/// Decodes `set_icon`: the icon name.
pub fn parse_set_icon(args: &[MsgValue]) -> (r: Option<RedrawEvent>)
    ensures
        set_icon_parsed(args@, r),
{
    if args.len() == 0 {
        return None;
    }
    match as_str(&args[0]) {
        Some(icon) => Some(RedrawEvent::SetIcon { icon: String::from_str(icon) }),
        None => None,
    }
}

/// Decodes `option_set`: option name and value.
pub fn parse_option_set(args: &[MsgValue]) -> (r: Option<RedrawEvent>)
    ensures
        option_set_parsed(args@, r),
{
    if args.len() < 2 {
        return None;
    }
    match as_str(&args[0]) {
        Some(name) => Some(RedrawEvent::OptionSet { name: String::from_str(name), value: copy_value(&args[1]) }),
        None => None,
    }
}

/// The decoding of the grid events keeps Neovim's argument order: the
/// numbers `g, a, b, c, d, n` given in that order land in the fields of
/// their positions. `grid_scroll` reads grid, top, bottom, left, right and
/// rows; `grid_resize` grid, width and height; `grid_cursor_goto` grid, row
/// and column; `default_colors_set` the foreground, background and special
/// colors (cut to 32 bits).
pub proof fn law_grid_event_argument_order(g: u64, a: u64, b: u64, c: u64, d: u64, n: i64, args: Seq<MsgValue>)
    requires
        args.len() >= 6,
        args[0] == MsgValue::UInt(g),
        args[1] == MsgValue::UInt(a),
        args[2] == MsgValue::UInt(b),
        args[3] == MsgValue::UInt(c),
        args[4] == MsgValue::UInt(d),
        args[5] == MsgValue::NInt(n) || (0 <= n && args[5] == MsgValue::UInt(n as u64)),
    ensures
        grid_scroll_of(args) == Some(
            RedrawEvent::GridScroll {
                grid: g,
                top: a as usize,
                bot: b as usize,
                left: c as usize,
                right: d as usize,
                rows: n,
            },
        ),
        grid_resize_of(args) == Some(RedrawEvent::GridResize { grid: g, width: a as usize, height: b as usize }),
        grid_cursor_goto_of(args) == Some(RedrawEvent::GridCursorGoto { grid: g, row: a as usize, col: b as usize }),
        default_colors_of(args) == Some(RedrawEvent::DefaultColorsSet { fg: g as u32, bg: a as u32, sp: b as u32 }),
{
}

/// The decoding of the grid events asks for numbers where Neovim sends
/// them: a grid event whose first argument is no unsigned integer gives
/// nothing.
pub proof fn law_grid_event_needs_grid_id(args: Seq<MsgValue>)
    requires
        args.len() >= 1,
        !(args[0] is UInt),
    ensures
        grid_scroll_of(args) is None,
        grid_resize_of(args) is None,
        grid_cursor_goto_of(args) is None,
        grid_id_of(args) is None,
{
}

/// A `grid_line` event reads grid, row and first column in that order.
pub proof fn law_grid_line_argument_order(g: u64, a: u64, b: u64, args: Seq<MsgValue>, r: Option<RedrawEvent>)
    requires
        args.len() >= 4,
        args[0] == MsgValue::UInt(g),
        args[1] == MsgValue::UInt(a),
        args[2] == MsgValue::UInt(b),
        args[3] is Array,
        grid_line_parsed(args, r),
    ensures
        match r {
            Some(RedrawEvent::GridLine { grid, row, col_start, .. }) => grid == g && row == a as usize && col_start
                == b as usize,
            _ => false,
        },
{
}

/// A 24-bit color from Neovim keeps its channels: red, green and blue are
/// the bytes of `0xRRGGBB` (bits above them ignored), and it is opaque.
pub proof fn law_color_channels(rgb: u32)
    ensures
        color_of_u24(rgb).red() == (rgb / 0x1_0000 % 0x100) as u8,
        color_of_u24(rgb).green() == (rgb / 0x100 % 0x100) as u8,
        color_of_u24(rgb).blue() == (rgb % 0x100) as u8,
        color_of_u24(rgb).alpha() == 0xFF,
{
    let x: int = rgb as int % 0x100_0000;
    let v: int = x * 0x100 + 0xFF;
    assert(0 <= v < 0x1_0000_0000) by (nonlinear_arith)
        requires
            0 <= x < 0x100_0000,
            v == x * 0x100 + 0xFF,
    ;
    assert(v / 0x100_0000 == rgb as int / 0x1_0000 % 0x100) by (nonlinear_arith)
        requires
            x == rgb as int % 0x100_0000,
            v == x * 0x100 + 0xFF,
            0 <= rgb,
    ;
    assert(v / 0x1_0000 % 0x100 == rgb as int / 0x100 % 0x100) by (nonlinear_arith)
        requires
            x == rgb as int % 0x100_0000,
            v == x * 0x100 + 0xFF,
            0 <= rgb,
    ;
    assert(v / 0x100 % 0x100 == rgb as int % 0x100) by (nonlinear_arith)
        requires
            x == rgb as int % 0x100_0000,
            v == x * 0x100 + 0xFF,
            0 <= rgb,
    ;
    assert(v % 0x100 == 0xFF) by (nonlinear_arith)
        requires
            v == x * 0x100 + 0xFF,
            0 <= x,
    ;
}

/// Each style attribute of `hl_attr_define` sets its own bit, the one that
/// the highlight's tests read: bold 0x001, italic 0x002, underline 0x004,
/// undercurl 0x008, underdouble 0x010, underdotted 0x020, underdashed
/// 0x040, strikethrough 0x080, reverse 0x100, altfont 0x200.
pub proof fn law_style_attribute_bits()
    ensures
        style_bit(seq!['b', 'o', 'l', 'd']) == 0x001,
        style_bit(seq!['i', 't', 'a', 'l', 'i', 'c']) == 0x002,
        style_bit(seq!['u', 'n', 'd', 'e', 'r', 'l', 'i', 'n', 'e']) == 0x004,
        style_bit(seq!['u', 'n', 'd', 'e', 'r', 'c', 'u', 'r', 'l']) == 0x008,
        style_bit(seq!['u', 'n', 'd', 'e', 'r', 'd', 'o', 'u', 'b', 'l', 'e']) == 0x010,
        style_bit(seq!['u', 'n', 'd', 'e', 'r', 'd', 'o', 't', 't', 'e', 'd']) == 0x020,
        style_bit(seq!['u', 'n', 'd', 'e', 'r', 'd', 'a', 's', 'h', 'e', 'd']) == 0x040,
        style_bit(seq!['s', 't', 'r', 'i', 'k', 'e', 't', 'h', 'r', 'o', 'u', 'g', 'h']) == 0x080,
        style_bit(seq!['r', 'e', 'v', 'e', 'r', 's', 'e']) == 0x100,
        style_bit(seq!['a', 'l', 't', 'f', 'o', 'n', 't']) == 0x200,
{
    reveal_strlit("bold");
    reveal_strlit("italic");
    reveal_strlit("underline");
    reveal_strlit("undercurl");
    reveal_strlit("underdouble");
    reveal_strlit("underdotted");
    reveal_strlit("underdashed");
    reveal_strlit("strikethrough");
    reveal_strlit("reverse");
    reveal_strlit("altfont");
    assert("bold"@ =~= seq!['b', 'o', 'l', 'd']);
    assert("italic"@ =~= seq!['i', 't', 'a', 'l', 'i', 'c']);
    assert("underline"@ =~= seq!['u', 'n', 'd', 'e', 'r', 'l', 'i', 'n', 'e']);
    assert("undercurl"@ =~= seq!['u', 'n', 'd', 'e', 'r', 'c', 'u', 'r', 'l']);
    assert("underdouble"@ =~= seq!['u', 'n', 'd', 'e', 'r', 'd', 'o', 'u', 'b', 'l', 'e']);
    assert("underdotted"@ =~= seq!['u', 'n', 'd', 'e', 'r', 'd', 'o', 't', 't', 'e', 'd']);
    assert("underdashed"@ =~= seq!['u', 'n', 'd', 'e', 'r', 'd', 'a', 's', 'h', 'e', 'd']);
    assert("strikethrough"@ =~= seq!['s', 't', 'r', 'i', 'k', 'e', 't', 'h', 'r', 'o', 'u', 'g', 'h']);
    assert("reverse"@ =~= seq!['r', 'e', 'v', 'e', 'r', 's', 'e']);
    assert("altfont"@ =~= seq!['a', 'l', 't', 'f', 'o', 'n', 't']);
}

/// A true style attribute adds its bit to the style and keeps every other
/// bit and every other part of the definition; a false one changes nothing.
pub proof fn law_style_attribute_sets_its_bit(a: HlAttrsView, key: Seq<char>, on: bool)
    requires
        style_bit(key) != 0,
    ensures
        on ==> hl_entry(a, key, MsgValue::Boolean(on)) == (HlAttrsView { style: a.style | style_bit(key), ..a }),
        !on ==> hl_entry(a, key, MsgValue::Boolean(on)) == a,
{
}

/// The cursor shape names of `mode_info_set`: `horizontal`, `vertical`, and
/// a block for any other name.
pub proof fn law_cursor_shape_names(name: Seq<char>)
    ensures
        shape_of(seq!['h', 'o', 'r', 'i', 'z', 'o', 'n', 't', 'a', 'l']) == CursorShape::Horizontal,
        shape_of(seq!['v', 'e', 'r', 't', 'i', 'c', 'a', 'l']) == CursorShape::Vertical,
        name != seq!['h', 'o', 'r', 'i', 'z', 'o', 'n', 't', 'a', 'l'] && name != seq!['v', 'e', 'r', 't', 'i', 'c', 'a', 'l']
            ==> shape_of(name) == CursorShape::Block,
{
    reveal_strlit("horizontal");
    reveal_strlit("vertical");
    assert("horizontal"@ =~= seq!['h', 'o', 'r', 'i', 'z', 'o', 'n', 't', 'a', 'l']);
    assert("vertical"@ =~= seq!['v', 'e', 'r', 't', 'i', 'c', 'a', 'l']);
}

/// Each attribute of a mode table sets its own field: `cursor_shape` the
/// shape, `cell_percentage` the size (cut to a byte), `attr_id` the
/// highlight, and `blinkwait`, `blinkon`, `blinkoff` the blink times (cut to
/// 32 bits); every other field is kept.
pub proof fn law_mode_attributes(m: ModeInfo, n: u64, shape: String)
    ensures
        mode_entry(m, seq!['c', 'e', 'l', 'l', '_', 'p', 'e', 'r', 'c', 'e', 'n', 't', 'a', 'g', 'e'], MsgValue::UInt(n))
            == (ModeInfo { cell_percentage: n as u8, ..m }),
        mode_entry(m, seq!['a', 't', 't', 'r', '_', 'i', 'd'], MsgValue::UInt(n)) == (ModeInfo { attr_id: n, ..m }),
        mode_entry(m, seq!['b', 'l', 'i', 'n', 'k', 'w', 'a', 'i', 't'], MsgValue::UInt(n)) == (ModeInfo {
            blink_wait: n as u32,
            ..m
        }),
        mode_entry(m, seq!['b', 'l', 'i', 'n', 'k', 'o', 'n'], MsgValue::UInt(n)) == (ModeInfo { blink_on: n as u32, ..m }),
        mode_entry(m, seq!['b', 'l', 'i', 'n', 'k', 'o', 'f', 'f'], MsgValue::UInt(n)) == (ModeInfo {
            blink_off: n as u32,
            ..m
        }),
        mode_entry(m, seq!['c', 'u', 'r', 's', 'o', 'r', '_', 's', 'h', 'a', 'p', 'e'], MsgValue::Str(shape))
            == (ModeInfo { cursor_shape: shape_of(shape@), ..m }),
{
    reveal_strlit("cursor_shape");
    reveal_strlit("cell_percentage");
    reveal_strlit("attr_id");
    reveal_strlit("blinkwait");
    reveal_strlit("blinkon");
    reveal_strlit("blinkoff");
    assert("cursor_shape"@ =~= seq!['c', 'u', 'r', 's', 'o', 'r', '_', 's', 'h', 'a', 'p', 'e']);
    assert("cell_percentage"@ =~= seq!['c', 'e', 'l', 'l', '_', 'p', 'e', 'r', 'c', 'e', 'n', 't', 'a', 'g', 'e']);
    assert("attr_id"@ =~= seq!['a', 't', 't', 'r', '_', 'i', 'd']);
    assert("blinkwait"@ =~= seq!['b', 'l', 'i', 'n', 'k', 'w', 'a', 'i', 't']);
    assert("blinkon"@ =~= seq!['b', 'l', 'i', 'n', 'k', 'o', 'n']);
    assert("blinkoff"@ =~= seq!['b', 'l', 'i', 'n', 'k', 'o', 'f', 'f']);
}

/// The color attributes of `hl_attr_define` set their own color:
/// `foreground`, `background` and `special` each take the 24-bit value as
/// an opaque color; no style bit is touched.
pub proof fn law_color_attributes(a: HlAttrsView, n: u64)
    ensures
        hl_entry(a, seq!['f', 'o', 'r', 'e', 'g', 'r', 'o', 'u', 'n', 'd'], MsgValue::UInt(n)) == (HlAttrsView {
            foreground: Some(color_of_u24(n as u32)),
            ..a
        }),
        hl_entry(a, seq!['b', 'a', 'c', 'k', 'g', 'r', 'o', 'u', 'n', 'd'], MsgValue::UInt(n)) == (HlAttrsView {
            background: Some(color_of_u24(n as u32)),
            ..a
        }),
        hl_entry(a, seq!['s', 'p', 'e', 'c', 'i', 'a', 'l'], MsgValue::UInt(n)) == (HlAttrsView {
            special: Some(color_of_u24(n as u32)),
            ..a
        }),
{
    reveal_strlit("bold");
    reveal_strlit("italic");
    reveal_strlit("underline");
    reveal_strlit("undercurl");
    reveal_strlit("underdouble");
    reveal_strlit("underdotted");
    reveal_strlit("underdashed");
    reveal_strlit("strikethrough");
    reveal_strlit("reverse");
    reveal_strlit("altfont");
    reveal_strlit("foreground");
    reveal_strlit("background");
    reveal_strlit("special");
    assert("foreground"@ =~= seq!['f', 'o', 'r', 'e', 'g', 'r', 'o', 'u', 'n', 'd']);
    assert("background"@ =~= seq!['b', 'a', 'c', 'k', 'g', 'r', 'o', 'u', 'n', 'd']);
    assert("special"@ =~= seq!['s', 'p', 'e', 'c', 'i', 'a', 'l']);
}

} // verus!

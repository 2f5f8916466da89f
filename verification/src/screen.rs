//! The terminal screen: how it is divided, and the text of a whole frame.
use vstd::prelude::*;

use crate::frame::{pixel_index, Frame};
use crate::grid::{BlockPos, BlockSource};
use crate::hud::{
    hotbar_cells, law_slots_take_four_characters, marked, slot_text, status_text, HudSnapshot,
};
use crate::input::{slot_under, InventoryUi};
use crate::map::{map_text, navigation_symbols, row_text, rows_text};
use crate::palette::Rgb;
use crate::text::{append_decimal, decimal, lemma_line_added, lines_from, split_lines, views};

verus! {

/// The radius of the navigation map beside the view.
pub const MINIMAP_RADIUS: i32 = 7;

/// The columns and rows of that map.
pub const MINIMAP_WIDTH: usize = 15;

/// The columns that the map takes: a gap, the borders, and the cells.
pub const MINIMAP_SIDEBAR_COLUMNS: usize = 19;

/// The rows that the map takes: a title, the borders, the cells, and a legend.
pub const MINIMAP_ROWS: usize = 19;

/// The columns that the view keeps beside the map.
pub const MIN_RENDER_COLUMNS: usize = 20;

/// The rows of text above and below the view.
pub const CHROME_ROWS: usize = 5;

/// How the terminal is divided.
#[derive(Clone, Copy, Debug, PartialEq, Eq, Structural)]
pub struct RenderLayout {
    pub frame_width: usize,
    pub frame_height: usize,
    pub show_minimap: bool,
    /// Keep one terminal column unused: writing in the final column can
    /// trigger delayed wrapping in several terminal emulators.
    pub text_columns: usize,
}

/// The smaller of two numbers.
pub open spec fn smaller(a: int, b: int) -> int {
    if a <= b {
        a
    } else {
        b
    }
}

/// `a` less `b`, but at least one.
pub open spec fn at_least_one_less(a: int, b: int) -> int {
    if a - b >= 1 {
        a - b
    } else {
        1
    }
}

/// The division of a terminal with the given columns and rows for a view that
/// wants `width` columns and `height` rows.
pub open spec fn layout_of(columns: int, rows: int, width: int, height: int) -> RenderLayout {
    let text_columns = at_least_one_less(columns, 1);
    let frame_height = smaller(height, at_least_one_less(rows, CHROME_ROWS as int));
    let show_minimap = frame_height >= MINIMAP_ROWS && text_columns >= MIN_RENDER_COLUMNS
        + MINIMAP_SIDEBAR_COLUMNS;
    RenderLayout {
        frame_width: (if show_minimap {
            smaller(width, text_columns - MINIMAP_SIDEBAR_COLUMNS)
        } else {
            smaller(width, text_columns)
        }) as usize,
        frame_height: frame_height as usize,
        show_minimap,
        text_columns: text_columns as usize,
    }
}

/// The division of a terminal of the given size, if that is known.
pub open spec fn layout_with(size: Option<(u16, u16)>, width: usize, height: usize) -> RenderLayout {
    match size {
        Some((columns, rows)) => layout_of(
            columns as int,
            rows as int,
            width as int,
            height as int,
        ),
        None => layout_of(
            width + MINIMAP_SIDEBAR_COLUMNS,
            height + CHROME_ROWS,
            width as int,
            height as int,
        ),
    }
}

/// Divides the terminal. `size` holds its columns and rows, if they are known;
/// else the terminal is taken to be just large enough.
pub fn layout_for(size: Option<(u16, u16)>, width: usize, height: usize) -> (layout: RenderLayout)
    requires
        width <= usize::MAX - MINIMAP_SIDEBAR_COLUMNS,
        height <= usize::MAX - CHROME_ROWS,
    ensures
        layout == layout_with(size, width, height),
{
    let (columns, rows): (usize, usize) = match size {
        Some((columns, rows)) => (columns as usize, rows as usize),
        None => (width + MINIMAP_SIDEBAR_COLUMNS, height + CHROME_ROWS),
    };
    let text_columns: usize = if columns > 1 {
        columns - 1
    } else {
        1
    };
    let free_rows: usize = if rows > CHROME_ROWS {
        rows - CHROME_ROWS
    } else {
        1
    };
    let frame_height: usize = if height <= free_rows {
        height
    } else {
        free_rows
    };
    let show_minimap = frame_height >= MINIMAP_ROWS && text_columns >= MIN_RENDER_COLUMNS
        + MINIMAP_SIDEBAR_COLUMNS;
    let free_columns: usize = if show_minimap {
        text_columns - MINIMAP_SIDEBAR_COLUMNS
    } else {
        text_columns
    };
    let frame_width: usize = if width <= free_columns {
        width
    } else {
        free_columns
    };
    RenderLayout { frame_width, frame_height, show_minimap, text_columns }
}

/// What stays of a line on a screen with the given columns.
pub open spec fn clipped(line: Seq<char>, columns: nat) -> Seq<char> {
    if line.len() <= columns {
        line
    } else {
        line.take(columns as int)
    }
}

/// A line of text on an erased line of the screen.
pub open spec fn text_line(line: Seq<char>, columns: nat, newline: bool) -> Seq<char> {
    "\x1b[0m\x1b[2K"@ + clipped(line, columns) + (if newline {
        "\r\n"@
    } else {
        Seq::empty()
    })
}

/// Appends a line of text, clipped before the terminal's last column.
pub fn append_text_line(output: &mut String, line: &str, text_columns: usize, newline: bool)
    ensures
        final(output)@ == old(output)@ + text_line(line@, text_columns as nat, newline),
{
    output.append("\x1b[0m\x1b[2K");
    let length = line.unicode_len();
    if length <= text_columns {
        output.append(line);
    } else {
        let shown = line.substring_char(0, text_columns);
        assert(shown@ =~= line@.take(text_columns as int));
        output.append(shown);
    }
    if newline {
        output.append("\r\n");
    }
    assert(output@ =~= old(output)@ + text_line(line@, text_columns as nat, newline));
}

/// The channels of a colour in an escape sequence.
pub open spec fn channels(color: Rgb) -> Seq<char> {
    decimal(color.r as nat) + ";"@ + decimal(color.g as nat) + ";"@ + decimal(color.b as nat)
}

/// One terminal cell that shows two pixels: the foreground encodes the upper
/// one, the background the lower one.
pub open spec fn half_block(top: Rgb, bottom: Rgb) -> Seq<char> {
    "\x1b[38;2;"@ + channels(top) + "m\x1b[48;2;"@ + channels(bottom) + "m▀"@
}

fn append_channels(output: &mut String, color: Rgb)
    ensures
        final(output)@ == old(output)@ + channels(color),
{
    append_decimal(output, color.r as u64);
    output.append(";");
    append_decimal(output, color.g as u64);
    output.append(";");
    append_decimal(output, color.b as u64);
    assert(output@ =~= old(output)@ + channels(color));
}

/// Appends one terminal cell that shows two pixels.
pub fn append_half_block(output: &mut String, top: Rgb, bottom: Rgb)
    ensures
        final(output)@ == old(output)@ + half_block(top, bottom),
{
    output.append("\x1b[38;2;");
    append_channels(output, top);
    output.append("m\x1b[48;2;");
    append_channels(output, bottom);
    output.append("m▀");
    assert(output@ =~= old(output)@ + half_block(top, bottom));
}

/// What stands beside a row of the view.
pub open spec fn sidebar_cells(row: int, map_rows: Seq<Seq<char>>) -> Seq<char> {
    if row == 0 {
        "minimap (N up)"@
    } else if row == 1 || row == 17 {
        "+---------------+"@
    } else if 2 <= row <= 16 {
        "|"@ + map_rows[row - 2] + "|"@
    } else if row == 18 {
        "? = unloaded"@
    } else {
        Seq::empty()
    }
}

/// What stands beside a row of the view, after a gap; nothing without a map.
pub open spec fn sidebar(row: int, map_rows: Seq<Seq<char>>) -> Seq<char> {
    if map_rows.len() == 0 {
        Seq::empty()
    } else {
        "\x1b[0m  "@ + sidebar_cells(row, map_rows)
    }
}

/// Appends what stands beside a row of the view.
pub fn append_minimap_sidebar(output: &mut String, row: usize, minimap_rows: &Vec<String>)
    requires
        minimap_rows@.len() == 0 || (2 <= row <= 16 ==> row - 2 < minimap_rows@.len()),
    ensures
        final(output)@ == old(output)@ + sidebar(row as int, views(minimap_rows@)),
{
    if minimap_rows.len() == 0 {
        assert(output@ =~= old(output)@ + sidebar(row as int, views(minimap_rows@)));
        return;
    }
    output.append("\x1b[0m  ");
    if row == 0 {
        output.append("minimap (N up)");
    } else if row == 1 || row == 17 {
        output.append("+---------------+");
    } else if 2 <= row && row <= 16 {
        output.append("|");
        output.append(minimap_rows[row - 2].as_str());
        output.append("|");
    } else if row == 18 {
        output.append("? = unloaded");
    }
    assert(output@ =~= old(output)@ + sidebar(row as int, views(minimap_rows@)));
}

/// The cell of a slot in the inventory overlay.
pub open spec fn overlay_cell(hud: HudSnapshot, ui: InventoryUi, slot: int) -> Seq<char> {
    marked(slot_text(hud.slot(slot)), slot == slot_under(ui))
}

/// `count` cells from slot `start` on, separated by blanks.
pub open spec fn overlay_cells(hud: HudSnapshot, ui: InventoryUi, start: int, count: nat) -> Seq<
    char,
>
    decreases count,
{
    if count == 0 {
        Seq::empty()
    } else if count == 1 {
        overlay_cell(hud, ui, start)
    } else {
        overlay_cells(hud, ui, start, (count - 1) as nat) + " "@ + overlay_cell(
            hud,
            ui,
            start + count - 1,
        )
    }
}

/// A line of the inventory overlay; lines below the overlay are empty.
pub open spec fn overlay_line(hud: HudSnapshot, ui: InventoryUi, row: int) -> Seq<char> {
    if row == 0 {
        "+---------------------- inventory ----------------------+  carried ["@ + slot_text(
            hud.carried@,
        ) + "]"@
    } else if row == 1 {
        "armor  "@ + overlay_cells(hud, ui, 1, 4) + "   offhand "@ + overlay_cell(hud, ui, 45)
    } else if row == 2 {
        "craft  "@ + overlay_cells(hud, ui, 5, 2) + "   "@ + overlay_cells(hud, ui, 7, 2)
            + "   -> "@ + overlay_cell(hud, ui, 0)
    } else if row == 3 {
        "main   "@ + overlay_cells(hud, ui, 9, 9)
    } else if row == 4 {
        "       "@ + overlay_cells(hud, ui, 18, 9)
    } else if row == 5 {
        "       "@ + overlay_cells(hud, ui, 27, 9)
    } else if row == 6 {
        "hotbar "@ + overlay_cells(hud, ui, 36, 9)
    } else if row == 7 {
        "+-------------------------------------------------------+"@
    } else if row == 8 {
        "server-synced player inventory · selected cell is >item<"@
    } else {
        Seq::empty()
    }
}

/// The first `rows` rows of the inventory overlay.
pub open spec fn overlay_text(hud: HudSnapshot, ui: InventoryUi, rows: nat, columns: nat) -> Seq<
    char,
>
    decreases rows,
{
    if rows == 0 {
        Seq::empty()
    } else {
        overlay_text(hud, ui, (rows - 1) as nat, columns) + text_line(
            overlay_line(hud, ui, rows - 1),
            columns,
            true,
        )
    }
}

/// Appends `count` cells from slot `start` on, separated by blanks.
fn append_cells(output: &mut String, hud: &HudSnapshot, ui: &InventoryUi, start: usize, count: usize)
    requires
        slot_under(*ui) <= usize::MAX,
        start + count <= 46,
    ensures
        final(output)@ == old(output)@ + overlay_cells(*hud, *ui, start as int, count as nat),
{
    let selected = ui.selected_slot();
    let mut done: usize = 0;
    assert(output@ =~= old(output)@ + overlay_cells(*hud, *ui, start as int, 0));
    while done < count
        invariant
            done <= count,
            start + count <= 46,
            selected == slot_under(*ui),
            output@ == old(output)@ + overlay_cells(*hud, *ui, start as int, done as nat),
        decreases count - done,
    {
        let ghost before = output@;
        if done > 0 {
            output.append(" ");
        }
        let cell = hud.inventory_cell(start + done, start + done == selected);
        output.append(cell.as_str());
        done = done + 1;
        assert(output@ =~= old(output)@ + overlay_cells(*hud, *ui, start as int, done as nat));
    }
}

/// A line of the inventory overlay.
fn overlay_line_text(hud: &HudSnapshot, ui: &InventoryUi, row: usize) -> (line: String)
    requires
        slot_under(*ui) <= usize::MAX,
    ensures
        line@ == overlay_line(*hud, *ui, row as int),
{
    let selected = ui.selected_slot();
    let mut line = String::new();
    if row == 0 {
        line.append("+---------------------- inventory ----------------------+  carried [");
        let carried = hud.carried_cell();
        line.append(carried.as_str());
        line.append("]");
    } else if row == 1 {
        line.append("armor  ");
        append_cells(&mut line, hud, ui, 1, 4);
        line.append("   offhand ");
        let offhand = hud.inventory_cell(45, 45 == selected);
        line.append(offhand.as_str());
    } else if row == 2 {
        line.append("craft  ");
        append_cells(&mut line, hud, ui, 5, 2);
        line.append("   ");
        append_cells(&mut line, hud, ui, 7, 2);
        line.append("   -> ");
        let result = hud.inventory_cell(0, 0 == selected);
        line.append(result.as_str());
    } else if row == 3 {
        line.append("main   ");
        append_cells(&mut line, hud, ui, 9, 9);
    } else if row == 4 {
        line.append("       ");
        append_cells(&mut line, hud, ui, 18, 9);
    } else if row == 5 {
        line.append("       ");
        append_cells(&mut line, hud, ui, 27, 9);
    } else if row == 6 {
        line.append("hotbar ");
        append_cells(&mut line, hud, ui, 36, 9);
    } else if row == 7 {
        line.append("+-------------------------------------------------------+");
    } else if row == 8 {
        line.append("server-synced player inventory · selected cell is >item<");
    }
    assert(line@ =~= overlay_line(*hud, *ui, row as int));
    line
}

/// Appends the inventory overlay, cut off or filled up to `rows` rows.
pub fn append_inventory_overlay(
    output: &mut String,
    hud: &HudSnapshot,
    inventory_ui: &InventoryUi,
    rows: usize,
    text_columns: usize,
)
    requires
        slot_under(*inventory_ui) <= usize::MAX,
    ensures
        final(output)@ == old(output)@ + overlay_text(
            *hud,
            *inventory_ui,
            rows as nat,
            text_columns as nat,
        ),
{
    let mut row: usize = 0;
    assert(output@ =~= old(output)@ + overlay_text(*hud, *inventory_ui, 0, text_columns as nat));
    while row < rows
        invariant
            row <= rows,
            slot_under(*inventory_ui) <= usize::MAX,
            output@ == old(output)@ + overlay_text(
                *hud,
                *inventory_ui,
                row as nat,
                text_columns as nat,
            ),
        decreases rows - row,
    {
        let line = overlay_line_text(hud, inventory_ui, row);
        append_text_line(output, line.as_str(), text_columns, true);
        row = row + 1;
        assert(output@ =~= old(output)@ + overlay_text(
            *hud,
            *inventory_ui,
            row as nat,
            text_columns as nat,
        ));
    }
}

/// The first `columns` cells of a row of the view.
pub open spec fn view_cells(frame: Frame, row: int, columns: nat) -> Seq<char>
    decreases columns,
{
    if columns == 0 {
        Seq::empty()
    } else {
        view_cells(frame, row, (columns - 1) as nat) + half_block(
            frame.pixels@[pixel_index(frame.width, columns - 1, 2 * row)],
            frame.pixels@[pixel_index(frame.width, columns - 1, 2 * row + 1)],
        )
    }
}

/// The first `rows` rows of the view, with the map beside them.
pub open spec fn view_text(frame: Frame, map_rows: Seq<Seq<char>>, rows: nat) -> Seq<char>
    decreases rows,
{
    if rows == 0 {
        Seq::empty()
    } else {
        view_text(frame, map_rows, (rows - 1) as nat) + view_cells(
            frame,
            rows - 1,
            frame.width as nat,
        ) + sidebar(rows - 1, map_rows) + "\x1b[0m\x1b[K\r\n"@
    }
}

/// The line that names the keys.
pub open spec fn controls_text(inventory_open: bool, reports_key_releases: bool) -> Seq<char> {
    if inventory_open {
        "inventory: arrows select storage · Tab select equipment/craft · Enter pick/place · Shift+Enter move stack · R split/place one · E/Esc close · Q quit"@
    } else if reports_key_releases {
        "WASD move/release stop · Shift+W sprint · arrows look · Space jump/swim · F break · G use/place · 1-9 hotbar · E inventory · Q quit"@
    } else {
        "WASD move · Shift+W sprint · arrows look · Space jump/swim · F break · G use/place · 1-9 hotbar · E inventory · Q quit"@
    }
}

/// The line that names the keys.
pub fn controls_line(inventory_open: bool, reports_key_releases: bool) -> (line: &'static str)
    ensures
        line@ == controls_text(inventory_open, reports_key_releases),
{
    if inventory_open {
        "inventory: arrows select storage · Tab select equipment/craft · Enter pick/place · Shift+Enter move stack · R split/place one · E/Esc close · Q quit"
    } else if reports_key_releases {
        "WASD move/release stop · Shift+W sprint · arrows look · Space jump/swim · F break · G use/place · 1-9 hotbar · E inventory · Q quit"
    } else {
        "WASD move · Shift+W sprint · arrows look · Space jump/swim · F break · G use/place · 1-9 hotbar · E inventory · Q quit"
    }
}

/// What is drawn besides the frame itself.
pub struct DrawView<'a> {
    pub status: &'a str,
    pub target: &'a str,
    pub hud: &'a HudSnapshot,
    pub minimap: Option<&'a str>,
    pub inventory_ui: InventoryUi,
    pub reports_key_releases: bool,
    pub text_columns: usize,
}

/// The rows of the map beside the view.
pub open spec fn map_rows_of(minimap: Option<&str>) -> Seq<Seq<char>> {
    match minimap {
        Some(map) => lines_from(map@, 0),
        None => Seq::empty(),
    }
}

/// The text of a whole screen: three header lines, the view or the open
/// inventory, and two lines of the HUD.
pub open spec fn screen_text(frame: Frame, view: DrawView<'_>) -> Seq<char> {
    let columns = view.text_columns as nat;
    let rows = frame.sample_height as nat / 2;
    "\x1b[H"@ + text_line(view.status@, columns, true) + text_line(view.target@, columns, true)
        + text_line(
        controls_text(view.inventory_ui.open, view.reports_key_releases),
        columns,
        true,
    ) + (if view.inventory_ui.open {
        overlay_text(*view.hud, view.inventory_ui, rows, columns)
    } else {
        view_text(frame, map_rows_of(view.minimap), rows)
    }) + text_line(status_text(*view.hud), columns, true) + text_line(
        "hotbar "@ + hotbar_cells(view.hud.slots@, view.hud.selected_hotbar_slot as int, 9),
        columns,
        false,
    )
}

/// Whether a map, if there is one, has a row for each row of a view that shows
/// one: the third to the seventeenth.
pub open spec fn map_suffices(map_rows: int, view_rows: int) -> bool {
    map_rows == 0 || smaller(view_rows, 17) - 2 <= map_rows
}

/// Pixels of a row of the view lie within the frame.
proof fn lemma_view_fits(frame: Frame, row: int, column: int)
    requires
        frame.wf(),
        0 <= row < frame.sample_height as int / 2,
        0 <= column < frame.width,
    ensures
        0 <= pixel_index(frame.width, column, 2 * row) < frame.pixels@.len(),
        0 <= pixel_index(frame.width, column, 2 * row + 1) < frame.pixels@.len(),
{
    let width = frame.width as int;
    let height = frame.sample_height as int;
    assert(0 <= (2 * row) * width + column && (2 * row + 1) * width + column < width * height && (2
        * row) * width <= (2 * row + 1) * width) by (nonlinear_arith)
        requires
            0 <= row,
            2 * row + 1 < height,
            0 <= column < width,
    ;
}

/// Appends the rows of the view, with the map beside them.
fn append_view(output: &mut String, frame: &Frame, minimap_rows: &Vec<String>)
    requires
        frame.wf(),
        map_suffices(minimap_rows@.len() as int, frame.sample_height as int / 2),
    ensures
        final(output)@ == old(output)@ + view_text(
            *frame,
            views(minimap_rows@),
            frame.sample_height as nat / 2,
        ),
{
    let rows: usize = frame.sample_height / 2;
    let ghost map_rows = views(minimap_rows@);
    let mut row: usize = 0;
    assert(output@ =~= old(output)@ + view_text(*frame, map_rows, 0));
    while row < rows
        invariant
            row <= rows,
            rows == frame.sample_height / 2,
            frame.wf(),
            map_rows == views(minimap_rows@),
            map_suffices(minimap_rows@.len() as int, frame.sample_height as int / 2),
            output@ == old(output)@ + view_text(*frame, map_rows, row as nat),
        decreases rows - row,
    {
        let ghost above = output@;
        let mut column: usize = 0;
        assert(output@ =~= above + view_cells(*frame, row as int, 0));
        while column < frame.width
            invariant
                column <= frame.width,
                row < rows,
                rows == frame.sample_height / 2,
                frame.wf(),
                output@ == above + view_cells(*frame, row as int, column as nat),
            decreases frame.width - column,
        {
            proof {
                lemma_view_fits(*frame, row as int, column as int);
            }
            append_half_block(output, frame.pixel(column, row * 2), frame.pixel(column, row * 2 + 1));
            column = column + 1;
            assert(output@ =~= above + view_cells(*frame, row as int, column as nat));
        }
        append_minimap_sidebar(output, row, minimap_rows);
        output.append("\x1b[0m\x1b[K\r\n");
        row = row + 1;
        assert(output@ =~= old(output)@ + view_text(*frame, map_rows, row as nat));
    }
}

/// The text of a whole screen.
pub fn draw(frame: &Frame, view: &DrawView<'_>) -> (output: String)
    requires
        frame.wf(),
        view.hud.wf(),
        view.inventory_ui.open ==> slot_under(view.inventory_ui) <= usize::MAX,
        view.inventory_ui.open || map_suffices(
            map_rows_of(view.minimap).len() as int,
            frame.sample_height as int / 2,
        ),
    ensures
        output@ == screen_text(*frame, *view),
{
    let minimap_rows: Vec<String> = match view.minimap {
        Some(map) => split_lines(map),
        None => Vec::new(),
    };
    assert(views(minimap_rows@) =~= map_rows_of(view.minimap));
    assert(views(minimap_rows@).len() == minimap_rows@.len());
    let mut output = String::new();
    output.append("\x1b[H");
    append_text_line(&mut output, view.status, view.text_columns, true);
    append_text_line(&mut output, view.target, view.text_columns, true);
    append_text_line(
        &mut output,
        controls_line(view.inventory_ui.open, view.reports_key_releases),
        view.text_columns,
        true,
    );
    if view.inventory_ui.open {
        append_inventory_overlay(
            &mut output,
            view.hud,
            &view.inventory_ui,
            frame.sample_height / 2,
            view.text_columns,
        );
    } else {
        append_view(&mut output, frame, &minimap_rows);
    }
    let status = view.hud.status_line();
    append_text_line(&mut output, status.as_str(), view.text_columns, true);
    let hotbar = view.hud.hotbar_line();
    append_text_line(&mut output, hotbar.as_str(), view.text_columns, false);
    assert(output@ =~= screen_text(*frame, *view));
    output
}

/// No line reaches the last terminal column, the view and the map fit beside
/// each other, and the view fits between the lines of text. On a terminal too
/// small for that, at least one column and one row are used.
pub proof fn law_layout_fits(columns: int, rows: int, width: int, height: int)
    requires
        0 <= columns <= usize::MAX,
        0 <= rows <= usize::MAX,
        1 <= width <= usize::MAX,
        1 <= height <= usize::MAX,
    ensures
        ({
            let layout = layout_of(columns, rows, width, height);
            &&& columns >= 2 ==> layout.text_columns < columns
            &&& 1 <= layout.frame_width <= width
            &&& 1 <= layout.frame_height <= height
            &&& layout.show_minimap ==> layout.frame_width + MINIMAP_SIDEBAR_COLUMNS
                <= layout.text_columns && layout.frame_height >= MINIMAP_ROWS
            &&& !layout.show_minimap ==> layout.frame_width <= layout.text_columns
            &&& rows > CHROME_ROWS ==> layout.frame_height + CHROME_ROWS <= rows
        }),
{
}

/// A text line shows no more characters than the screen has columns for text.
pub proof fn law_lines_are_clipped(line: Seq<char>, columns: nat)
    ensures
        clipped(line, columns).len() <= columns,
        clipped(line, columns) == line.take(clipped(line, columns).len() as int),
        line.len() <= columns ==> clipped(line, columns) == line,
{
    assert(line.take(line.len() as int) =~= line);
}

/// The map of the given radius has one line of equal length for each of its
/// rows, if no symbol of it ends a line.
pub proof fn law_map_rows(symbol: spec_fn(int, int) -> char, center: BlockPos, r: int)
    requires
        0 <= r,
        forall|x: int, z: int| #[trigger] symbol(x, z) != '\n' && symbol(x, z) != '\r',
    ensures
        lines_from(map_text(symbol, center, r), 0).len() == 2 * r + 1,
        forall|k: int|
            0 <= k < 2 * r + 1 ==> (#[trigger] lines_from(map_text(symbol, center, r), 0)[k])
                == Seq::new((2 * r + 1) as nat, |i: int| symbol(center.x - r + i, center.z - r + k)),
{
    lemma_map_lines(symbol, center, r, (2 * r + 1) as nat);
}

proof fn lemma_map_lines(symbol: spec_fn(int, int) -> char, center: BlockPos, r: int, count: nat)
    requires
        0 <= r,
        forall|x: int, z: int| #[trigger] symbol(x, z) != '\n' && symbol(x, z) != '\r',
    ensures
        rows_text(symbol, center, r, count).len() > 0 ==> rows_text(
            symbol,
            center,
            r,
            count,
        ).last() == '\n',
        lines_from(rows_text(symbol, center, r, count), 0).len() == count,
        forall|k: int|
            0 <= k < count ==> (#[trigger] lines_from(rows_text(symbol, center, r, count), 0)[k])
                == Seq::new((2 * r + 1) as nat, |i: int| symbol(center.x - r + i, center.z - r + k)),
    decreases count,
{
    if count > 0 {
        let before = (count - 1) as nat;
        lemma_map_lines(symbol, center, r, before);
        let z = center.z - r + count - 1;
        let line = Seq::new((2 * r + 1) as nat, |i: int| symbol(center.x - r + i, z));
        let above = rows_text(symbol, center, r, before);
        assert(row_text(symbol, center, r, z) == line.push('\n'));
        lemma_line_added(above, line, 0);
        assert forall|k: int| 0 <= k < count implies (#[trigger] lines_from(
            rows_text(symbol, center, r, count),
            0,
        )[k]) == Seq::new(
            (2 * r + 1) as nat,
            |i: int| symbol(center.x - r + i, center.z - r + k),
        ) by {
            if k < before {
                assert(lines_from(rows_text(symbol, center, r, count), 0)[k] == lines_from(
                    above,
                    0,
                )[k]);
            }
        }
    }
}

/// The navigation map beside the view has just the rows that the sidebar
/// shows, however high the view is.
pub proof fn law_sidebar_shows_the_map<S: BlockSource>(source: &S, center: BlockPos, heading: int)
    ensures
        ({
            let map = map_text(
                navigation_symbols(source, center, heading),
                center,
                MINIMAP_RADIUS as int,
            );
            &&& lines_from(map, 0).len() == MINIMAP_WIDTH
            &&& forall|view_rows: int| #[trigger] map_suffices(MINIMAP_WIDTH as int, view_rows)
            &&& forall|k: int|
                0 <= k < MINIMAP_WIDTH ==> (#[trigger] lines_from(map, 0)[k]).len()
                    == MINIMAP_WIDTH
        }),
{
    let symbols = navigation_symbols(source, center, heading);
    assert forall|x: int, z: int| #[trigger] symbols(x, z) != '\n' && symbols(x, z) != '\r' by {}
    law_map_rows(symbols, center, MINIMAP_RADIUS as int);
}

/// The sidebar takes no more columns than are kept for it.
pub proof fn law_sidebar_width(row: int, map_rows: Seq<Seq<char>>)
    requires
        forall|k: int| 0 <= k < map_rows.len() ==> (#[trigger] map_rows[k]).len() == MINIMAP_WIDTH,
        map_rows.len() == MINIMAP_WIDTH,
    ensures
        sidebar_cells(row, map_rows).len() + 2 <= MINIMAP_SIDEBAR_COLUMNS,
        row >= MINIMAP_ROWS ==> sidebar_cells(row, map_rows).len() == 0,
{
    reveal_strlit("minimap (N up)");
    reveal_strlit("+---------------+");
    reveal_strlit("? = unloaded");
    reveal_strlit("|");
}

/// Exactly the selected cell of the overlay is marked.
pub proof fn law_selected_cell_is_marked(hud: HudSnapshot, ui: InventoryUi, slot: int)
    ensures
        overlay_cell(hud, ui, slot)[0] == '>' <==> slot == slot_under(ui),
        overlay_cell(hud, ui, slot).len() == 6,
{
    law_slots_take_four_characters(hud.slot(slot));
}

/// The view takes all the room that it wants and that there is: it is as wide
/// and as high as is asked for, or else it leaves no column and no row unused.
/// The map is shown exactly where it leaves the view at least twenty columns
/// and its nineteen rows.
pub proof fn law_layout_uses_the_terminal(columns: int, rows: int, width: int, height: int)
    requires
        2 <= columns <= usize::MAX,
        6 <= rows <= usize::MAX,
        1 <= width <= usize::MAX,
        1 <= height <= usize::MAX,
    ensures
        ({
            let layout = layout_of(columns, rows, width, height);
            &&& layout.text_columns == columns - 1
            &&& layout.frame_height == height || layout.frame_height == rows - 5
            &&& layout.frame_height <= height && layout.frame_height <= rows - 5
            &&& layout.show_minimap <==> columns - 1 - 19 >= 20 && height >= 19 && rows - 5 >= 19
            &&& layout.show_minimap ==> layout.frame_width == width || layout.frame_width == columns
                - 1 - 19
            &&& !layout.show_minimap ==> layout.frame_width == width || layout.frame_width
                == columns - 1
            &&& layout.frame_width <= width
        }),
{
}

/// A line that is too long keeps as many characters as there are columns.
pub proof fn law_clipped_lines_fill_the_columns(line: Seq<char>, columns: nat, newline: bool)
    ensures
        line.len() > columns ==> clipped(line, columns).len() == columns,
        forall|i: int|
            0 <= i < line.len() && i < columns ==> #[trigger] clipped(line, columns)[i] == line[i],
        ({
            let text = text_line(line, columns, newline);
            let shown = clipped(line, columns);
            &&& text.subrange(8, 8 + shown.len() as int) == shown
            &&& text.len() == 8 + shown.len() + if newline {
                2nat
            } else {
                0nat
            }
            &&& newline ==> text[text.len() - 2] == '\r' && text.last() == '\n'
        }),
{
    reveal_strlit("\x1b[0m\x1b[2K");
    reveal_strlit("\r\n");
    assert("\x1b[0m\x1b[2K"@.len() == 8);
    assert("\r\n"@.len() == 2 && "\r\n"@[0] == '\r' && "\r\n"@[1] == '\n');
    let text = text_line(line, columns, newline);
    let shown = clipped(line, columns);
    assert(text.subrange(8, 8 + shown.len() as int) =~= shown);
}

/// A cell names its upper pixel first, as the foreground, and its lower pixel
/// then, as the background; each colour is written red, green, blue.
pub proof fn law_cells_show_two_pixels(top: Rgb, bottom: Rgb)
    ensures
        ({
            let above = decimal(top.r as nat) + ";"@ + decimal(top.g as nat) + ";"@ + decimal(
                top.b as nat,
            );
            let below = decimal(bottom.r as nat) + ";"@ + decimal(bottom.g as nat) + ";"@
                + decimal(bottom.b as nat);
            let cell = half_block(top, bottom);
            &&& cell.subrange(7, 7 + above.len() as int) == above
            &&& cell.subrange(
                15 + above.len() as int,
                15 + above.len() as int + below.len() as int,
            ) == below
            &&& cell[2] == '3' && cell[3] == '8'
            &&& cell[10 + above.len() as int] == '4' && cell[11 + above.len() as int] == '8'
            &&& cell.last() == '▀'
        }),
{
    reveal_strlit("\x1b[38;2;");
    reveal_strlit("m\x1b[48;2;");
    reveal_strlit("m▀");
    assert("\x1b[38;2;"@.len() == 7 && "\x1b[38;2;"@[2] == '3' && "\x1b[38;2;"@[3] == '8');
    assert("m\x1b[48;2;"@.len() == 8 && "m\x1b[48;2;"@[3] == '4' && "m\x1b[48;2;"@[4] == '8');
    assert("m▀"@.len() == 2 && "m▀"@[1] == '▀');
    let above = channels(top);
    let below = channels(bottom);
    let cell = half_block(top, bottom);
    assert(cell.subrange(7, 7 + above.len() as int) =~= above);
    assert(cell.subrange(15 + above.len() as int, 15 + above.len() as int + below.len() as int)
        =~= below);
}

/// A row of the view shows two rows of pixels, from left to right, and the rows
/// follow each other from the top, each with what stands beside it.
pub proof fn law_view_shows_all_pixels(
    frame: Frame,
    map_rows: Seq<Seq<char>>,
    row: nat,
    column: nat,
)
    ensures
        view_cells(frame, row as int, 0).len() == 0,
        view_cells(frame, row as int, column + 1) == view_cells(frame, row as int, column)
            + half_block(
            frame.pixels@[(2 * row) * frame.width + column],
            frame.pixels@[(2 * row + 1) * frame.width + column],
        ),
        view_text(frame, map_rows, 0).len() == 0,
        view_text(frame, map_rows, row + 1) == view_text(frame, map_rows, row) + view_cells(
            frame,
            row as int,
            frame.width as nat,
        ) + sidebar(row as int, map_rows) + "\x1b[0m\x1b[K\r\n"@,
{
}

/// Beside the view stands the map, framed and under its title: the rows of the
/// map from the third row of the view on, in their order, none left out.
pub proof fn law_sidebar_frames_the_map(map_rows: Seq<Seq<char>>, k: int)
    requires
        0 <= k < 15,
        map_rows.len() == 15,
    ensures
        ({
            let line = sidebar_cells(k + 2, map_rows);
            &&& line.len() == map_rows[k].len() + 2
            &&& line[0] == '|' && line.last() == '|'
            &&& line.subrange(1, 1 + map_rows[k].len() as int) == map_rows[k]
        }),
        sidebar_cells(1, map_rows) == sidebar_cells(17, map_rows),
        sidebar_cells(1, map_rows)[0] == '+' && sidebar_cells(1, map_rows).len() == 17,
        sidebar_cells(0, map_rows)[0] == 'm',
        sidebar_cells(18, map_rows)[0] == '?',
        sidebar(k + 2, Seq::empty()).len() == 0,
        sidebar(k + 2, map_rows).skip(6) == sidebar_cells(k + 2, map_rows),
{
    reveal_strlit("|");
    reveal_strlit("+---------------+");
    reveal_strlit("minimap (N up)");
    reveal_strlit("? = unloaded");
    reveal_strlit("\x1b[0m  ");
    assert("|"@.len() == 1 && "|"@[0] == '|');
    assert("+---------------+"@.len() == 17 && "+---------------+"@[0] == '+');
    assert("minimap (N up)"@.len() == 14 && "minimap (N up)"@[0] == 'm');
    assert("? = unloaded"@.len() == 12 && "? = unloaded"@[0] == '?');
    assert("\x1b[0m  "@.len() == 6);
    let line = sidebar_cells(k + 2, map_rows);
    assert(line.subrange(1, 1 + map_rows[k].len() as int) =~= map_rows[k]);
    assert(sidebar(k + 2, map_rows).skip(6) =~= line);
}

/// Where the cells of a line of the overlay stand.
proof fn lemma_overlay_cells(hud: HudSnapshot, ui: InventoryUi, start: int, count: nat, k: int)
    requires
        0 <= k < count,
    ensures
        overlay_cells(hud, ui, start, count).len() == 7 * count - 1,
        overlay_cells(hud, ui, start, count).subrange(7 * k, 7 * k + 6) == overlay_cell(
            hud,
            ui,
            start + k,
        ),
    decreases count,
{
    reveal_strlit(" ");
    assert(" "@.len() == 1);
    law_selected_cell_is_marked(hud, ui, start + count - 1);
    let all = overlay_cells(hud, ui, start, count);
    if count == 1 {
        assert(all.subrange(0, 6) =~= overlay_cell(hud, ui, start));
    } else {
        let before = (count - 1) as nat;
        let earlier = overlay_cells(hud, ui, start, before);
        if k < before {
            lemma_overlay_cells(hud, ui, start, before, k);
            assert(all.subrange(7 * k, 7 * k + 6) =~= earlier.subrange(7 * k, 7 * k + 6));
        } else {
            lemma_overlay_cells(hud, ui, start, before, 0);
            assert(all.subrange(7 * k, 7 * k + 6) =~= overlay_cell(hud, ui, start + k));
        }
    }
}

/// Whether six characters of a line, from column `at` on, show a slot of the
/// menu, and point at it exactly if the cursor is on it.
pub open spec fn shows_slot(
    line: Seq<char>,
    at: int,
    hud: HudSnapshot,
    ui: InventoryUi,
    slot: int,
) -> bool {
    &&& at + 6 <= line.len()
    &&& line.subrange(at + 1, at + 5) == slot_text(hud.slot(slot))
    &&& line[at] == '>' <==> slot == slot_under(ui)
    &&& line[at + 5] == '<' <==> slot == slot_under(ui)
}

proof fn lemma_cell_shows_slot(
    line: Seq<char>,
    at: int,
    hud: HudSnapshot,
    ui: InventoryUi,
    slot: int,
)
    requires
        0 <= at,
        at + 6 <= line.len(),
        line.subrange(at, at + 6) == overlay_cell(hud, ui, slot),
    ensures
        shows_slot(line, at, hud, ui, slot),
{
    law_slots_take_four_characters(hud.slot(slot));
    let cell = overlay_cell(hud, ui, slot);
    assert(cell.subrange(1, 5) =~= slot_text(hud.slot(slot)));
    assert(line.subrange(at + 1, at + 5) =~= cell.subrange(1, 5));
    assert(line[at] == line.subrange(at, at + 6)[0]);
    assert(line[at + 5] == line.subrange(at, at + 6)[5]);
}

/// The storage grid of the open inventory has three rows of storage and the
/// hotbar below them, nine slots each, where the cursor moves over them: row
/// `row` and column `column` of the grid show slot `9 + 9 * row + column`.
pub proof fn law_overlay_shows_the_grid(
    hud: HudSnapshot,
    ui: InventoryUi,
    row: int,
    column: int,
)
    requires
        0 <= row < 4,
        0 <= column < 9,
    ensures
        shows_slot(overlay_line(hud, ui, 3 + row), 7 + 7 * column, hud, ui, 9 + 9 * row + column),
{
    reveal_strlit("main   ");
    reveal_strlit("       ");
    reveal_strlit("hotbar ");
    assert("main   "@.len() == 7);
    assert("       "@.len() == 7);
    assert("hotbar "@.len() == 7);
    let start = 9 + 9 * row;
    lemma_overlay_cells(hud, ui, start, 9, column);
    let line = overlay_line(hud, ui, 3 + row);
    let cells = overlay_cells(hud, ui, start, 9);
    assert(line.len() == 7 + cells.len());
    assert(line.subrange(7 + 7 * column, 7 + 7 * column + 6) =~= cells.subrange(
        7 * column,
        7 * column + 6,
    ));
    lemma_cell_shows_slot(line, 7 + 7 * column, hud, ui, start + column);
}

/// Above the grid the open inventory shows the four armor slots and the
/// offhand, and below them the two rows of crafting slots and their result.
pub proof fn law_overlay_shows_the_equipment(hud: HudSnapshot, ui: InventoryUi, k: int)
    requires
        0 <= k < 4,
    ensures
        shows_slot(overlay_line(hud, ui, 1), 7 + 7 * k, hud, ui, 1 + k),
        shows_slot(overlay_line(hud, ui, 1), 45, hud, ui, 45),
        k < 2 ==> shows_slot(overlay_line(hud, ui, 2), 7 + 7 * k, hud, ui, 5 + k),
        k < 2 ==> shows_slot(overlay_line(hud, ui, 2), 23 + 7 * k, hud, ui, 7 + k),
        shows_slot(overlay_line(hud, ui, 2), 42, hud, ui, 0),
{
    reveal_strlit("armor  ");
    reveal_strlit("   offhand ");
    reveal_strlit("craft  ");
    reveal_strlit("   ");
    reveal_strlit("   -> ");
    assert("armor  "@.len() == 7);
    assert("   offhand "@.len() == 11);
    assert("craft  "@.len() == 7);
    assert("   "@.len() == 3);
    assert("   -> "@.len() == 6);
    law_selected_cell_is_marked(hud, ui, 45);
    law_selected_cell_is_marked(hud, ui, 0);
    let armor = overlay_line(hud, ui, 1);
    let worn = overlay_cells(hud, ui, 1, 4);
    lemma_overlay_cells(hud, ui, 1, 4, k);
    assert(armor.subrange(7 + 7 * k, 7 + 7 * k + 6) =~= worn.subrange(7 * k, 7 * k + 6));
    lemma_cell_shows_slot(armor, 7 + 7 * k, hud, ui, 1 + k);
    assert(armor.subrange(45, 51) =~= overlay_cell(hud, ui, 45));
    lemma_cell_shows_slot(armor, 45, hud, ui, 45);
    let craft = overlay_line(hud, ui, 2);
    let upper = overlay_cells(hud, ui, 5, 2);
    let lower = overlay_cells(hud, ui, 7, 2);
    lemma_overlay_cells(hud, ui, 5, 2, 0);
    lemma_overlay_cells(hud, ui, 7, 2, 0);
    assert(craft.subrange(42, 48) =~= overlay_cell(hud, ui, 0));
    lemma_cell_shows_slot(craft, 42, hud, ui, 0);
    if k < 2 {
        lemma_overlay_cells(hud, ui, 5, 2, k);
        lemma_overlay_cells(hud, ui, 7, 2, k);
        assert(craft.subrange(7 + 7 * k, 7 + 7 * k + 6) =~= upper.subrange(7 * k, 7 * k + 6));
        lemma_cell_shows_slot(craft, 7 + 7 * k, hud, ui, 5 + k);
        assert(craft.subrange(23 + 7 * k, 23 + 7 * k + 6) =~= lower.subrange(7 * k, 7 * k + 6));
        lemma_cell_shows_slot(craft, 23 + 7 * k, hud, ui, 7 + k);
    }
}

/// The title of the open inventory shows the stack that the cursor carries.
pub proof fn law_overlay_shows_the_carried_stack(hud: HudSnapshot, ui: InventoryUi)
    ensures
        overlay_line(hud, ui, 0).len() == 73,
        overlay_line(hud, ui, 0).subrange(68, 72) == slot_text(hud.carried@),
{
    reveal_strlit("+---------------------- inventory ----------------------+  carried [");
    reveal_strlit("]");
    assert("+---------------------- inventory ----------------------+  carried ["@.len() == 68);
    assert("]"@.len() == 1);
    law_slots_take_four_characters(hud.carried@);
    assert(overlay_line(hud, ui, 0).subrange(68, 72) =~= slot_text(hud.carried@));
}

/// The overlay lists its lines in their order, each on a line of the screen.
pub proof fn law_overlay_lists_its_lines(hud: HudSnapshot, ui: InventoryUi, rows: nat, columns: nat)
    ensures
        overlay_text(hud, ui, 0, columns).len() == 0,
        overlay_text(hud, ui, rows + 1, columns) == overlay_text(hud, ui, rows, columns)
            + text_line(overlay_line(hud, ui, rows as int), columns, true),
{
}

/// The open inventory takes the place of the view: nothing of the picture or
/// the map is shown with it. While it is closed, its cursor changes nothing.
pub proof fn law_inventory_takes_the_place_of_the_view(
    frame: Frame,
    other: Frame,
    view: DrawView<'_>,
    minimap: Option<&str>,
    cursor: InventoryUi,
)
    requires
        frame.sample_height == other.sample_height,
        cursor.open == view.inventory_ui.open,
    ensures
        view.inventory_ui.open ==> screen_text(frame, view) == screen_text(
            other,
            (DrawView { minimap, ..view }),
        ),
        !view.inventory_ui.open ==> screen_text(frame, view) == screen_text(
            frame,
            (DrawView { inventory_ui: cursor, ..view }),
        ),
{
}

/// A screen starts at the home position with the status, the target and the
/// keys, and ends with the lines of the HUD. Between them stands the view, or
/// the open inventory, on half as many lines as the frame has rows of pixels.
pub proof fn law_screens_are_put_together(frame: Frame, view: DrawView<'_>)
    ensures
        ({
            let columns = view.text_columns as nat;
            let rows = frame.sample_height as nat / 2;
            let header = "\x1b[H"@ + text_line(view.status@, columns, true) + text_line(
                view.target@,
                columns,
                true,
            ) + text_line(
                controls_text(view.inventory_ui.open, view.reports_key_releases),
                columns,
                true,
            );
            let hud = text_line(status_text(*view.hud), columns, true) + text_line(
                "hotbar "@ + hotbar_cells(
                    view.hud.slots@,
                    view.hud.selected_hotbar_slot as int,
                    9,
                ),
                columns,
                false,
            );
            let middle = if view.inventory_ui.open {
                overlay_text(*view.hud, view.inventory_ui, rows, columns)
            } else {
                view_text(frame, map_rows_of(view.minimap), rows)
            };
            screen_text(frame, view) == header + middle + hud
        }),
{
    let columns = view.text_columns as nat;
    let rows = frame.sample_height as nat / 2;
    let header = "\x1b[H"@ + text_line(view.status@, columns, true) + text_line(
        view.target@,
        columns,
        true,
    ) + text_line(
        controls_text(view.inventory_ui.open, view.reports_key_releases),
        columns,
        true,
    );
    let status = text_line(status_text(*view.hud), columns, true);
    let hotbar = text_line(
        "hotbar "@ + hotbar_cells(view.hud.slots@, view.hud.selected_hotbar_slot as int, 9),
        columns,
        false,
    );
    let middle = if view.inventory_ui.open {
        overlay_text(*view.hud, view.inventory_ui, rows, columns)
    } else {
        view_text(frame, map_rows_of(view.minimap), rows)
    };
    assert(header + middle + status + hotbar =~= header + middle + (status + hotbar));
}

/// A terminal of known size is divided as it is. One of unknown size is taken
/// to hold the view, the map and the text: then the view has all its rows, and
/// with a map it loses one column at most.
pub proof fn law_unknown_terminals_are_large_enough(
    columns: u16,
    rows: u16,
    width: usize,
    height: usize,
)
    requires
        1 <= width <= usize::MAX - MINIMAP_SIDEBAR_COLUMNS,
        1 <= height <= usize::MAX - CHROME_ROWS,
    ensures
        layout_with(Some((columns, rows)), width, height) == layout_of(
            columns as int,
            rows as int,
            width as int,
            height as int,
        ),
        ({
            let layout = layout_with(None, width, height);
            &&& layout.frame_height == height
            &&& layout.text_columns == width + 18
            &&& layout.show_minimap <==> height >= 19 && width >= 21
            &&& layout.show_minimap ==> layout.frame_width == width - 1
            &&& !layout.show_minimap ==> layout.frame_width == width
        }),
{
}

} // verus!

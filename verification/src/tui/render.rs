//! The picture of the terminal interface.
use crate::error::AppResult;
use crate::tui::lines;
use crate::tui::lines::{
    approval_lines, composer_height, composer_lines, header_rule, history_lines, status_rule,
    visible_lines, StyledLine,
};
use crate::tui::state::{TuiState, TuiView};
use ratatui::layout::{Constraint, Layout, Rect};
use ratatui::text::{Line, Span, Text};
use ratatui::widgets::{Paragraph, Widget};
use vstd::prelude::*;

verus! {

/// The widest screen that is drawn: lines are wrapped by sums of less than four widths, in sixteen
/// bits.
pub const MAX_SCREEN_WIDTH: u16 = 16_384;

/// A rectangle of cells.
#[derive(Clone, Copy, Debug, PartialEq, Eq, Structural)]
pub struct Area {
    pub x: u16,
    pub y: u16,
    pub width: u16,
    pub height: u16,
}

/// How much of an area a part of it is to take.
#[derive(Clone, Copy, Debug, PartialEq, Eq, Structural)]
pub enum Size {
    Length(u16),
    Min(u16),
    Percentage(u16),
}

/// Which way an area is split.
#[derive(Clone, Copy, Debug, PartialEq, Eq, Structural)]
pub enum Split {
    Rows,
    Columns,
}

/// Whether `part` lies in `area`.
pub open spec fn lies_within(part: Area, area: Area) -> bool {
    &&& area.x <= part.x
    &&& part.x + part.width <= area.x + area.width
    &&& area.y <= part.y
    &&& part.y + part.height <= area.y + area.height
}

/// Whether a cell lies in an area.
pub open spec fn covers(area: Area, cell: (u16, u16)) -> bool {
    area.x <= cell.0 < area.x + area.width && area.y <= cell.1 < area.y + area.height
}

/// The area of a whole screen.
pub open spec fn whole(width: u16, height: u16) -> Area {
    Area { x: 0, y: 0, width, height }
}

/// Whether `part` takes all of `area` across the way it is split.
pub open spec fn spans(part: Area, area: Area, split: Split) -> bool {
    match split {
        Split::Rows => part.x == area.x && part.width == area.width,
        Split::Columns => part.y == area.y && part.height == area.height,
    }
}

/// How long an area is along the way it is split.
pub open spec fn extent(area: Area, split: Split) -> nat {
    match split {
        Split::Rows => area.height as nat,
        Split::Columns => area.width as nat,
    }
}

/// The part of an area from one line across it to another.
pub open spec fn band(area: Area, split: Split, from: int, to: int) -> Area {
    match split {
        Split::Rows => Area { y: (area.y + from) as u16, height: (to - from) as u16, ..area },
        Split::Columns => Area { x: (area.x + from) as u16, width: (to - from) as u16, ..area },
    }
}

/// What the first `n` of the sizes ask for together, in cells or in hundredths.
pub open spec fn asked(sizes: Seq<Size>, n: nat) -> nat
    decreases n,
{
    if n == 0 {
        0
    } else {
        asked(sizes, (n - 1) as nat) + match sizes[n - 1] {
            Size::Length(k) => k as nat,
            Size::Min(k) => k as nat,
            Size::Percentage(k) => k as nat,
        }
    }
}

/// Whether all the sizes are lengths but for the one at `grows`, and there is room for them.
pub open spec fn all_fit(sizes: Seq<Size>, grows: int, extent: nat) -> bool {
    &&& 0 <= grows < sizes.len()
    &&& sizes[grows] is Min && sizes[grows]->Min_0 <= i16::MAX
    &&& forall|i: int| 0 <= i < sizes.len() && i != grows ==> (#[trigger] sizes[i]) is Length
    &&& asked(sizes, sizes.len()) <= extent
}

/// Where the part at `i` begins, if the one at `grows` takes what the others leave.
pub open spec fn fitted_edge(sizes: Seq<Size>, grows: int, extent: nat, i: int) -> int {
    asked(sizes, i as nat) + if i > grows {
        extent - asked(sizes, sizes.len())
    } else {
        0
    }
}

/// Whether all the sizes are percentages, of no more than the whole.
pub open spec fn all_shares(sizes: Seq<Size>) -> bool {
    &&& forall|i: int| 0 <= i < sizes.len() ==> (#[trigger] sizes[i]) is Percentage
    &&& asked(sizes, sizes.len()) <= 100
}

/// So many hundredths of `n` cells, to the nearest cell.
pub open spec fn share(n: nat, hundredths: nat) -> int {
    (n as int * hundredths as int + 50) / 100
}

/// Splits an area by `ratatui::layout::Layout::split`. There is a part for each size, and each lies
/// in the area: the solver is required to keep all edges between those of the area. Across the way
/// of the split a part takes all of the area. The parts stand one behind another. Lengths that fit
/// are met, and a minimum among them takes what they leave; so are percentages of no more than the
/// whole, with each edge at the nearest cell. How other sizes are met is left unsaid: then the solver
/// weighs what it gives up, and walks hash maps where several solutions fit.
#[verifier::external_body]
fn split_area(area: Area, split: Split, sizes: &Vec<Size>) -> (r: Vec<Area>)
    requires
        area.x + area.width <= u16::MAX,
        area.y + area.height <= u16::MAX,
    ensures
        r@.len() == sizes@.len(),
        forall|i: int| 0 <= i < r@.len() ==> lies_within(#[trigger] r@[i], area),
        forall|i: int| 0 <= i < r@.len() ==> spans(#[trigger] r@[i], area, split),
        forall|grows: int, i: int|
            #![trigger all_fit(sizes@, grows, extent(area, split)), r@[i]]
            all_fit(sizes@, grows, extent(area, split)) && 0 <= i < r@.len() ==> r@[i] == band(
                area,
                split,
                fitted_edge(sizes@, grows, extent(area, split), i),
                fitted_edge(sizes@, grows, extent(area, split), i + 1),
            ),
        all_shares(sizes@) ==> forall|i: int|
            0 <= i < r@.len() ==> #[trigger] r@[i] == band(
                area,
                split,
                share(extent(area, split), asked(sizes@, i as nat)),
                share(extent(area, split), asked(sizes@, (i + 1) as nat)),
            ),
{
    let constraints = sizes.iter().map(|size| match *size {
        Size::Length(n) => Constraint::Length(n),
        Size::Min(n) => Constraint::Min(n),
        Size::Percentage(n) => Constraint::Percentage(n),
    });
    let layout = match split {
        Split::Rows => Layout::vertical(constraints),
        Split::Columns => Layout::horizontal(constraints),
    };
    let parts = layout.split(Rect::new(area.x, area.y, area.width, area.height));
    parts.iter().map(|r| Area { x: r.x, y: r.y, width: r.width, height: r.height }).collect()
}

/// A grid of cells, each with a symbol.
#[verifier::external_type_specification]
#[verifier::external_body]
pub struct ExBuffer(ratatui::buffer::Buffer);

/// The symbols that a buffer holds, by column and row.
pub uninterp spec fn screen_cells(screen: ratatui::buffer::Buffer) -> Map<(u16, u16), Seq<char>>;

/// The symbols after `ratatui::widgets::Paragraph`, unwrapped, was rendered in an area: given those
/// before, the area, and the pieces of each line.
pub uninterp spec fn painted(
    cells: Map<(u16, u16), Seq<char>>,
    area: Area,
    texts: Seq<Seq<Seq<char>>>,
) -> Map<(u16, u16), Seq<char>>;

/// The symbols after `ratatui::widgets::Paragraph`, wrapped without trimming, was rendered in an area.
pub uninterp spec fn painted_wrapped(
    cells: Map<(u16, u16), Seq<char>>,
    area: Area,
    texts: Seq<Seq<Seq<char>>>,
) -> Map<(u16, u16), Seq<char>>;

/// The symbols after `ratatui::widgets::Paragraph`, wrapped without trimming in a titled block with
/// all borders, was rendered in an area.
pub uninterp spec fn painted_boxed(
    cells: Map<(u16, u16), Seq<char>>,
    area: Area,
    title: Seq<char>,
    texts: Seq<Seq<Seq<char>>>,
) -> Map<(u16, u16), Seq<char>>;

/// The pieces of each line, without their style.
pub open spec fn texts_of(lines: Seq<Seq<lines::SpanView>>) -> Seq<Seq<Seq<char>>> {
    Seq::new(lines.len(), |i: int| Seq::new(lines[i].len(), |j: int| lines[i][j].text))
}

/// A screen on which nothing was drawn.
pub open spec fn blank_cells(width: u16, height: u16) -> Map<(u16, u16), Seq<char>> {
    Map::new(|cell: (u16, u16)| covers(whole(width, height), cell), |cell: (u16, u16)| " "@)
}

/// An area with all that lines which are drawn in it may reach: wrapped lines of zero-width and wide
/// symbols run over its right edge, but stay within three times its width.
pub open spec fn reach(area: Area) -> Area {
    Area { width: (3 * area.width) as u16, ..area }
}

/// Whether an area is not too wide to be drawn on, and there is a cell wherever a line in it may
/// reach.
pub open spec fn can_paint(cells: Map<(u16, u16), Seq<char>>, area: Area) -> bool {
    &&& area.width <= MAX_SCREEN_WIDTH
    &&& area.x + 3 * area.width <= u16::MAX
    &&& area.y + area.height <= u16::MAX
    &&& forall|cell: (u16, u16)| covers(reach(area), cell) ==> #[trigger] cells.contains_key(cell)
}

/// The columns in which a screen of a width is drawn: what runs over its right edge has room there,
/// and is not shown.
pub open spec fn columns(width: u16) -> u16 {
    (3 * width) as u16
}

/// An empty buffer, by `ratatui::buffer::Buffer::empty`: each cell in its area holds a space.
#[verifier::external_body]
fn blank_screen(width: u16, height: u16) -> (r: ratatui::buffer::Buffer)
    ensures
        screen_cells(r) == blank_cells(width, height),
{
    ratatui::buffer::Buffer::empty(Rect::new(0, 0, width, height))
}

/// Renders lines by `ratatui::widgets::Paragraph`, unwrapped. What the symbols become is a matter of
/// the symbols before, the area and the texts; no cell comes or goes.
#[verifier::external_body]
fn paint_lines(screen: &mut ratatui::buffer::Buffer, area: Area, lines: &Vec<StyledLine>)
    requires
        can_paint(screen_cells(*old(screen)), area),
    ensures
        screen_cells(*final(screen)) == painted(
            screen_cells(*old(screen)),
            area,
            texts_of(lines::line_views(lines@)),
        ),
        screen_cells(*final(screen)).dom() == screen_cells(*old(screen)).dom(),
{
    let rows = lines.iter().map(|line| {
        Line::from_iter(line.spans.iter().map(|span| Span::raw(&span.text)))
    });
    let text = Text::from_iter(rows);
    let rect = Rect::new(area.x, area.y, area.width, area.height);
    Paragraph::new(text).render(rect, screen);
}

/// Renders lines by `ratatui::widgets::Paragraph`, wrapped without trimming. What the symbols become
/// is a matter of the symbols before, the area and the texts; no cell comes or goes. A wrapped line
/// takes less than three times the width: a word grows while its line is not full, by one symbol past
/// that, and by one more when the line before it is given up; no symbol is wider than the area.
#[verifier::external_body]
fn paint_wrapped(screen: &mut ratatui::buffer::Buffer, area: Area, lines: &Vec<StyledLine>)
    requires
        can_paint(screen_cells(*old(screen)), area),
    ensures
        screen_cells(*final(screen)) == painted_wrapped(
            screen_cells(*old(screen)),
            area,
            texts_of(lines::line_views(lines@)),
        ),
        screen_cells(*final(screen)).dom() == screen_cells(*old(screen)).dom(),
{
    let rows = lines.iter().map(|line| {
        Line::from_iter(line.spans.iter().map(|span| Span::raw(&span.text)))
    });
    let text = Text::from_iter(rows);
    let rect = Rect::new(area.x, area.y, area.width, area.height);
    let paragraph = Paragraph::new(text);
    paragraph.wrap(ratatui::widgets::Wrap { trim: false }).render(rect, screen);
}

/// The longest title of a block.
pub const MAX_TITLE_LENGTH: usize = 1_000;

/// Renders lines by `ratatui::widgets::Paragraph`, wrapped without trimming, in a titled block with
/// all borders. What the symbols become is a matter of the symbols before, the area, the title and
/// the texts; no cell comes or goes. The lines are wrapped as without a block, within the borders.
#[verifier::external_body]
fn paint_boxed(
    screen: &mut ratatui::buffer::Buffer,
    area: Area,
    title: &str,
    lines: &Vec<StyledLine>,
)
    requires
        can_paint(screen_cells(*old(screen)), area),
        title.is_ascii(),
        title@.len() <= MAX_TITLE_LENGTH,
    ensures
        screen_cells(*final(screen)) == painted_boxed(
            screen_cells(*old(screen)),
            area,
            title@,
            texts_of(lines::line_views(lines@)),
        ),
        screen_cells(*final(screen)).dom() == screen_cells(*old(screen)).dom(),
{
    let rows = lines.iter().map(|line| {
        Line::from_iter(line.spans.iter().map(|span| Span::raw(&span.text)))
    });
    let text = Text::from_iter(rows);
    let rect = Rect::new(area.x, area.y, area.width, area.height);
    let block = ratatui::widgets::Block::bordered().title(title);
    let paragraph = Paragraph::new(text).block(block);
    paragraph.wrap(ratatui::widgets::Wrap { trim: false }).render(rect, screen);
}

/// The symbols after an area was cleared: spaces there, and the rest as it was.
pub open spec fn cleared(cells: Map<(u16, u16), Seq<char>>, area: Area) -> Map<
    (u16, u16),
    Seq<char>,
> {
    Map::new(
        |cell: (u16, u16)| cells.contains_key(cell),
        |cell: (u16, u16)|
            if covers(area, cell) {
                " "@
            } else {
                cells[cell]
            },
    )
}

/// Clears an area by `ratatui::widgets::Clear`: its cells hold spaces, and the rest is as it was.
#[verifier::external_body]
fn clear_area(screen: &mut ratatui::buffer::Buffer, area: Area)
    requires
        can_paint(screen_cells(*old(screen)), area),
    ensures
        screen_cells(*final(screen)) == cleared(screen_cells(*old(screen)), area),
{
    let rect = Rect::new(area.x, area.y, area.width, area.height);
    ratatui::widgets::Clear.render(rect, screen);
}

/// The symbol of a cell, by `ratatui::buffer::Cell::symbol`.
#[verifier::external_body]
fn cell_symbol(screen: &ratatui::buffer::Buffer, x: u16, y: u16) -> (r: String)
    requires
        screen_cells(*screen).contains_key((x, y)),
    ensures
        r@ == screen_cells(*screen)[(x, y)],
{
    screen[(x, y)].symbol().to_owned()
}

/// The number of columns that a text takes, by `ratatui::text::Span::width`.
pub uninterp spec fn text_width(text: Seq<char>) -> nat;

/// The number of columns that a text takes, by `ratatui::text::Span::width`; a matter of the text
/// alone.
#[verifier::external_body]
fn columns_of(text: &str) -> (r: usize)
    ensures
        r as nat == text_width(text@),
{
    Span::raw(text).width()
}

/// The cell before a cell, in the order in which a screen is read.
pub open spec fn cell_before(width: u16, x: u16, y: u16) -> (u16, u16) {
    if x > 0 {
        ((x - 1) as u16, y)
    } else {
        ((width - 1) as u16, (y - 1) as u16)
    }
}

/// What is seen in a cell: its symbol, but nothing where the symbol of the cell before takes more than
/// a column.
pub open spec fn seen(cells: Map<(u16, u16), Seq<char>>, width: u16, x: u16, y: u16) -> Seq<char> {
    if (x > 0 || y > 0) && text_width(cells[cell_before(width, x, y)]) > 1 {
        " "@
    } else {
        cells[(x, y)]
    }
}

/// What is seen in the first `count` cells of a row.
pub open spec fn row_text(
    cells: Map<(u16, u16), Seq<char>>,
    width: u16,
    y: u16,
    count: nat,
) -> Seq<char>
    decreases count,
{
    if count == 0 {
        Seq::empty()
    } else {
        row_text(cells, width, y, (count - 1) as nat) + seen(cells, width, (count - 1) as u16, y)
    }
}

/// The first `rows` rows of a screen, each with a line feed behind it.
pub open spec fn screen_text(cells: Map<(u16, u16), Seq<char>>, width: u16, rows: nat) -> Seq<char>
    decreases rows,
{
    if rows == 0 {
        Seq::empty()
    } else {
        screen_text(cells, width, (rows - 1) as nat) + row_text(
            cells,
            width,
            (rows - 1) as u16,
            width as nat,
        ) + "\n"@
    }
}

fn seen_symbol(
    screen: &ratatui::buffer::Buffer,
    width: u16,
    height: u16,
    x: u16,
    y: u16,
) -> (r: String)
    requires
        width <= MAX_SCREEN_WIDTH,
        screen_cells(*screen).dom() == blank_cells(columns(width), height).dom(),
        x < width,
        y < height,
    ensures
        r@ == seen(screen_cells(*screen), width, x, y),
{
    assert(blank_cells(columns(width), height).contains_key((x, y)));
    if x > 0 || y > 0 {
        let before: (u16, u16) = if x > 0 {
            (x - 1, y)
        } else {
            (width - 1, y - 1)
        };
        assert(blank_cells(columns(width), height).contains_key(before));
        if columns_of(cell_symbol(screen, before.0, before.1).as_str()) > 1 {
            return " ".to_owned();
        }
    }
    cell_symbol(screen, x, y)
}

fn read_screen(screen: &ratatui::buffer::Buffer, width: u16, height: u16) -> (r: String)
    requires
        width <= MAX_SCREEN_WIDTH,
        screen_cells(*screen).dom() == blank_cells(columns(width), height).dom(),
    ensures
        r@ == screen_text(screen_cells(*screen), width, height as nat),
{
    let mut r = String::new();
    assert(r@ =~= Seq::empty());
    let mut y: u16 = 0;
    while y < height
        invariant
            y <= height,
            width <= MAX_SCREEN_WIDTH,
            screen_cells(*screen).dom() == blank_cells(columns(width), height).dom(),
            r@ == screen_text(screen_cells(*screen), width, y as nat),
        decreases height - y,
    {
        let mut row = String::new();
        assert(row@ =~= Seq::empty());
        let mut x: u16 = 0;
        while x < width
            invariant
                x <= width,
                y < height,
                width <= MAX_SCREEN_WIDTH,
                screen_cells(*screen).dom() == blank_cells(columns(width), height).dom(),
                row@ == row_text(screen_cells(*screen), width, y, x as nat),
            decreases width - x,
        {
            row.append(seen_symbol(screen, width, height, x, y).as_str());
            x += 1;
        }
        r.append(row.as_str());
        r.append("\n");
        y += 1;
    }
    r
}

/// The lines of the history that are drawn in an area.
pub open spec fn history_window(state: TuiView, area: Area) -> Seq<Seq<lines::SpanView>> {
    let all = lines::history(state);
    lines::window(
        if all.len() == 0 {
            seq![lines::raw_line(""@)]
        } else {
            all
        },
        area.height as nat,
        state.scroll_offset as nat,
    )
}

/// The symbols of the whole picture: header, history, status and composer in their rows, and an
/// approval that is asked for over all of them.
pub open spec fn picture(
    state: TuiView,
    width: u16,
    height: u16,
    rows: Seq<Area>,
    modal: Area,
) -> Map<(u16, u16), Seq<char>> {
    let bare = blank_cells(columns(width), height);
    let headed = painted(bare, rows[0], texts_of(seq![lines::header(state)]));
    let told = painted_wrapped(headed, rows[1], texts_of(history_window(state, rows[1])));
    let ruled = painted(
        told,
        rows[2],
        texts_of(seq![seq![lines::colored(lines::status_words(state), lines::Hue::DarkGray)]]),
    );
    let composed = painted_wrapped(ruled, rows[3], texts_of(lines::composer(state)));
    match state.approval {
        Some(approval) => painted_boxed(
            cleared(composed, modal),
            modal,
            "Approval"@,
            texts_of(lines::approval_head(approval) + lines::approval_body(approval)),
        ),
        None => composed,
    }
}

proof fn lemma_can_paint(cells: Map<(u16, u16), Seq<char>>, width: u16, height: u16, area: Area)
    requires
        width <= MAX_SCREEN_WIDTH,
        cells.dom() == blank_cells(columns(width), height).dom(),
        lies_within(area, whole(width, height)),
    ensures
        can_paint(cells, area),
{
    assert forall|cell: (u16, u16)| covers(reach(area), cell) implies #[trigger] cells.contains_key(
        cell,
    ) by {
        assert(blank_cells(columns(width), height).contains_key(cell));
    }
}

fn paint_rows(
    screen: &mut ratatui::buffer::Buffer,
    state: &TuiState,
    width: u16,
    height: u16,
    rows: &Vec<Area>,
)
    requires
        width <= MAX_SCREEN_WIDTH,
        screen_cells(*old(screen)) == blank_cells(columns(width), height),
        rows@.len() == 4,
        forall|i: int| 0 <= i < 4 ==> lies_within(#[trigger] rows@[i], whole(width, height)),
    ensures
        screen_cells(*final(screen)) == picture(
            TuiView { approval: None, ..state@ },
            width,
            height,
            rows@,
            whole(width, height),
        ),
        screen_cells(*final(screen)).dom() == blank_cells(columns(width), height).dom(),
{
    let header = vec![header_rule(state)];
    assert(lines::line_views(header@) =~= seq![lines::header(state@)]);
    proof {
        lemma_can_paint(screen_cells(*screen), width, height, rows@[0]);
    }
    paint_lines(screen, rows[0], &header);
    let mut history = history_lines(state);
    assert(lines::line_views(history@).len() == history@.len());
    if history.len() == 0 {
        history.push(StyledLine { spans: Vec::new() });
        assert(lines::raw_line(""@) =~= Seq::empty()) by {
            reveal_strlit("");
        }
        assert(history@[0]@ =~= lines::raw_line(""@));
        assert(lines::line_views(history@) =~= seq![lines::raw_line(""@)]);
    }
    let visible = visible_lines(history, rows[1].height, state.scroll_offset);
    proof {
        lemma_can_paint(screen_cells(*screen), width, height, rows@[1]);
    }
    paint_wrapped(screen, rows[1], &visible);
    let status = vec![status_rule(state)];
    assert(lines::line_views(status@) =~= seq![
        seq![lines::colored(lines::status_words(state@), lines::Hue::DarkGray)],
    ]);
    proof {
        lemma_can_paint(screen_cells(*screen), width, height, rows@[2]);
    }
    paint_lines(screen, rows[2], &status);
    let composer = composer_lines(state);
    proof {
        lemma_can_paint(screen_cells(*screen), width, height, rows@[3]);
    }
    paint_wrapped(screen, rows[3], &composer);
}

/// The picture of the interface as text, drawn in the given areas.
pub fn render_in(
    state: &TuiState,
    width: u16,
    height: u16,
    rows: &Vec<Area>,
    modal: Area,
) -> (r: String)
    requires
        width <= MAX_SCREEN_WIDTH,
        rows@.len() == 4,
        forall|i: int| 0 <= i < 4 ==> lies_within(#[trigger] rows@[i], whole(width, height)),
        lies_within(modal, whole(width, height)),
    ensures
        r@ == screen_text(picture(state@, width, height, rows@, modal), width, height as nat),
{
    let mut screen = blank_screen(3 * width, height);
    paint_rows(&mut screen, state, width, height, rows);
    if let Some(approval) = &state.approval {
        proof {
            lemma_can_paint(screen_cells(screen), width, height, modal);
        }
        clear_area(&mut screen, modal);
        assert(screen_cells(screen).dom() =~= blank_cells(columns(width), height).dom());
        proof {
            lemma_can_paint(screen_cells(screen), width, height, modal);
        }
        let lines = approval_lines(approval);
        proof {
            reveal_strlit("Approval");
        }
        paint_boxed(&mut screen, modal, "Approval", &lines);
    }
    read_screen(&screen, width, height)
}

/// The rows of a screen with room for all: one for the header, one for the status, what the composer
/// takes, and what is left for the history.
pub open spec fn screen_bands(width: u16, height: u16, composer: nat) -> Seq<Area> {
    seq![
        Area { x: 0, y: 0, width, height: 1 },
        Area { x: 0, y: 1, width, height: (height - 2 - composer) as u16 },
        Area { x: 0, y: (height - 1 - composer) as u16, width, height: 1 },
        Area { x: 0, y: (height - composer) as u16, width, height: composer as u16 },
    ]
}

/// The rows of the picture: one for the header, one for the status, what the composer takes, and at
/// least eight for the history.
fn screen_rows(state: &TuiState, width: u16, height: u16) -> (r: Vec<Area>)
    ensures
        r@.len() == 4,
        forall|i: int| 0 <= i < 4 ==> lies_within(#[trigger] r@[i], whole(width, height)),
        height >= 10 + lines::composer_rows(state@.composer) ==> r@ == screen_bands(
            width,
            height,
            lines::composer_rows(state@.composer),
        ),
{
    let composer = composer_height(state);
    let sizes = vec![Size::Length(1), Size::Min(8), Size::Length(1), Size::Length(composer)];
    let area = Area { x: 0, y: 0, width, height };
    let rows = split_area(area, Split::Rows, &sizes);
    proof {
        reveal_with_fuel(asked, 5);
        if height >= 10 + composer {
            assert(all_fit(sizes@, 1, extent(area, Split::Rows)));
            assert(rows@[0] == screen_bands(width, height, composer as nat)[0]);
            assert(rows@[1] == screen_bands(width, height, composer as nat)[1]);
            assert(rows@[2] == screen_bands(width, height, composer as nat)[2]);
            assert(rows@[3] == screen_bands(width, height, composer as nat)[3]);
            assert(rows@ =~= screen_bands(width, height, composer as nat));
        }
    }
    rows
}

/// The middle of a screen: so many hundredths of it, with half of the rest on either side.
pub open spec fn middle(width: u16, height: u16, percent_x: nat, percent_y: nat) -> Area {
    let left = share(width as nat, ((100 - percent_x) / 2) as nat);
    let right = share(width as nat, (((100 - percent_x) / 2) + percent_x) as nat);
    let top = share(height as nat, ((100 - percent_y) / 2) as nat);
    let bottom = share(height as nat, (((100 - percent_y) / 2) + percent_y) as nat);
    Area {
        x: left as u16,
        y: top as u16,
        width: (right - left) as u16,
        height: (bottom - top) as u16,
    }
}

/// The middle of a screen, as large as the percentages say.
fn centered_area(percent_x: u16, percent_y: u16, width: u16, height: u16) -> (r: Area)
    requires
        percent_x <= 100,
        percent_y <= 100,
    ensures
        lies_within(r, whole(width, height)),
        r == middle(width, height, percent_x as nat, percent_y as nat),
{
    let area = Area { x: 0, y: 0, width, height };
    let beside: u16 = (100 - percent_y) / 2;
    let heights = vec![
        Size::Percentage(beside),
        Size::Percentage(percent_y),
        Size::Percentage(beside),
    ];
    let rows = split_area(area, Split::Rows, &heights);
    let across = rows[1];
    let beside: u16 = (100 - percent_x) / 2;
    let widths = vec![
        Size::Percentage(beside),
        Size::Percentage(percent_x),
        Size::Percentage(beside),
    ];
    let columns = split_area(across, Split::Columns, &widths);
    proof {
        reveal_with_fuel(asked, 4);
        assert(all_shares(heights@));
        assert(all_shares(widths@));
    }
    columns[1]
}

/// The picture of the interface as text, with the rows one below another and an approval in the
/// middle. On a screen with fewer than ten rows beside those of the composer, how many each part gets
/// is up to the layout.
pub fn render_snapshot(state: &TuiState, width: u16, height: u16) -> (r: AppResult<String>)
    requires
        width <= MAX_SCREEN_WIDTH,
    ensures
        r is Ok,
        height >= 10 + lines::composer_rows(state@.composer) ==> r->Ok_0@ == screen_text(
            picture(
                state@,
                width,
                height,
                screen_bands(width, height, lines::composer_rows(state@.composer)),
                middle(width, height, 74, 64),
            ),
            width,
            height as nat,
        ),
        exists|rows: Seq<Area>|
            {
                &&& rows.len() == 4
                &&& forall|i: int|
                    0 <= i < 4 ==> lies_within(#[trigger] rows[i], whole(width, height))
                &&& r->Ok_0@ == screen_text(
                    #[trigger] picture(
                        state@,
                        width,
                        height,
                        rows,
                        middle(width, height, 74, 64),
                    ),
                    width,
                    height as nat,
                )
            },
{
    let rows = screen_rows(state, width, height);
    let modal = centered_area(74, 64, width, height);
    let text = render_in(state, width, height, &rows, modal);
    assert(text@ == screen_text(
        picture(state@, width, height, rows@, modal),
        width,
        height as nat,
    ));
    Ok(text)
}

/// The bands of the screen lie one under the other, over the whole of it: the header and the status line
/// have one row each, the composer what it asks for, and what was said has all the rest.
pub proof fn law_bands_fill_the_screen(width: u16, height: u16, composer: nat)
    requires
        composer + 2 <= height,
    ensures
        ({
            let bands = screen_bands(width, height, composer);
            &&& bands.len() == 4
            &&& forall|i: int| 0 <= i < 4 ==> (#[trigger] bands[i]).x == 0 && bands[i].width == width
            &&& bands[0].y == 0 && bands[0].height == 1
            &&& bands[1].y == bands[0].y + bands[0].height
            &&& bands[2].y == bands[1].y + bands[1].height && bands[2].height == 1
            &&& bands[3].y == bands[2].y + bands[2].height && bands[3].height == composer
            &&& bands[3].y + bands[3].height == height
        }),
{
}

/// A share of a length is what its hundredths come to, rounded to the nearest.
pub proof fn law_shares_are_rounded(n: nat, hundredths: nat)
    requires
        hundredths <= 100,
    ensures
        -50 <= 100 * share(n, hundredths) - n * hundredths <= 50,
{
    let x = n as int * hundredths as int;
    assert(share(n, hundredths) == (x + 50) / 100);
}

/// What is shown in the middle of the screen lies within it.
pub proof fn law_the_middle_lies_on_the_screen(
    width: u16,
    height: u16,
    percent_x: nat,
    percent_y: nat,
)
    requires
        percent_x <= 100,
        percent_y <= 100,
    ensures
        lies_within(middle(width, height, percent_x, percent_y), whole(width, height)),
{
    lemma_inner_shares(width as nat, percent_x);
    lemma_inner_shares(height as nat, percent_y);
}

proof fn lemma_inner_shares(n: nat, percent: nat)
    requires
        percent <= 100,
        n <= u16::MAX,
    ensures
        0 <= share(n, ((100 - percent) / 2) as nat) <= share(
            n,
            (((100 - percent) / 2) + percent) as nat,
        ) <= n,
{
    let a = (100 - percent) / 2;
    let b = a + percent;
    assert(0 <= n * a <= n * b <= n * 100) by (nonlinear_arith)
        requires
            0 <= a <= b <= 100,
            0 <= n,
    ;
}

} // verus!

//! Rendering on a character display of four rows of twenty columns.
//!
//! The renderer decides what has to be written; the driver that owns the
//! device performs the writes. Writes are slow, so a row is sent only when it
//! differs from what the device shows.

use vstd::prelude::*;
use crate::display::{
    DirectionModel, PassageModel, TramDirectionState, TramNextPassage, UiModel, UiState,
    MAX_PASSAGES,
};
use crate::text::{chars_of, fit, prefix, right_align, BoundedString};

verus! {

/// The number of rows of the display.
pub const ROWS: usize = 4;

/// The number of columns of the display.
pub const COLUMNS: usize = 20;

/// The columns of a passage row that hold the destination.
pub const DESTINATION_COLUMNS: usize = 17;

/// The columns of a passage row that hold the minutes, right-aligned.
pub const ARRIVAL_COLUMNS: usize = 3;

/// Whether a line feed comes before the character at `index`, when text is
/// wrapped at `width` columns: before each character that would start past a
/// full row.
pub open spec fn breaks_before(index: int, width: nat) -> bool {
    width == 0 || (index > 0 && index % (width as int) == 0)
}

/// `input` with a line feed wherever a row of `width` columns is full.
pub open spec fn wrap(input: Seq<char>, width: nat) -> Seq<char>
    decreases input.len(),
{
    if input.len() == 0 {
        Seq::empty()
    } else {
        let before = wrap(input.drop_last(), width);
        if breaks_before(input.len() - 1, width) {
            before.push('\n').push(input.last())
        } else {
            before.push(input.last())
        }
    }
}

/// Wrapping at the width of the display adds one line feed for each full row
/// that other characters follow.
pub proof fn lemma_wrap_length(input: Seq<char>)
    ensures
        wrap(input, COLUMNS as nat).len() == if input.len() == 0 {
            0
        } else {
            input.len() + (input.len() - 1) / (COLUMNS as int)
        },
    decreases input.len(),
{
    if input.len() > 0 {
        lemma_wrap_length(input.drop_last());
    }
}

/// `input` wrapped at `width` columns, in full.
pub fn wrap_chars(input: &Vec<char>, width: usize) -> (out: Vec<char>)
    ensures
        out@ == wrap(input@, width as nat),
{
    let mut out: Vec<char> = Vec::new();
    let mut i: usize = 0;
    while i < input.len()
        invariant
            i <= input.len(),
            out@ == wrap(input@.take(i as int), width as nat),
        decreases input.len() - i,
    {
        assert(input@.take(i + 1).drop_last() == input@.take(i as int));
        if width == 0 || (i > 0 && i % width == 0) {
            out.push('\n');
        }
        out.push(input[i]);
        i += 1;
    }
    assert(input@.take(input@.len() as int) == input@);
    out
}

/// Wraps `input` at `line_width` columns into `output`: a line feed stands
/// wherever a row is full. What does not fit into `output` is left out.
pub fn wrap_text<const OUT: usize>(input: &str, line_width: usize, output: &mut BoundedString<OUT>)
    ensures
        final(output)@ == prefix(wrap(input@, line_width as nat), OUT as nat),
{
    let chars = chars_of(input);
    let wrapped = wrap_chars(&chars, line_width);
    *output = BoundedString::<OUT>::from_range(&wrapped, 0, wrapped.len());
}

/// `s` cut or filled with trailing spaces to exactly `width` characters.
pub fn fit_chars(s: &Vec<char>, width: usize) -> (out: Vec<char>)
    ensures
        out@ == fit(s@, width as nat),
{
    let mut out: Vec<char> = Vec::new();
    let mut i: usize = 0;
    while i < width
        invariant
            i <= width,
            out@.len() == i,
            forall|k: int| 0 <= k < i ==> out@[k] == fit(s@, width as nat)[k],
        decreases width - i,
    {
        if i < s.len() {
            out.push(s[i]);
        } else {
            out.push(' ');
        }
        i += 1;
    }
    out
}

/// `s` moved to the right end of `width` columns; of a longer `s`, its first
/// `width` characters.
pub fn right_align_chars(s: &Vec<char>, width: usize) -> (out: Vec<char>)
    ensures
        out@ == right_align(s@, width as nat),
{
    let mut out: Vec<char> = Vec::new();
    if s.len() >= width {
        let mut i: usize = 0;
        while i < width
            invariant
                i <= width <= s.len(),
                out@ == s@.take(i as int),
            decreases width - i,
        {
            out.push(s[i]);
            i += 1;
        }
        out
    } else {
        let gap: usize = width - s.len();
        let mut i: usize = 0;
        while i < gap
            invariant
                i <= gap,
                out@ == Seq::new(i as nat, |k: int| ' '),
            decreases gap - i,
        {
            out.push(' ');
            i += 1;
        }
        let mut j: usize = 0;
        while j < s.len()
            invariant
                j <= s.len(),
                gap == width - s.len(),
                out@ == Seq::new(gap as nat, |k: int| ' ') + s@.take(j as int),
            decreases s.len() - j,
        {
            out.push(s[j]);
            j += 1;
        }
        out
    }
}

/// The character that writes the digit `d`.
pub open spec fn digit_char(d: nat) -> char {
    ('0' as u8 + d as u8) as char
}

/// `n` written in decimal digits, without leading zeros.
pub open spec fn decimal(n: nat) -> Seq<char>
    decreases n,
{
    if n < 10 {
        seq![digit_char(n)]
    } else {
        decimal(n / 10).push(digit_char(n % 10))
    }
}

/// The row of a passage: the destination on seventeen columns, cut or filled
/// with spaces, then the minutes at the right end of three columns.
pub open spec fn passage_row(passage: PassageModel) -> Seq<char> {
    fit(passage.destination, DESTINATION_COLUMNS as nat) + right_align(
        decimal(passage.relative_arrival as nat),
        ARRIVAL_COLUMNS as nat,
    )
}

/// The row of the `k`-th passage, or `otherwise` where there is no such passage.
pub open spec fn passage_row_or(passages: Seq<PassageModel>, k: int, otherwise: Seq<char>) -> Seq<char> {
    if 0 <= k < passages.len() {
        passage_row(passages[k])
    } else {
        otherwise
    }
}

/// The four rows that show the direction `direction` of the line `line`, each
/// of twenty columns.
///
/// The first row is the line name. The rows after it show one passage each;
/// without passages they say that none is due within the hour. The last row
/// shows the time of the update at its right end, unless a third passage
/// stands there.
pub open spec fn compose(line: Seq<char>, direction: DirectionModel) -> Seq<Seq<char>> {
    let title = fit(line, COLUMNS as nat);
    let blank = fit(Seq::empty(), COLUMNS as nat);
    let stamp = right_align(direction.update_at, COLUMNS as nat);
    let passages = direction.next_passages;
    if passages.len() == 0 {
        seq![title, fit("Pas de passage dans"@, COLUMNS as nat), fit("l'heure..."@, COLUMNS as nat), stamp]
    } else {
        seq![
            title,
            passage_row_or(passages, 0, blank),
            passage_row_or(passages, 1, blank),
            passage_row_or(passages, 2, stamp),
        ]
    }
}

/// The character that writes the digit `d`.
fn digit(d: u8) -> (c: char)
    requires
        d < 10,
    ensures
        c == digit_char(d as nat),
{
    (48u8 + d) as char
}

/// `n` written in decimal digits, without leading zeros.
pub fn decimal_chars(n: u8) -> (out: Vec<char>)
    ensures
        out@ == decimal(n as nat),
{
    reveal_with_fuel(decimal, 3);
    let mut out: Vec<char> = Vec::new();
    if n >= 100 {
        out.push(digit(n / 100));
    }
    if n >= 10 {
        out.push(digit((n / 10) % 10));
    }
    out.push(digit(n % 10));
    out
}

/// The row of `passage`, as `passage_row` says.
pub fn passage_row_chars(passage: &TramNextPassage) -> (out: Vec<char>)
    ensures
        out@ == passage_row(passage@),
{
    let mut out = fit_chars(passage.destination.as_chars(), DESTINATION_COLUMNS);
    let digits = decimal_chars(passage.relative_arrival);
    let mut minutes = right_align_chars(&digits, ARRIVAL_COLUMNS);
    out.append(&mut minutes);
    out
}

/// The line name and the direction that the cursor of `model` selects, if
/// there is something to select.
///
/// A cursor that points past the lines selects the first line; one that points
/// past the directions of its line selects the first of them.
pub open spec fn selected(model: UiModel) -> Option<(Seq<char>, DirectionModel)> {
    if model.lines.len() == 0 {
        None
    } else {
        let at = if model.current_line < model.lines.len() {
            model.current_line as int
        } else {
            0
        };
        let directions = model.lines[at].directions;
        if directions.len() == 0 {
            None
        } else {
            let slot = if model.current_direction_id < directions.len() {
                model.current_direction_id as int
            } else {
                0
            };
            Some((model.lines[at].line, directions[slot]))
        }
    }
}

/// What a write to the device is, as a mathematical value.
pub enum WriteModel {
    Message(Seq<char>),
    Row { row: nat, text: Seq<char> },
}

/// One write to the device.
#[derive(Debug)]
pub enum DisplayWrite {
    /// Clear the display, then print the text from the origin; a line feed in
    /// it moves to the start of the next row. There is room for a status text
    /// of eighty characters and the three line feeds that wrapping adds to it.
    Message(BoundedString<83>),
    /// Set the cursor to the start of the row `row`, then print `text`.
    Row { row: u8, text: BoundedString<20> },
}

impl View for DisplayWrite {
    type V = WriteModel;

    open spec fn view(&self) -> WriteModel {
        match *self {
            DisplayWrite::Message(text) => WriteModel::Message(text@),
            DisplayWrite::Row { row, text } => WriteModel::Row { row: row as nat, text: text@ },
        }
    }
}

/// The writes that turn the rows `shown` into the rows `wanted`, for the rows
/// before `upto`: one for each row that differs, in order.
pub open spec fn changed_rows(shown: Seq<Seq<char>>, wanted: Seq<Seq<char>>, upto: int) -> Seq<WriteModel>
    decreases upto,
{
    if upto <= 0 {
        Seq::empty()
    } else {
        let before = changed_rows(shown, wanted, upto - 1);
        if shown[upto - 1] == wanted[upto - 1] {
            before
        } else {
            before.push(WriteModel::Row { row: (upto - 1) as nat, text: wanted[upto - 1] })
        }
    }
}

/// What the renderer remembers, as a mathematical value.
pub struct RendererModel {
    /// The line name and the direction of the last frame that was rendered in full.
    pub last: Option<(Seq<char>, DirectionModel)>,
    /// The rows that the device shows, as far as the renderer knows.
    pub shown: Seq<Seq<char>>,
}

impl RendererModel {
    /// What a renderer remembers before anything is written: no frame, and
    /// four empty rows, which no row of a frame equals.
    pub open spec fn initial() -> RendererModel {
        RendererModel { last: None, shown: Seq::new(ROWS as nat, |i: int| Seq::<char>::empty()) }
    }

    /// The writes that showing `model` takes.
    ///
    /// Without lines, the status text is written in full, wrapped at the
    /// width of the display, if there is one. With lines, nothing is written where the
    /// selected line and direction are those of the last frame; otherwise each
    /// row is written that differs from what the device shows.
    pub open spec fn writes(self, model: UiModel) -> Seq<WriteModel> {
        if model.lines.len() == 0 {
            match model.current_message {
                Some(text) => seq![WriteModel::Message(wrap(text, COLUMNS as nat))],
                None => Seq::empty(),
            }
        } else {
            match selected(model) {
                None => Seq::empty(),
                Some((line, direction)) => if self.last == Some((line, direction)) {
                    Seq::empty()
                } else {
                    changed_rows(self.shown, compose(line, direction), ROWS as int)
                },
            }
        }
    }

    /// What is remembered once the device has taken `write`: a row is shown
    /// as written; after a status text nothing is known of any row.
    pub open spec fn written(self, write: WriteModel) -> RendererModel {
        match write {
            WriteModel::Message(_) => RendererModel::initial(),
            WriteModel::Row { row, text } => if row < self.shown.len() {
                RendererModel { shown: self.shown.update(row as int, text), ..self }
            } else {
                self
            },
        }
    }

    /// What is remembered once every write of the frame for `model` has succeeded.
    pub open spec fn frame_done(self, model: UiModel) -> RendererModel {
        if model.lines.len() == 0 {
            self
        } else {
            match selected(model) {
                None => self,
                Some(selection) => RendererModel { last: Some(selection), ..self },
            }
        }
    }

    /// What is remembered after `model` has been rendered and every write has
    /// succeeded.
    pub open spec fn rendered(self, model: UiModel) -> RendererModel {
        if model.lines.len() == 0 {
            match model.current_message {
                Some(_) => RendererModel::initial(),
                None => self,
            }
        } else {
            match selected(model) {
                None => self,
                Some((line, direction)) => if self.last == Some((line, direction)) {
                    self
                } else {
                    RendererModel { last: Some((line, direction)), shown: compose(line, direction) }
                },
            }
        }
    }
}

/// What a list of writes is, as a mathematical value.
pub open spec fn writes_view(writes: Seq<DisplayWrite>) -> Seq<WriteModel> {
    writes.map_values(|write: DisplayWrite| write@)
}

/// What a selection is, as a mathematical value.
pub open spec fn selection_view(selection: Option<(&BoundedString<16>, &TramDirectionState)>) -> Option<
    (Seq<char>, DirectionModel),
> {
    match selection {
        Some((line, direction)) => Some((line@, direction@)),
        None => None,
    }
}

/// The line name and the direction that the cursor of `state` selects, as
/// `selected` says.
pub fn select(state: &UiState) -> (selection: Option<(&BoundedString<16>, &TramDirectionState)>)
    ensures
        selection_view(selection) == selected(state@),
{
    let lines: usize = state.lines.len();
    if lines == 0 {
        return None;
    }
    let at: usize = if state.current_line < lines {
        state.current_line
    } else {
        0
    };
    let line = state.lines.item(at);
    let directions: usize = line.directions.len();
    if directions == 0 {
        return None;
    }
    let slot: usize = if state.current_direction_id < directions {
        state.current_direction_id
    } else {
        0
    };
    Some((&line.line, line.directions.item(slot)))
}

/// A row of the display that holds `chars`.
fn row_of(chars: &Vec<char>) -> (row: BoundedString<20>)
    requires
        chars@.len() <= COLUMNS,
    ensures
        row@ == chars@,
{
    BoundedString::<20>::from_range(chars, 0, chars.len())
}

/// The row of the `k`-th passage of `direction`, or `otherwise` where there is none.
fn passage_row_or_chars(direction: &TramDirectionState, k: usize, otherwise: Vec<char>) -> (out: Vec<char>)
    ensures
        out@ == passage_row_or(direction@.next_passages, k as int, otherwise@),
{
    match direction.next_passages.get(k) {
        Some(passage) => passage_row_chars(passage),
        None => otherwise,
    }
}

/// The four rows that show `direction` of the line `line`, as `compose` says.
pub fn compose_rows(line: &BoundedString<16>, direction: &TramDirectionState) -> (rows: [BoundedString<20>; 4])
    ensures
        forall|i: int| 0 <= i < ROWS ==> rows@[i]@ == #[trigger] compose(line@, direction@)[i],
{
    let title = fit_chars(line.as_chars(), COLUMNS);
    let stamp = right_align_chars(direction.update_at.as_chars(), COLUMNS);
    if direction.next_passages.is_empty() {
        let first = fit_chars(&chars_of("Pas de passage dans"), COLUMNS);
        let second = fit_chars(&chars_of("l'heure..."), COLUMNS);
        [row_of(&title), row_of(&first), row_of(&second), row_of(&stamp)]
    } else {
        let first = passage_row_or_chars(direction, 0, fit_chars(&Vec::new(), COLUMNS));
        let second = passage_row_or_chars(direction, 1, fit_chars(&Vec::new(), COLUMNS));
        let third = passage_row_or_chars(direction, 2, stamp);
        [row_of(&title), row_of(&first), row_of(&second), row_of(&third)]
    }
}

/// Decides what to write to a display of four rows of twenty columns, and
/// remembers what it shows.
#[derive(Debug)]
pub struct LcdRenderer {
    last_rendered: Option<TramDirectionState>,
    last_rendered_line: Option<BoundedString<16>>,
    display_buffer: [BoundedString<20>; 4],
}

impl View for LcdRenderer {
    type V = RendererModel;

    closed spec fn view(&self) -> RendererModel {
        RendererModel {
            last: match (self.last_rendered, self.last_rendered_line) {
                (Some(direction), Some(line)) => Some((line@, direction@)),
                _ => None,
            },
            shown: Seq::new(ROWS as nat, |i: int| self.display_buffer@[i]@),
        }
    }
}

impl LcdRenderer {
    /// A renderer for a display on which nothing has been written yet.
    pub fn new() -> (renderer: Self)
        ensures
            renderer@ == RendererModel::initial(),
            renderer@.valid(),
    {
        let renderer = LcdRenderer {
            last_rendered: None,
            last_rendered_line: None,
            display_buffer: [
                BoundedString::new(),
                BoundedString::new(),
                BoundedString::new(),
                BoundedString::new(),
            ],
        };
        assert(renderer@.shown =~= RendererModel::initial().shown);
        renderer
    }

    /// Whether `line` and `direction` are those of the last frame that was
    /// rendered in full.
    fn is_last(&self, line: &BoundedString<16>, direction: &TramDirectionState) -> (same: bool)
        ensures
            same == (self@.last == Some((line@, direction@))),
    {
        match (&self.last_rendered, &self.last_rendered_line) {
            (Some(last), Some(last_line)) => last.eq(direction) && last_line.eq(line),
            _ => false,
        }
    }

    /// The writes that turn what the device shows into `rows`: one for each
    /// row that differs, in order.
    fn changed(&self, rows: &[BoundedString<20>; 4]) -> (writes: Vec<DisplayWrite>)
        ensures
            writes_view(writes@) == changed_rows(
                self@.shown,
                Seq::new(ROWS as nat, |i: int| rows@[i]@),
                ROWS as int,
            ),
    {
        let ghost wanted = Seq::new(ROWS as nat, |i: int| rows@[i]@);
        let mut writes: Vec<DisplayWrite> = Vec::new();
        let mut i: usize = 0;
        while i < ROWS
            invariant
                i <= ROWS,
                wanted == Seq::new(ROWS as nat, |i: int| rows@[i]@),
                writes_view(writes@) == changed_rows(self@.shown, wanted, i as int),
            decreases ROWS - i,
        {
            if !self.display_buffer[i].eq(&rows[i]) {
                writes.push(DisplayWrite::Row { row: i as u8, text: rows[i].clone() });
            }
            i += 1;
        }
        writes
    }

    /// The writes that showing `state` takes, as `RendererModel::writes` says.
    /// Nothing is remembered of them until they are reported as done.
    pub fn plan(&self, state: &UiState) -> (writes: Vec<DisplayWrite>)
        ensures
            writes_view(writes@) == self@.writes(state@),
    {
        if state.lines.is_empty() {
            match &state.current_message {
                Some(text) => {
                    let all = wrap_chars(text.as_chars(), COLUMNS);
                    proof {
                        lemma_wrap_length(text@);
                    }
                    assert(all@.subrange(0, all@.len() as int) == all@);
                    let wrapped = BoundedString::<83>::from_range(&all, 0, all.len());
                    let mut writes: Vec<DisplayWrite> = Vec::new();
                    writes.push(DisplayWrite::Message(wrapped));
                    writes
                },
                None => Vec::new(),
            }
        } else {
            match select(state) {
                None => Vec::new(),
                Some((line, direction)) => {
                    if self.is_last(line, direction) {
                        Vec::new()
                    } else {
                        let rows = compose_rows(line, direction);
                        assert(Seq::new(ROWS as nat, |i: int| rows@[i]@) =~= compose(
                            line@,
                            direction@,
                        ));
                        self.changed(&rows)
                    }
                },
            }
        }
    }

    /// Remembers that the device has taken `write`, as
    /// `RendererModel::written` says.
    pub fn written(&mut self, write: &DisplayWrite)
        ensures
            final(self)@ == old(self)@.written(write@),
    {
        match write {
            DisplayWrite::Message(_) => {
                *self = LcdRenderer::new();
            },
            DisplayWrite::Row { row, text } => {
                let at: usize = *row as usize;
                if at < ROWS {
                    self.display_buffer[at] = text.clone();
                    assert(self@.shown =~= old(self)@.shown.update(at as int, text@));
                }
            },
        }
    }

    /// Remembers that every write of the frame for `state` has succeeded, as
    /// `RendererModel::frame_done` says.
    pub fn frame_done(&mut self, state: &UiState)
        ensures
            final(self)@ == old(self)@.frame_done(state@),
    {
        if !state.lines.is_empty() {
            match select(state) {
                None => {},
                Some((line, direction)) => {
                    self.last_rendered = Some(direction.clone());
                    self.last_rendered_line = Some(line.clone());
                },
            }
        }
    }

    /// Remembers what became of `write`: as `written` does where the device
    /// has taken it; nothing where the write failed, so that the next plan
    /// holds it again.
    pub fn write_outcome(&mut self, write: &DisplayWrite, taken: bool)
        ensures
            final(self)@ == if taken {
                old(self)@.written(write@)
            } else {
                old(self)@
            },
    {
        if taken {
            self.written(write);
        }
    }

    /// Remembers what became of the frame for `state`: as `frame_done` does
    /// where every write of it has succeeded; nothing where one has failed, so
    /// that the frame is planned again.
    pub fn frame_outcome(&mut self, state: &UiState, complete: bool)
        ensures
            final(self)@ == if complete {
                old(self)@.frame_done(state@)
            } else {
                old(self)@
            },
    {
        if complete {
            self.frame_done(state);
        }
    }

    /// Renders the direction `direction` of the line `line`: returns the
    /// writes that it takes, and remembers them as done.
    ///
    /// Where both are those of the last frame, nothing is written. Otherwise
    /// each row that differs from what the device shows is written, and the
    /// frame becomes the last one.
    pub fn render_line(&mut self, line: &BoundedString<16>, direction: &TramDirectionState) -> (writes: Vec<
        DisplayWrite,
    >)
        ensures
            old(self)@.last == Some((line@, direction@)) ==> final(self)@ == old(self)@
                && writes_view(writes@) == Seq::<WriteModel>::empty(),
            old(self)@.last != Some((line@, direction@)) ==> final(self)@ == (RendererModel {
                last: Some((line@, direction@)),
                shown: compose(line@, direction@),
            }) && writes_view(writes@) == changed_rows(
                old(self)@.shown,
                compose(line@, direction@),
                ROWS as int,
            ),
    {
        if self.is_last(line, direction) {
            let writes: Vec<DisplayWrite> = Vec::new();
            return writes;
        }
        let rows = compose_rows(line, direction);
        assert(Seq::new(ROWS as nat, |i: int| rows@[i]@) =~= compose(line@, direction@));
        let writes = self.changed(&rows);
        self.last_rendered = Some(direction.clone());
        self.last_rendered_line = Some(line.clone());
        self.display_buffer = rows;
        writes
    }
}

/// A display that can show the state.
pub trait TramDisplay {
    /// Renders `state`: returns the writes that showing it takes, and
    /// remembers them as done.
    fn render(&mut self, state: &UiState) -> Vec<DisplayWrite>;
}

impl TramDisplay for LcdRenderer {
    fn render(&mut self, state: &UiState) -> (writes: Vec<DisplayWrite>)
        ensures
            writes_view(writes@) == old(self)@.writes(state@),
            final(self)@ == old(self)@.rendered(state@),
            old(self)@.valid() ==> final(self)@.valid(),
    {
        if state.lines.is_empty() {
            let writes = self.plan(state);
            if state.current_message.is_some() {
                *self = LcdRenderer::new();
            }
            writes
        } else {
            match select(state) {
                None => {
                    let writes: Vec<DisplayWrite> = Vec::new();
                    writes
                },
                Some((line, direction)) => self.render_line(line, direction),
            }
        }
    }
}

impl RendererModel {
    /// What is remembered once the device has taken each of `writes`, in order.
    pub open spec fn written_all(self, writes: Seq<WriteModel>) -> RendererModel
        decreases writes.len(),
    {
        if writes.len() == 0 {
            self
        } else {
            self.written_all(writes.drop_last()).written(writes.last())
        }
    }
}

/// Rendering a model a second time writes nothing, where the model has a
/// line, or has neither line nor status text.
pub proof fn lemma_second_render_writes_nothing(renderer: RendererModel, model: UiModel)
    requires
        model.lines.len() > 0 || model.current_message is None,
    ensures
        renderer.rendered(model).writes(model) == Seq::<WriteModel>::empty(),
{
}

/// The first frame is written in full: on a display on which nothing has
/// been written yet, each of the four rows is sent.
pub proof fn lemma_first_frame_writes_every_row(line: Seq<char>, direction: DirectionModel)
    ensures
        ({
            let wanted = compose(line, direction);
            changed_rows(RendererModel::initial().shown, wanted, ROWS as int) == seq![
                WriteModel::Row { row: 0, text: wanted[0] },
                WriteModel::Row { row: 1, text: wanted[1] },
                WriteModel::Row { row: 2, text: wanted[2] },
                WriteModel::Row { row: 3, text: wanted[3] },
            ]
        }),
{
    reveal_with_fuel(changed_rows, 5);
    let wanted = compose(line, direction);
    assert forall|i: int| 0 <= i < ROWS implies (#[trigger] wanted[i]).len() == COLUMNS by {
        if direction.next_passages.len() > 0 {
            if i == 1 {
                lemma_passage_row_ends_in_digit(direction.next_passages[0]);
            }
            if i == 2 && direction.next_passages.len() > 1 {
                lemma_passage_row_ends_in_digit(direction.next_passages[1]);
            }
            if i == 3 && direction.next_passages.len() > 2 {
                lemma_passage_row_ends_in_digit(direction.next_passages[2]);
            }
        }
    }
}

/// Once the device has taken the writes for the first `upto` rows, it shows
/// those rows as wanted and the others as before.
proof fn lemma_changed_rows_written(renderer: RendererModel, wanted: Seq<Seq<char>>, upto: int)
    requires
        0 <= upto <= renderer.shown.len() == wanted.len(),
    ensures
        ({
            let after = renderer.written_all(changed_rows(renderer.shown, wanted, upto));
            &&& after.last == renderer.last
            &&& after.shown.len() == wanted.len()
            &&& forall|i: int| 0 <= i < upto ==> after.shown[i] == wanted[i]
            &&& forall|i: int| upto <= i < wanted.len() ==> after.shown[i] == renderer.shown[i]
        }),
    decreases upto,
{
    if upto > 0 {
        lemma_changed_rows_written(renderer, wanted, upto - 1);
        let before = changed_rows(renderer.shown, wanted, upto - 1);
        if renderer.shown[upto - 1] != wanted[upto - 1] {
            let write = WriteModel::Row { row: (upto - 1) as nat, text: wanted[upto - 1] };
            assert(before.push(write).drop_last() == before);
        }
    }
}

/// A frame whose writes the device has taken one by one, and which is then
/// reported as done, is remembered as a frame rendered at once: the device
/// shows its four rows as they were composed.
pub proof fn lemma_confirmed_frame_is_rendered(renderer: RendererModel, model: UiModel)
    requires
        renderer.shown.len() == ROWS,
    ensures
        renderer.written_all(renderer.writes(model)).frame_done(model) == renderer.rendered(model),
{
    if model.lines.len() > 0 {
        if let Some((line, direction)) = selected(model) {
            if renderer.last != Some((line, direction)) {
                let wanted = compose(line, direction);
                lemma_changed_rows_written(renderer, wanted, ROWS as int);
                assert(renderer.written_all(renderer.writes(model)).shown =~= wanted);
            }
        }
    }
}

/// Where one write of a frame of rows fails and the others are taken, the
/// next plan for the same model holds the write that failed and no other.
pub proof fn lemma_failed_row_is_planned_again(renderer: RendererModel, model: UiModel, failed: int)
    requires
        renderer.shown.len() == ROWS,
        model.lines.len() > 0,
        0 <= failed < renderer.writes(model).len(),
    ensures
        renderer.written_all(renderer.writes(model).remove(failed)).writes(model) == seq![
            renderer.writes(model)[failed],
        ],
{
    let (line, direction) = selected(model)->0;
    let wanted = compose(line, direction);
    let writes = renderer.writes(model);
    let taken = writes.remove(failed);
    assert(writes == changed_rows(renderer.shown, wanted, ROWS as int));
    lemma_changed_rows_hold(renderer.shown, wanted, ROWS as int);
    assert forall|k: int| 0 <= k < taken.len() implies (#[trigger] taken[k]) == writes[if k < failed {
        k
    } else {
        k + 1
    }] by {}
    lemma_rows_written(renderer, taken);
    let after = renderer.written_all(taken);
    let row = writes[failed]->row as int;
    assert forall|i: int| 0 <= i < ROWS implies (#[trigger] after.shown[i]) == if i == row {
        renderer.shown[i]
    } else {
        wanted[i]
    } by {
        if i == row {
            assert forall|k: int| 0 <= k < taken.len() implies (#[trigger] taken[k])->row != i by {
                if k < failed {
                    assert(taken[k] == writes[k]);
                } else {
                    assert(taken[k] == writes[k + 1]);
                }
            }
        } else if renderer.shown[i] != wanted[i] {
            let k = choose|k: int| 0 <= k < writes.len() && (#[trigger] writes[k])->row == i;
            if k < failed {
                assert(taken[k] == writes[k]);
            } else {
                assert(taken[k - 1] == writes[k]);
            }
        }
    }
    lemma_changed_rows_only(after.shown, wanted, ROWS as int, row);
}

/// The writes that turn the rows `shown` into the rows `wanted` are row
/// writes, one for each row that differs and none for any other, each with
/// the row as it is wanted, in the order of the rows.
proof fn lemma_changed_rows_hold(shown: Seq<Seq<char>>, wanted: Seq<Seq<char>>, upto: int)
    requires
        0 <= upto <= shown.len() == wanted.len(),
    ensures
        ({
            let writes = changed_rows(shown, wanted, upto);
            &&& forall|k: int|
                0 <= k < writes.len() ==> (#[trigger] writes[k]) is Row && writes[k]->row < upto
                    && shown[writes[k]->row as int] != wanted[writes[k]->row as int]
                    && writes[k]->text == wanted[writes[k]->row as int]
            &&& forall|j: int, k: int|
                0 <= j < k < writes.len() ==> (#[trigger] writes[j])->row < (#[trigger] writes[k])->row
            &&& forall|i: int|
                0 <= i < upto && shown[i] != wanted[i] ==> exists|k: int|
                    0 <= k < writes.len() && (#[trigger] writes[k])->row == i
        }),
    decreases upto,
{
    if upto > 0 {
        lemma_changed_rows_hold(shown, wanted, upto - 1);
        let before = changed_rows(shown, wanted, upto - 1);
        let writes = changed_rows(shown, wanted, upto);
        assert forall|i: int| 0 <= i < upto && shown[i] != wanted[i] implies exists|k: int|
            0 <= k < writes.len() && (#[trigger] writes[k])->row == i by {
            if i < upto - 1 {
                let k = choose|k: int| 0 <= k < before.len() && (#[trigger] before[k])->row == i;
                assert(writes[k] == before[k]);
            } else {
                assert(writes[writes.len() - 1]->row == i);
            }
        }
    }
}

/// Where the rows `shown` are as wanted but for the row `row`, the writes that
/// turn them into the rows `wanted` are the write of that row alone.
proof fn lemma_changed_rows_only(shown: Seq<Seq<char>>, wanted: Seq<Seq<char>>, upto: int, row: int)
    requires
        0 <= upto <= shown.len() == wanted.len(),
        0 <= row < shown.len(),
        shown[row] != wanted[row],
        forall|i: int| 0 <= i < shown.len() && i != row ==> shown[i] == wanted[i],
    ensures
        changed_rows(shown, wanted, upto) == if row < upto {
            seq![WriteModel::Row { row: row as nat, text: wanted[row] }]
        } else {
            Seq::<WriteModel>::empty()
        },
    decreases upto,
{
    if upto > 0 {
        lemma_changed_rows_only(shown, wanted, upto - 1, row);
    }
}

/// Once the device has taken the row writes `writes`, each for a row that
/// the display has and no two for the same row, it shows each of their rows
/// as written and the others as before.
proof fn lemma_rows_written(renderer: RendererModel, writes: Seq<WriteModel>)
    requires
        forall|k: int|
            0 <= k < writes.len() ==> (#[trigger] writes[k]) is Row && writes[k]->row
                < renderer.shown.len(),
        forall|j: int, k: int|
            0 <= j < k < writes.len() ==> (#[trigger] writes[j])->row != (#[trigger] writes[k])->row,
    ensures
        ({
            let after = renderer.written_all(writes);
            &&& after.last == renderer.last
            &&& after.shown.len() == renderer.shown.len()
            &&& forall|k: int|
                0 <= k < writes.len() ==> after.shown[(#[trigger] writes[k])->row as int]
                    == writes[k]->text
            &&& forall|i: int|
                0 <= i < renderer.shown.len() && (forall|k: int|
                    0 <= k < writes.len() ==> (#[trigger] writes[k])->row != i)
                    ==> #[trigger] after.shown[i] == renderer.shown[i]
        }),
    decreases writes.len(),
{
    if writes.len() > 0 {
        let earlier = writes.drop_last();
        lemma_rows_written(renderer, earlier);
        let before = renderer.written_all(earlier);
        let after = renderer.written_all(writes);
        let last = writes[writes.len() - 1];
        assert forall|k: int| 0 <= k < writes.len() implies after.shown[(#[trigger] writes[k])->row as int]
            == writes[k]->text by {
            if k < writes.len() - 1 {
                assert(earlier[k] == writes[k]);
            }
        }
        assert forall|i: int|
            0 <= i < renderer.shown.len() && (forall|k: int|
                0 <= k < writes.len() ==> (#[trigger] writes[k])->row != i) implies #[trigger] after.shown[i]
            == renderer.shown[i] by {
            assert(last->row != i);
            assert forall|k: int| 0 <= k < earlier.len() implies (#[trigger] earlier[k])->row != i by {
                assert(earlier[k] == writes[k]);
            }
        }
    }
}

impl RendererModel {
    /// Whether what is remembered hangs together: four rows are known, and
    /// they are those of the last frame, if there was one.
    pub open spec fn valid(self) -> bool {
        &&& self.shown.len() == ROWS
        &&& self.last matches Some((line, direction)) ==> self.shown == compose(line, direction)
    }
}

/// A renderer that has written nothing remembers what hangs together, and
/// rendering keeps it so.
pub proof fn lemma_render_keeps_valid(renderer: RendererModel, model: UiModel)
    requires
        renderer.valid(),
    ensures
        RendererModel::initial().valid(),
        renderer.rendered(model).valid(),
{
}

/// When the three passages of the direction on screen give way to none, and
/// nothing else changes, the next frame writes the rows of the first two
/// passages anew, and that of the third unless the time of the update reads
/// the same as that row did; the row of the line name is left alone.
pub proof fn lemma_emptied_direction_is_repainted(
    renderer: RendererModel,
    before: UiModel,
    after: UiModel,
    line: Seq<char>,
    full: DirectionModel,
    emptied: DirectionModel,
)
    requires
        renderer.valid(),
        before.lines.len() > 0,
        after.lines.len() > 0,
        selected(before) == Some((line, full)),
        selected(after) == Some((line, emptied)),
        full.next_passages.len() == MAX_PASSAGES,
        emptied.next_passages.len() == 0,
        emptied.update_at == full.update_at,
        emptied.direction_id == full.direction_id,
    ensures
        ({
            let shown = renderer.rendered(before).shown;
            let wanted = compose(line, emptied);
            let first = WriteModel::Row { row: 1, text: wanted[1] };
            let second = WriteModel::Row { row: 2, text: wanted[2] };
            let third = WriteModel::Row { row: 3, text: wanted[3] };
            renderer.rendered(before).writes(after) == if shown[3] == wanted[3] {
                seq![first, second]
            } else {
                seq![first, second, third]
            }
        }),
{
    // A passage row ends in a digit, and each of the two rows that say that
    // no passage is due ends in a space.
    reveal_with_fuel(changed_rows, 5);
    lemma_passage_row_ends_in_digit(full.next_passages[0]);
    lemma_passage_row_ends_in_digit(full.next_passages[1]);
    reveal_strlit("Pas de passage dans");
    reveal_strlit("l'heure...");
}

/// The row of a passage has twenty columns and ends in a digit.
proof fn lemma_passage_row_ends_in_digit(passage: PassageModel)
    ensures
        passage_row(passage).len() == COLUMNS,
        passage_row(passage)[19] != ' ',
{
    reveal_with_fuel(decimal, 3);
}

} // verus!

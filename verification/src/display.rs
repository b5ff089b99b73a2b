//! The display model: what should be on screen, and the commands that change it.

use vstd::prelude::*;
use crate::bounded::{DirectionList, LineList, PassageList};
use crate::text::BoundedString;

verus! {

/// What a passage is, as a mathematical value.
pub struct PassageModel {
    pub destination: Seq<char>,
    pub relative_arrival: u8,
}

/// A predicted arrival of a vehicle: where it goes, and in how many minutes it comes.
#[derive(Debug)]
pub struct TramNextPassage {
    /// The display name of where the vehicle goes.
    pub destination: BoundedString<32>,
    /// The minutes until the vehicle arrives.
    pub relative_arrival: u8,
}

impl View for TramNextPassage {
    type V = PassageModel;

    open spec fn view(&self) -> PassageModel {
        PassageModel { destination: self.destination@, relative_arrival: self.relative_arrival }
    }
}

impl Clone for TramNextPassage {
    fn clone(&self) -> (copy: Self)
        ensures
            copy@ == self@,
    {
        TramNextPassage {
            destination: self.destination.clone(),
            relative_arrival: self.relative_arrival,
        }
    }
}

impl PartialEq for TramNextPassage {
    fn eq(&self, other: &Self) -> (same: bool)
    {
        self.relative_arrival == other.relative_arrival && self.destination == other.destination
    }
}

impl vstd::std_specs::cmp::PartialEqSpecImpl for TramNextPassage {
    open spec fn obeys_eq_spec() -> bool {
        true
    }

    open spec fn eq_spec(&self, other: &Self) -> bool {
        self@ == other@
    }
}

/// What the state of a direction is, as a mathematical value.
pub struct DirectionModel {
    pub update_at: Seq<char>,
    pub direction_id: usize,
    pub next_passages: Seq<PassageModel>,
}

/// One travel direction of a line: its upcoming passages and when they were
/// last refreshed.
#[derive(Debug)]
pub struct TramDirectionState {
    /// When the passages were last refreshed; shown as it is, never read.
    pub update_at: BoundedString<10>,
    /// The identifier that the line gives this direction; not its place in the list.
    pub direction_id: usize,
    /// The upcoming passages, soonest first as they were received.
    pub next_passages: PassageList,
}

impl View for TramDirectionState {
    type V = DirectionModel;

    open spec fn view(&self) -> DirectionModel {
        DirectionModel {
            update_at: self.update_at@,
            direction_id: self.direction_id,
            next_passages: self.next_passages@,
        }
    }
}

impl Clone for TramDirectionState {
    fn clone(&self) -> (copy: Self)
        ensures
            copy@ == self@,
    {
        TramDirectionState {
            update_at: self.update_at.clone(),
            direction_id: self.direction_id,
            next_passages: self.next_passages.clone(),
        }
    }
}

impl PartialEq for TramDirectionState {
    fn eq(&self, other: &Self) -> (same: bool)
    {
        self.direction_id == other.direction_id && self.update_at == other.update_at
            && self.next_passages == other.next_passages
    }
}

impl vstd::std_specs::cmp::PartialEqSpecImpl for TramDirectionState {
    open spec fn obeys_eq_spec() -> bool {
        true
    }

    open spec fn eq_spec(&self, other: &Self) -> bool {
        self@ == other@
    }
}

/// What the state of a line is, as a mathematical value.
pub struct LineModel {
    pub line: Seq<char>,
    pub directions: Seq<DirectionModel>,
}

/// One line: its display name and its directions.
#[derive(Debug)]
pub struct TramLineState {
    /// The display name, by which the line is found again.
    pub line: BoundedString<16>,
    /// The directions, in the order in which they were first seen.
    pub directions: DirectionList,
}

impl View for TramLineState {
    type V = LineModel;

    open spec fn view(&self) -> LineModel {
        LineModel { line: self.line@, directions: self.directions@ }
    }
}

/// The most lines that the display holds.
pub const MAX_LINES: usize = 8;

/// The most directions that a line holds.
pub const MAX_DIRECTIONS: usize = 2;

/// The most passages that a direction holds.
pub const MAX_PASSAGES: usize = 3;

/// What the display should show, as a mathematical value.
pub struct UiModel {
    pub lines: Seq<LineModel>,
    pub current_message: Option<Seq<char>>,
    pub current_line: nat,
    pub current_direction_id: nat,
}

/// Everything that the display should show, and which part of it is selected.
#[derive(Debug)]
pub struct UiState {
    /// The lines, in the order in which they were first seen.
    pub lines: LineList,
    /// The latest status text; shown while there is no line to show.
    pub current_message: Option<BoundedString<80>>,
    /// The place in `lines` of the line on screen.
    pub current_line: usize,
    /// The place, in that line's directions, of the direction on screen.
    pub current_direction_id: usize,
}

impl View for UiState {
    type V = UiModel;

    open spec fn view(&self) -> UiModel {
        UiModel {
            lines: self.lines@,
            current_message: match self.current_message {
                Some(text) => Some(text@),
                None => None,
            },
            current_line: self.current_line as nat,
            current_direction_id: self.current_direction_id as nat,
        }
    }
}

impl UiState {
    /// The state at start-up: no line, no message, the cursor at the origin.
    pub fn new() -> (state: Self)
        ensures
            state@ == UiModel::empty(),
            state@.valid(),
    {
        UiState {
            lines: LineList::new(),
            current_message: None,
            current_line: 0,
            current_direction_id: 0,
        }
    }
}

/// What a command is, as a mathematical value.
pub enum CommandModel {
    UpdateDirection {
        line: Seq<char>,
        direction_id: usize,
        next_passages: Seq<PassageModel>,
        update_at: Seq<char>,
    },
    UpdateMessage(Seq<char>),
    NextScreen,
}

/// A change to the display state.
#[derive(Debug)]
pub enum UiCommand {
    /// Fresh passages for one direction of one line.
    UpdateDirection {
        line: BoundedString<16>,
        direction_id: usize,
        next_passages: PassageList,
        update_at: BoundedString<10>,
    },
    /// A new status text.
    UpdateMessage(BoundedString<80>),
    /// Move the cursor to the next direction, or to the next line after the last one.
    NextScreen,
}

impl View for UiCommand {
    type V = CommandModel;

    open spec fn view(&self) -> CommandModel {
        match *self {
            UiCommand::UpdateDirection { line, direction_id, next_passages, update_at } => {
                CommandModel::UpdateDirection {
                    line: line@,
                    direction_id,
                    next_passages: next_passages@,
                    update_at: update_at@,
                }
            },
            UiCommand::UpdateMessage(text) => CommandModel::UpdateMessage(text@),
            UiCommand::NextScreen => CommandModel::NextScreen,
        }
    }
}

/// The first place at or after `from` where `lines` holds a line named `name`;
/// the length of `lines` where there is none.
pub open spec fn line_from(lines: Seq<LineModel>, name: Seq<char>, from: int) -> int
    decreases lines.len() - from,
{
    if from < 0 || from >= lines.len() {
        lines.len() as int
    } else if lines[from].line == name {
        from
    } else {
        line_from(lines, name, from + 1)
    }
}

/// The place of the first line named `name`; the length of `lines` where there is none.
pub open spec fn find_line(lines: Seq<LineModel>, name: Seq<char>) -> int {
    line_from(lines, name, 0)
}

/// The first place at or after `from` where `directions` holds the direction
/// `id`; the length of `directions` where there is none.
pub open spec fn direction_from(directions: Seq<DirectionModel>, id: usize, from: int) -> int
    decreases directions.len() - from,
{
    if from < 0 || from >= directions.len() {
        directions.len() as int
    } else if directions[from].direction_id == id {
        from
    } else {
        direction_from(directions, id, from + 1)
    }
}

/// The place of the first direction `id`; the length of `directions` where there is none.
pub open spec fn find_direction(directions: Seq<DirectionModel>, id: usize) -> int {
    direction_from(directions, id, 0)
}

impl UiModel {
    /// The model at start-up.
    pub open spec fn empty() -> UiModel {
        UiModel {
            lines: Seq::empty(),
            current_message: None,
            current_line: 0,
            current_direction_id: 0,
        }
    }

    /// The model after fresh data `fresh` for the line `line`.
    ///
    /// A known direction of a known line is replaced where it stands. An unknown
    /// direction is appended to its line, and an unknown line is appended with
    /// that one direction, each only while there is room; without room the model
    /// stays as it is.
    pub open spec fn update_direction(self, line: Seq<char>, fresh: DirectionModel) -> UiModel {
        let at = find_line(self.lines, line);
        if at < self.lines.len() {
            let directions = self.lines[at].directions;
            let slot = find_direction(directions, fresh.direction_id);
            if slot < directions.len() {
                UiModel {
                    lines: self.lines.update(
                        at,
                        LineModel { line: self.lines[at].line, directions: directions.update(slot, fresh) },
                    ),
                    ..self
                }
            } else if directions.len() < MAX_DIRECTIONS {
                UiModel {
                    lines: self.lines.update(
                        at,
                        LineModel { line: self.lines[at].line, directions: directions.push(fresh) },
                    ),
                    ..self
                }
            } else {
                self
            }
        } else if self.lines.len() < MAX_LINES {
            UiModel { lines: self.lines.push(LineModel { line, directions: seq![fresh] }), ..self }
        } else {
            self
        }
    }

    /// The model after the cursor has moved on by one screen.
    ///
    /// Without lines nothing moves. Otherwise the cursor goes to the next
    /// direction of its line; where there is none (or the cursor points at no
    /// line at all) it goes to the first direction of the next line, and from the
    /// last line back to the first.
    pub open spec fn next_screen(self) -> UiModel {
        if self.lines.len() == 0 {
            self
        } else if self.current_line < self.lines.len() && self.current_direction_id + 1
            < self.lines[self.current_line as int].directions.len() {
            UiModel { current_direction_id: self.current_direction_id + 1, ..self }
        } else {
            UiModel {
                current_line: ((self.current_line + 1) % self.lines.len()) as nat,
                current_direction_id: 0,
                ..self
            }
        }
    }

    /// The model after `cmd`.
    pub open spec fn apply(self, cmd: CommandModel) -> UiModel {
        match cmd {
            CommandModel::UpdateDirection { line, direction_id, next_passages, update_at } => {
                self.update_direction(line, DirectionModel { update_at, direction_id, next_passages })
            },
            CommandModel::UpdateMessage(text) => UiModel { current_message: Some(text), ..self },
            CommandModel::NextScreen => self.next_screen(),
        }
    }
}

impl LineModel {
    /// Whether the line holds what a line can hold: one or two directions, no
    /// two of them with the same identifier, each with at most three passages.
    pub open spec fn valid(self) -> bool {
        &&& 1 <= self.directions.len() <= MAX_DIRECTIONS
        &&& forall|j: int, k: int|
            0 <= j < k < self.directions.len() ==> self.directions[j].direction_id
                != self.directions[k].direction_id
        &&& forall|j: int|
            0 <= j < self.directions.len() ==> (#[trigger] self.directions[j]).next_passages.len()
                <= MAX_PASSAGES
    }
}

impl UiModel {
    /// Whether the model is one that the display can be in: at most eight
    /// lines, each of them valid, no two of them with the same name; and the
    /// cursor on a direction of a line, or at the origin while there is no line.
    pub open spec fn valid(self) -> bool {
        &&& self.lines.len() <= MAX_LINES
        &&& forall|i: int| 0 <= i < self.lines.len() ==> (#[trigger] self.lines[i]).valid()
        &&& forall|i: int, j: int|
            0 <= i < j < self.lines.len() ==> self.lines[i].line != self.lines[j].line
        &&& if self.lines.len() == 0 {
            self.current_line == 0 && self.current_direction_id == 0
        } else {
            self.current_line < self.lines.len() && self.current_direction_id
                < self.lines[self.current_line as int].directions.len()
        }
    }
}

impl CommandModel {
    /// Whether the command is one that can be given: an update brings at most
    /// three passages.
    pub open spec fn valid(self) -> bool {
        match self {
            CommandModel::UpdateDirection { next_passages, .. } => next_passages.len() <= MAX_PASSAGES,
            _ => true,
        }
    }
}

/// `line_from` gives a place between `from` and the end: that of a line named
/// `name`, before which, from `from` on, no line has that name; or the end,
/// where no line from `from` on has it.
pub proof fn lemma_line_from(lines: Seq<LineModel>, name: Seq<char>, from: int)
    requires
        0 <= from <= lines.len(),
    ensures
        from <= line_from(lines, name, from) <= lines.len(),
        line_from(lines, name, from) < lines.len() ==> lines[line_from(lines, name, from)].line
            == name,
        forall|k: int| from <= k < line_from(lines, name, from) ==> lines[k].line != name,
    decreases lines.len() - from,
{
    if from < lines.len() && lines[from].line != name {
        lemma_line_from(lines, name, from + 1);
    }
}

/// `direction_from` gives a place between `from` and the end: that of the
/// direction `id`, before which, from `from` on, no direction has that
/// identifier; or the end, where no direction from `from` on has it.
pub proof fn lemma_direction_from(directions: Seq<DirectionModel>, id: usize, from: int)
    requires
        0 <= from <= directions.len(),
    ensures
        from <= direction_from(directions, id, from) <= directions.len(),
        direction_from(directions, id, from) < directions.len() ==> directions[direction_from(
            directions,
            id,
            from,
        )].direction_id == id,
        forall|k: int|
            from <= k < direction_from(directions, id, from) ==> directions[k].direction_id != id,
    decreases directions.len() - from,
{
    if from < directions.len() && directions[from].direction_id != id {
        lemma_direction_from(directions, id, from + 1);
    }
}

/// The first line named `name` is found where it stands.
pub proof fn lemma_find_line_at(lines: Seq<LineModel>, name: Seq<char>, at: int)
    requires
        0 <= at < lines.len(),
        lines[at].line == name,
        forall|k: int| 0 <= k < at ==> lines[k].line != name,
    ensures
        find_line(lines, name) == at,
{
    lemma_line_from(lines, name, 0);
}

/// The first direction `id` is found where it stands.
pub proof fn lemma_find_direction_at(directions: Seq<DirectionModel>, id: usize, at: int)
    requires
        0 <= at < directions.len(),
        directions[at].direction_id == id,
        forall|k: int| 0 <= k < at ==> directions[k].direction_id != id,
    ensures
        find_direction(directions, id) == at,
{
    lemma_direction_from(directions, id, 0);
}

/// The model at start-up is valid.
pub proof fn lemma_empty_is_valid()
    ensures
        UiModel::empty().valid(),
{
}

/// Every command leaves a valid model valid.
pub proof fn lemma_apply_keeps_valid(model: UiModel, cmd: CommandModel)
    requires
        model.valid(),
        cmd.valid(),
    ensures
        model.apply(cmd).valid(),
{
    let after = model.apply(cmd);
    match cmd {
        CommandModel::UpdateDirection { line, direction_id, next_passages, update_at } => {
            let at = find_line(model.lines, line);
            lemma_line_from(model.lines, line, 0);
            if at < model.lines.len() {
                lemma_direction_from(model.lines[at].directions, direction_id, 0);
                assert forall|i: int| 0 <= i < after.lines.len() implies (
                #[trigger] after.lines[i]).valid() by {}
                assert forall|i: int, j: int| 0 <= i < j < after.lines.len() implies after.lines[i].line
                    != after.lines[j].line by {}
            } else if model.lines.len() < MAX_LINES {
                assert forall|i: int| 0 <= i < after.lines.len() implies (
                #[trigger] after.lines[i]).valid() by {}
            }
        },
        _ => {},
    }
}

/// No command moves what the model holds: every line keeps its place and its
/// name, and every direction of it keeps its place and its identifier.
pub proof fn lemma_apply_keeps_places(model: UiModel, cmd: CommandModel)
    ensures
        model.apply(cmd).lines.len() >= model.lines.len(),
        forall|i: int|
            0 <= i < model.lines.len() ==> (#[trigger] model.apply(cmd).lines[i]).line
                == model.lines[i].line && model.apply(cmd).lines[i].directions.len()
                >= model.lines[i].directions.len(),
        forall|i: int, j: int|
            0 <= i < model.lines.len() && 0 <= j < model.lines[i].directions.len() ==> (
            #[trigger] model.apply(cmd).lines[i].directions[j]).direction_id
                == model.lines[i].directions[j].direction_id,
{
    match cmd {
        CommandModel::UpdateDirection { line, direction_id, next_passages, update_at } => {
            let at = find_line(model.lines, line);
            lemma_line_from(model.lines, line, 0);
            if at < model.lines.len() {
                lemma_direction_from(model.lines[at].directions, direction_id, 0);
            }
        },
        _ => {},
    }
}

/// Where the direction that an update is for stands after the update: its
/// line and its place in that line, if the model holds it then.
pub open spec fn place_of(model: UiModel, line: Seq<char>, direction_id: usize) -> Option<(int, int)> {
    let at = find_line(model.lines, line);
    if at < model.lines.len() {
        let slot = find_direction(model.lines[at].directions, direction_id);
        if slot < model.lines[at].directions.len() {
            Some((at, slot))
        } else {
            None
        }
    } else {
        None
    }
}

/// A direction that the model holds is refreshed where it stands: a second
/// update for the same line and direction finds it at the place where the
/// first one left it, and leaves its data there.
pub proof fn lemma_update_keeps_position(
    model: UiModel,
    line: Seq<char>,
    first: DirectionModel,
    second: DirectionModel,
)
    requires
        first.direction_id == second.direction_id,
    ensures
        ({
            let once = model.update_direction(line, first);
            let twice = once.update_direction(line, second);
            place_of(once, line, first.direction_id) matches Some((at, slot)) ==> {
                &&& place_of(twice, line, second.direction_id) == Some((at, slot))
                &&& twice.lines[at].directions[slot] == second
                &&& twice.lines.len() == once.lines.len()
                &&& twice.lines[at].directions.len() == once.lines[at].directions.len()
            }
        }),
{
    let id = first.direction_id;
    let once = model.update_direction(line, first);
    let twice = once.update_direction(line, second);
    if let Some((at, slot)) = place_of(once, line, id) {
        lemma_line_from(once.lines, line, 0);
        lemma_direction_from(once.lines[at].directions, id, 0);
        let refreshed = once.lines[at].directions.update(slot, second);
        assert forall|k: int| 0 <= k < at implies twice.lines[k].line != line by {}
        lemma_find_line_at(twice.lines, line, at);
        assert forall|k: int| 0 <= k < slot implies refreshed[k].direction_id != id by {}
        lemma_find_direction_at(refreshed, id, slot);
    }
}

impl UiModel {
    /// Whether the model can take an update for the direction `direction_id`
    /// of the line `line`: it holds that direction already, or its line has
    /// room for one more direction, or there is room for one more line.
    pub open spec fn has_room_for(self, line: Seq<char>, direction_id: usize) -> bool {
        let at = find_line(self.lines, line);
        if at < self.lines.len() {
            let directions = self.lines[at].directions;
            find_direction(directions, direction_id) < directions.len() || directions.len()
                < MAX_DIRECTIONS
        } else {
            self.lines.len() < MAX_LINES
        }
    }
}

/// An update for which there is room is stored: afterwards the model holds
/// the direction, with the data of the update.
pub proof fn lemma_update_is_stored(model: UiModel, line: Seq<char>, fresh: DirectionModel)
    requires
        model.has_room_for(line, fresh.direction_id),
    ensures
        ({
            let after = model.update_direction(line, fresh);
            &&& place_of(after, line, fresh.direction_id) is Some
            &&& place_of(after, line, fresh.direction_id) matches Some((at, slot))
                ==> after.lines[at].directions[slot] == fresh
        }),
{
    let id = fresh.direction_id;
    let after = model.update_direction(line, fresh);
    let at = find_line(model.lines, line);
    lemma_line_from(model.lines, line, 0);
    if at < model.lines.len() {
        let directions = model.lines[at].directions;
        let slot = find_direction(directions, id);
        lemma_direction_from(directions, id, 0);
        assert forall|k: int| 0 <= k < at implies after.lines[k].line != line by {}
        lemma_find_line_at(after.lines, line, at);
        let stored = after.lines[at].directions;
        assert forall|k: int| 0 <= k < slot implies stored[k].direction_id != id by {}
        lemma_find_direction_at(stored, id, slot);
    } else {
        let at = model.lines.len() as int;
        assert forall|k: int| 0 <= k < at implies after.lines[k].line != line by {}
        lemma_find_line_at(after.lines, line, at);
        lemma_find_direction_at(after.lines[at].directions, id, 0);
    }
}

/// The number of screens, that is of pairs of a line and one of its
/// directions, in the first `upto` lines.
pub open spec fn screens_before(lines: Seq<LineModel>, upto: int) -> nat
    decreases upto,
{
    if upto <= 0 {
        0
    } else {
        screens_before(lines, upto - 1) + lines[upto - 1].directions.len()
    }
}

/// The number of screens of all the lines.
pub open spec fn screen_count(lines: Seq<LineModel>) -> nat {
    screens_before(lines, lines.len() as int)
}

impl UiModel {
    /// The model after the cursor has moved on `times` times.
    pub open spec fn next_screens(self, times: nat) -> UiModel
        decreases times,
    {
        if times == 0 {
            self
        } else {
            self.next_screens((times - 1) as nat).next_screen()
        }
    }

    /// The number of screens that come before the one under the cursor.
    pub open spec fn screen_rank(self) -> nat {
        screens_before(self.lines, self.current_line as int) + self.current_direction_id
    }
}

/// The screens of a line and of those before it are among those before any
/// later line.
proof fn lemma_screens_grow(lines: Seq<LineModel>, first: int, later: int)
    requires
        0 <= first < later <= lines.len(),
    ensures
        screens_before(lines, first) + lines[first].directions.len() <= screens_before(lines, later),
    decreases later,
{
    if first + 1 < later {
        lemma_screens_grow(lines, first, later - 1);
    }
}

/// One step moves the cursor of a valid model to the screen that comes next,
/// and from the last screen to the first.
proof fn lemma_next_screen_rank(model: UiModel)
    requires
        model.valid(),
        model.lines.len() > 0,
    ensures
        model.next_screen().valid(),
        model.next_screen().lines == model.lines,
        model.next_screen().current_message == model.current_message,
        model.screen_rank() < screen_count(model.lines),
        model.next_screen().screen_rank() == (model.screen_rank() + 1) % screen_count(model.lines),
{
    let lines = model.lines;
    let at = model.current_line as int;
    let total = screen_count(lines) as int;
    let rank = model.screen_rank() as int;
    lemma_apply_keeps_valid(model, CommandModel::NextScreen);
    lemma_screens_grow(lines, at, lines.len() as int);
    if model.current_direction_id + 1 < lines[at].directions.len() {
        vstd::arithmetic::div_mod::lemma_small_mod((rank + 1) as nat, total as nat);
    } else if at + 1 < lines.len() {
        vstd::arithmetic::div_mod::lemma_small_mod((at + 1) as nat, lines.len());
        lemma_screens_grow(lines, at + 1, lines.len() as int);
        vstd::arithmetic::div_mod::lemma_small_mod((rank + 1) as nat, total as nat);
    } else {
        vstd::arithmetic::div_mod::lemma_mod_self_0(lines.len() as int);
        vstd::arithmetic::div_mod::lemma_mod_self_0(total);
    }
}

/// Steps add up: after `times` steps the cursor of a valid model is `times`
/// screens further on, counted round the ring of all screens.
proof fn lemma_next_screens_rank(model: UiModel, times: nat)
    requires
        model.valid(),
        model.lines.len() > 0,
    ensures
        model.next_screens(times).valid(),
        model.next_screens(times).lines == model.lines,
        model.next_screens(times).current_message == model.current_message,
        model.next_screens(times).screen_rank() == (model.screen_rank() + times) % screen_count(
            model.lines,
        ),
    decreases times,
{
    let total = screen_count(model.lines) as int;
    lemma_next_screen_rank(model);
    if times == 0 {
        vstd::arithmetic::div_mod::lemma_small_mod(model.screen_rank(), total as nat);
    } else {
        let before = model.next_screens((times - 1) as nat);
        lemma_next_screens_rank(model, (times - 1) as nat);
        lemma_next_screen_rank(before);
        vstd::arithmetic::div_mod::lemma_add_mod_noop(model.screen_rank() + times - 1, 1, total);
        if total > 1 {
            vstd::arithmetic::div_mod::lemma_small_mod(1, total as nat);
        } else {
            vstd::arithmetic::div_mod::lemma_mod_self_0(total);
        }
        vstd::arithmetic::div_mod::lemma_mod_twice(model.screen_rank() + times - 1, total);
    }
}

/// Two valid models with the same lines and the cursor on the same screen
/// have the cursor at the same place.
proof fn lemma_rank_tells_cursor(one: UiModel, other: UiModel)
    requires
        one.valid(),
        other.valid(),
        one.lines == other.lines,
        one.lines.len() > 0,
        one.screen_rank() == other.screen_rank(),
    ensures
        one.current_line == other.current_line,
        one.current_direction_id == other.current_direction_id,
{
    if one.current_line < other.current_line {
        lemma_screens_grow(one.lines, one.current_line as int, other.current_line as int);
    } else if other.current_line < one.current_line {
        lemma_screens_grow(one.lines, other.current_line as int, one.current_line as int);
    }
}

/// The cursor goes round: moved on as many times as the model has screens,
/// it is back where it was, and nothing else has changed.
pub proof fn lemma_next_screen_cycles(model: UiModel)
    requires
        model.valid(),
        model.lines.len() > 0,
    ensures
        model.next_screens(screen_count(model.lines)) == model,
{
    let total = screen_count(model.lines);
    let round = model.next_screens(total);
    lemma_next_screen_rank(model);
    lemma_next_screens_rank(model, total);
    vstd::arithmetic::div_mod::lemma_mod_add_multiples_vanish(model.screen_rank() as int, total as int);
    vstd::arithmetic::div_mod::lemma_small_mod(model.screen_rank(), total);
    lemma_rank_tells_cursor(round, model);
}

/// The place in `lines` of the first line named `name`, or the number of
/// lines where no line has that name.
pub fn find_line_index(lines: &LineList, name: &BoundedString<16>) -> (index: usize)
    ensures
        index == find_line(lines@, name@),
{
    let n: usize = lines.len();
    let mut i: usize = 0;
    while i < n
        invariant
            i <= n == lines@.len(),
            find_line(lines@, name@) == line_from(lines@, name@, i as int),
        decreases n - i,
    {
        if lines.item(i).line.eq(name) {
            return i;
        }
        i += 1;
    }
    n
}

/// The place in `directions` of the first direction `id`, or the number of
/// directions where none has that identifier.
pub fn find_direction_index(directions: &DirectionList, id: usize) -> (index: usize)
    ensures
        index == find_direction(directions@, id),
{
    let n: usize = directions.len();
    let mut i: usize = 0;
    while i < n
        invariant
            i <= n == directions@.len(),
            find_direction(directions@, id) == direction_from(directions@, id, i as int),
        decreases n - i,
    {
        if directions.item(i).direction_id == id {
            return i;
        }
        i += 1;
    }
    n
}

/// Whether `state` can take an update for the direction `direction_id` of the
/// line `line`; an update for which there is no room is dropped.
pub fn has_room_for(state: &UiState, line: &BoundedString<16>, direction_id: usize) -> (room: bool)
    ensures
        room == state@.has_room_for(line@, direction_id),
{
    let at = find_line_index(&state.lines, line);
    if at < state.lines.len() {
        let directions = &state.lines.item(at).directions;
        find_direction_index(directions, direction_id) < directions.len() || directions.len()
            < MAX_DIRECTIONS
    } else {
        state.lines.len() < MAX_LINES
    }
}

/// Stores fresh data for one direction of one line, as `UiModel::update_direction` says.
pub fn update_direction(state: &mut UiState, line: BoundedString<16>, fresh: TramDirectionState)
    ensures
        final(state)@ == old(state)@.update_direction(line@, fresh@),
{
    let ghost before = state@;
    let at = find_line_index(&state.lines, &line);
    if at < state.lines.len() {
        let line_state = state.lines.item_mut(at);
        let slot = find_direction_index(&line_state.directions, fresh.direction_id);
        if slot < line_state.directions.len() {
            line_state.directions.replace(slot, fresh);
        } else {
            let _ = line_state.directions.push(fresh);
            assert(before.lines.update(at as int, before.lines[at as int]) =~= before.lines);
        }
    } else {
        let mut directions = DirectionList::new();
        let _ = directions.push(fresh);
        let _ = state.lines.push(TramLineState { line, directions });
    }
}

/// Moves the cursor on by one screen, as `UiModel::next_screen` says.
pub fn next_screen(state: &mut UiState)
    ensures
        final(state)@ == old(state)@.next_screen(),
{
    let n: usize = state.lines.len();
    if n == 0 {
        return ;
    }
    if state.current_line < n {
        let directions: usize = state.lines.item(state.current_line).directions.len();
        if directions >= 1 && state.current_direction_id < directions - 1 {
            state.current_direction_id = state.current_direction_id + 1;
            return ;
        }
    }
    proof {
        vstd::arithmetic::div_mod::lemma_add_mod_noop(state.current_line as int, 1, n as int);
        vstd::arithmetic::div_mod::lemma_small_mod((state.current_line % n) as nat, n as nat);
        if n > 1 {
            vstd::arithmetic::div_mod::lemma_small_mod(1, n as nat);
        }
    }
    state.current_line = (state.current_line % n + 1) % n;
    state.current_direction_id = 0;
}

/// Applies `cmd` to the display state.
///
/// Every command is accepted; one for which there is no room leaves the state
/// as it is. Nothing that the state already holds changes its place, and a
/// valid state stays valid.
pub fn apply_ui_command(state: &mut UiState, cmd: UiCommand)
    ensures
        final(state)@ == old(state)@.apply(cmd@),
        old(state)@.valid() ==> final(state)@.valid(),
{
    proof {
        if state@.valid() && cmd@.valid() {
            lemma_apply_keeps_valid(state@, cmd@);
        }
    }
    match cmd {
        UiCommand::UpdateDirection { line, direction_id, next_passages, update_at } => {
            // Reading the length shows that the update brings at most three
            // passages, and so that the command is valid.
            let _ = next_passages.len();
            update_direction(state, line, TramDirectionState { update_at, direction_id, next_passages });
        },
        UiCommand::NextScreen => {
            next_screen(state);
        },
        UiCommand::UpdateMessage(text) => {
            state.current_message = Some(text);
        },
    }
}

} // verus!

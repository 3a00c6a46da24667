//! The editing session over parsed cards: which card is selected, and the text being
//! edited with its cursor. Positions in the edited text count characters.
use vstd::prelude::*;
use vstd::string::*;
use crate::card::{Card, CardModel};
use crate::parse::Attribute;
use crate::parse::char_string;

verus! {

/// The view of a list of cards.
pub open spec fn cards_view(cards: Seq<Card>) -> Seq<CardModel> {
    cards.map_values(|c: Card| c@)
}

/// The help line shown when nothing is being edited.
pub open spec fn help_text() -> Seq<char> {
    "[q] quit | [f] edit front | [b] edit back | [t] edit tags | [n] new | [d] delete | [x] export"@
}

/// The card field that an edit of `field` works on, as its text.
pub open spec fn field_text(c: CardModel, field: Attribute) -> Seq<char> {
    match field {
        Attribute::Front => c.front,
        Attribute::Back => c.back,
        _ => c.tags,
    }
}

/// The field an edit of `field` is recorded as: both tag headings edit the tags.
pub open spec fn edited_field(field: Attribute) -> Attribute {
    match field {
        Attribute::Front => Attribute::Front,
        Attribute::Back => Attribute::Back,
        _ => Attribute::MainTag,
    }
}

/// `c` with the field named by `field` set to `text`; a sub tag names no field.
pub open spec fn with_field(c: CardModel, field: Attribute, text: Seq<char>) -> CardModel {
    match field {
        Attribute::Front => CardModel { front: text, ..c },
        Attribute::Back => CardModel { back: text, ..c },
        Attribute::MainTag => CardModel { tags: text, ..c },
        Attribute::SubTag => c,
    }
}

/// The selection after moving down: the next card, wrapping to the first.
pub open spec fn next_index(selected: Option<usize>, len: nat) -> usize {
    match selected {
        Some(s) => if s + 1 >= len {
            0
        } else {
            (s + 1) as usize
        },
        None => 0,
    }
}

/// The selection after moving up: the previous card, wrapping to the last.
pub open spec fn prev_index(selected: Option<usize>, len: nat) -> usize {
    match selected {
        Some(s) => if s > 0 {
            (s - 1) as usize
        } else {
            (len - 1) as usize
        },
        None => 0,
    }
}

/// The three pieces in which the info line is shown, each with whether it is highlighted
/// as the cursor.
pub open spec fn text_parts(text: Seq<char>, editing: bool, cursor: nat) -> Seq<(Seq<char>, bool)> {
    let len = text.len();
    if len == 0 {
        seq![(seq![], false), (seq![' '], true), (seq![], false)]
    } else if !editing {
        seq![(text, false), (seq![], false), (seq![], false)]
    } else if cursor == 0 {
        seq![(text.subrange(0, 1), true), (text.subrange(1, len as int), false), (seq![], false)]
    } else if cursor >= len {
        seq![(text, false), (seq![' '], true), (seq![], false)]
    } else {
        seq![
            (text.subrange(0, cursor as int), false),
            (text.subrange(cursor as int, cursor + 1 as int), true),
            (text.subrange(cursor + 1 as int, len as int), false),
        ]
    }
}

/// A key press, as far as the session tells keys apart.
#[derive(PartialEq, Eq, Structural, Clone, Copy, Debug)]
pub enum Key {
    Esc,
    Char(char),
    Backspace,
    Left,
    Right,
    Up,
    Down,
    Other,
}

/// What the session does next.
#[derive(PartialEq, Eq, Structural, Clone, Copy, Debug)]
pub enum Command {
    FinishEdit,
    Insert(char),
    DeleteBack,
    CursorLeft,
    CursorRight,
    Deselect,
    Next,
    Prev,
    Edit(Attribute),
    DeleteCard,
    NewCard,
    Export,
    Quit,
    Nothing,
}

/// The command a key gives: while editing, keys edit the text; otherwise they move the
/// selection, start an edit, or change the list of cards.
pub open spec fn command_for(is_editing: bool, key: Key) -> Command {
    if is_editing {
        match key {
            Key::Esc => Command::FinishEdit,
            Key::Char(c) => Command::Insert(c),
            Key::Backspace => Command::DeleteBack,
            Key::Left => Command::CursorLeft,
            Key::Right => Command::CursorRight,
            _ => Command::Nothing,
        }
    } else {
        match key {
            Key::Char('q') => Command::Quit,
            Key::Left => Command::Deselect,
            Key::Down => Command::Next,
            Key::Up => Command::Prev,
            Key::Char('f') => Command::Edit(Attribute::Front),
            Key::Char('b') => Command::Edit(Attribute::Back),
            Key::Char('t') => Command::Edit(Attribute::MainTag),
            Key::Char('d') => Command::DeleteCard,
            Key::Char('n') => Command::NewCard,
            Key::Char('x') => Command::Export,
            _ => Command::Nothing,
        }
    }
}

/// Decides what a key press does, as `command_for` states.
pub fn decide(is_editing: bool, key: Key) -> (r: Command)
    ensures
        r == command_for(is_editing, key),
{
    if is_editing {
        match key {
            Key::Esc => Command::FinishEdit,
            Key::Char(c) => Command::Insert(c),
            Key::Backspace => Command::DeleteBack,
            Key::Left => Command::CursorLeft,
            Key::Right => Command::CursorRight,
            _ => Command::Nothing,
        }
    } else {
        match key {
            Key::Char('q') => Command::Quit,
            Key::Left => Command::Deselect,
            Key::Down => Command::Next,
            Key::Up => Command::Prev,
            Key::Char('f') => Command::Edit(Attribute::Front),
            Key::Char('b') => Command::Edit(Attribute::Back),
            Key::Char('t') => Command::Edit(Attribute::MainTag),
            Key::Char('d') => Command::DeleteCard,
            Key::Char('n') => Command::NewCard,
            Key::Char('x') => Command::Export,
            _ => Command::Nothing,
        }
    }
}

/// The card that a new-card command adds.
pub open spec fn new_card_model() -> CardModel {
    CardModel { front: "New Card"@, back: seq![], tags: seq![] }
}

/// The state of an editing session.
pub struct App {
    pub cards: Vec<Card>,
    pub default_text: String,
    pub text: String,
    pub title: &'static str,
    pub is_editing: bool,
    pub field_editing: Attribute,
    pub cursor_location: usize,
    pub selected: Option<usize>,
    pub last_selected: usize,
}

/// The text of `s` from `from` to `to`, as an owned string.
fn piece(s: &str, from: usize, to: usize) -> (r: String)
    requires
        from <= to <= s@.len(),
    ensures
        r@ == s@.subrange(from as int, to as int),
{
    s.substring_char(from, to).to_owned()
}

impl App {
    /// A session over `cards`, showing the help line, with nothing selected or edited.
    pub fn new(cards: Vec<Card>) -> (r: App)
        ensures
            cards_view(r.cards@) == cards_view(cards@),
            r.default_text@ == help_text(),
            r.text@ == help_text(),
            r.title@ == "Info"@,
            !r.is_editing,
            r.field_editing == Attribute::Front,
            r.cursor_location == 0,
            r.selected == None::<usize>,
            r.last_selected == 0,
    {
        let text = "[q] quit | [f] edit front | [b] edit back | [t] edit tags | [n] new | [d] delete | [x] export";
        App {
            cards,
            default_text: text.to_owned(),
            text: text.to_owned(),
            title: "Info",
            is_editing: false,
            field_editing: Attribute::Front,
            cursor_location: 0,
            selected: None,
            last_selected: 0,
        }
    }

    /// Selects the next card, wrapping from the last to the first.
    pub fn next(&mut self)
        requires
            old(self).selected is Some ==> old(self).cards.len() > 0,
        ensures
            final(self).selected == Some(next_index(old(self).selected, old(self).cards.len() as nat)),
            final(self).last_selected == next_index(old(self).selected, old(self).cards.len() as nat),
            cards_view(final(self).cards@) == cards_view(old(self).cards@),
            final(self).text@ == old(self).text@,
            final(self).cursor_location == old(self).cursor_location,
            final(self).is_editing == old(self).is_editing,
    {
        let s = match self.selected {
            Some(s) => if s >= self.cards.len() - 1 {
                0
            } else {
                s + 1
            },
            None => 0,
        };
        self.selected = Some(s);
        self.last_selected = s;
    }

    /// Selects the previous card, wrapping from the first to the last.
    pub fn prev(&mut self)
        requires
            old(self).selected == Some(0usize) ==> old(self).cards.len() > 0,
        ensures
            final(self).selected == Some(prev_index(old(self).selected, old(self).cards.len() as nat)),
            final(self).last_selected == prev_index(old(self).selected, old(self).cards.len() as nat),
            cards_view(final(self).cards@) == cards_view(old(self).cards@),
            final(self).text@ == old(self).text@,
            final(self).cursor_location == old(self).cursor_location,
            final(self).is_editing == old(self).is_editing,
    {
        let s = match self.selected {
            Some(s) => if s > 0 {
                s - 1
            } else {
                self.cards.len() - 1
            },
            None => 0,
        };
        self.selected = Some(s);
        self.last_selected = s;
    }

    /// Starts editing a field of the last selected card: its text is copied for editing,
    /// with the cursor at its end.
    pub fn enable_edit(&mut self, field_editing: Attribute)
        requires
            old(self).last_selected < old(self).cards.len(),
        ensures
            final(self).is_editing,
            final(self).title@ == "Editing. Press <esc> when finished"@,
            final(self).text@ == field_text(old(self).cards@[old(self).last_selected as int]@, field_editing),
            final(self).cursor_location == final(self).text@.len(),
            final(self).field_editing == edited_field(field_editing),
            cards_view(final(self).cards@) == cards_view(old(self).cards@),
            final(self).selected == old(self).selected,
            final(self).last_selected == old(self).last_selected,
            final(self).default_text@ == old(self).default_text@,
    {
        self.is_editing = true;
        self.title = "Editing. Press <esc> when finished";
        let i = self.last_selected;
        let text = match field_editing {
            Attribute::Front => self.cards[i].front.clone(),
            Attribute::Back => self.cards[i].back.clone(),
            _ => self.cards[i].tags.clone(),
        };
        self.cursor_location = text.as_str().unicode_len();
        self.text = text;
        self.field_editing = match field_editing {
            Attribute::Front => Attribute::Front,
            Attribute::Back => Attribute::Back,
            _ => Attribute::MainTag,
        };
    }

    /// Stops editing: the edited text goes into its field of the last selected card, and
    /// the help line is shown again.
    pub fn disable_edit(self) -> (r: App)
        requires
            self.field_editing != Attribute::SubTag ==> self.last_selected < self.cards.len(),
        ensures
            !r.is_editing,
            r.title@ == "Info"@,
            r.text@ == self.default_text@,
            r.default_text@ == self.default_text@,
            r.cards.len() == self.cards.len(),
            self.field_editing != Attribute::SubTag ==> cards_view(r.cards@) == cards_view(self.cards@).update(
                self.last_selected as int,
                with_field(self.cards@[self.last_selected as int]@, self.field_editing, self.text@),
            ),
            self.field_editing == Attribute::SubTag ==> cards_view(r.cards@) == cards_view(self.cards@),
            r.selected == self.selected,
            r.last_selected == self.last_selected,
            r.field_editing == self.field_editing,
            r.cursor_location == self.cursor_location,
    {
        let mut app = self;
        app.is_editing = false;
        app.title = "Info";
        let i = app.last_selected;
        let text = app.text;
        let ghost before = cards_view(app.cards@);
        match app.field_editing {
            Attribute::SubTag => {},
            field => {
                let old_card = app.cards.remove(i);
                let card = match field {
                    Attribute::Front => Card { front: text, ..old_card },
                    Attribute::Back => Card { back: text, ..old_card },
                    _ => Card { tags: text, ..old_card },
                };
                app.cards.insert(i, card);
                proof {
                    assert(cards_view(app.cards@) =~= before.update(
                        i as int,
                        with_field(before[i as int], field, self.text@),
                    ));
                }
            },
        }
        app.text = app.default_text.clone();
        app
    }

    /// Removes the last selected card. Where that leaves the selection past the end, the
    /// first card is selected.
    pub fn delete_selected(&mut self)
        requires
            old(self).last_selected < old(self).cards.len(),
        ensures
            cards_view(final(self).cards@) == cards_view(old(self).cards@).remove(old(self).last_selected as int),
            old(self).last_selected >= final(self).cards.len() ==> final(self).selected == Some(0usize)
                && final(self).last_selected == 0,
            old(self).last_selected < final(self).cards.len() ==> final(self).selected == old(self).selected
                && final(self).last_selected == old(self).last_selected,
            final(self).text@ == old(self).text@,
            final(self).is_editing == old(self).is_editing,
    {
        let ghost before = cards_view(self.cards@);
        let _removed = self.cards.remove(self.last_selected);
        proof {
            assert(cards_view(self.cards@) =~= before.remove(old(self).last_selected as int));
        }
        if self.last_selected >= self.cards.len() {
            self.selected = Some(0);
            self.last_selected = 0;
        }
    }

    /// Adds a new card at the end of the list.
    pub fn add_card(&mut self)
        ensures
            cards_view(final(self).cards@) == cards_view(old(self).cards@).push(new_card_model()),
            final(self).selected == old(self).selected,
            final(self).last_selected == old(self).last_selected,
            final(self).text@ == old(self).text@,
            final(self).is_editing == old(self).is_editing,
    {
        let ghost before = cards_view(self.cards@);
        self.cards.push(Card::new("New Card".to_owned(), String::new(), String::new()));
        proof {
            assert(cards_view(self.cards@) =~= before.push(new_card_model()));
        }
    }

    /// Moves the cursor one character left, unless it is at the start.
    pub fn move_cursor_left(&mut self)
        ensures
            final(self).cursor_location == if old(self).cursor_location != 0 {
                (old(self).cursor_location - 1) as usize
            } else {
                0
            },
            final(self).text@ == old(self).text@,
            cards_view(final(self).cards@) == cards_view(old(self).cards@),
    {
        if self.cursor_location != 0 {
            self.cursor_location -= 1;
        }
    }

    /// Moves the cursor one character right, unless it is at the end of the text.
    pub fn move_cursor_right(&mut self)
        requires
            old(self).cursor_location != old(self).text@.len() ==> old(self).cursor_location < usize::MAX,
        ensures
            final(self).cursor_location == if old(self).cursor_location != old(self).text@.len() {
                (old(self).cursor_location + 1) as usize
            } else {
                old(self).cursor_location
            },
            final(self).text@ == old(self).text@,
            cards_view(final(self).cards@) == cards_view(old(self).cards@),
    {
        if self.cursor_location != self.text.as_str().unicode_len() {
            self.cursor_location += 1;
        }
    }

    /// Inserts `c` at the cursor and moves the cursor past it.
    pub fn push(&mut self, c: char)
        requires
            old(self).cursor_location <= old(self).text@.len(),
            old(self).cursor_location < usize::MAX,
        ensures
            final(self).text@ == old(self).text@.take(old(self).cursor_location as int) + seq![c]
                + old(self).text@.skip(old(self).cursor_location as int),
            final(self).cursor_location == old(self).cursor_location + 1,
            cards_view(final(self).cards@) == cards_view(old(self).cards@),
    {
        let k = self.cursor_location;
        let len = self.text.as_str().unicode_len();
        let mut t = piece(self.text.as_str(), 0, k);
        t.append(char_string(c).as_str());
        t.append(piece(self.text.as_str(), k, len).as_str());
        proof {
            assert(t@ =~= self.text@.take(k as int) + seq![c] + self.text@.skip(k as int));
        }
        self.text = t;
        self.cursor_location = k + 1;
    }

    /// Removes the character before the cursor and moves the cursor back over it, unless
    /// the cursor is at the start.
    pub fn pop(&mut self)
        requires
            old(self).cursor_location <= old(self).text@.len(),
        ensures
            old(self).cursor_location > 0 ==> final(self).text@ == old(self).text@.take(
                old(self).cursor_location - 1,
            ) + old(self).text@.skip(old(self).cursor_location as int),
            old(self).cursor_location > 0 ==> final(self).cursor_location == old(self).cursor_location - 1,
            old(self).cursor_location == 0 ==> final(self).text@ == old(self).text@
                && final(self).cursor_location == 0,
            cards_view(final(self).cards@) == cards_view(old(self).cards@),
    {
        let k = self.cursor_location;
        if k > 0 {
            let len = self.text.as_str().unicode_len();
            let mut t = piece(self.text.as_str(), 0, k - 1);
            t.append(piece(self.text.as_str(), k, len).as_str());
            proof {
                assert(t@ =~= self.text@.take(k - 1) + self.text@.skip(k as int));
            }
            self.text = t;
            self.cursor_location = k - 1;
        }
    }

    /// The info line in three pieces, as `text_parts` lays them out: the text before the
    /// cursor, the character under it, and the rest.
    pub fn get_formatted_text(&self) -> (r: Vec<(String, bool)>)
        ensures
            r@.len() == 3,
            forall|k: int| 0 <= k < 3 ==> (r@[k].0@, r@[k].1) == text_parts(
                self.text@,
                self.is_editing,
                self.cursor_location as nat,
            )[k],
    {
        proof {
            reveal_strlit(" ");
            reveal_strlit("");
            assert(" "@ =~= seq![' ']);
            assert(""@ =~= Seq::<char>::empty());
        }
        let s = self.text.as_str();
        let len = s.unicode_len();
        let k = self.cursor_location;
        let parts = if len == 0 {
            vec![(String::new(), false), (" ".to_owned(), true), (String::new(), false)]
        } else if !self.is_editing {
            vec![(s.to_owned(), false), (String::new(), false), (String::new(), false)]
        } else if k == 0 {
            vec![(piece(s, 0, 1), true), (piece(s, 1, len), false), (String::new(), false)]
        } else if k >= len {
            vec![(s.to_owned(), false), (" ".to_owned(), true), (String::new(), false)]
        } else {
            vec![(piece(s, 0, k), false), (piece(s, k, k + 1), true), (piece(s, k + 1, len), false)]
        };
        parts
    }
}

} // verus!

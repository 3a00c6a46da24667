//! The flashcard record that parsing produces.
use vstd::prelude::*;
use vstd::string::*;

verus! {

/// The text that separates two lines on the back of a card.
pub open spec fn line_break() -> Seq<char> {
    seq!['<', 'b', 'r', '>']
}

/// A card's three fields as character sequences.
pub ghost struct CardModel {
    pub front: Seq<char>,
    pub back: Seq<char>,
    pub tags: Seq<char>,
}

/// One flashcard: a prompt, its answer, and the tags it is filed under.
pub struct Card {
    pub front: String,
    pub back: String,
    pub tags: String,
}

impl View for Card {
    type V = CardModel;

    open spec fn view(&self) -> CardModel {
        CardModel { front: self.front@, back: self.back@, tags: self.tags@ }
    }
}

/// The line that stands for a card in an import file: the fields joined by semicolons,
/// ended by a newline.
pub open spec fn export_line(c: CardModel) -> Seq<char> {
    c.front + seq![';'] + c.back + seq![';'] + c.tags + seq!['\n']
}

/// A card shown on three lines: front and back between bars, then its tags.
pub open spec fn describe_text(c: CardModel) -> Seq<char> {
    "|"@ + c.front + "|\n|"@ + c.back + "|\ntags: "@ + c.tags
}

/// The text of an import file: each card's line, in order.
pub open spec fn export_all(cards: Seq<CardModel>) -> Seq<char>
    decreases cards.len(),
{
    if cards.len() == 0 {
        seq![]
    } else {
        export_all(cards.drop_last()) + export_line(cards.last())
    }
}

/// The text of an import file holding `cards`.
pub fn export_text(cards: &Vec<Card>) -> (r: String)
    ensures
        r@ == export_all(cards@.map_values(|c: Card| c@)),
{
    let ghost views = cards@.map_values(|c: Card| c@);
    let mut r = String::new();
    let mut i: usize = 0;
    proof {
        assert(views.take(0) =~= Seq::<CardModel>::empty());
    }
    while i < cards.len()
        invariant
            views == cards@.map_values(|c: Card| c@),
            i <= cards.len(),
            r@ == export_all(views.take(i as int)),
        decreases cards.len() - i,
    {
        let line = cards[i].export();
        proof {
            assert(views.take(i + 1).drop_last() =~= views.take(i as int));
        }
        r.append(line.as_str());
        i += 1;
    }
    proof {
        assert(views.take(i as int) =~= views);
    }
    r
}

impl Card {
    /// A card holding the three texts as given.
    pub fn new(front: String, back: String, tags: String) -> (r: Card)
        ensures
            r.front@ == front@,
            r.back@ == back@,
            r.tags@ == tags@,
    {
        Card { front, back, tags }
    }

    /// Adds a line of text to the back, followed by a line break.
    pub fn add_to_back(&mut self, text: &str)
        ensures
            final(self).back@ == old(self).back@ + text@ + line_break(),
            final(self).front@ == old(self).front@,
            final(self).tags@ == old(self).tags@,
    {
        proof {
            reveal_strlit("<br>");
            assert("<br>"@ =~= line_break());
        }
        self.back.append(text);
        self.back.append("<br>");
    }

    /// The card as readable text, as `describe_text` lays it out.
    pub fn describe(&self) -> (r: String)
        ensures
            r@ == describe_text(self@),
    {
        let mut r = String::from_str("|");
        r.append(self.front.as_str());
        r.append("|\n|");
        r.append(self.back.as_str());
        r.append("|\ntags: ");
        r.append(self.tags.as_str());
        r
    }

    /// The card as one line of an import file.
    pub fn export(&self) -> (r: String)
        ensures
            r@ == export_line(self@),
    {
        proof {
            reveal_strlit(";");
            reveal_strlit("\n");
            assert(";"@ =~= seq![';']);
            assert("\n"@ =~= seq!['\n']);
        }
        let mut r = self.front.clone();
        r.append(";");
        r.append(self.back.as_str());
        r.append(";");
        r.append(self.tags.as_str());
        r.append("\n");
        r
    }
}

} // verus!

//! The line classifier and the document parser.
//!
//! A document is read line by line in one of three modes: outside any section, inside a
//! question section, or inside a definition section. Each line is classified under the
//! current mode into a role with its payload, and a new mode. Two rules look alike but
//! differ on purpose: a blank line quietly ends a question section, while a blank line
//! inside a definition section is an error.
use vstd::prelude::*;
use vstd::string::*;
use crate::card::{Card, CardModel, line_break};
use crate::tags::{combine_tags, combined_tags};
use crate::text::{doc_lines, first_index, lemma_first_index_bounds, lemma_first_index_skip, split_lines, str_views, to_chars};

verus! {

/// The two kinds of section a document can hold.
#[derive(PartialEq, Eq, Structural, Clone, Copy, Debug)]
pub enum Type {
    Question,
    Definition,
}

/// The role of a classified line.
#[derive(PartialEq, Eq, Structural, Clone, Copy, Debug)]
pub enum Attribute {
    Front,
    Back,
    MainTag,
    SubTag,
}

/// Why a document could not be parsed. Line numbers count from zero.
#[derive(PartialEq, Eq, Clone, Copy, Debug)]
pub enum ParseError {
    /// A character that the line's position does not allow, with the line number.
    UnknownSymbol((usize, char)),
    /// The line ended before a required marker, or a definition section met a blank line.
    UnexpectedEndOfLine(usize),
    /// A section directive named neither `question` nor `definition`.
    UnknownAttribute(usize),
}

/// The decimal digits.
pub open spec fn digit_chars() -> Seq<char> {
    seq!['0', '1', '2', '3', '4', '5', '6', '7', '8', '9']
}

/// The decimal notation of `n`, without leading zeros.
pub open spec fn decimal(n: nat) -> Seq<char>
    decreases n,
{
    if n < 10 {
        seq![digit_chars()[n as int]]
    } else {
        decimal(n / 10) + seq![digit_chars()[(n % 10) as int]]
    }
}

/// The message that describes an error to a reader.
pub open spec fn error_message(e: ParseError) -> Seq<char> {
    match e {
        ParseError::UnknownSymbol((l, c)) => "Unknown symbol: "@ + seq![c] + " on line "@ + decimal(
            l as nat,
        ),
        ParseError::UnexpectedEndOfLine(l) => "Unexpected end of line at line "@ + decimal(l as nat),
        ParseError::UnknownAttribute(l) => "Unknown attribute encountered on line "@ + decimal(
            l as nat,
        ),
    }
}

/// Relies on `char::to_string`: a string holding exactly that character.
#[verifier::external_body]
pub(crate) fn char_string(c: char) -> (r: String)
    ensures
        r@ == seq![c],
{
    c.to_string()
}

/// The one-character text of decimal digit `d`.
fn digit_str(d: usize) -> (r: &'static str)
    requires
        d < 10,
    ensures
        r@ == seq![digit_chars()[d as int]],
{
    proof {
        reveal_strlit("0123456789");
        assert("0123456789"@ =~= digit_chars());
    }
    "0123456789".substring_char(d, d + 1)
}

/// The decimal notation of `n`.
pub fn decimal_string(n: usize) -> (r: String)
    ensures
        r@ == decimal(n as nat),
{
    let mut m = n;
    let mut r = String::new();
    while m >= 10
        invariant
            decimal(n as nat) == decimal(m as nat) + r@,
        decreases m,
    {
        let mut t = String::from_str(digit_str(m % 10));
        t.append(r.as_str());
        proof {
            assert(decimal(m as nat) == decimal((m / 10) as nat) + seq![digit_chars()[(m % 10) as int]]);
            assert(decimal(m as nat) + r@ =~= decimal((m / 10) as nat) + t@);
        }
        r = t;
        m = m / 10;
    }
    let mut t = String::from_str(digit_str(m));
    t.append(r.as_str());
    proof {
        assert(decimal(n as nat) =~= t@);
    }
    t
}

impl ParseError {
    /// The error in words, with its line number and, for an unknown symbol, the character.
    pub fn message(&self) -> (r: String)
        ensures
            r@ == error_message(*self),
    {
        match self {
            ParseError::UnknownSymbol((l, c)) => {
                let mut r = String::from_str("Unknown symbol: ");
                r.append(char_string(*c).as_str());
                r.append(" on line ");
                r.append(decimal_string(*l).as_str());
                r
            },
            ParseError::UnexpectedEndOfLine(l) => {
                let mut r = String::from_str("Unexpected end of line at line ");
                r.append(decimal_string(*l).as_str());
                r
            },
            ParseError::UnknownAttribute(l) => {
                let mut r = String::from_str("Unknown attribute encountered on line ");
                r.append(decimal_string(*l).as_str());
                r
            },
        }
    }
}

/// What classifying one line gives: its role, its payload and the mode after it.
pub type LineModel = (Option<Attribute>, Option<Seq<char>>, Option<Type>);

/// What `parse_line` returns.
pub type ParsedLine = Result<(Option<Attribute>, Option<String>, Option<Type>), ParseError>;

pub open spec fn question_word() -> Seq<char> {
    seq!['q', 'u', 'e', 's', 't', 'i', 'o', 'n']
}

pub open spec fn definition_word() -> Seq<char> {
    seq!['d', 'e', 'f', 'i', 'n', 'i', 't', 'i', 'o', 'n']
}

/// The text put before a term to make the front of a definition card.
pub open spec fn define_prefix() -> Seq<char> {
    seq!['D', 'e', 'f', 'i', 'n', 'e', ':', ' ']
}

/// The token of a section directive whose closing parenthesis is at `p`: from index 3 up
/// to the parenthesis.
pub open spec fn directive_token(line: Seq<char>, p: int) -> Seq<char> {
    if p >= 3 {
        line.subrange(3, p)
    } else {
        seq![]
    }
}

/// Classifies line number `n` of a document, read in `mode`. Payloads are taken at fixed
/// positions of the line; a line too short to reach such a position has ended too early.
pub open spec fn classify(line: Seq<char>, n: usize, mode: Option<Type>) -> Result<LineModel, ParseError> {
    let len = line.len() as int;
    match mode {
        Some(Type::Question) => {
            if len == 0 {
                Ok((None, None, None))
            } else if line[0] == '-' {
                if len < 2 {
                    Err(ParseError::UnexpectedEndOfLine(n))
                } else {
                    Ok((Some(Attribute::Front), Some(line.subrange(2, len)), Some(Type::Question)))
                }
            } else if line[0] == ' ' {
                if len < 4 {
                    Err(ParseError::UnexpectedEndOfLine(n))
                } else {
                    Ok((Some(Attribute::Back), Some(line.subrange(4, len)), Some(Type::Question)))
                }
            } else {
                Err(ParseError::UnknownSymbol((n, line[0])))
            }
        },
        Some(Type::Definition) => {
            if len == 0 {
                Err(ParseError::UnexpectedEndOfLine(n))
            } else if line[0] == '-' {
                let p = first_index(line, '*', 5);
                if p < len {
                    Ok((Some(Attribute::Front), Some(line.subrange(4, p + 1)), Some(Type::Definition)))
                } else {
                    Err(ParseError::UnexpectedEndOfLine(n))
                }
            } else {
                Ok((Some(Attribute::Back), Some(line), None))
            }
        },
        None => {
            if len == 0 {
                Ok((None, None, None))
            } else if line[0] == '#' {
                if len < 2 {
                    Err(ParseError::UnexpectedEndOfLine(n))
                } else if line[1] == ' ' {
                    Ok((Some(Attribute::MainTag), Some(line.subrange(2, len)), None))
                } else if line[1] == '#' {
                    let s = first_index(line, ' ', 2);
                    if s < len {
                        Ok((Some(Attribute::SubTag), Some(line.subrange(s + 1, len)), None))
                    } else {
                        Err(ParseError::UnexpectedEndOfLine(n))
                    }
                } else {
                    Err(ParseError::UnknownSymbol((n, line[1])))
                }
            } else if line[0] == '[' {
                let p = first_index(line, ')', 1);
                if p >= len {
                    Err(ParseError::UnexpectedEndOfLine(n))
                } else if directive_token(line, p) == question_word() {
                    Ok((None, None, Some(Type::Question)))
                } else if directive_token(line, p) == definition_word() {
                    Ok((None, None, Some(Type::Definition)))
                } else {
                    Err(ParseError::UnknownAttribute(n))
                }
            } else {
                Ok((None, None, None))
            }
        },
    }
}

/// The model of what `parse_line` returns.
pub open spec fn parsed_view(r: ParsedLine) -> Result<LineModel, ParseError> {
    match r {
        Ok((a, p, m)) => Ok(
            (
                a,
                match p {
                    Some(s) => Some(s@),
                    None => None,
                },
                m,
            ),
        ),
        Err(e) => Err(e),
    }
}

/// The first index at or after `from` where `chars` holds `c`, or its length.
fn find_char(chars: &Vec<char>, c: char, from: usize) -> (r: usize)
    requires
        from <= chars.len(),
    ensures
        r == first_index(chars@, c, from as int),
{
    let mut i = from;
    while i < chars.len()
        invariant
            from <= i <= chars.len(),
            forall|k: int| from <= k < i ==> chars@[k] != c,
        decreases chars.len() - i,
    {
        if chars[i] == c {
            proof {
                lemma_first_index_skip(chars@, c, from as int, i as int);
            }
            return i;
        }
        i += 1;
    }
    proof {
        lemma_first_index_skip(chars@, c, from as int, i as int);
    }
    i
}

/// Whether `chars` holds `word` from `from` up to `to`.
fn holds_word(chars: &Vec<char>, from: usize, to: usize, word: &str) -> (r: bool)
    requires
        from <= to <= chars.len(),
    ensures
        r == (chars@.subrange(from as int, to as int) == word@),
{
    let w = to_chars(word);
    if to - from != w.len() {
        proof {
            assert(chars@.subrange(from as int, to as int).len() != word@.len());
        }
        return false;
    }
    let mut i: usize = 0;
    while i < w.len()
        invariant
            w@ == word@,
            from <= to <= chars.len(),
            to - from == w.len(),
            i <= w.len(),
            forall|k: int| 0 <= k < i ==> chars@[from + k] == w@[k],
        decreases w.len() - i,
    {
        if chars[from + i] != w[i] {
            proof {
                assert(chars@.subrange(from as int, to as int)[i as int] != word@[i as int]);
            }
            return false;
        }
        i += 1;
    }
    proof {
        assert(chars@.subrange(from as int, to as int) =~= word@);
    }
    true
}

/// The text of `line` from `from` to its end, as an owned string.
fn tail_of(line: &str, from: usize) -> (r: String)
    requires
        from <= line@.len(),
    ensures
        r@ == line@.subrange(from as int, line@.len() as int),
{
    let len = line.unicode_len();
    line.substring_char(from, len).to_owned()
}

/// Classifies one line of a document, read in the mode `card_type`, as `classify` states.
pub fn parse_line(line: &str, line_num: usize, card_type: Option<Type>) -> (r: ParsedLine)
    ensures
        parsed_view(r) == classify(line@, line_num, card_type),
{
    let chars = to_chars(line);
    let len = chars.len();
    match card_type {
        Some(Type::Question) => {
            if len == 0 {
                Ok((None, None, None))
            } else if chars[0] == '-' {
                if len < 2 {
                    Err(ParseError::UnexpectedEndOfLine(line_num))
                } else {
                    Ok((Some(Attribute::Front), Some(tail_of(line, 2)), Some(Type::Question)))
                }
            } else if chars[0] == ' ' {
                if len < 4 {
                    Err(ParseError::UnexpectedEndOfLine(line_num))
                } else {
                    Ok((Some(Attribute::Back), Some(tail_of(line, 4)), Some(Type::Question)))
                }
            } else {
                Err(ParseError::UnknownSymbol((line_num, chars[0])))
            }
        },
        Some(Type::Definition) => {
            if len == 0 {
                Err(ParseError::UnexpectedEndOfLine(line_num))
            } else if chars[0] == '-' {
                let p = if len > 5 {
                    find_char(&chars, '*', 5)
                } else {
                    len
                };
                if p < len {
                    proof {
                        lemma_first_index_bounds(chars@, '*', 5);
                    }
                    let term = line.substring_char(4, p + 1).to_owned();
                    Ok((Some(Attribute::Front), Some(term), Some(Type::Definition)))
                } else {
                    Err(ParseError::UnexpectedEndOfLine(line_num))
                }
            } else {
                Ok((Some(Attribute::Back), Some(line.to_owned()), None))
            }
        },
        None => {
            if len == 0 {
                Ok((None, None, None))
            } else if chars[0] == '#' {
                if len < 2 {
                    Err(ParseError::UnexpectedEndOfLine(line_num))
                } else if chars[1] == ' ' {
                    Ok((Some(Attribute::MainTag), Some(tail_of(line, 2)), None))
                } else if chars[1] == '#' {
                    let s = find_char(&chars, ' ', 2);
                    if s < len {
                        Ok((Some(Attribute::SubTag), Some(tail_of(line, s + 1)), None))
                    } else {
                        Err(ParseError::UnexpectedEndOfLine(line_num))
                    }
                } else {
                    Err(ParseError::UnknownSymbol((line_num, chars[1])))
                }
            } else if chars[0] == '[' {
                let p = find_char(&chars, ')', 1);
                if p >= len {
                    return Err(ParseError::UnexpectedEndOfLine(line_num));
                }
                let from = if p >= 3 {
                    3
                } else {
                    p
                };
                proof {
                    reveal_strlit("question");
                    reveal_strlit("definition");
                    assert("question"@ =~= question_word());
                    assert("definition"@ =~= definition_word());
                    assert(directive_token(line@, p as int) =~= chars@.subrange(from as int, p as int));
                }
                if holds_word(&chars, from, p, "question") {
                    Ok((None, None, Some(Type::Question)))
                } else if holds_word(&chars, from, p, "definition") {
                    Ok((None, None, Some(Type::Definition)))
                } else {
                    Err(ParseError::UnknownAttribute(line_num))
                }
            } else {
                Ok((None, None, None))
            }
        },
    }
}

/// The state carried from line to line: the cards so far, the current headings and the
/// current mode.
pub ghost struct ParseState {
    pub cards: Seq<CardModel>,
    pub main_tag: Seq<char>,
    pub sub_tag: Seq<char>,
    pub mode: Option<Type>,
}

pub open spec fn initial_state() -> ParseState {
    ParseState { cards: seq![], main_tag: seq![], sub_tag: seq![], mode: None }
}

/// The state after a line classified as `step`. A front starts a card under the current
/// headings, prefixed when it names a term; a back extends the last card, and is dropped
/// where there is none yet; a heading replaces the stored heading text.
pub open spec fn apply_line(st: ParseState, step: LineModel) -> ParseState {
    let payload = match step.1 {
        Some(p) => p,
        None => seq![],
    };
    let next = ParseState { mode: step.2, ..st };
    match step.0 {
        Some(Attribute::Front) => {
            let front = if st.mode == Some(Type::Definition) {
                define_prefix() + payload
            } else {
                payload
            };
            let card = CardModel { front, back: seq![], tags: combined_tags(st.main_tag, st.sub_tag) };
            ParseState { cards: st.cards.push(card), ..next }
        },
        Some(Attribute::Back) => {
            if st.cards.len() > 0 {
                let last = st.cards.last();
                let card = CardModel { back: last.back + payload + line_break(), ..last };
                ParseState { cards: st.cards.update(st.cards.len() - 1, card), ..next }
            } else {
                next
            }
        },
        Some(Attribute::MainTag) => ParseState { main_tag: payload, ..next },
        Some(Attribute::SubTag) => ParseState { sub_tag: payload, ..next },
        None => next,
    }
}

/// The state after the first `n` lines, or the error of the first line that fails.
pub open spec fn run(lines: Seq<Seq<char>>, n: nat) -> Result<ParseState, ParseError>
    decreases n,
{
    if n == 0 {
        Ok(initial_state())
    } else {
        match run(lines, (n - 1) as nat) {
            Err(e) => Err(e),
            Ok(st) => match classify(lines[n - 1], (n - 1) as usize, st.mode) {
                Err(e) => Err(e),
                Ok(step) => Ok(apply_line(st, step)),
            },
        }
    }
}

/// The cards of a whole document, or the error of its first bad line.
pub open spec fn parse_doc(s: Seq<char>) -> Result<Seq<CardModel>, ParseError> {
    match run(doc_lines(s), doc_lines(s).len()) {
        Ok(st) => Ok(st.cards),
        Err(e) => Err(e),
    }
}

pub open spec fn card_views(cards: Seq<Card>) -> Seq<CardModel> {
    cards.map_values(|c: Card| c@)
}

/// The model of what `parse_md` returns.
pub open spec fn parsed_doc_view(r: Result<Vec<Card>, ParseError>) -> Result<Seq<CardModel>, ParseError> {
    match r {
        Ok(cards) => Ok(card_views(cards@)),
        Err(e) => Err(e),
    }
}

/// Once a line has failed, the parse of any longer prefix fails the same way.
pub proof fn lemma_run_error_stays(lines: Seq<Seq<char>>, m: nat, n: nat)
    requires
        m <= n,
        run(lines, m) is Err,
    ensures
        run(lines, n) == run(lines, m),
    decreases n - m,
{
    if m < n {
        lemma_run_error_stays(lines, m, (n - 1) as nat);
    }
}

/// Parses a whole document into its cards, in document order, or gives the error of the
/// first line that cannot be classified.
pub fn parse_md(markdown: &str) -> (r: Result<Vec<Card>, ParseError>)
    ensures
        parsed_doc_view(r) == parse_doc(markdown@),
{
    let lines = split_lines(markdown);
    let ghost all = doc_lines(markdown@);
    let mut cards: Vec<Card> = Vec::new();
    let mut main_tag = String::new();
    let mut sub_tag = String::new();
    let mut current_type: Option<Type> = None;
    let mut i: usize = 0;
    proof {
        assert(card_views(cards@) =~= Seq::<CardModel>::empty());
        assert(all.len() == lines@.len());
    }
    while i < lines.len()
        invariant
            str_views(lines@) == all,
            all == doc_lines(markdown@),
            all.len() == lines@.len(),
            i <= lines.len(),
            run(all, i as nat) == Ok::<ParseState, ParseError>(
                ParseState {
                    cards: card_views(cards@),
                    main_tag: main_tag@,
                    sub_tag: sub_tag@,
                    mode: current_type,
                },
            ),
        decreases lines.len() - i,
    {
        let ghost before = ParseState {
            cards: card_views(cards@),
            main_tag: main_tag@,
            sub_tag: sub_tag@,
            mode: current_type,
        };
        proof {
            assert(all[i as int] == lines@[i as int]@);
        }
        let parsed = parse_line(lines[i], i, current_type);
        let ghost pv = parsed_view(parsed);
        match parsed {
            Err(e) => {
                proof {
                    lemma_run_error_stays(all, (i + 1) as nat, all.len());
                }
                return Err(e);
            },
            Ok((attr, value, ty)) => {
                let ghost step = pv->Ok_0;
                let payload = match value {
                    Some(v) => v,
                    None => String::new(),
                };
                match attr {
                    Some(Attribute::Front) => {
                        let tags = combine_tags(main_tag.as_str(), sub_tag.as_str());
                        let front = if matches!(current_type, Some(Type::Definition)) {
                            proof {
                                reveal_strlit("Define: ");
                                assert("Define: "@ =~= define_prefix());
                            }
                            let mut f = String::from_str("Define: ");
                            f.append(payload.as_str());
                            f
                        } else {
                            payload
                        };
                        cards.push(Card::new(front, String::new(), tags));
                        proof {
                            let want = apply_line(before, step);
                            assert(card_views(cards@) =~= want.cards);
                        }
                    },
                    Some(Attribute::Back) => {
                        if cards.len() > 0 {
                            let mut c = cards.pop().unwrap();
                            c.add_to_back(payload.as_str());
                            cards.push(c);
                            proof {
                                let want = apply_line(before, step);
                                assert(card_views(cards@) =~= want.cards);
                            }
                        }
                    },
                    Some(Attribute::MainTag) => {
                        main_tag = payload;
                    },
                    Some(Attribute::SubTag) => {
                        sub_tag = payload;
                    },
                    None => {},
                }
                current_type = ty;
                proof {
                    assert(run(all, (i + 1) as nat) == Ok::<ParseState, ParseError>(apply_line(before, step)));
                }
            },
        }
        i += 1;
    }
    Ok(cards)
}

/// A blank line read in a question section leaves no section active, and a dash line read
/// outside any section is ignored: the mode really resets.
pub proof fn lemma_blank_line_ends_question(n: usize, line: Seq<char>)
    requires
        line.len() > 0 && line[0] == '-',
    ensures
        classify(seq![], n, Some(Type::Question)) == Ok::<LineModel, ParseError>((None, None, None)),
        classify(line, n, None) == Ok::<LineModel, ParseError>((None, None, None)),
{
}

/// Every line of the document that starts with a dash has more than two characters.
pub open spec fn dash_lines_long(lines: Seq<Seq<char>>) -> bool {
    forall|k: int|
        0 <= k < lines.len() && lines[k].len() > 0 && lines[k][0] == '-' ==> lines[k].len() > 2
}

proof fn lemma_run_fronts_nonempty(lines: Seq<Seq<char>>, n: nat)
    requires
        n <= lines.len(),
        dash_lines_long(lines),
        run(lines, n) is Ok,
    ensures
        forall|k: int|
            0 <= k < run(lines, n)->Ok_0.cards.len() ==> run(lines, n)->Ok_0.cards[k].front.len() > 0,
    decreases n,
{
    if n > 0 {
        let m = (n - 1) as nat;
        lemma_run_fronts_nonempty(lines, m);
        let st = run(lines, m)->Ok_0;
        let line = lines[m as int];
        if line.len() > 0 && line[0] == '-' && st.mode == Some(Type::Definition) {
            lemma_first_index_bounds(line, '*', 5);
        }
        let after = run(lines, n)->Ok_0;
        assert forall|k: int| 0 <= k < after.cards.len() implies after.cards[k].front.len() > 0 by {
            if k < st.cards.len() {
                assert(after.cards[k].front == st.cards[k].front);
            }
        }
    }
}

/// In a document whose dash lines all carry text after the dash and its following
/// character, every card that parsing produces has a non-empty front.
pub proof fn lemma_fronts_nonempty(s: Seq<char>)
    requires
        dash_lines_long(doc_lines(s)),
        parse_doc(s) is Ok,
    ensures
        forall|k: int| 0 <= k < parse_doc(s)->Ok_0.len() ==> parse_doc(s)->Ok_0[k].front.len() > 0,
{
    lemma_run_fronts_nonempty(doc_lines(s), doc_lines(s).len());
}

/// Two back lines read in a question section extend the last card's back with each
/// payload in order, each followed by a line break, even when a payload is empty.
pub proof fn lemma_back_lines_in_order(st: ParseState, a: Seq<char>, b: Seq<char>, n: usize)
    requires
        st.mode == Some(Type::Question),
        st.cards.len() > 0,
        a.len() >= 4 && a[0] == ' ',
        b.len() >= 4 && b[0] == ' ',
    ensures
        ({
            let first = classify(a, n, st.mode);
            let mid = apply_line(st, first->Ok_0);
            let second = classify(b, (n + 1) as usize, mid.mode);
            let after = apply_line(mid, second->Ok_0);
            &&& first is Ok
            &&& second is Ok
            &&& after.mode == Some(Type::Question)
            &&& after.cards.len() == st.cards.len()
            &&& after.cards.last().back == st.cards.last().back + a.subrange(4, a.len() as int)
                + line_break() + b.subrange(4, b.len() as int) + line_break()
            &&& after.cards.last().front == st.cards.last().front
        }),
{
    let mid = apply_line(st, classify(a, n, st.mode)->Ok_0);
    assert(mid.cards.last().back == st.cards.last().back + a.subrange(4, a.len() as int) + line_break());
}

} // verus!

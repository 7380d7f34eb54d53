//! Screen sampling: reads the vitals, the turn counter and the player's
//! identity out of the text of a status row.

use crate::screen::{Grid, Screen};
use crate::text::{
    chars_of, decimal, has_prefix, join_words, joined, parse_usize, push_decimal, push_text,
    same_text, segment, split_whitespace, starts_with, string_of, strip_leading,
    stripped_leading, texts, tokens, usize_value,
};
use vstd::prelude::*;

verus! {

/// Whether `c` ends a number inside a vital such as `12(20)`.
pub open spec fn is_bracket(c: char) -> bool {
    c == '(' || c == ')'
}

/// Length of the longest prefix of `s` that holds no bracket.
pub open spec fn piece_len(s: Seq<char>) -> nat
    decreases s.len(),
{
    if s.len() == 0 || is_bracket(s[0]) {
        0
    } else {
        1 + piece_len(s.drop_first())
    }
}

/// The reading `current/max` of a vital written `current(max)`: the text
/// before the first bracket and the text between the first and the second.
/// Without a bracket there is no reading.
pub open spec fn reading(value: Seq<char>) -> Option<Seq<char>> {
    let current = piece_len(value);
    if current < value.len() {
        let rest = value.skip(current as int + 1);
        Some(value.take(current as int) + seq!['/'] + rest.take(piece_len(rest) as int))
    } else {
        None
    }
}

/// The reading of the last word of `words` that starts with `label`, taken
/// from what follows the label and its repetitions.
pub open spec fn vital_in(words: Seq<Seq<char>>, label: Seq<char>) -> Option<Seq<char>>
    decreases words.len(),
{
    if words.len() == 0 {
        None
    } else if starts_with(words.last(), label) {
        reading(strip_leading(words.last(), label))
    } else {
        vital_in(words.drop_last(), label)
    }
}

/// Hit points and power of a status line, each as `current/max`; both or
/// neither.
pub open spec fn status_of(line: Seq<char>) -> Option<(Seq<char>, Seq<char>)> {
    match (vital_in(tokens(line), "HP:"@), vital_in(tokens(line), "Pw:"@)) {
        (Some(hp), Some(power)) => Some((hp, power)),
        _ => None,
    }
}

/// A list of words of which none starts with `label` holds no vital with
/// that label.
pub proof fn lemma_vital_needs_its_label(words: Seq<Seq<char>>, label: Seq<char>)
    requires
        forall|i: int| 0 <= i < words.len() ==> !starts_with(#[trigger] words[i], label),
    ensures
        vital_in(words, label) is None,
    decreases words.len(),
{
    if words.len() > 0 {
        assert(!starts_with(words[words.len() - 1], label));
        lemma_vital_needs_its_label(words.drop_last(), label);
    }
}

/// A status line is read all or nothing: without a word for hit points,
/// or without one for power, it yields no status.
pub proof fn lemma_status_needs_both(line: Seq<char>)
    requires
        (forall|i: int|
            0 <= i < tokens(line).len() ==> !starts_with(#[trigger] tokens(line)[i], "HP:"@)) || (
        forall|i: int|
            0 <= i < tokens(line).len() ==> !starts_with(#[trigger] tokens(line)[i], "Pw:"@)),
    ensures
        status_of(line) is None,
{
    if forall|i: int|
        0 <= i < tokens(line).len() ==> !starts_with(#[trigger] tokens(line)[i], "HP:"@) {
        lemma_vital_needs_its_label(tokens(line), "HP:"@);
    } else {
        lemma_vital_needs_its_label(tokens(line), "Pw:"@);
    }
}

/// Index of the first bracket of `v` at or after `from`, or the length of
/// `v`.
fn piece_end(v: &Vec<char>, from: usize) -> (j: usize)
    requires
        from <= v.len(),
    ensures
        from <= j <= v.len(),
        j - from == piece_len(v@.skip(from as int)),
{
    let mut j: usize = from;
    while j < v.len() && v[j] != '(' && v[j] != ')'
        invariant
            from <= j <= v.len(),
            piece_len(v@.skip(from as int)) == (j - from) + piece_len(v@.skip(j as int)),
        decreases v.len() - j,
    {
        assert(v@.skip(j as int).drop_first() == v@.skip(j + 1));
        j += 1;
    }
    j
}

/// Reads a vital written `current(max)` as `current/max`.
fn read_vital(value: &Vec<char>) -> (r: Option<Vec<char>>)
    ensures
        match r {
            Some(text) => reading(value@) == Some(text@),
            None => reading(value@) is None,
        },
{
    let first = piece_end(value, 0);
    assert(value@.skip(0) == value@);
    if first == value.len() {
        return None;
    }
    let second = piece_end(value, first + 1);
    let mut text = segment(value, 0, first);
    text.push('/');
    let mut k: usize = first + 1;
    let ghost head = text@;
    while k < second
        invariant
            first + 1 <= k <= second <= value.len(),
            text@ == head + value@.subrange(first + 1, k as int),
        decreases second - k,
    {
        text.push(value[k]);
        k += 1;
    }
    assert(value@.skip(first + 1).take(second - (first + 1)) == value@.subrange(
        first + 1,
        second as int,
    ));
    Some(text)
}

/// Reads hit points and power from a status line. Each is the reading of
/// the last word with its label, `HP:` or `Pw:`; the line yields both or
/// nothing.
pub fn parse_status_line(line: &str) -> (r: Option<(String, String)>)
    ensures
        match r {
            Some((hp, power)) => status_of(line@) == Some((hp@, power@)),
            None => status_of(line@) is None,
        },
{
    let hp_label = chars_of("HP:");
    let power_label = chars_of("Pw:");
    let words = split_whitespace(&chars_of(line));
    let mut hp: Option<Vec<char>> = None;
    let mut power: Option<Vec<char>> = None;
    let mut i: usize = 0;
    assert(texts(words@).take(0) == Seq::<Seq<char>>::empty());
    while i < words.len()
        invariant
            i <= words.len(),
            hp_label@ == "HP:"@,
            power_label@ == "Pw:"@,
            match hp {
                Some(text) => vital_in(texts(words@).take(i as int), "HP:"@) == Some(text@),
                None => vital_in(texts(words@).take(i as int), "HP:"@) is None,
            },
            match power {
                Some(text) => vital_in(texts(words@).take(i as int), "Pw:"@) == Some(text@),
                None => vital_in(texts(words@).take(i as int), "Pw:"@) is None,
            },
        decreases words.len() - i,
    {
        let word = &words[i];
        proof {
            assert(texts(words@).take(i + 1).drop_last() == texts(words@).take(i as int));
            assert(texts(words@).take(i + 1).last() == word@);
        }
        if has_prefix(word, &hp_label) {
            hp = read_vital(&stripped_leading(word, &hp_label));
        }
        if has_prefix(word, &power_label) {
            power = read_vital(&stripped_leading(word, &power_label));
        }
        i += 1;
    }
    assert(texts(words@).take(i as int) == texts(words@));
    match (hp, power) {
        (Some(h), Some(p)) => Some((string_of(&h), string_of(&p))),
        _ => None,
    }
}

/// The turn number that a word writes: `T:` and an unsigned decimal.
pub open spec fn word_turn(word: Seq<char>) -> Option<usize> {
    if starts_with(word, "T:"@) {
        usize_value(word.skip("T:"@.len() as int))
    } else {
        None
    }
}

/// The turn number of the first word of `words` that writes one.
pub open spec fn first_turn(words: Seq<Seq<char>>) -> Option<usize>
    decreases words.len(),
{
    if words.len() == 0 {
        None
    } else if word_turn(words[0]) is Some {
        word_turn(words[0])
    } else {
        first_turn(words.drop_first())
    }
}

/// The turn number of a status line.
pub open spec fn turn_of(line: Seq<char>) -> Option<usize> {
    first_turn(tokens(line))
}

/// Reads the turn counter from a status line: the number of the first word
/// made of `T:` and an unsigned decimal that fits.
pub fn parse_turn(line: &str) -> (r: Option<usize>)
    ensures
        r == turn_of(line@),
{
    let label = chars_of("T:");
    let words = split_whitespace(&chars_of(line));
    let mut i: usize = 0;
    assert(texts(words@).skip(0) == texts(words@));
    while i < words.len()
        invariant
            i <= words.len(),
            label@ == "T:"@,
            turn_of(line@) == first_turn(texts(words@).skip(i as int)),
        decreases words.len() - i,
    {
        let word = &words[i];
        proof {
            assert(texts(words@).skip(i as int).drop_first() == texts(words@).skip(i + 1));
            assert(texts(words@).skip(i as int)[0] == word@);
        }
        if has_prefix(word, &label) {
            let number = segment(word, label.len(), word.len());
            assert(number@ == word@.skip(label@.len() as int));
            let turn = parse_usize(&number);
            if turn.is_some() {
                return turn;
            }
        }
        i += 1;
    }
    None
}

/// Index of the first word of `words` equal to `word`, or the number of
/// words.
pub open spec fn position(words: Seq<Seq<char>>, word: Seq<char>) -> nat
    decreases words.len(),
{
    if words.len() == 0 || words[0] == word {
        0
    } else {
        1 + position(words.drop_first(), word)
    }
}

/// User name and class of an identity line `<name> the <class> ...`: the
/// words before the first `the`, joined by spaces, and the word after it.
/// The `the` may be neither the first nor the last word.
pub open spec fn identity_of(line: Seq<char>) -> Option<(Seq<char>, Seq<char>)> {
    let words = tokens(line);
    let at = position(words, "the"@);
    if words.len() >= 3 && 0 < at && at + 1 < words.len() {
        Some((join_words(words.take(at as int)), words[at as int + 1]))
    } else {
        None
    }
}

/// Reads user name and class from an identity line.
pub fn parse_identity(line: &str) -> (r: Option<(String, String)>)
    ensures
        match r {
            Some((username, class)) => identity_of(line@) == Some((username@, class@)),
            None => identity_of(line@) is None,
        },
{
    let article = chars_of("the");
    let words = split_whitespace(&chars_of(line));
    if words.len() < 3 {
        return None;
    }
    let mut at: usize = 0;
    assert(texts(words@).skip(0) == texts(words@));
    while at < words.len() && !same_text(&words[at], &article)
        invariant
            at <= words.len(),
            article@ == "the"@,
            position(texts(words@), "the"@) == at + position(
                texts(words@).skip(at as int),
                "the"@,
            ),
        decreases words.len() - at,
    {
        assert(texts(words@).skip(at as int).drop_first() == texts(words@).skip(at + 1));
        at += 1;
    }
    if at > 0 && at < words.len() - 1 {
        let username = joined(&words, at);
        let class = &words[at + 1];
        Some((string_of(&username), string_of(class)))
    } else {
        None
    }
}

/// First of the rows searched for the vitals.
pub const STATUS_FIRST_ROW: usize = 20;

/// Last of the rows searched for the vitals.
pub const STATUS_LAST_ROW: usize = 23;

/// The row that holds the turn counter.
pub const TURN_ROW: usize = 23;

/// The row that holds the player's identity.
pub const IDENTITY_ROW: usize = 22;

/// What is known of the game: the vitals, the turn and the player's
/// identity, each as last read from the screen.
#[derive(Debug, PartialEq, Eq)]
pub struct GameState {
    pub hp: String,
    pub power: String,
    pub turn: usize,
    pub username: String,
    pub class: String,
}

/// The mathematical model of a [`GameState`].
pub struct Status {
    pub hp: Seq<char>,
    pub power: Seq<char>,
    pub turn: usize,
    pub username: Seq<char>,
    pub class: Seq<char>,
}

impl View for GameState {
    type V = Status;

    open spec fn view(&self) -> Status {
        Status {
            hp: self.hp@,
            power: self.power@,
            turn: self.turn,
            username: self.username@,
            class: self.class@,
        }
    }
}

/// The status of the first row from `row` to `STATUS_LAST_ROW` that holds
/// one.
pub open spec fn first_status(grid: Grid, row: int) -> Option<(Seq<char>, Seq<char>)>
    decreases STATUS_LAST_ROW + 1 - row,
{
    if row > STATUS_LAST_ROW {
        None
    } else if status_of(grid.row_text(row)) is Some {
        status_of(grid.row_text(row))
    } else {
        first_status(grid, row + 1)
    }
}

impl Status {
    /// What is known before any screen was read.
    pub open spec fn unknown() -> Status {
        Status {
            hp: "Unknown"@,
            power: "Unknown"@,
            turn: 0,
            username: "Unknown"@,
            class: "Unknown"@,
        }
    }

    /// The status after reading `grid`: each of vitals, turn and identity
    /// is replaced where the screen holds it and kept where it does not.
    pub open spec fn sampled(self, grid: Grid) -> Status {
        let vitals = first_status(grid, STATUS_FIRST_ROW as int);
        let turn = turn_of(grid.row_text(TURN_ROW as int));
        let identity = identity_of(grid.row_text(IDENTITY_ROW as int));
        let (hp, power) = match vitals {
            Some(found) => found,
            None => (self.hp, self.power),
        };
        let (username, class) = match identity {
            Some(found) => found,
            None => (self.username, self.class),
        };
        Status {
            hp,
            power,
            turn: match turn {
                Some(number) => number,
                None => self.turn,
            },
            username,
            class,
        }
    }

    /// The prefix of every line logged in this status.
    pub open spec fn prefix(self) -> Seq<char> {
        "[Turn: "@ + decimal(self.turn as nat) + ", HP: "@ + self.hp + ", Pw: "@ + self.power
            + ", class: "@ + self.class + ", user: "@ + self.username + "] "@
    }
}

/// Sampling replaces only what the screen holds: vitals, turn and
/// identity are read independently, and each keeps its value where the
/// screen does not hold it. A screen that holds none of them leaves the
/// status as it was.
pub proof fn lemma_sampling_keeps_what_is_not_read(status: Status, grid: Grid)
    ensures
        first_status(grid, STATUS_FIRST_ROW as int) is None ==> status.sampled(grid).hp
            == status.hp && status.sampled(grid).power == status.power,
        turn_of(grid.row_text(TURN_ROW as int)) is None ==> status.sampled(grid).turn
            == status.turn,
        identity_of(grid.row_text(IDENTITY_ROW as int)) is None ==> status.sampled(grid).username
            == status.username && status.sampled(grid).class == status.class,
        first_status(grid, STATUS_FIRST_ROW as int) is None && turn_of(
            grid.row_text(TURN_ROW as int),
        ) is None && identity_of(grid.row_text(IDENTITY_ROW as int)) is None ==> status.sampled(
            grid,
        ) == status,
{
}

impl GameState {
    /// The state before any screen was read: turn 0, everything else
    /// `Unknown`.
    pub fn new() -> (state: GameState)
        ensures
            state@ == Status::unknown(),
    {
        GameState {
            hp: "Unknown".to_owned(),
            power: "Unknown".to_owned(),
            turn: 0,
            username: "Unknown".to_owned(),
            class: "Unknown".to_owned(),
        }
    }

    /// Reads vitals, turn and identity from the screen. What the screen
    /// does not hold keeps its value.
    pub fn sample(&mut self, screen: &Screen)
        requires
            screen@.wf(),
        ensures
            final(self)@ == old(self)@.sampled(screen@),
    {
        let mut vitals: Option<(String, String)> = None;
        let mut row: usize = STATUS_FIRST_ROW;
        while row <= STATUS_LAST_ROW && vitals.is_none()
            invariant
                STATUS_FIRST_ROW <= row <= STATUS_LAST_ROW + 1,
                screen@.wf(),
                match vitals {
                    Some((hp, power)) => first_status(screen@, STATUS_FIRST_ROW as int) == Some(
                        (hp@, power@),
                    ),
                    None => first_status(screen@, STATUS_FIRST_ROW as int) == first_status(
                        screen@,
                        row as int,
                    ),
                },
            decreases 2 * (STATUS_LAST_ROW + 1 - row) + (if vitals is None {
                1int
            } else {
                0int
            }),
        {
            vitals = match screen.get_row(row) {
                Some(line) => parse_status_line(line.as_str()),
                None => None,
            };
            if vitals.is_none() {
                row += 1;
            }
        }
        match vitals {
            Some((hp, power)) => {
                self.hp = hp;
                self.power = power;
            },
            None => {},
        }
        match screen.get_row(TURN_ROW) {
            Some(line) => {
                match parse_turn(line.as_str()) {
                    Some(turn) => {
                        self.turn = turn;
                    },
                    None => {},
                }
            },
            None => {},
        }
        match screen.get_row(IDENTITY_ROW) {
            Some(line) => {
                match parse_identity(line.as_str()) {
                    Some((username, class)) => {
                        self.username = username;
                        self.class = class;
                    },
                    None => {},
                }
            },
            None => {},
        }
    }

    /// Renders the prefix of the lines logged in this state:
    /// `[Turn: <turn>, HP: <hp>, Pw: <power>, class: <class>, user: <username>] `.
    pub fn prefix(&self) -> (prefix: String)
        ensures
            prefix@ == self@.prefix(),
    {
        let mut out: Vec<char> = Vec::new();
        push_text(&mut out, "[Turn: ");
        push_decimal(&mut out, self.turn);
        push_text(&mut out, ", HP: ");
        push_text(&mut out, self.hp.as_str());
        push_text(&mut out, ", Pw: ");
        push_text(&mut out, self.power.as_str());
        push_text(&mut out, ", class: ");
        push_text(&mut out, self.class.as_str());
        push_text(&mut out, ", user: ");
        push_text(&mut out, self.username.as_str());
        push_text(&mut out, "] ");
        string_of(&out)
    }
}

} // verus!

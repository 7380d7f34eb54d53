//! The terminal emulator: a control-stream parser in front of the screen.
//!
//! Telling literal bytes from control sequences and reading their numeric
//! parameters is the work of the `vte` parser. This module records what the
//! parser dispatches as [`TermAction`] values and performs them on the
//! screen.

use crate::screen::{lemma_run_concat, Grid, Screen, TermAction};
use vstd::prelude::*;

verus! {

/// `vte::Parser`, the control-stream parser; its state is not looked into.
#[verifier::external_type_specification]
#[verifier::external_body]
pub struct ExParser<const N: usize>(vte::Parser<N>);

/// `vte::Params`, the parameter list that the parser hands to a control
/// sequence.
#[verifier::external_type_specification]
#[verifier::external_body]
pub struct ExParams(vte::Params);

/// The bytes that a parser has been advanced over since it was made, in
/// order. The parser is a state machine without any other input, so they
/// determine its state.
pub uninterp spec fn consumed(parser: vte::Parser) -> Seq<u8>;

/// The actions that a parser which has consumed `consumed` dispatches, in
/// order, when it is advanced over `byte`: the characters it prints, the
/// control bytes it executes and the control sequences it completes.
pub uninterp spec fn dispatched(consumed: Seq<u8>, byte: u8) -> Seq<TermAction>;

/// The parameters that a parameter list holds, each with its
/// subparameters, in order.
pub uninterp spec fn listed(params: vte::Params) -> Seq<Seq<u16>>;

/// The actions that a parser which has consumed `consumed` dispatches when
/// it is advanced over `bytes`, byte by byte.
pub open spec fn actions_of(consumed: Seq<u8>, bytes: Seq<u8>) -> Seq<TermAction>
    decreases bytes.len(),
{
    if bytes.len() == 0 {
        Seq::empty()
    } else {
        actions_of(consumed, bytes.drop_last()) + dispatched(
            consumed + bytes.drop_last(),
            bytes.last(),
        )
    }
}

/// Records what the parser dispatches. Hooks, device control strings, operating system
/// commands and escape sequences are not recorded: none has an effect on the screen.
struct Recorder {
    actions: Vec<TermAction>,
}

impl vte::Perform for Recorder {
    /// Records a printed character after what was recorded before.
    fn print(&mut self, c: char)
        ensures final(self).recorded() == old(self).recorded().push(TermAction::Print(c)),
    { self.actions.push(TermAction::Print(c)); }
    /// Records an executed control byte after what was recorded before.
    fn execute(&mut self, byte: u8)
        ensures final(self).recorded() == old(self).recorded().push(TermAction::Execute(byte)),
    { self.actions.push(TermAction::Execute(byte)); }
    /// Records a control sequence, with the parameters it holds, after what was recorded.
    fn csi_dispatch(
        &mut self,
        params: &vte::Params,
        _intermediates: &[u8],
        _ignore: bool,
        action: char,
    )
        ensures
            final(self).recorded().len() == old(self).recorded().len() + 1,
            final(self).recorded().drop_last() == old(self).recorded(),
            records_sequence(final(self).recorded().last(), listed(*params), action),
    {
        let params = param_list(params);
        self.actions.push(TermAction::CsiDispatch { params, action });
    }
}

impl Recorder {
    /// The actions recorded so far, in order.
    pub closed spec fn recorded(&self) -> Seq<TermAction> {
        self.actions@
    }
}

/// Whether `recorded` is the control sequence with parameter values
/// `values` and final character `action`.
pub open spec fn records_sequence(recorded: TermAction, values: Seq<Seq<u16>>, action: char) -> bool {
    match recorded {
        TermAction::CsiDispatch { params, action: done } => {
            crate::screen::param_values(params) == values && done == action
        },
        _ => false,
    }
}

/// `vte::Params::iter` walks the parameters in order and hands out each as
/// the slice of its subparameters; they are copied into vectors one for
/// one.
#[verifier::external_body]
fn param_list(params: &vte::Params) -> (list: Vec<Vec<u16>>)
    ensures
        crate::screen::param_values(list) == listed(*params),
{
    params.iter().map(|subparams| subparams.to_vec()).collect()
}

/// `vte::Parser::new` makes a parser in its initial state: it has consumed
/// nothing.
#[verifier::external_body]
fn new_parser() -> (parser: vte::Parser)
    ensures
        consumed(parser) == Seq::<u8>::empty(),
{
    vte::Parser::new()
}

/// `vte::Parser::advance` feeds one byte to the parser, which calls the
/// performer for each action that the byte completes. The calls are
/// recorded in order. Which calls are made depends on the byte and on the
/// bytes consumed before, and on nothing else.
#[verifier::external_body]
fn advance(parser: &mut vte::Parser, byte: u8) -> (actions: Vec<TermAction>)
    ensures
        actions@ == dispatched(consumed(*old(parser)), byte),
        consumed(*final(parser)) == consumed(*old(parser)).push(byte),
{
    let mut recorder = Recorder { actions: Vec::new() };
    parser.advance(&mut recorder, byte);
    recorder.actions
}

/// A terminal: the parser and the screen it drives.
pub struct Terminal {
    parser: vte::Parser,
    screen: Screen,
}

impl Terminal {
    /// The bytes that the terminal has interpreted since it was made.
    pub closed spec fn consumed(&self) -> Seq<u8> {
        consumed(self.parser)
    }

    /// What the screen shows.
    pub closed spec fn grid(&self) -> Grid {
        self.screen@
    }

    /// A terminal that has interpreted nothing, with a cleared screen.
    pub fn new() -> (terminal: Terminal)
        ensures
            terminal.consumed() == Seq::<u8>::empty(),
            terminal.grid() == Grid::blank(),
            terminal.grid().wf(),
    {
        Terminal { parser: new_parser(), screen: Screen::new() }
    }

    /// The screen.
    pub fn screen(&self) -> (screen: &Screen)
        ensures
            screen@ == self.grid(),
    {
        &self.screen
    }

    /// Clears the screen; the parser keeps its state.
    pub fn clear(&mut self)
        ensures
            final(self).grid() == Grid::blank(),
            final(self).grid().wf(),
            final(self).consumed() == old(self).consumed(),
    {
        self.screen.reset();
    }

    /// Interprets `payload` as a control stream: performs on the screen, in
    /// order, every action that the parser dispatches for its bytes.
    pub fn interpret(&mut self, payload: &[u8])
        requires
            old(self).grid().wf(),
        ensures
            final(self).grid() == old(self).grid().run(
                actions_of(old(self).consumed(), payload@),
            ),
            final(self).grid().wf(),
            final(self).consumed() == old(self).consumed() + payload@,
    {
        let mut i: usize = 0;
        assert(payload@.take(0) == Seq::<u8>::empty());
        assert(old(self).consumed() + Seq::<u8>::empty() == old(self).consumed());
        while i < payload.len()
            invariant
                i <= payload.len(),
                self.grid().wf(),
                self.consumed() == old(self).consumed() + payload@.take(i as int),
                self.grid() == old(self).grid().run(
                    actions_of(old(self).consumed(), payload@.take(i as int)),
                ),
            decreases payload.len() - i,
        {
            let actions = advance(&mut self.parser, payload[i]);
            self.screen.apply_all(&actions);
            proof {
                let before = payload@.take(i as int);
                let now = payload@.take(i + 1);
                assert(now.drop_last() == before);
                assert(now.last() == payload@[i as int]);
                assert(old(self).consumed() + now == (old(self).consumed() + before).push(
                    payload@[i as int],
                ));
                lemma_run_concat(
                    old(self).grid(),
                    actions_of(old(self).consumed(), before),
                    actions@,
                );
            }
            i += 1;
        }
        assert(payload@.take(i as int) == payload@);
    }
}

} // verus!

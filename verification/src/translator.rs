//! A syntax-directed translator from infix to postfix notation, for sums and
//! differences of single digits:
//!
//! ```text
//! expr -> term rest
//! rest -> + term { emit + } rest | - term { emit - } rest | nothing
//! term -> 0 | 1 | ... | 9 { emit the digit }
//! ```

use crate::text::chars_of;
use vstd::prelude::*;

verus! {

/// The input is no expression.
#[derive(Clone, Copy, PartialEq, Eq, Debug)]
pub struct SyntaxError {}

impl SyntaxError {
    pub fn message(&self) -> (out: &'static str)
        ensures
            out@ == "Syntax Error"@,
    {
        "Syntax Error"
    }
}

pub open spec fn is_digit(c: char) -> bool {
    '0' <= c && c <= '9'
}

pub open spec fn is_sign(c: char) -> bool {
    c == '+' || c == '-'
}

/// The symbol at `at` is what an expression has there: a digit at an even
/// position, a sign at an odd one.
pub open spec fn fits(symbols: Seq<char>, at: int) -> bool {
    if at % 2 == 0 {
        is_digit(symbols[at])
    } else {
        is_sign(symbols[at])
    }
}

/// The first `upto` symbols are what an expression has there.
pub open spec fn clean(symbols: Seq<char>, upto: int) -> bool {
    forall|at: int| 0 <= at < upto ==> fits(symbols, at)
}

/// The symbols are an expression: digits with a sign between each two.
pub open spec fn is_expression(symbols: Seq<char>) -> bool {
    symbols.len() % 2 == 1 && clean(symbols, symbols.len() as int)
}

/// `at` is where the symbols stop being an expression in the making: at
/// their end, or at the first symbol that does not fit.
pub open spec fn stops_at(symbols: Seq<char>, at: int) -> bool {
    &&& 0 <= at <= symbols.len()
    &&& clean(symbols, at)
    &&& at == symbols.len() || !fits(symbols, at)
}

/// How many of the first `clean` symbols, all of which fit, form an
/// expression: all of them, but for a sign at their end.
pub open spec fn whole(clean: int) -> int {
    if clean % 2 == 1 {
        clean
    } else if clean > 0 {
        clean - 1
    } else {
        0
    }
}

/// The expression in postfix notation: its first digit, and then for each
/// sign the digit that follows it and the sign.
pub open spec fn postfix(expression: Seq<char>) -> Seq<char> {
    Seq::new(
        expression.len(),
        |at: int|
            if at == 0 {
                expression[0]
            } else if at % 2 == 1 {
                expression[at + 1]
            } else {
                expression[at - 1]
            },
    )
}

pub struct Translator {
    input_symbols: Vec<char>,
    lookahead_index: usize,
    output: Vec<char>,
}

impl Translator {
    /// The input.
    pub closed spec fn symbols(&self) -> Seq<char> {
        self.input_symbols@
    }

    /// How many symbols have been read.
    pub closed spec fn position(&self) -> int {
        self.lookahead_index as int
    }

    /// What has been emitted.
    pub closed spec fn emitted(&self) -> Seq<char> {
        self.output@
    }

    /// The symbols that have not been read.
    pub open spec fn unread(&self) -> Seq<char> {
        self.symbols().skip(self.position())
    }

    /// What holds of every translator: it has read no more than there is.
    pub open spec fn wf(&self) -> bool {
        0 <= self.position() <= self.symbols().len()
    }

    #[verifier::type_invariant]
    spec fn sound(&self) -> bool {
        self.wf()
    }

    pub fn new(input: &str) -> (out: Self)
        ensures
            out.wf(),
            out.symbols() == input@,
            out.position() == 0,
            out.emitted() == Seq::<char>::empty(),
    {
        Translator { input_symbols: chars_of(input), lookahead_index: 0, output: Vec::new() }
    }

    /// What has been emitted.
    pub fn output(&self) -> (out: &Vec<char>)
        ensures
            out@ == self.emitted(),
    {
        &self.output
    }

    /// Translates the unread symbols. Reading stops where they stop being an
    /// expression in the making, and what is emitted is the translation of
    /// the longest expression they begin with. The result is `Ok` if they are
    /// an expression as a whole.
    pub fn translate(&mut self) -> (out: Result<(), SyntaxError>)
        ensures
            old(self).wf(),
            final(self).wf(),
            final(self).symbols() == old(self).symbols(),
            stops_at(old(self).unread(), final(self).position() - old(self).position()),
            final(self).emitted() == old(self).emitted() + postfix(
                old(self).unread().take(whole(final(self).position() - old(self).position())),
            ),
            out is Ok <==> is_expression(old(self).unread()),
    {
        proof {
            use_type_invariant(&*self);
        }
        self.expr()
    }

    fn emit(&mut self, symbol: char)
        ensures
            final(self).wf(),
            final(self).symbols() == old(self).symbols(),
            final(self).position() == old(self).position(),
            final(self).emitted() == old(self).emitted().push(symbol),
    {
        proof {
            use_type_invariant(&*self);
        }
        let mut output: Vec<char> = Vec::new();
        core::mem::swap(&mut self.output, &mut output);
        output.push(symbol);
        core::mem::swap(&mut self.output, &mut output);
    }

    fn get_lookahead(&self) -> (out: Option<char>)
        ensures
            out == if self.position() < self.symbols().len() {
                Some(self.symbols()[self.position()])
            } else {
                None
            },
    {
        proof {
            use_type_invariant(self);
        }
        if self.lookahead_index < self.input_symbols.len() {
            Some(self.input_symbols[self.lookahead_index])
        } else {
            None
        }
    }

    fn match_lookahead(&mut self, symbol: char)
        ensures
            final(self).wf(),
            final(self).symbols() == old(self).symbols(),
            final(self).emitted() == old(self).emitted(),
            final(self).position() == if old(self).position() < old(self).symbols().len() && old(
                self,
            ).symbols()[old(self).position()] == symbol {
                old(self).position() + 1
            } else {
                old(self).position()
            },
    {
        proof {
            use_type_invariant(&*self);
        }
        match self.get_lookahead() {
            Some(next) => {
                if next == symbol {
                    assert(self.lookahead_index < self.input_symbols.len());
                    self.lookahead_index = self.lookahead_index + 1;
                }
            },
            None => {},
        }
    }

    fn expr(&mut self) -> (out: Result<(), SyntaxError>)
        ensures
            final(self).wf(),
            final(self).symbols() == old(self).symbols(),
            stops_at(old(self).unread(), final(self).position() - old(self).position()),
            final(self).emitted() == old(self).emitted() + postfix(
                old(self).unread().take(whole(final(self).position() - old(self).position())),
            ),
            out is Ok <==> is_expression(old(self).unread()),
    {
        proof {
            use_type_invariant(&*self);
        }
        let ghost origin = self.position();
        let ghost base = self.emitted();
        let ghost unread = self.unread();
        if let Err(e) = self.term() {
            assert(base + postfix(unread.take(0)) == base);
            assert(unread.len() > 0 ==> !fits(unread, 0));
            return Err(e);
        }
        assert(postfix(unread.take(1)) == seq![unread[0]]);
        assert(base.push(unread[0]) == base + seq![unread[0]]);
        self.rest(Ghost(origin), Ghost(base))
    }

    fn rest(&mut self, Ghost(origin): Ghost<int>, Ghost(base): Ghost<Seq<char>>) -> (out: Result<
        (),
        SyntaxError,
    >)
        requires
            0 <= origin <= old(self).position(),
            (old(self).position() - origin) % 2 == 1,
            clean(old(self).symbols().skip(origin), old(self).position() - origin),
            old(self).emitted() == base + postfix(
                old(self).symbols().skip(origin).take(old(self).position() - origin),
            ),
        ensures
            final(self).wf(),
            final(self).symbols() == old(self).symbols(),
            stops_at(old(self).symbols().skip(origin), final(self).position() - origin),
            final(self).emitted() == base + postfix(
                old(self).symbols().skip(origin).take(whole(final(self).position() - origin)),
            ),
            out is Ok <==> is_expression(old(self).symbols().skip(origin)),
        decreases old(self).symbols().len() - old(self).position(),
    {
        proof {
            use_type_invariant(&*self);
        }
        let ghost from = self.symbols().skip(origin);
        let ghost read = self.position() - origin;
        match self.get_lookahead() {
            Some('+') => {
                self.match_lookahead('+');
                if let Err(e) = self.term() {
                    assert(read + 1 < from.len() ==> !fits(from, read + 1));
                    return Err(e);
                }
                self.emit('+');
                proof {
                    lemma_postfix_grows(from, read);
                }
                self.rest(Ghost(origin), Ghost(base))
            },
            Some('-') => {
                self.match_lookahead('-');
                if let Err(e) = self.term() {
                    assert(read + 1 < from.len() ==> !fits(from, read + 1));
                    return Err(e);
                }
                self.emit('-');
                proof {
                    lemma_postfix_grows(from, read);
                }
                self.rest(Ghost(origin), Ghost(base))
            },
            Some(_) => {
                assert(!fits(from, read));
                Err(SyntaxError {  })
            },
            None => Ok(()),
        }
    }

    fn term(&mut self) -> (out: Result<(), SyntaxError>)
        ensures
            final(self).wf(),
            final(self).symbols() == old(self).symbols(),
            match out {
                Ok(_) => {
                    &&& old(self).position() < old(self).symbols().len()
                    &&& is_digit(old(self).symbols()[old(self).position()])
                    &&& final(self).position() == old(self).position() + 1
                    &&& final(self).emitted() == old(self).emitted().push(
                        old(self).symbols()[old(self).position()],
                    )
                },
                Err(_) => {
                    &&& !(old(self).position() < old(self).symbols().len() && is_digit(
                        old(self).symbols()[old(self).position()],
                    ))
                    &&& final(self).position() == old(self).position()
                    &&& final(self).emitted() == old(self).emitted()
                },
            },
    {
        proof {
            use_type_invariant(&*self);
        }
        match self.get_lookahead() {
            Some(symbol) => {
                if '0' <= symbol && symbol <= '9' {
                    self.emit(symbol);
                    self.match_lookahead(symbol);
                    Ok(())
                } else {
                    Err(SyntaxError {  })
                }
            },
            None => Err(SyntaxError {  }),
        }
    }
}

/// A sign and a digit more translate to what there was, then the digit, then
/// the sign.
proof fn lemma_postfix_grows(symbols: Seq<char>, read: int)
    requires
        0 <= read,
        read % 2 == 1,
        read + 2 <= symbols.len(),
    ensures
        postfix(symbols.take(read + 2)) == postfix(symbols.take(read)).push(
            symbols[read + 1],
        ).push(symbols[read]),
{
    assert(postfix(symbols.take(read + 2)) =~= postfix(symbols.take(read)).push(
        symbols[read + 1],
    ).push(symbols[read]));
}

} // verus!

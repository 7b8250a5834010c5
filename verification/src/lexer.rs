//! A lexer for arithmetic on numbers and names.

use crate::text::chars_of;
use vstd::prelude::*;
use vstd::string::StringExecFns;

verus! {

#[derive(Clone, PartialEq, Eq, Debug)]
pub enum Token {
    Num(usize),
    Id(String),
    Add,
    Subract,
    Divide,
    Multiply,
}

/// A token, as contracts speak of it.
pub enum TokenView {
    Num(usize),
    Id(Seq<char>),
    Add,
    Subract,
    Divide,
    Multiply,
}

impl View for Token {
    type V = TokenView;

    open spec fn view(&self) -> TokenView {
        match self {
            Token::Num(n) => TokenView::Num(*n),
            Token::Id(name) => TokenView::Id(name@),
            Token::Add => TokenView::Add,
            Token::Subract => TokenView::Subract,
            Token::Divide => TokenView::Divide,
            Token::Multiply => TokenView::Multiply,
        }
    }
}

/// The character that writes the digit `d`.
pub open spec fn digit_char(d: int) -> char {
    if d == 0 {
        '0'
    } else if d == 1 {
        '1'
    } else if d == 2 {
        '2'
    } else if d == 3 {
        '3'
    } else if d == 4 {
        '4'
    } else if d == 5 {
        '5'
    } else if d == 6 {
        '6'
    } else if d == 7 {
        '7'
    } else if d == 8 {
        '8'
    } else {
        '9'
    }
}

/// `n` in decimal notation.
pub open spec fn decimal(n: nat) -> Seq<char>
    decreases n,
{
    if n < 10 {
        seq![digit_char(n as int)]
    } else {
        decimal(n / 10).push(digit_char((n % 10) as int))
    }
}

/// How a token is written out: its kind, and in brackets its number, its
/// name or its sign.
pub open spec fn written(token: TokenView) -> Seq<char> {
    match token {
        TokenView::Num(n) => "Num("@ + decimal(n as nat) + ")"@,
        TokenView::Id(name) => "Id("@ + name + ")"@,
        TokenView::Add => "Add(+)"@,
        TokenView::Subract => "Subract(-)"@,
        TokenView::Divide => "Divide(/)"@,
        TokenView::Multiply => "Multiply(*)"@,
    }
}

fn digit_text(d: usize) -> (out: &'static str)
    requires
        d < 10,
    ensures
        out@ == seq![digit_char(d as int)],
{
    proof {
        reveal_strlit("0");
        reveal_strlit("1");
        reveal_strlit("2");
        reveal_strlit("3");
        reveal_strlit("4");
        reveal_strlit("5");
        reveal_strlit("6");
        reveal_strlit("7");
        reveal_strlit("8");
        reveal_strlit("9");
    }
    let out = if d == 0 {
        "0"
    } else if d == 1 {
        "1"
    } else if d == 2 {
        "2"
    } else if d == 3 {
        "3"
    } else if d == 4 {
        "4"
    } else if d == 5 {
        "5"
    } else if d == 6 {
        "6"
    } else if d == 7 {
        "7"
    } else if d == 8 {
        "8"
    } else {
        "9"
    };
    assert(out@ =~= seq![digit_char(d as int)]);
    out
}

/// Appends `n` in decimal notation.
fn append_decimal(text: &mut String, n: usize)
    ensures
        final(text)@ == old(text)@ + decimal(n as nat),
    decreases n,
{
    if n >= 10 {
        append_decimal(text, n / 10);
    }
    text.append(digit_text(n % 10));
    assert(text@ =~= old(text)@ + decimal(n as nat));
}

impl Token {
    /// The token written out.
    pub fn to_string(&self) -> (out: String)
        ensures
            out@ == written(self@),
    {
        match self {
            Token::Num(n) => {
                let mut out = String::from_str("Num(");
                append_decimal(&mut out, *n);
                out.append(")");
                out
            },
            Token::Id(name) => {
                let mut out = String::from_str("Id(");
                out.append(name.as_str());
                out.append(")");
                out
            },
            Token::Add => String::from_str("Add(+)"),
            Token::Subract => String::from_str("Subract(-)"),
            Token::Divide => String::from_str("Divide(/)"),
            Token::Multiply => String::from_str("Multiply(*)"),
        }
    }
}

pub open spec fn is_digit(c: char) -> bool {
    '0' <= c && c <= '9'
}

/// Every character is a digit.
pub open spec fn all_digits(text: Seq<char>) -> bool {
    forall|i: int| 0 <= i < text.len() ==> is_digit(#[trigger] text[i])
}

/// The digit that `c` writes.
pub open spec fn digit_value(c: char) -> nat {
    (c as u32 - '0' as u32) as nat
}

/// The number that the digits write in decimal notation.
pub open spec fn value_of(digits: Seq<char>) -> nat
    decreases digits.len(),
{
    if digits.len() == 0 {
        0
    } else {
        value_of(digits.drop_last()) * 10 + digit_value(digits.last())
    }
}

/// What `char::is_numeric` says of a character.
pub uninterp spec fn numeric(c: char) -> bool;

/// Whether `c` is numeric, as `char::is_numeric` says it. The contract gives
/// the result its name, and claims one thing more of it: that the digits
/// from 0 to 9 are numeric.
#[verifier::external_body]
pub(crate) fn is_numeric(c: char) -> (out: bool)
    ensures
        out == numeric(c),
        is_digit(c) ==> out,
{
    c.is_numeric()
}

/// Every character is numeric.
pub open spec fn all_numeric(text: Seq<char>) -> bool {
    forall|i: int| 0 <= i < text.len() ==> numeric(#[trigger] text[i])
}

/// The word is written like a number: every character of it is numeric, as
/// the digits from 0 to 9 always are.
pub open spec fn number_word(text: Seq<char>) -> bool {
    all_numeric(text) || all_digits(text)
}

/// Whether every character of `str` is numeric.
pub fn is_string_numeric(str: &str) -> (out: bool)
    ensures
        out == all_numeric(str@),
        all_digits(str@) ==> out,
{
    let chars = chars_of(str);
    assert(chars@.subrange(0, chars.len() as int) == str@);
    are_numeric(&chars, 0, chars.len())
}

fn are_numeric(chars: &Vec<char>, from: usize, to: usize) -> (out: bool)
    requires
        from <= to <= chars.len(),
    ensures
        out == all_numeric(chars@.subrange(from as int, to as int)),
        out == number_word(chars@.subrange(from as int, to as int)),
{
    let mut at: usize = from;
    while at < to
        invariant
            from <= at <= to <= chars.len(),
            forall|i: int| from <= i < at ==> numeric(#[trigger] chars[i]),
        decreases to - at,
    {
        if !is_numeric(chars[at]) {
            assert(!numeric(chars@.subrange(from as int, to as int)[at - from]));
            assert(!is_digit(chars@.subrange(from as int, to as int)[at - from]));
            return false;
        }
        at += 1;
    }
    assert forall|i: int| 0 <= i < to - from implies numeric(
        #[trigger] chars@.subrange(from as int, to as int)[i],
    ) by {
        assert(numeric(chars[from + i]));
    }
    true
}

fn are_digits(chars: &Vec<char>, from: usize, to: usize) -> (out: bool)
    requires
        from <= to <= chars.len(),
    ensures
        out == all_digits(chars@.subrange(from as int, to as int)),
{
    let mut at: usize = from;
    while at < to
        invariant
            from <= at <= to <= chars.len(),
            forall|i: int| from <= i < at ==> is_digit(#[trigger] chars[i]),
        decreases to - at,
    {
        if !('0' <= chars[at] && chars[at] <= '9') {
            assert(!is_digit(chars@.subrange(from as int, to as int)[at - from]));
            return false;
        }
        at += 1;
    }
    assert forall|i: int| 0 <= i < to - from implies is_digit(
        #[trigger] chars@.subrange(from as int, to as int)[i],
    ) by {
        assert(is_digit(chars[from + i]));
    }
    true
}

proof fn lemma_digit_reads_back(d: int)
    requires
        0 <= d < 10,
    ensures
        is_digit(digit_char(d)),
        digit_value(digit_char(d)) == d,
{
    assert('0' as u32 == 48);
    assert('1' as u32 == 49);
    assert('2' as u32 == 50);
    assert('3' as u32 == 51);
    assert('4' as u32 == 52);
    assert('5' as u32 == 53);
    assert('6' as u32 == 54);
    assert('7' as u32 == 55);
    assert('8' as u32 == 56);
    assert('9' as u32 == 57);
}

/// A number in decimal notation is all digits, and they write the number.
pub proof fn lemma_decimal_reads_back(n: nat)
    ensures
        all_digits(decimal(n)),
        value_of(decimal(n)) == n,
    decreases n,
{
    lemma_digit_reads_back((n % 10) as int);
    if n < 10 {
        assert(decimal(n).drop_last() == Seq::<char>::empty());
        assert(value_of(decimal(n).drop_last()) == 0);
        assert(decimal(n).last() == digit_char(n as int));
    } else {
        lemma_decimal_reads_back(n / 10);
        assert(decimal(n).drop_last() == decimal(n / 10));
        assert(decimal(n).last() == digit_char((n % 10) as int));
        assert forall|i: int| 0 <= i < decimal(n).len() implies is_digit(
            #[trigger] decimal(n)[i],
        ) by {
            if i < decimal(n).len() - 1 {
                assert(decimal(n)[i] == decimal(n / 10)[i]);
            }
        }
    }
}

proof fn lemma_value_grows(digits: Seq<char>, upto: int)
    requires
        0 <= upto <= digits.len(),
    ensures
        value_of(digits.take(upto)) <= value_of(digits),
    decreases digits.len() - upto,
{
    if upto < digits.len() {
        lemma_value_grows(digits, upto + 1);
        assert(digits.take(upto + 1).drop_last() == digits.take(upto));
    } else {
        assert(digits.take(upto) == digits);
    }
}

/// The number that the digits write, if a `usize` holds it.
fn number(chars: &Vec<char>, from: usize, to: usize) -> (out: Option<usize>)
    requires
        from <= to <= chars.len(),
        all_digits(chars@.subrange(from as int, to as int)),
    ensures
        match out {
            Some(n) => n == value_of(chars@.subrange(from as int, to as int)),
            None => value_of(chars@.subrange(from as int, to as int)) > usize::MAX,
        },
{
    let ghost digits = chars@.subrange(from as int, to as int);
    let mut n: usize = 0;
    let mut at: usize = from;
    while at < to
        invariant
            from <= at <= to <= chars.len(),
            digits == chars@.subrange(from as int, to as int),
            all_digits(digits),
            n == value_of(digits.take(at - from)),
        decreases to - at,
    {
        assert(digits.take(at - from + 1).drop_last() == digits.take(at - from));
        assert(digits.take(at - from + 1).last() == chars[at as int]);
        assert(is_digit(digits[at - from]));
        let d = (chars[at] as u32 - '0' as u32) as usize;
        if n > (usize::MAX - d) / 10 {
            proof {
                lemma_value_grows(digits, at - from + 1);
            }
            return None;
        }
        n = n * 10 + d;
        at += 1;
    }
    assert(digits.take(at - from) == digits);
    Some(n)
}

/// The token that the sign `c` stands for.
pub open spec fn operator(c: char) -> Option<TokenView> {
    if c == '+' {
        Some(TokenView::Add)
    } else if c == '-' {
        Some(TokenView::Subract)
    } else if c == '*' {
        Some(TokenView::Multiply)
    } else if c == '/' {
        Some(TokenView::Divide)
    } else {
        None
    }
}

/// `c` ends a lexeme: a space, a sign, or a name of one letter that has been
/// met before.
pub open spec fn delimits(known: Seq<Seq<char>>, c: char) -> bool {
    c == ' ' || operator(c) is Some || known.contains(seq![c])
}

/// The first position at or after `from` that holds no space.
pub open spec fn after_spaces(source: Seq<char>, from: int) -> int
    decreases source.len() - from,
{
    if 0 <= from < source.len() && source[from] == ' ' {
        after_spaces(source, from + 1)
    } else {
        from
    }
}

/// The first position at or after `from` that holds a delimiter, or the
/// source's end.
pub open spec fn lexeme_end(known: Seq<Seq<char>>, source: Seq<char>, from: int) -> int
    decreases source.len() - from,
{
    if 0 <= from < source.len() && !delimits(known, source[from]) {
        lexeme_end(known, source, from + 1)
    } else {
        from
    }
}

/// A lexer, as contracts speak of it.
pub struct LexerView {
    pub source: Seq<char>,
    /// How much of the source has been read.
    pub index: int,
    /// The names met so far, in the order in which they were first met.
    pub known: Seq<Seq<char>>,
}

/// The names with `name` among them.
pub open spec fn with_name(known: Seq<Seq<char>>, name: Seq<char>) -> Seq<Seq<char>> {
    if known.contains(name) {
        known
    } else {
        known.push(name)
    }
}

/// The token that the word `word` is, given whether it is written like a
/// number: a name if it is not, and else the number that its digits write.
/// There is none where a word written like a number holds something else
/// than the digits from 0 to 9, or writes a number too large to hold.
pub open spec fn worded(word: Seq<char>, like_a_number: bool) -> Option<TokenView> {
    if !like_a_number {
        Some(TokenView::Id(word))
    } else if all_digits(word) && value_of(word) <= usize::MAX {
        Some(TokenView::Num(value_of(word) as usize))
    } else {
        None
    }
}

/// The next token, and the lexer after it is read.
///
/// Spaces before the token are passed over. A sign is a token by itself, and
/// so is a name of one letter that has been met before. Whatever else stands
/// before the next delimiter is a word: a number if it is written like one,
/// and a name if not; a space right after it is read with it. There is no
/// token at the source's end, nor where the word is no token: the word is
/// then left unread.
pub open spec fn scanned(v: LexerView) -> (Option<TokenView>, LexerView) {
    let begin = after_spaces(v.source, v.index);
    let end = lexeme_end(v.known, v.source, begin);
    let lexeme = v.source.subrange(begin, end);
    let next = if end < v.source.len() && v.source[end] == ' ' {
        end + 1
    } else {
        end
    };
    if begin >= v.source.len() {
        (None, LexerView { index: begin, ..v })
    } else if end == begin {
        (
            Some(
                match operator(v.source[begin]) {
                    Some(token) => token,
                    None => TokenView::Id(seq![v.source[begin]]),
                },
            ),
            LexerView { index: begin + 1, ..v },
        )
    } else if number_word(lexeme) {
        match worded(lexeme, true) {
            Some(token) => (Some(token), LexerView { index: next, ..v }),
            None => (None, LexerView { index: begin, ..v }),
        }
    } else {
        (
            worded(lexeme, false),
            LexerView { index: next, known: with_name(v.known, lexeme), ..v },
        )
    }
}

/// The token that `word` is, given whether it is written like a number.
pub fn word_token(word: &str, like_a_number: bool) -> (out: Option<Token>)
    ensures
        seen(out) == worded(word@, like_a_number),
{
    if !like_a_number {
        return Some(Token::Id(word.to_owned()));
    }
    let chars = chars_of(word);
    assert(chars@.subrange(0, chars.len() as int) == word@);
    if are_digits(&chars, 0, chars.len()) {
        match number(&chars, 0, chars.len()) {
            Some(n) => Some(Token::Num(n)),
            None => None,
        }
    } else {
        None
    }
}

/// The view of a token, if there is one.
pub open spec fn seen(token: Option<Token>) -> Option<TokenView> {
    match token {
        Some(token) => Some(token@),
        None => None,
    }
}

/// Reads a source token by token.
pub struct LexemeGenerator {
    symbol_table: Vec<Vec<char>>,
    source: String,
    source_code: Vec<char>,
    current_index: usize,
}

impl View for LexemeGenerator {
    type V = LexerView;

    closed spec fn view(&self) -> LexerView {
        LexerView {
            source: self.source_code@,
            index: self.current_index as int,
            known: Seq::new(self.symbol_table@.len(), |i: int| self.symbol_table@[i]@),
        }
    }
}

impl LexemeGenerator {
    #[verifier::type_invariant]
    spec fn sound(&self) -> bool {
        &&& self.source@ == self.source_code@
        &&& self.current_index <= self.source_code.len()
        &&& self.wf()
    }

    /// What holds of every lexer: it has read no more than there is, and no
    /// name that it has met is written like a number.
    pub open spec fn wf(&self) -> bool {
        &&& 0 <= self@.index <= self@.source.len()
        &&& forall|i: int| 0 <= i < self@.known.len() ==> !number_word(#[trigger] self@.known[i])
    }

    pub fn new(input: &str) -> (out: Self)
        ensures
            out.wf(),
            out@ == (LexerView { source: input@, index: 0, known: Seq::empty() }),
    {
        let out = LexemeGenerator {
            symbol_table: Vec::new(),
            source: input.to_owned(),
            source_code: chars_of(input),
            current_index: 0,
        };
        assert(out@.known =~= Seq::<Seq<char>>::empty());
        out
    }

    /// Whether `c` is a name of one letter that has been met before.
    fn is_known_letter(&self, c: char) -> (out: bool)
        ensures
            out == self@.known.contains(seq![c]),
    {
        let mut at: usize = 0;
        while at < self.symbol_table.len()
            invariant
                at <= self.symbol_table.len(),
                forall|i: int| 0 <= i < at ==> self@.known[i] != seq![c],
            decreases self.symbol_table.len() - at,
        {
            if self.symbol_table[at].len() == 1 && self.symbol_table[at][0] == c {
                assert(self@.known[at as int] =~= seq![c]);
                return true;
            }
            assert(self@.known[at as int] != seq![c]) by {
                if self@.known[at as int].len() == 1 {
                    assert(self@.known[at as int][0] != seq![c][0]);
                }
            }
            at += 1;
        }
        false
    }

    /// Notes the name that stands in the source from `from` to `to`.
    fn note(&mut self, from: usize, to: usize)
        requires
            from <= to <= old(self).source_code.len(),
            !number_word(old(self)@.source.subrange(from as int, to as int)),
        ensures
            final(self)@ == (LexerView {
                known: with_name(
                    old(self)@.known,
                    old(self)@.source.subrange(from as int, to as int),
                ),
                ..old(self)@
            }),
            final(self).source == old(self).source,
            final(self).source_code == old(self).source_code,
    {
        proof {
            use_type_invariant(&*self);
        }
        let ghost name = self@.source.subrange(from as int, to as int);
        let mut at: usize = 0;
        while at < self.symbol_table.len()
            invariant
                at <= self.symbol_table.len(),
                from <= to <= self.source_code.len(),
                *self == *old(self),
                name == self@.source.subrange(from as int, to as int),
                forall|i: int| 0 <= i < at ==> self@.known[i] != name,
            decreases self.symbol_table.len() - at,
        {
            if self.same_as(at, from, to) {
                assert(self@.known[at as int] == name);
                return ;
            }
            at += 1;
        }
        let mut fresh: Vec<char> = Vec::new();
        let mut k: usize = from;
        while k < to
            invariant
                from <= k <= to <= self.source_code.len(),
                *self == *old(self),
                fresh@ == self.source_code@.subrange(from as int, k as int),
            decreases to - k,
        {
            fresh.push(self.source_code[k]);
            assert(self.source_code@.subrange(from as int, k + 1) == self.source_code@.subrange(
                from as int,
                k as int,
            ).push(self.source_code@[k as int]));
            k += 1;
        }
        let mut table: Vec<Vec<char>> = Vec::new();
        core::mem::swap(&mut self.symbol_table, &mut table);
        table.push(fresh);
        let ghost known = Seq::new(table@.len(), |i: int| table@[i]@);
        assert(known =~= old(self)@.known.push(name));
        assert forall|i: int| 0 <= i < known.len() implies !number_word(#[trigger] known[i]) by {
            if i < old(self)@.known.len() {
                assert(known[i] == old(self)@.known[i]);
            }
        }
        core::mem::swap(&mut self.symbol_table, &mut table);
        assert(self@.known =~= known);
    }

    /// Whether the name at `at` in the table stands in the source from `from`
    /// to `to`.
    fn same_as(&self, at: usize, from: usize, to: usize) -> (out: bool)
        requires
            at < self.symbol_table.len(),
            from <= to <= self.source_code.len(),
        ensures
            out == (self@.known[at as int] == self@.source.subrange(from as int, to as int)),
    {
        let name = &self.symbol_table[at];
        let ghost piece = self@.source.subrange(from as int, to as int);
        assert(self@.known[at as int] == name@);
        if name.len() != to - from {
            return false;
        }
        let mut k: usize = 0;
        while k < name.len()
            invariant
                k <= name.len() == to - from,
                to <= self.source_code.len(),
                at < self@.known.len(),
                self@.known[at as int] == name@,
                piece == self@.source.subrange(from as int, to as int),
                piece == self.source_code@.subrange(from as int, to as int),
                forall|j: int| 0 <= j < k ==> name[j] == piece[j],
            decreases name.len() - k,
        {
            if name[k] != self.source_code[from + k] {
                assert(name@[k as int] != piece[k as int]);
                return false;
            }
            k += 1;
        }
        assert(name@ =~= piece);
        true
    }

    /// Reads the next token.
    pub fn scan(&mut self) -> (out: Option<Token>)
        ensures
            old(self).wf(),
            final(self).wf(),
            (seen(out), final(self)@) == scanned(old(self)@),
    {
        proof {
            use_type_invariant(&*self);
        }
        let len = self.source_code.len();
        let mut begin: usize = self.current_index;
        while begin < len && self.source_code[begin] == ' '
            invariant
                self.current_index <= begin <= len == self.source_code.len(),
                *self == *old(self),
                after_spaces(self@.source, begin as int) == after_spaces(
                    self@.source,
                    self@.index,
                ),
            decreases len - begin,
        {
            begin += 1;
        }
        if begin >= len {
            self.current_index = begin;
            return None;
        }
        let mut end: usize = begin;
        while end < len && !self.ends_lexeme(self.source_code[end])
            invariant
                begin <= end <= len == self.source_code.len(),
                *self == *old(self),
                lexeme_end(self@.known, self@.source, end as int) == lexeme_end(
                    self@.known,
                    self@.source,
                    begin as int,
                ),
            decreases len - end,
        {
            end += 1;
        }
        if end == begin {
            let c = self.source_code[begin];
            self.current_index = begin + 1;
            let token = if c == '+' {
                Token::Add
            } else if c == '-' {
                Token::Subract
            } else if c == '*' {
                Token::Multiply
            } else if c == '/' {
                Token::Divide
            } else {
                let name = self.source.as_str().substring_char(begin, begin + 1).to_owned();
                assert(name@ =~= seq![c]);
                Token::Id(name)
            };
            return Some(token);
        }
        let next = if end < len && self.source_code[end] == ' ' {
            end + 1
        } else {
            end
        };
        let like_a_number = are_numeric(&self.source_code, begin, end);
        let word = self.source.as_str().substring_char(begin, end);
        let token = word_token(word, like_a_number);
        match &token {
            Some(Token::Id(_)) => {
                self.note(begin, end);
                self.current_index = next;
            },
            Some(_) => {
                self.current_index = next;
            },
            None => {
                self.current_index = begin;
            },
        }
        token
    }

    fn ends_lexeme(&self, c: char) -> (out: bool)
        ensures
            out == delimits(self@.known, c),
    {
        c == ' ' || c == '+' || c == '-' || c == '*' || c == '/' || self.is_known_letter(c)
    }
}

} // verus!

use vstd::prelude::*;

verus! {

/// Collects the `char`s of a string slice into a vector.
pub fn collect_chars(source: &str) -> (chars: Vec<char>)
    ensures
        chars@ == source@,
{
    let mut chars: Vec<char> = Vec::new();
    let mut it = source.chars();
    for c in iter: it
        invariant
            chars@ == iter.seq().take(iter.index()),
    {
        chars.push(c);
    }
    chars
}

/// The abstract state of a [`Scanner`]: the source code, the offset (in
/// `char`s) where the current lexeme begins, and the offset of the next
/// `char` to be read.
pub struct ScannerView {
    pub text: Seq<char>,
    pub start: int,
    pub pos: int,
}

impl ScannerView {
    /// The current lexeme.
    pub open spec fn lexeme(self) -> Seq<char> {
        self.text.subrange(self.start, self.pos)
    }

    /// The source code between the start of the current lexeme and the end of
    /// source code.
    pub open spec fn rest(self) -> Seq<char> {
        self.text.subrange(self.start, self.text.len() as int)
    }

    /// The next `char`, if any.
    pub open spec fn peek(self) -> Option<char> {
        if self.pos < self.text.len() {
            Some(self.text[self.pos])
        } else {
            None
        }
    }

    /// The state after consuming the next `char` (unchanged at the end of
    /// source code).
    pub open spec fn bumped(self) -> ScannerView {
        if self.pos < self.text.len() {
            ScannerView { pos: self.pos + 1, ..self }
        } else {
            self
        }
    }

    pub open spec fn valid(self) -> bool {
        0 <= self.start <= self.pos <= self.text.len()
    }
}

/// A structure which reads lexemes from source code.
pub struct Scanner<'src> {
    /// The source code.
    source: &'src str,
    /// The `char`s of the source code.
    chars: Vec<char>,
    /// The `char` offset where the current lexeme begins.
    start: usize,
    /// The `char` offset of the next `char`.
    current: usize,
}

impl<'src> View for Scanner<'src> {
    type V = ScannerView;

    closed spec fn view(&self) -> ScannerView {
        ScannerView { text: self.source@, start: self.start as int, pos: self.current as int }
    }
}

impl<'src> Scanner<'src> {
    /// The scanner's internal consistency: its `char` vector mirrors the
    /// source code and both offsets lie within it.
    pub closed spec fn wf(&self) -> bool {
        &&& self.chars@ == self.source@
        &&& self.start <= self.current <= self.chars.len()
    }

    /// Creates a new `Scanner` from source code.
    pub fn new(source: &'src str) -> (scanner: Self)
        ensures
            scanner.wf(),
            scanner@ == (ScannerView { text: source@, start: 0, pos: 0 }),
    {
        Scanner { source, chars: collect_chars(source), start: 0, current: 0 }
    }

    pub proof fn lemma_valid(&self)
        requires
            self.wf(),
        ensures
            self@.valid(),
    {
    }

    /// Returns the current lexeme.
    pub fn lexeme(&self) -> (lexeme: &'src str)
        requires
            self.wf(),
        ensures
            lexeme@ == self@.lexeme(),
    {
        self.source.substring_char(self.start, self.current)
    }

    /// Returns the source code between the start of the current lexeme and
    /// the end of source code.
    pub fn rest(&self) -> (rest: &'src str)
        requires
            self.wf(),
        ensures
            rest@ == self@.rest(),
    {
        self.source.substring_char(self.start, self.chars.len())
    }

    /// Begins a new lexeme.
    pub fn begin_lexeme(&mut self)
        requires
            old(self).wf(),
        ensures
            final(self).wf(),
            final(self)@ == (ScannerView { start: old(self)@.pos, ..old(self)@ }),
    {
        self.start = self.current;
    }

    /// Consumes the next `char`. This function returns `None` if the
    /// `Scanner` is at the end of source code.
    pub fn bump(&mut self) -> (next: Option<char>)
        requires
            old(self).wf(),
        ensures
            final(self).wf(),
            next == old(self)@.peek(),
            final(self)@ == old(self)@.bumped(),
    {
        if self.current < self.chars.len() {
            let c = self.chars[self.current];
            self.current = self.current + 1;
            Some(c)
        } else {
            None
        }
    }

    /// Consumes the next `char` if it matches an expected `char`. This
    /// function returns `true` if a `char` was consumed.
    pub fn eat(&mut self, expected: char) -> (is_match: bool)
        requires
            old(self).wf(),
        ensures
            final(self).wf(),
            is_match == (old(self)@.peek() == Some(expected)),
            final(self)@ == if is_match { old(self)@.bumped() } else { old(self)@ },
    {
        let is_match = self.peek() == Some(expected);
        if is_match {
            self.bump();
        }
        is_match
    }

    /// Repeatedly consumes the next `char` while it matches a predicate
    /// function.
    pub fn eat_while<F: Fn(char) -> bool>(&mut self, predicate: F)
        requires
            old(self).wf(),
            forall|c: char| predicate.requires((c,)),
        ensures
            final(self).wf(),
            final(self)@.text == old(self)@.text,
            final(self)@.start == old(self)@.start,
            old(self)@.pos <= final(self)@.pos,
            forall|i: int|
                old(self)@.pos <= i < final(self)@.pos ==> predicate.ensures(
                    (#[trigger] final(self)@.text[i],),
                    true,
                ),
            final(self)@.pos < final(self)@.text.len() ==> predicate.ensures(
                (final(self)@.text[final(self)@.pos],),
                false,
            ),
    {
        let ghost start_pos = self.current as int;
        loop
            invariant
                self.wf(),
                self.source@ == old(self).source@,
                self.start == old(self).start,
                start_pos == old(self).current,
                start_pos <= self.current,
                forall|c: char| predicate.requires((c,)),
                forall|i: int|
                    start_pos <= i < self.current ==> predicate.ensures((#[trigger] self.chars@[i],), true),
            ensures
                self.wf(),
                self.source@ == old(self).source@,
                self.start == old(self).start,
                start_pos <= self.current,
                forall|i: int|
                    start_pos <= i < self.current ==> predicate.ensures((#[trigger] self.chars@[i],), true),
                self.current < self.chars.len() ==> predicate.ensures(
                    (self.chars@[self.current as int],),
                    false,
                ),
            decreases self.chars.len() - self.current,
        {
            if self.current >= self.chars.len() {
                break;
            }
            let c = self.chars[self.current];
            if !predicate(c) {
                break;
            }
            self.current = self.current + 1;
        }
    }

    /// Returns `true` if the current lexeme is exactly `word`.
    pub fn lexeme_matches(&self, word: &[char]) -> (is_match: bool)
        requires
            self.wf(),
        ensures
            is_match == (self@.lexeme() == word@),
    {
        let length = self.current - self.start;
        if length != word.len() {
            proof {
                assert(self@.lexeme().len() != word@.len());
            }
            return false;
        }
        let mut i: usize = 0;
        while i < length
            invariant
                self.wf(),
                length == self.current - self.start,
                length == word.len(),
                i <= length,
                forall|j: int| 0 <= j < i ==> self.chars@[self.start + j] == word@[j],
            decreases length - i,
        {
            if self.chars[self.start + i] != word[i] {
                proof {
                    assert(self@.lexeme()[i as int] != word@[i as int]);
                }
                return false;
            }
            i = i + 1;
        }
        proof {
            assert(self@.lexeme() =~= word@);
        }
        true
    }

    /// Returns the next `char` without consuming it. This function returns
    /// `None` if the `Scanner` is at the end of source code.
    pub fn peek(&self) -> (next: Option<char>)
        requires
            self.wf(),
        ensures
            next == self@.peek(),
    {
        if self.current < self.chars.len() {
            Some(self.chars[self.current])
        } else {
            None
        }
    }
}

} // verus!

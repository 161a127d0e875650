//! Quoting for a POSIX shell, and a model of how the shell reads a line into words.

use crate::text::{replace, replaced};
use vstd::prelude::*;

verus! {

/// `value` between apostrophes, with each apostrophe in it written `'\''`.
pub open spec fn quoted(value: Seq<char>) -> Seq<char> {
    "'"@ + replace(value, '\'', "'\\''"@) + "'"@
}

/// `value`, protected for a POSIX shell.
pub fn shell_quote(value: &str) -> (result: String)
    ensures
        result@ == quoted(value@),
{
    let mut result = "'".to_string();
    result.append(replaced(value, '\'', "'\\''").as_str());
    result.append("'");
    result
}

// ---------------------------------------------------------------------------
// How a shell reads a line
// ---------------------------------------------------------------------------

/// How the shell takes the next character: for what it means, as it is after a backslash, or
/// as it is between apostrophes.
pub enum Mode {
    Bare,
    Escaped,
    Quoted,
}

/// What a shell has read of a line.
#[verifier::ext_equal]
pub struct Reading {
    /// The words that are complete.
    pub words: Seq<Seq<char>>,
    /// The word that has begun and not ended.
    pub word: Option<Seq<char>>,
    pub mode: Mode,
    /// No character has been met that means something else to the shell than itself, other
    /// than the blanks between words, apostrophes and backslashes.
    pub plain: bool,
}

/// The characters that, unless they are quoted, may mean something else to the shell than
/// themselves.
pub open spec fn is_special(c: char) -> bool {
    ||| c == '|' || c == '&' || c == ';' || c == '<' || c == '>' || c == '(' || c == ')'
    ||| c == '$' || c == '`' || c == '"' || c == '\t' || c == '\n'
    ||| c == '*' || c == '?' || c == '[' || c == ']' || c == '#' || c == '~' || c == '='
    ||| c == '%' || c == '!' || c == '{' || c == '}'
}

/// A text that the shell takes as it is.
pub open spec fn is_plain(text: Seq<char>) -> bool {
    forall|i: int|
        0 <= i < text.len() ==> !is_special(#[trigger] text[i]) && text[i] != ' ' && text[i] != '\''
            && text[i] != '\\'
}

/// The word that has begun, as far as it goes.
pub open spec fn begun(word: Option<Seq<char>>) -> Seq<char> {
    match word {
        Some(word) => word,
        None => seq![],
    }
}

impl Reading {
    /// Nothing has been read.
    pub open spec fn start() -> Reading {
        Reading { words: seq![], word: None, mode: Mode::Bare, plain: true }
    }

    /// The words, with the one that the end of the line ends.
    pub open spec fn ended(self) -> Seq<Seq<char>> {
        match self.word {
            Some(word) => self.words.push(word),
            None => self.words,
        }
    }

    /// `text` is added to the word, which it begins if none has begun.
    pub open spec fn with(self, text: Seq<char>) -> Reading {
        Reading { word: Some(begun(self.word) + text), ..self }
    }

    /// The shell reads one more character.
    pub open spec fn step(self, c: char) -> Reading {
        match self.mode {
            Mode::Quoted => if c == '\'' {
                Reading { mode: Mode::Bare, ..self }
            } else {
                self.with(seq![c])
            },
            Mode::Escaped => Reading {
                mode: Mode::Bare,
                plain: self.plain && c != '\n',
                ..self.with(seq![c])
            },
            Mode::Bare => if c == ' ' {
                Reading { words: self.ended(), word: None, ..self }
            } else if c == '\'' {
                Reading { mode: Mode::Quoted, ..self.with(seq![]) }
            } else if c == '\\' {
                Reading { mode: Mode::Escaped, ..self.with(seq![]) }
            } else {
                Reading { plain: self.plain && !is_special(c), ..self.with(seq![c]) }
            },
        }
    }

    /// The shell reads `text`.
    pub open spec fn read(self, text: Seq<char>) -> Reading
        decreases text.len(),
    {
        if text.len() == 0 {
            self
        } else {
            self.read(text.drop_last()).step(text.last())
        }
    }
}

/// The words of a line that is a plain command: `None` where the line ends within a quotation,
/// or holds an unquoted character that may mean something else to the shell.
pub open spec fn command_words(line: Seq<char>) -> Option<Seq<Seq<char>>> {
    let reading = Reading::start().read(line);
    if reading.plain && reading.mode is Bare {
        Some(reading.ended())
    } else {
        None
    }
}

// ---------------------------------------------------------------------------
// Laws
// ---------------------------------------------------------------------------

/// Reading two texts one after the other is reading them joined.
pub proof fn lemma_read_joined(reading: Reading, a: Seq<char>, b: Seq<char>)
    ensures
        reading.read(a + b) == reading.read(a).read(b),
    decreases b.len(),
{
    if b.len() == 0 {
        assert(a + b =~= a);
    } else {
        lemma_read_joined(reading, a, b.drop_last());
        assert((a + b).drop_last() =~= a + b.drop_last());
        assert((a + b).last() == b.last());
    }
}

/// Between apostrophes, the text with its apostrophes replaced is read as the text itself.
proof fn lemma_read_replaced(reading: Reading, value: Seq<char>)
    requires
        reading.mode is Quoted,
        reading.word is Some,
    ensures
        reading.read(replace(value, '\'', "'\\''"@)) == reading.with(value),
    decreases value.len(),
{
    let escape = "'\\''"@;
    if value.len() == 0 {
        assert(reading.with(value) =~= reading) by {
            assert(begun(reading.word) + value =~= begun(reading.word));
        }
    } else {
        let front = value.drop_last();
        let c = value.last();
        lemma_read_replaced(reading, front);
        let middle = reading.with(front);
        assert(begun(middle.word) =~= begun(reading.word) + front);
        assert((begun(reading.word) + front) + seq![c] =~= begun(reading.word) + value);
        if c == '\'' {
            reveal_strlit("'\\''");
            lemma_read_joined(reading, replace(front, '\'', escape), escape);
            assert(escape =~= seq!['\'', '\\', '\'', '\'']);
            reveal_with_fuel(Reading::read, 5);
            assert(escape.drop_last() =~= seq!['\'', '\\', '\'']);
            assert(escape.drop_last().drop_last() =~= seq!['\'', '\\']);
            assert(escape.drop_last().drop_last().drop_last() =~= seq!['\'']);
            let word = begun(middle.word);
            assert((word + seq![]) + seq!['\''] + seq![] =~= word + seq!['\'']);
            assert(word + seq![] =~= word);
            assert(middle.read(escape) =~= reading.with(value));
        } else {
            lemma_read_joined(reading, replace(front, '\'', escape), seq![c]);
            reveal_with_fuel(Reading::read, 2);
            assert(seq![c].drop_last() =~= seq![]);
            assert(middle.read(seq![c]) =~= reading.with(value));
        }
    }
}

/// A quoted value is read as the value itself, whatever it holds: it joins the word that has
/// begun.
pub proof fn lemma_read_quoted(reading: Reading, value: Seq<char>)
    requires
        reading.mode is Bare,
    ensures
        reading.read(quoted(value)) == reading.with(value),
{
    reveal_strlit("'");
    let apostrophe = "'"@;
    let inner = replace(value, '\'', "'\\''"@);
    assert(apostrophe =~= seq!['\'']);
    lemma_read_joined(reading, apostrophe + inner, apostrophe);
    lemma_read_joined(reading, apostrophe, inner);
    reveal_with_fuel(Reading::read, 2);
    assert(apostrophe.drop_last() =~= seq![]);
    let open = reading.read(apostrophe);
    assert(open == reading.step('\''));
    lemma_read_replaced(open, value);
    assert(begun(reading.word) + seq![] + value =~= begun(reading.word) + value);
    assert(open.with(value).read(apostrophe) == open.with(value).step('\''));
    assert(reading.read(quoted(value)) =~= reading.with(value));
}

/// A plain text is read as it is.
pub proof fn lemma_read_plain(reading: Reading, text: Seq<char>)
    requires
        reading.mode is Bare,
        is_plain(text),
        text.len() > 0,
    ensures
        reading.read(text) == reading.with(text),
    decreases text.len(),
{
    let front = text.drop_last();
    let c = text.last();
    assert(text[text.len() - 1] == c);
    if front.len() == 0 {
        assert(text =~= seq![c]);
        reveal_with_fuel(Reading::read, 2);
        assert(reading.read(text) =~= reading.with(text));
    } else {
        assert forall|i: int| 0 <= i < front.len() implies !is_special(#[trigger] front[i])
            && front[i] != ' ' && front[i] != '\'' && front[i] != '\\' by {
            assert(front[i] == text[i]);
        }
        lemma_read_plain(reading, front);
        assert((begun(reading.word) + front) + seq![c] =~= begun(reading.word) + text);
        assert(reading.read(text) =~= reading.with(text));
    }
}

/// The shell reads a quoted value as one word, the value itself: nothing in a value can end the
/// word, begin another one or be taken for anything else.
pub proof fn law_quoted_value_is_one_word(value: Seq<char>)
    ensures
        command_words(quoted(value)) == Some(seq![value]),
{
    lemma_read_quoted(Reading::start(), value);
    assert(seq![] + value =~= value);
    assert(Reading::start().words.push(value) =~= seq![value]);
}

/// Two values that are quoted alike are the same value.
pub proof fn law_quoting_loses_nothing(a: Seq<char>, b: Seq<char>)
    requires
        quoted(a) == quoted(b),
    ensures
        a == b,
{
    law_quoted_value_is_one_word(a);
    law_quoted_value_is_one_word(b);
    assert(seq![a][0] == seq![b][0]);
}

/// A plain text after a space is one more word.
pub proof fn lemma_plain_word_added(line: Seq<char>, words: Seq<Seq<char>>, text: Seq<char>)
    requires
        command_words(line) == Some(words),
        is_plain(text),
        text.len() > 0,
    ensures
        command_words(line + " "@ + text) == Some(words.push(text)),
{
    lemma_space_read(line, words);
    lemma_read_joined(Reading::start(), line + " "@, text);
    let spaced = Reading::start().read(line + " "@);
    lemma_read_plain(spaced, text);
    assert(begun(spaced.word) + text =~= text);
}

/// A quoted value after a space is one more word.
pub proof fn lemma_quoted_word_added(line: Seq<char>, words: Seq<Seq<char>>, value: Seq<char>)
    requires
        command_words(line) == Some(words),
    ensures
        command_words(line + " "@ + quoted(value)) == Some(words.push(value)),
{
    lemma_space_read(line, words);
    lemma_read_joined(Reading::start(), line + " "@, quoted(value));
    let spaced = Reading::start().read(line + " "@);
    lemma_read_quoted(spaced, value);
    assert(begun(spaced.word) + value =~= value);
}

/// A space ends the word before it.
proof fn lemma_space_read(line: Seq<char>, words: Seq<Seq<char>>)
    requires
        command_words(line) == Some(words),
    ensures
        Reading::start().read(line + " "@) == (Reading {
            words,
            word: None,
            mode: Mode::Bare,
            plain: true,
        }),
{
    reveal_strlit(" ");
    assert((line + " "@).drop_last() =~= line);
    assert((line + " "@).last() == ' ');
}

} // verus!

//! The five waveform shapes, their names and the text that selects them.
use vstd::prelude::*;
use vstd::string::*;
use vstd::utf8::is_ascii_chars;

verus! {

/// Shape of one period of the generated signal.
#[derive(Debug, Copy, Clone, PartialEq, Eq, Structural)]
pub enum Waveform {
    Sine,
    Sawtooth,
    Triangle,
    Square,
    Noise,
}

/// A text that names no waveform.
#[derive(Debug)]
pub struct InvalidWaveformName {
    /// The text as it was given.
    pub text: String,
}

/// Lower-case form of an ASCII capital letter; every other character is
/// left as it is.
pub open spec fn fold_char(c: char) -> char {
    if 'A' <= c && c <= 'Z' {
        ((c as u32) + 32) as char
    } else {
        c
    }
}

/// A text with each of its characters folded by [`fold_char`].
pub open spec fn fold(text: Seq<char>) -> Seq<char> {
    Seq::new(text.len(), |i: int| fold_char(text[i]))
}

/// The waveform that a text selects, if it selects one.
pub open spec fn spec_parse(text: Seq<char>) -> Option<Waveform> {
    if Waveform::Sine.accepts(text) {
        Some(Waveform::Sine)
    } else if Waveform::Sawtooth.accepts(text) {
        Some(Waveform::Sawtooth)
    } else if Waveform::Triangle.accepts(text) {
        Some(Waveform::Triangle)
    } else if Waveform::Square.accepts(text) {
        Some(Waveform::Square)
    } else if Waveform::Noise.accepts(text) {
        Some(Waveform::Noise)
    } else {
        None
    }
}

impl Waveform {
    /// Canonical lower-case name of the shape.
    pub open spec fn spec_name(self) -> Seq<char> {
        match self {
            Waveform::Sine => "sine"@,
            Waveform::Sawtooth => "sawtooth"@,
            Waveform::Triangle => "triangle"@,
            Waveform::Square => "square"@,
            Waveform::Noise => "noise"@,
        }
    }

    /// Three-letter abbreviation: the start of the canonical name.
    pub open spec fn spec_abbreviation(self) -> Seq<char> {
        self.spec_name().take(3)
    }

    /// Whether `text` selects this shape: its folded form is the canonical
    /// name or the abbreviation.
    pub open spec fn accepts(self, text: Seq<char>) -> bool {
        fold(text) == self.spec_name() || fold(text) == self.spec_abbreviation()
    }

    /// The shape that follows this one in the order sine, sawtooth,
    /// triangle, square, noise; after noise comes sine again.
    pub open spec fn spec_next(self) -> Waveform {
        match self {
            Waveform::Sine => Waveform::Sawtooth,
            Waveform::Sawtooth => Waveform::Triangle,
            Waveform::Triangle => Waveform::Square,
            Waveform::Square => Waveform::Noise,
            Waveform::Noise => Waveform::Sine,
        }
    }

    /// The shape that comes before this one in the same order.
    pub open spec fn spec_previous(self) -> Waveform {
        match self {
            Waveform::Sine => Waveform::Noise,
            Waveform::Sawtooth => Waveform::Sine,
            Waveform::Triangle => Waveform::Sawtooth,
            Waveform::Square => Waveform::Triangle,
            Waveform::Noise => Waveform::Square,
        }
    }

    /// Reads a waveform from its name or three-letter abbreviation, in
    /// capitals or small letters. Any other text is an error that holds the
    /// text.
    pub fn from_str(s: &str) -> (r: Result<Waveform, InvalidWaveformName>)
        ensures
            spec_parse(s@) matches Some(waveform) ==> r == Ok::<Waveform, InvalidWaveformName>(
                waveform,
            ),
            spec_parse(s@) is None ==> r is Err && r->Err_0.text@ == s@,
    {
        if !s.is_ascii() {
            proof {
                non_ascii_selects_nothing(s@);
            }
            return Err(InvalidWaveformName { text: s.to_owned() });
        }
        proof {
            reveal_names();
            names_are_ascii(Waveform::Sine);
            names_are_ascii(Waveform::Sawtooth);
            names_are_ascii(Waveform::Triangle);
            names_are_ascii(Waveform::Square);
            names_are_ascii(Waveform::Noise);
        }
        if folds_to(s, "sine") || folds_to(s, "sin") {
            Ok(Waveform::Sine)
        } else if folds_to(s, "sawtooth") || folds_to(s, "saw") {
            Ok(Waveform::Sawtooth)
        } else if folds_to(s, "triangle") || folds_to(s, "tri") {
            Ok(Waveform::Triangle)
        } else if folds_to(s, "square") || folds_to(s, "squ") {
            Ok(Waveform::Square)
        } else if folds_to(s, "noise") || folds_to(s, "noi") {
            Ok(Waveform::Noise)
        } else {
            Err(InvalidWaveformName { text: s.to_owned() })
        }
    }

    /// Canonical lower-case name of the shape.
    pub fn name(self) -> (r: &'static str)
        ensures
            r@ == self.spec_name(),
    {
        match self {
            Waveform::Sine => "sine",
            Waveform::Sawtooth => "sawtooth",
            Waveform::Triangle => "triangle",
            Waveform::Square => "square",
            Waveform::Noise => "noise",
        }
    }

    /// The shape that follows this one.
    pub fn next(self) -> (r: Waveform)
        ensures
            r == self.spec_next(),
    {
        match self {
            Waveform::Sine => Waveform::Sawtooth,
            Waveform::Sawtooth => Waveform::Triangle,
            Waveform::Triangle => Waveform::Square,
            Waveform::Square => Waveform::Noise,
            Waveform::Noise => Waveform::Sine,
        }
    }

    /// The shape that comes before this one.
    pub fn previous(self) -> (r: Waveform)
        ensures
            r == self.spec_previous(),
    {
        match self {
            Waveform::Sine => Waveform::Noise,
            Waveform::Sawtooth => Waveform::Sine,
            Waveform::Triangle => Waveform::Sawtooth,
            Waveform::Square => Waveform::Triangle,
            Waveform::Noise => Waveform::Square,
        }
    }
}

impl InvalidWaveformName {
    /// The sentence that reports the error.
    pub open spec fn spec_message(self) -> Seq<char> {
        "Unknown waveform: "@ + self.text@
    }

    /// The sentence that reports the error.
    pub fn message(&self) -> (r: String)
        ensures
            r@ == self.spec_message(),
    {
        String::from_str("Unknown waveform: ").concat(self.text.as_str())
    }
}

/// Whether the folded form of an ASCII text is the given ASCII word.
fn folds_to(text: &str, word: &str) -> (r: bool)
    requires
        is_ascii(text),
        is_ascii(word),
    ensures
        r == (fold(text@) == word@),
{
    broadcast use is_ascii_spec_bytes;

    let given_bytes = text.as_bytes();
    let wanted_bytes = word.as_bytes();
    let len = given_bytes.len();
    if len != wanted_bytes.len() {
        return false;
    }
    let mut index: usize = 0;
    while index < len
        invariant
            is_ascii(text),
            is_ascii(word),
            given_bytes@ == text.spec_bytes(),
            wanted_bytes@ == word.spec_bytes(),
            len == text@.len(),
            len == word@.len(),
            index <= len,
            forall|i: int| 0 <= i < index ==> fold_char(text@[i]) == word@[i],
        decreases len - index,
    {
        let given = given_bytes[index];
        let wanted = wanted_bytes[index];
        let folded: u8 = if 65 <= given && given <= 90 {
            given + 32
        } else {
            given
        };
        assert(folded == fold_char(text@[index as int]) as u8);
        assert(fold_char(text@[index as int]) as u32 <= 0x7f);
        assert((folded == wanted) == (fold_char(text@[index as int]) == word@[index as int]));
        if folded != wanted {
            assert(fold(text@)[index as int] != word@[index as int]);
            return false;
        }
        index = index + 1;
    }
    assert(fold(text@) =~= word@);
    true
}

/// A text selects at most one waveform.
pub proof fn selection_is_unambiguous(text: Seq<char>, first: Waveform, second: Waveform)
    requires
        first.accepts(text),
        second.accepts(text),
    ensures
        first == second,
{
    reveal_names();
    let folded = fold(text);
    if first != second {
        // Two different names differ in their length or in one of their
        // first two letters.
        assert(folded.len() >= 3);
        assert(first.spec_name().take(3)[0] == first.spec_name()[0]);
        assert(first.spec_name().take(3)[1] == first.spec_name()[1]);
        assert(second.spec_name().take(3)[0] == second.spec_name()[0]);
        assert(second.spec_name().take(3)[1] == second.spec_name()[1]);
        assert(folded[0] == first.spec_name()[0]);
        assert(folded[1] == first.spec_name()[1]);
        assert(folded[0] == second.spec_name()[0]);
        assert(folded[1] == second.spec_name()[1]);
    }
}

/// A text is read as a waveform exactly when that waveform accepts it.
pub proof fn parse_follows_acceptance(text: Seq<char>, waveform: Waveform)
    ensures
        spec_parse(text) == Some(waveform) <==> waveform.accepts(text),
{
    if waveform.accepts(text) {
        if Waveform::Sine.accepts(text) {
            selection_is_unambiguous(text, Waveform::Sine, waveform);
        } else if Waveform::Sawtooth.accepts(text) {
            selection_is_unambiguous(text, Waveform::Sawtooth, waveform);
        } else if Waveform::Triangle.accepts(text) {
            selection_is_unambiguous(text, Waveform::Triangle, waveform);
        } else if Waveform::Square.accepts(text) {
            selection_is_unambiguous(text, Waveform::Square, waveform);
        }
    }
}

/// Texts that differ only in the case of their ASCII letters are read
/// alike.
pub proof fn case_does_not_matter(first: Seq<char>, second: Seq<char>)
    requires
        fold(first) == fold(second),
    ensures
        spec_parse(first) == spec_parse(second),
{
}

/// The name of a waveform and its abbreviation both read back as that
/// waveform.
pub proof fn names_read_back(waveform: Waveform)
    ensures
        spec_parse(waveform.spec_name()) == Some(waveform),
        spec_parse(waveform.spec_abbreviation()) == Some(waveform),
{
    names_fold_to_themselves(waveform);
    parse_follows_acceptance(waveform.spec_name(), waveform);
    parse_follows_acceptance(waveform.spec_abbreviation(), waveform);
}

/// Going to the next shape and back, or back and on, changes nothing, and
/// five steps lead round all the shapes.
pub proof fn order_is_a_cycle(waveform: Waveform)
    ensures
        waveform.spec_next().spec_previous() == waveform,
        waveform.spec_previous().spec_next() == waveform,
        waveform.spec_next().spec_next().spec_next().spec_next().spec_next() == waveform,
        waveform.spec_next() != waveform,
{
}

/// What the names hold, letter by letter.
proof fn reveal_names()
    ensures
        "sine"@ =~= seq!['s', 'i', 'n', 'e'],
        "sawtooth"@ =~= seq!['s', 'a', 'w', 't', 'o', 'o', 't', 'h'],
        "triangle"@ =~= seq!['t', 'r', 'i', 'a', 'n', 'g', 'l', 'e'],
        "square"@ =~= seq!['s', 'q', 'u', 'a', 'r', 'e'],
        "noise"@ =~= seq!['n', 'o', 'i', 's', 'e'],
        "sin"@ =~= "sine"@.take(3),
        "saw"@ =~= "sawtooth"@.take(3),
        "tri"@ =~= "triangle"@.take(3),
        "squ"@ =~= "square"@.take(3),
        "noi"@ =~= "noise"@.take(3),
{
    reveal_strlit("sine");
    reveal_strlit("sawtooth");
    reveal_strlit("triangle");
    reveal_strlit("square");
    reveal_strlit("noise");
    reveal_strlit("sin");
    reveal_strlit("saw");
    reveal_strlit("tri");
    reveal_strlit("squ");
    reveal_strlit("noi");
}

/// Every letter of a name is a small ASCII letter.
proof fn names_are_small_letters(waveform: Waveform)
    ensures
        forall|i: int|
            0 <= i < waveform.spec_name().len() ==> 'a' <= #[trigger] waveform.spec_name()[i]
                <= 'z',
        waveform.spec_name().len() >= 3,
{
    reveal_names();
    let name = waveform.spec_name();
    match waveform {
        Waveform::Sine => {
            assert(name =~= seq!['s', 'i', 'n', 'e']);
        },
        Waveform::Sawtooth => {
            assert(name =~= seq!['s', 'a', 'w', 't', 'o', 'o', 't', 'h']);
        },
        Waveform::Triangle => {
            assert(name =~= seq!['t', 'r', 'i', 'a', 'n', 'g', 'l', 'e']);
        },
        Waveform::Square => {
            assert(name =~= seq!['s', 'q', 'u', 'a', 'r', 'e']);
        },
        Waveform::Noise => {
            assert(name =~= seq!['n', 'o', 'i', 's', 'e']);
        },
    }
}

/// Names and abbreviations are ASCII texts.
proof fn names_are_ascii(waveform: Waveform)
    ensures
        is_ascii_chars(waveform.spec_name()),
        is_ascii_chars(waveform.spec_abbreviation()),
{
    names_are_small_letters(waveform);
    let name = waveform.spec_name();
    assert forall|i: int| 0 <= i < name.take(3).len() implies '\0' <= #[trigger] name.take(3)[i]
        <= '\u{7f}' by {
        assert(name.take(3)[i] == name[i]);
    }
}

/// Names are written in small letters, so folding leaves them as they are.
proof fn names_fold_to_themselves(waveform: Waveform)
    ensures
        fold(waveform.spec_name()) == waveform.spec_name(),
        fold(waveform.spec_abbreviation()) == waveform.spec_abbreviation(),
{
    names_are_small_letters(waveform);
    let name = waveform.spec_name();
    assert(fold(name) =~= name);
    assert forall|i: int| 0 <= i < 3 implies fold_char(#[trigger] name.take(3)[i]) == name.take(
        3,
    )[i] by {
        assert(name.take(3)[i] == name[i]);
    }
    assert(fold(name.take(3)) =~= name.take(3));
}

/// A text with a character outside ASCII selects no waveform.
proof fn non_ascii_selects_nothing(text: Seq<char>)
    requires
        !is_ascii_chars(text),
    ensures
        spec_parse(text) is None,
{
    let i = choose|i: int| 0 <= i < text.len() && !('\0' <= #[trigger] text[i] <= '\u{7f}');
    assert(fold(text)[i] == text[i]);
    assert forall|waveform: Waveform| !waveform.accepts(text) by {
        names_are_ascii(waveform);
        let name = waveform.spec_name();
        if fold(text) == name {
            assert(name[i] == text[i]);
        }
        if fold(text) == name.take(3) {
            assert(name.take(3)[i] == text[i]);
        }
    }
}

} // verus!

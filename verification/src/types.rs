//! The data model of a parsed descriptor: transcription mode, notes,
//! classes, raw and compiled rules, declared tests and the ordered
//! message sequence, each with its mathematical image.

use vstd::prelude::*;

use crate::rx::regex_source;

verus! {

/// Annotation text; doubles as the reason shown when a word breaks the
/// rule it is attached to.
#[derive(Debug, Clone, PartialEq, Eq)]
pub struct Note(pub String);

impl View for Note {
    type V = Seq<char>;

    open spec fn view(&self) -> Seq<char> {
        self.0@
    }
}

/// Transcription mode: selects the delimiter pair that wraps a class name
/// inside pattern text.
#[derive(Debug, Clone, Copy, PartialEq, Eq, Structural)]
pub enum Mode {
    /// Class references look like `<name>`.
    Romanized,
    /// Class references look like `/name/`.
    Broad,
    /// Class references look like `[name]`.
    Narrow,
}

impl Mode {
    /// The delimiter that opens a class reference.
    pub open spec fn spec_open(self) -> char {
        match self {
            Mode::Romanized => '<',
            Mode::Broad => '/',
            Mode::Narrow => '[',
        }
    }

    /// The delimiter that closes a class reference.
    pub open spec fn spec_close(self) -> char {
        match self {
            Mode::Romanized => '>',
            Mode::Broad => '/',
            Mode::Narrow => ']',
        }
    }

    pub fn open_delim(self) -> (c: char)
        ensures
            c == self.spec_open(),
    {
        match self {
            Mode::Romanized => '<',
            Mode::Broad => '/',
            Mode::Narrow => '[',
        }
    }

    pub fn close_delim(self) -> (c: char)
        ensures
            c == self.spec_close(),
    {
        match self {
            Mode::Romanized => '>',
            Mode::Broad => '/',
            Mode::Narrow => ']',
        }
    }

    /// The mode selected by the first and last delimiter characters of a
    /// mode declaration, if the pair is a known one.
    pub open spec fn spec_from_options(a: Option<char>, b: Option<char>) -> Option<Mode> {
        if a == Some('<') && b == Some('>') {
            Some(Mode::Romanized)
        } else if a == Some('/') && b == Some('/') {
            Some(Mode::Broad)
        } else if a == Some('[') && b == Some(']') {
            Some(Mode::Narrow)
        } else {
            None
        }
    }

    pub fn from_options(a: Option<char>, b: Option<char>) -> (r: Option<Mode>)
        ensures
            r == Mode::spec_from_options(a, b),
    {
        match (a, b) {
            (Some('<'), Some('>')) => Some(Mode::Romanized),
            (Some('/'), Some('/')) => Some(Mode::Broad),
            (Some('['), Some(']')) => Some(Mode::Narrow),
            _ => None,
        }
    }
}

impl Default for Mode {
    /// The mode used when a descriptor declares none.
    fn default() -> (r: Self)
        ensures
            r == Mode::Romanized,
    {
        Mode::Romanized
    }
}

/// A declared test word: the word and the declared intent
/// (`true` = the word is expected to be judged invalid).
#[derive(Debug, Clone, PartialEq, Eq)]
pub struct TestDraft {
    pub intent: bool,
    pub word: String,
}

/// Mathematical image of a [`TestDraft`].
pub ghost struct TestDraftV {
    pub intent: bool,
    pub word: Seq<char>,
}

impl View for TestDraft {
    type V = TestDraftV;

    open spec fn view(&self) -> TestDraftV {
        TestDraftV { intent: self.intent, word: self.word@ }
    }
}

/// One entry of the ordered message list: an informational note or a test,
/// in the order the descriptor declared them.
#[derive(Debug, Clone, PartialEq, Eq)]
pub enum Message<T> {
    Info(Note),
    Test(T),
}

/// Mathematical image of a [`Message`].
pub ghost enum MessageV<TV> {
    Info(Seq<char>),
    Test(TV),
}

impl<T: View> View for Message<T> {
    type V = MessageV<<T as View>::V>;

    open spec fn view(&self) -> MessageV<<T as View>::V> {
        match self {
            Message::Info(n) => MessageV::Info(n@),
            Message::Test(t) => MessageV::Test(t@),
        }
    }
}

impl<T> Message<T> {
    /// Whether this message is a test.
    pub fn is_test(&self) -> (r: bool)
        ensures
            r == (self matches Message::Test(_)),
    {
        match self {
            Message::Info(_) => false,
            Message::Test(_) => true,
        }
    }
}

/// A named class: the name and its raw, unexpanded replacement pattern.
#[derive(Debug, Clone, PartialEq, Eq)]
pub struct ClassDef {
    pub name: String,
    pub pattern: String,
}

/// Mathematical image of a [`ClassDef`].
pub ghost struct ClassV {
    pub name: Seq<char>,
    pub pattern: Seq<char>,
}

impl View for ClassDef {
    type V = ClassV;

    open spec fn view(&self) -> ClassV {
        ClassV { name: self.name@, pattern: self.pattern@ }
    }
}

/// A rule as declared: intent (`true` = the pattern is the required shape,
/// `false` = a forbidden one), raw pattern text with class references
/// unexpanded, the note current at declaration, and the source line.
#[derive(Debug, Clone, PartialEq, Eq)]
pub struct RawRule {
    pub intent: bool,
    pub pattern: String,
    pub note: Option<Note>,
    pub line: usize,
}

/// Mathematical image of a [`RawRule`].
pub ghost struct RawRuleV {
    pub intent: bool,
    pub pattern: Seq<char>,
    pub note: Option<Seq<char>>,
    pub line: nat,
}

impl View for RawRule {
    type V = RawRuleV;

    open spec fn view(&self) -> RawRuleV {
        RawRuleV {
            intent: self.intent,
            pattern: self.pattern@,
            note: match &self.note {
                Some(n) => Some(n@),
                None => None,
            },
            line: self.line as nat,
        }
    }
}

/// A compiled rule: intent, the compiled matcher over the fully expanded
/// pattern, and the optional note.
#[derive(Debug)]
pub struct Rule {
    pub intent: bool,
    pub pattern: fancy_regex::Regex,
    pub note: Option<Note>,
}

/// Mathematical image of a [`Rule`]; the matcher is represented by the
/// expanded pattern text it was compiled from.
pub ghost struct RuleV {
    pub intent: bool,
    pub pattern: Seq<char>,
    pub note: Option<Seq<char>>,
}

impl View for Rule {
    type V = RuleV;

    open spec fn view(&self) -> RuleV {
        RuleV {
            intent: self.intent,
            pattern: regex_source(self.pattern),
            note: match &self.note {
                Some(n) => Some(n@),
                None => None,
            },
        }
    }
}

/// The image of an optional note.
pub open spec fn note_view(n: Option<Note>) -> Option<Seq<char>> {
    match n {
        Some(x) => Some(x@),
        None => None,
    }
}

/// The image of a sequence of rules.
pub open spec fn rules_view(s: Seq<Rule>) -> Seq<RuleV> {
    s.map_values(|r: Rule| r@)
}

/// The image of a sequence of raw rules.
pub open spec fn raws_view(s: Seq<RawRule>) -> Seq<RawRuleV> {
    s.map_values(|r: RawRule| r@)
}

/// The image of a class table.
pub open spec fn classes_view(s: Seq<ClassDef>) -> Seq<ClassV> {
    s.map_values(|c: ClassDef| c@)
}

/// The image of a message list.
pub open spec fn msgs_view<T: View>(s: Seq<Message<T>>) -> Seq<MessageV<<T as View>::V>> {
    s.map_values(|m: Message<T>| m@)
}

} // verus!

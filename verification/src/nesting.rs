//! How deep the elements of an XML document are nested, read off its bytes
//! in one pass, without building anything.

use vstd::prelude::*;

verus! {

/// The deepest nesting of elements that a document may have to be parsed.
///
/// The parser that reads a feed calls itself once for each element that
/// stands open, and each such call takes about two kilobytes of the stack.
/// At 256 elements that is about half a mebibyte: a quarter of the stack
/// that a thread gets by default, and many times what feeds use.
pub const MAX_NESTING: usize = 256;

pub const LESS_THAN: u8 = 60;

pub const GREATER_THAN: u8 = 62;

pub const EXCLAMATION: u8 = 33;

pub const SLASH: u8 = 47;

pub const QUESTION: u8 = 63;

pub const QUOTE: u8 = 34;

pub const APOSTROPHE: u8 = 39;

pub const DASH: u8 = 45;

pub const LEFT_BRACKET: u8 = 91;

pub const RIGHT_BRACKET: u8 = 93;

pub const UPPER_A: u8 = 65;

pub const UPPER_D: u8 = 68;

pub const UPPER_E: u8 = 69;

pub const UPPER_I: u8 = 73;

pub const UPPER_L: u8 = 76;

pub const UPPER_N: u8 = 78;

pub const UPPER_O: u8 = 79;

pub const UPPER_S: u8 = 83;

pub const UPPER_T: u8 = 84;

pub const UPPER_Y: u8 = 89;

pub const LOWER_D: u8 = 100;

/// Whether the bytes being read stand inside a quoted value, and which
/// quote ends it.
#[derive(Clone, Copy, Debug, PartialEq, Eq, Structural)]
pub enum Quoted {
    No,
    Single,
    Double,
}

/// A declaration in an internal subset whose end a quoted `>` does not
/// mark.
#[derive(Clone, Copy, Debug, PartialEq, Eq, Structural)]
pub enum Word {
    /// `!ENTITY`
    Entity,
    /// `!ATTLIST`
    Attlist,
    /// `!NOTATION`
    Notation,
}

/// Where in the internal subset of a document type declaration the pass
/// stands.
#[derive(Clone, Copy, Debug, PartialEq, Eq, Structural)]
pub enum Subset {
    /// Between the declarations of the subset.
    Between,
    /// Just after a `<`.
    Opened,
    /// Just after `<!`.
    Declaration,
    /// Just after `<!-`.
    Dash,
    /// After `<` and the first `matched` bytes of `word`.
    Keyword { word: Word, matched: u8 },
    /// In markup that ends at the next `>`.
    Markup,
    /// In an entity, attribute list or notation declaration.
    Quotable { quoted: Quoted },
    /// In a processing instruction; `question` says that the last byte was
    /// `?`.
    Instruction { question: bool },
    /// In a comment; `dashes` counts the `-` that the last bytes of it
    /// were, up to 2.
    Comment { dashes: u8 },
    /// After the `]` that ends the subset.
    After,
}

/// Where in the markup the pass stands.
#[derive(Clone, Copy, Debug, PartialEq, Eq, Structural)]
pub enum Mode {
    /// In character data, between markup.
    Text,
    /// Just after a `<` that ended character data.
    Opened,
    /// In a start tag; `slash` says that the last byte was `/`.
    StartTag { quoted: Quoted, slash: bool },
    /// In an end tag.
    EndTag { quoted: Quoted },
    /// In a processing instruction; `question` says that the last byte was
    /// `?`.
    Instruction { question: bool },
    /// Just after `<!`.
    Declaration,
    /// In a comment; `read` counts the bytes read after `<!`, up to 4, and
    /// `dashes` the `-` that the last bytes were, up to 2.
    Comment { read: u8, dashes: u8 },
    /// In a CDATA section; `brackets` counts the `]` that the last bytes
    /// were, up to 2.
    CharacterData { brackets: u8 },
    /// In a document type declaration, before any internal subset.
    DocType { quoted: Quoted },
    /// In the internal subset of a document type declaration, or after it.
    InternalSubset { at: Subset },
    /// After `<!` and a byte that begins no declaration, at which a parser
    /// gives up. From here on every `<` that may begin a start tag counts as
    /// one, and nothing as an end tag; `opened` says that the last byte was
    /// `<`.
    Unfollowed { opened: bool },
}

/// The state of the pass after some bytes: where it stands, how many
/// elements are open, and the most that were open at once.
pub struct Walk {
    pub mode: Mode,
    pub depth: nat,
    pub peak: nat,
}

/// The state after `b`, for a quoted value.
pub open spec fn quoted_after(quoted: Quoted, b: u8) -> Quoted {
    match quoted {
        Quoted::No => if b == APOSTROPHE {
            Quoted::Single
        } else if b == QUOTE {
            Quoted::Double
        } else {
            Quoted::No
        },
        Quoted::Single => if b == APOSTROPHE {
            Quoted::No
        } else {
            Quoted::Single
        },
        Quoted::Double => if b == QUOTE {
            Quoted::No
        } else {
            Quoted::Double
        },
    }
}

/// `a` or `b`, whichever is greater.
pub open spec fn greater(a: nat, b: nat) -> nat {
    if a >= b {
        a
    } else {
        b
    }
}

/// The state after a start tag has ended; the pass goes on in `mode`.
pub open spec fn element_opened(w: Walk, mode: Mode) -> Walk {
    Walk { mode, depth: w.depth + 1, peak: greater(w.peak, w.depth + 1) }
}

/// The state after the tag of an empty element has ended: the element was
/// open for a moment.
pub open spec fn element_touched(w: Walk) -> Walk {
    Walk { mode: Mode::Text, depth: w.depth, peak: greater(w.peak, w.depth + 1) }
}

/// The state after an end tag has ended.
pub open spec fn element_closed(w: Walk) -> Walk {
    Walk {
        mode: Mode::Text,
        depth: if w.depth > 0 {
            (w.depth - 1) as nat
        } else {
            0
        },
        peak: w.peak,
    }
}

/// `w`, standing in `mode`.
pub open spec fn standing(w: Walk, mode: Mode) -> Walk {
    Walk { mode, depth: w.depth, peak: w.peak }
}

/// `b` after `<` begins a start tag: it is none of `!`, `/` and `?`.
pub open spec fn begins_start_tag(b: u8) -> bool {
    b != EXCLAMATION && b != SLASH && b != QUESTION
}

/// How many bytes `word` has.
pub open spec fn word_length(word: Word) -> u8 {
    match word {
        Word::Entity => 7,
        Word::Attlist => 8,
        Word::Notation => 9,
    }
}

/// The byte of `word` at index `at`, for an index from 2 on.
pub open spec fn word_byte(word: Word, at: u8) -> u8 {
    match word {
        Word::Entity => if at == 2 {
            UPPER_N
        } else if at == 3 {
            UPPER_T
        } else if at == 4 {
            UPPER_I
        } else if at == 5 {
            UPPER_T
        } else {
            UPPER_Y
        },
        Word::Attlist => if at == 2 {
            UPPER_T
        } else if at == 3 {
            UPPER_T
        } else if at == 4 {
            UPPER_L
        } else if at == 5 {
            UPPER_I
        } else if at == 6 {
            UPPER_S
        } else {
            UPPER_T
        },
        Word::Notation => if at == 2 {
            UPPER_O
        } else if at == 3 {
            UPPER_T
        } else if at == 4 {
            UPPER_A
        } else if at == 5 {
            UPPER_T
        } else if at == 6 {
            UPPER_I
        } else if at == 7 {
            UPPER_O
        } else {
            UPPER_N
        },
    }
}

/// `n`, and one more up to 2.
pub open spec fn up_to_two(n: u8) -> u8 {
    if n < 2 {
        (n + 1) as u8
    } else {
        n
    }
}

/// Where markup in an internal subset stands after a byte that does not go
/// on with what was read: between declarations after `>`, else in markup
/// that ends at the next `>`.
pub open spec fn subset_markup_after(b: u8) -> Subset {
    if b == GREATER_THAN {
        Subset::Between
    } else {
        Subset::Markup
    }
}

/// Where the pass stands in the internal subset after `b`; `None` where `b`
/// ends the document type declaration.
pub open spec fn subset_after(at: Subset, b: u8) -> Option<Subset> {
    match at {
        Subset::Between => Some(
            if b == RIGHT_BRACKET {
                Subset::After
            } else if b == LESS_THAN {
                Subset::Opened
            } else {
                Subset::Between
            },
        ),
        Subset::After => if b == GREATER_THAN {
            None
        } else {
            Some(Subset::After)
        },
        Subset::Opened => Some(
            if b == QUESTION {
                Subset::Instruction { question: false }
            } else if b == EXCLAMATION {
                Subset::Declaration
            } else {
                subset_markup_after(b)
            },
        ),
        Subset::Declaration => Some(
            if b == DASH {
                Subset::Dash
            } else if b == UPPER_E {
                Subset::Keyword { word: Word::Entity, matched: 2 }
            } else if b == UPPER_A {
                Subset::Keyword { word: Word::Attlist, matched: 2 }
            } else if b == UPPER_N {
                Subset::Keyword { word: Word::Notation, matched: 2 }
            } else {
                subset_markup_after(b)
            },
        ),
        Subset::Dash => Some(
            if b == DASH {
                Subset::Comment { dashes: 0 }
            } else {
                subset_markup_after(b)
            },
        ),
        Subset::Keyword { word, matched } => Some(
            if 2 <= matched && matched < word_length(word) && b == word_byte(word, matched) {
                if matched + 1 == word_length(word) {
                    Subset::Quotable { quoted: Quoted::No }
                } else {
                    Subset::Keyword { word, matched: (matched + 1) as u8 }
                }
            } else {
                subset_markup_after(b)
            },
        ),
        Subset::Markup => Some(subset_markup_after(b)),
        Subset::Quotable { quoted } => Some(
            if quoted == Quoted::No && b == GREATER_THAN {
                Subset::Between
            } else {
                Subset::Quotable { quoted: quoted_after(quoted, b) }
            },
        ),
        Subset::Instruction { question } => Some(
            if question && b == GREATER_THAN {
                Subset::Between
            } else {
                Subset::Instruction { question: b == QUESTION }
            },
        ),
        Subset::Comment { dashes } => Some(
            if b == GREATER_THAN && dashes >= 2 {
                Subset::Between
            } else {
                Subset::Comment {
                    dashes: if b != DASH {
                        0
                    } else {
                        up_to_two(dashes)
                    },
                }
            },
        ),
    }
}

/// The state after the byte `b` of a start tag.
pub open spec fn start_tag_step(w: Walk, quoted: Quoted, slash: bool, b: u8) -> Walk {
    if quoted == Quoted::No && b == GREATER_THAN {
        if slash {
            element_touched(w)
        } else {
            element_opened(w, Mode::Text)
        }
    } else {
        standing(w, Mode::StartTag { quoted: quoted_after(quoted, b), slash: b == SLASH })
    }
}

/// The state after one more byte.
pub open spec fn step(w: Walk, b: u8) -> Walk {
    match w.mode {
        Mode::Text => if b == LESS_THAN {
            standing(w, Mode::Opened)
        } else {
            w
        },
        Mode::Opened => if b == EXCLAMATION {
            standing(w, Mode::Declaration)
        } else if b == SLASH {
            standing(w, Mode::EndTag { quoted: Quoted::No })
        } else if b == QUESTION {
            standing(w, Mode::Instruction { question: true })
        } else {
            start_tag_step(w, Quoted::No, false, b)
        },
        Mode::StartTag { quoted, slash } => start_tag_step(w, quoted, slash, b),
        Mode::EndTag { quoted } => if quoted == Quoted::No && b == GREATER_THAN {
            element_closed(w)
        } else {
            standing(w, Mode::EndTag { quoted: quoted_after(quoted, b) })
        },
        Mode::Instruction { question } => if question && b == GREATER_THAN {
            standing(w, Mode::Text)
        } else {
            standing(w, Mode::Instruction { question: b == QUESTION })
        },
        Mode::Declaration => if b == LEFT_BRACKET {
            standing(w, Mode::CharacterData { brackets: 0 })
        } else if b == DASH {
            standing(w, Mode::Comment { read: 1, dashes: 1 })
        } else if b == UPPER_D || b == LOWER_D {
            standing(w, Mode::DocType { quoted: Quoted::No })
        } else {
            standing(w, Mode::Unfollowed { opened: b == LESS_THAN })
        },
        Mode::Comment { read, dashes } => if b == GREATER_THAN && read >= 4 && dashes >= 2 {
            standing(w, Mode::Text)
        } else {
            standing(
                w,
                Mode::Comment {
                    read: if read < 4 {
                        (read + 1) as u8
                    } else {
                        read
                    },
                    dashes: if b != DASH {
                        0
                    } else if dashes < 2 {
                        (dashes + 1) as u8
                    } else {
                        dashes
                    },
                },
            )
        },
        Mode::CharacterData { brackets } => if b == GREATER_THAN && brackets >= 2 {
            standing(w, Mode::Text)
        } else {
            standing(
                w,
                Mode::CharacterData {
                    brackets: if b != RIGHT_BRACKET {
                        0
                    } else if brackets < 2 {
                        (brackets + 1) as u8
                    } else {
                        brackets
                    },
                },
            )
        },
        Mode::DocType { quoted } => if quoted == Quoted::No && b == GREATER_THAN {
            standing(w, Mode::Text)
        } else if quoted == Quoted::No && b == LEFT_BRACKET {
            standing(w, Mode::InternalSubset { at: Subset::Between })
        } else {
            standing(w, Mode::DocType { quoted: quoted_after(quoted, b) })
        },
        Mode::InternalSubset { at } => match subset_after(at, b) {
            Some(next) => standing(w, Mode::InternalSubset { at: next }),
            None => standing(w, Mode::Text),
        },
        Mode::Unfollowed { opened } => if opened && begins_start_tag(b) {
            element_opened(w, Mode::Unfollowed { opened: b == LESS_THAN })
        } else {
            standing(w, Mode::Unfollowed { opened: b == LESS_THAN })
        },
    }
}

/// The state before any byte is read.
pub open spec fn at_start() -> Walk {
    Walk { mode: Mode::Text, depth: 0, peak: 0 }
}

/// The state after the bytes `body`, read from the first to the last.
pub open spec fn walk(body: Seq<u8>) -> Walk
    decreases body.len(),
{
    if body.len() == 0 {
        at_start()
    } else {
        step(walk(body.drop_last()), body.last())
    }
}

/// The most elements that are open at once anywhere in `body`. Comments,
/// CDATA sections, processing instructions, document type declarations and
/// quoted attribute values are passed over; an element written as an empty
/// tag counts while its tag is read. Past `<!` and a byte that begins no
/// declaration, where a parser gives up, the count can only be too high.
pub open spec fn nesting(body: Seq<u8>) -> nat {
    walk(body).peak
}

/// The most that were open at once never goes down as more bytes are read.
pub proof fn lemma_peak_grows(body: Seq<u8>, k: int)
    requires
        0 <= k <= body.len(),
    ensures
        walk(body.take(k)).peak <= walk(body).peak,
    decreases body.len(),
{
    if k == body.len() {
        assert(body.take(k) =~= body);
    } else {
        assert(body.drop_last().take(k) =~= body.take(k));
        lemma_peak_grows(body.drop_last(), k);
    }
}

/// The state of the pass, as the machine holds it.
#[derive(Clone, Copy, Debug)]
pub struct Walker {
    pub mode: Mode,
    pub depth: usize,
    pub peak: usize,
}

impl View for Walker {
    type V = Walk;

    open spec fn view(&self) -> Walk {
        Walk { mode: self.mode, depth: self.depth as nat, peak: self.peak as nat }
    }
}

/// The state after `b`, for a quoted value.
pub fn next_quoted(quoted: Quoted, b: u8) -> (r: Quoted)
    ensures
        r == quoted_after(quoted, b),
{
    match quoted {
        Quoted::No => if b == APOSTROPHE {
            Quoted::Single
        } else if b == QUOTE {
            Quoted::Double
        } else {
            Quoted::No
        },
        Quoted::Single => if b == APOSTROPHE {
            Quoted::No
        } else {
            Quoted::Single
        },
        Quoted::Double => if b == QUOTE {
            Quoted::No
        } else {
            Quoted::Double
        },
    }
}

/// How many bytes `word` has.
pub fn length_of(word: Word) -> (n: u8)
    ensures
        n == word_length(word),
{
    match word {
        Word::Entity => 7,
        Word::Attlist => 8,
        Word::Notation => 9,
    }
}

/// The byte of `word` at index `at`, for an index from 2 on.
pub fn byte_of(word: Word, at: u8) -> (b: u8)
    ensures
        b == word_byte(word, at),
{
    match word {
        Word::Entity => if at == 2 {
            UPPER_N
        } else if at == 3 {
            UPPER_T
        } else if at == 4 {
            UPPER_I
        } else if at == 5 {
            UPPER_T
        } else {
            UPPER_Y
        },
        Word::Attlist => if at == 2 {
            UPPER_T
        } else if at == 3 {
            UPPER_T
        } else if at == 4 {
            UPPER_L
        } else if at == 5 {
            UPPER_I
        } else if at == 6 {
            UPPER_S
        } else {
            UPPER_T
        },
        Word::Notation => if at == 2 {
            UPPER_O
        } else if at == 3 {
            UPPER_T
        } else if at == 4 {
            UPPER_A
        } else if at == 5 {
            UPPER_T
        } else if at == 6 {
            UPPER_I
        } else if at == 7 {
            UPPER_O
        } else {
            UPPER_N
        },
    }
}

/// Where markup in an internal subset stands after a byte that does not go
/// on with what was read.
pub fn next_subset_markup(b: u8) -> (r: Subset)
    ensures
        r == subset_markup_after(b),
{
    if b == GREATER_THAN {
        Subset::Between
    } else {
        Subset::Markup
    }
}

/// Where the pass stands in the internal subset after `b`; `None` where `b`
/// ends the document type declaration.
pub fn next_in_subset(at: Subset, b: u8) -> (r: Option<Subset>)
    ensures
        r == subset_after(at, b),
{
    match at {
        Subset::Between => Some(
            if b == RIGHT_BRACKET {
                Subset::After
            } else if b == LESS_THAN {
                Subset::Opened
            } else {
                Subset::Between
            },
        ),
        Subset::After => if b == GREATER_THAN {
            None
        } else {
            Some(Subset::After)
        },
        Subset::Opened => Some(
            if b == QUESTION {
                Subset::Instruction { question: false }
            } else if b == EXCLAMATION {
                Subset::Declaration
            } else {
                next_subset_markup(b)
            },
        ),
        Subset::Declaration => Some(
            if b == DASH {
                Subset::Dash
            } else if b == UPPER_E {
                Subset::Keyword { word: Word::Entity, matched: 2 }
            } else if b == UPPER_A {
                Subset::Keyword { word: Word::Attlist, matched: 2 }
            } else if b == UPPER_N {
                Subset::Keyword { word: Word::Notation, matched: 2 }
            } else {
                next_subset_markup(b)
            },
        ),
        Subset::Dash => Some(
            if b == DASH {
                Subset::Comment { dashes: 0 }
            } else {
                next_subset_markup(b)
            },
        ),
        Subset::Keyword { word, matched } => {
            let length = length_of(word);
            Some(
                if 2 <= matched && matched < length && b == byte_of(word, matched) {
                    if matched + 1 == length {
                        Subset::Quotable { quoted: Quoted::No }
                    } else {
                        Subset::Keyword { word, matched: matched + 1 }
                    }
                } else {
                    next_subset_markup(b)
                },
            )
        },
        Subset::Markup => Some(next_subset_markup(b)),
        Subset::Quotable { quoted } => Some(
            if quoted == Quoted::No && b == GREATER_THAN {
                Subset::Between
            } else {
                Subset::Quotable { quoted: next_quoted(quoted, b) }
            },
        ),
        Subset::Instruction { question } => Some(
            if question && b == GREATER_THAN {
                Subset::Between
            } else {
                Subset::Instruction { question: b == QUESTION }
            },
        ),
        Subset::Comment { dashes } => Some(
            if b == GREATER_THAN && dashes >= 2 {
                Subset::Between
            } else {
                Subset::Comment {
                    dashes: if b != DASH {
                        0
                    } else if dashes < 2 {
                        dashes + 1
                    } else {
                        dashes
                    },
                }
            },
        ),
    }
}

/// Reads one more byte. The count of open elements must leave room for one
/// more.
pub fn advance(w: Walker, b: u8) -> (r: Walker)
    requires
        w.depth < usize::MAX,
    ensures
        r@ == step(w@, b),
        w.depth <= w.peak ==> r.depth <= r.peak <= w.peak + 1,
{
    let deeper: usize = w.depth + 1;
    let higher: usize = if w.peak >= deeper {
        w.peak
    } else {
        deeper
    };
    match w.mode {
        Mode::Text => if b == LESS_THAN {
            Walker { mode: Mode::Opened, depth: w.depth, peak: w.peak }
        } else {
            w
        },
        Mode::Opened => if b == EXCLAMATION {
            Walker { mode: Mode::Declaration, depth: w.depth, peak: w.peak }
        } else if b == SLASH {
            Walker { mode: Mode::EndTag { quoted: Quoted::No }, depth: w.depth, peak: w.peak }
        } else if b == QUESTION {
            Walker { mode: Mode::Instruction { question: true }, depth: w.depth, peak: w.peak }
        } else if b == GREATER_THAN {
            Walker { mode: Mode::Text, depth: deeper, peak: higher }
        } else {
            Walker {
                mode: Mode::StartTag { quoted: next_quoted(Quoted::No, b), slash: false },
                depth: w.depth,
                peak: w.peak,
            }
        },
        Mode::StartTag { quoted, slash } => if quoted == Quoted::No && b == GREATER_THAN {
            if slash {
                Walker { mode: Mode::Text, depth: w.depth, peak: higher }
            } else {
                Walker { mode: Mode::Text, depth: deeper, peak: higher }
            }
        } else {
            Walker {
                mode: Mode::StartTag { quoted: next_quoted(quoted, b), slash: b == SLASH },
                depth: w.depth,
                peak: w.peak,
            }
        },
        Mode::EndTag { quoted } => if quoted == Quoted::No && b == GREATER_THAN {
            Walker {
                mode: Mode::Text,
                depth: if w.depth > 0 {
                    w.depth - 1
                } else {
                    0
                },
                peak: w.peak,
            }
        } else {
            Walker {
                mode: Mode::EndTag { quoted: next_quoted(quoted, b) },
                depth: w.depth,
                peak: w.peak,
            }
        },
        Mode::Instruction { question } => if question && b == GREATER_THAN {
            Walker { mode: Mode::Text, depth: w.depth, peak: w.peak }
        } else {
            Walker {
                mode: Mode::Instruction { question: b == QUESTION },
                depth: w.depth,
                peak: w.peak,
            }
        },
        Mode::Declaration => if b == LEFT_BRACKET {
            Walker { mode: Mode::CharacterData { brackets: 0 }, depth: w.depth, peak: w.peak }
        } else if b == DASH {
            Walker { mode: Mode::Comment { read: 1, dashes: 1 }, depth: w.depth, peak: w.peak }
        } else if b == UPPER_D || b == LOWER_D {
            Walker { mode: Mode::DocType { quoted: Quoted::No }, depth: w.depth, peak: w.peak }
        } else {
            Walker {
                mode: Mode::Unfollowed { opened: b == LESS_THAN },
                depth: w.depth,
                peak: w.peak,
            }
        },
        Mode::Comment { read, dashes } => if b == GREATER_THAN && read >= 4 && dashes >= 2 {
            Walker { mode: Mode::Text, depth: w.depth, peak: w.peak }
        } else {
            Walker {
                mode: Mode::Comment {
                    read: if read < 4 {
                        read + 1
                    } else {
                        read
                    },
                    dashes: if b != DASH {
                        0
                    } else if dashes < 2 {
                        dashes + 1
                    } else {
                        dashes
                    },
                },
                depth: w.depth,
                peak: w.peak,
            }
        },
        Mode::CharacterData { brackets } => if b == GREATER_THAN && brackets >= 2 {
            Walker { mode: Mode::Text, depth: w.depth, peak: w.peak }
        } else {
            Walker {
                mode: Mode::CharacterData {
                    brackets: if b != RIGHT_BRACKET {
                        0
                    } else if brackets < 2 {
                        brackets + 1
                    } else {
                        brackets
                    },
                },
                depth: w.depth,
                peak: w.peak,
            }
        },
        Mode::DocType { quoted } => if quoted == Quoted::No && b == GREATER_THAN {
            Walker { mode: Mode::Text, depth: w.depth, peak: w.peak }
        } else if quoted == Quoted::No && b == LEFT_BRACKET {
            Walker {
                mode: Mode::InternalSubset { at: Subset::Between },
                depth: w.depth,
                peak: w.peak,
            }
        } else {
            Walker {
                mode: Mode::DocType { quoted: next_quoted(quoted, b) },
                depth: w.depth,
                peak: w.peak,
            }
        },
        Mode::InternalSubset { at } => match next_in_subset(at, b) {
            Some(next) => Walker {
                mode: Mode::InternalSubset { at: next },
                depth: w.depth,
                peak: w.peak,
            },
            None => Walker { mode: Mode::Text, depth: w.depth, peak: w.peak },
        },
        Mode::Unfollowed { opened } => if opened && b != EXCLAMATION && b != SLASH && b
            != QUESTION {
            Walker { mode: Mode::Unfollowed { opened: b == LESS_THAN }, depth: deeper, peak: higher }
        } else {
            Walker {
                mode: Mode::Unfollowed { opened: b == LESS_THAN },
                depth: w.depth,
                peak: w.peak,
            }
        },
    }
}

/// Whether the elements of `body` are nested no deeper than
/// [`MAX_NESTING`].
pub fn nesting_within_limit(body: &[u8]) -> (within: bool)
    ensures
        within == (nesting(body@) <= MAX_NESTING),
{
    let mut w = Walker { mode: Mode::Text, depth: 0, peak: 0 };
    let mut i: usize = 0;
    assert(body@.take(0) =~= Seq::<u8>::empty());
    while i < body.len()
        invariant
            i <= body.len(),
            w@ == walk(body@.take(i as int)),
            w.depth <= w.peak <= MAX_NESTING,
        decreases body.len() - i,
    {
        w = advance(w, body[i]);
        proof {
            let next = body@.take(i + 1);
            assert(next.drop_last() =~= body@.take(i as int));
            assert(next.last() == body@[i as int]);
        }
        if w.peak > MAX_NESTING {
            proof {
                lemma_peak_grows(body@, i + 1);
            }
            return false;
        }
        i += 1;
    }
    assert(body@.take(i as int) =~= body@);
    true
}

} // verus!

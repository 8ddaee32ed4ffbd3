//! EDIFACT interchange parser for the legacy gateway.
//!
//! An interchange is a `UNB` header, a run of messages (each a `UNH`
//! header, data segments, and a `UNT` trailer) and a `UNZ` trailer.
//! Segments are separated by a terminator, elements within a segment by a
//! data separator, components within an element by a component separator;
//! an escape character makes the following character literal.  The
//! delimiters come from a leading `UNA` service string advice when one is
//! present, and are the standard set otherwise.
//!
//! In strict mode a missing `UNT` or `UNZ` trailer is an error; in lenient
//! mode the parser synthesizes the trailer from what it has read.

use vstd::prelude::*;

verus! {

/// EDIFACT parse failures.
#[derive(Debug, Clone, PartialEq, Eq)]
pub enum EdiError {
    /// Malformed input at a position, with a short description.
    SyntaxError {
        /// Character offset of the offending input.
        position: usize,
        /// What was wrong there.
        details: String,
    },
    /// A `UNA` advice too short to define the delimiter set.
    InvalidServiceStringAdvice,
    /// A message whose version the configuration does not allow.
    UnsupportedVersion(String),
    /// A segment without its mandatory elements, or a missing trailer in
    /// strict mode.
    MandatoryElementMissing,
    /// An interchange whose trailer contradicts its contents.
    ValidationError(String),
}

/// Interchange header (`UNB`).
#[derive(Debug, Clone, PartialEq, Eq)]
pub struct UnbSegment {
    /// Syntax identifier, the first component of the first element.
    pub syntax_identifier: String,
    /// Syntax version, the second component of the first element.
    pub syntax_version: String,
    /// Interchange sender.
    pub sender_identification: String,
    /// Interchange recipient.
    pub recipient_identification: String,
    /// Date and time of preparation.
    pub preparation_time: String,
    /// Interchange control reference, echoed by the `UNZ` trailer.
    pub control_reference: String,
    /// Application reference.
    pub application_reference: String,
}

/// Interchange trailer (`UNZ`).
#[derive(Debug, Clone, PartialEq, Eq)]
pub struct UnzSegment {
    /// Number of messages the trailer claims the interchange holds.
    pub interchange_control_count: u32,
    /// Control reference, which must echo the header's.
    pub interchange_control_reference: String,
}

/// Message header (`UNH`).
#[derive(Debug, Clone, PartialEq, Eq)]
pub struct UnhSegment {
    /// Message reference number.
    pub message_reference_number: String,
    /// Message type identifier.
    pub message_identifier: String,
    /// Message version number.
    pub message_version: String,
    /// Message release number, checked against the allowed versions.
    pub message_release: String,
    /// Controlling agency.
    pub controlling_agency: String,
}

/// Message trailer (`UNT`).
#[derive(Debug, Clone, PartialEq, Eq)]
pub struct UntSegment {
    /// Number of segments in the message, header and trailer included.
    pub segment_count: u32,
    /// Message reference number, echoing the header's.
    pub message_reference_number: String,
}

/// One data element: its components.
#[derive(Debug, Clone, PartialEq, Eq)]
pub struct EdifactElement {
    /// The element's components, in order.
    pub components: Vec<String>,
}

/// One data segment: its tag and elements.
#[derive(Debug, Clone, PartialEq, Eq)]
pub struct EdifactSegment {
    /// Three-character segment tag.
    pub tag: String,
    /// The segment's elements, in order.
    pub elements: Vec<EdifactElement>,
}

/// One message: header, data segments, trailer.
#[derive(Debug, Clone, PartialEq, Eq)]
pub struct EdifactMessage {
    /// The `UNH` header.
    pub unh: UnhSegment,
    /// The data segments between header and trailer.
    pub segments: Vec<EdifactSegment>,
    /// The `UNT` trailer.
    pub unt: UntSegment,
}

/// A parsed interchange.
#[derive(Debug, Clone, PartialEq, Eq)]
pub struct EdifactInterchange {
    /// The `UNB` header.
    pub unb: UnbSegment,
    /// The messages, in order.
    pub messages: Vec<EdifactMessage>,
    /// The `UNZ` trailer.
    pub unz: UnzSegment,
}

/// Parser configuration.
#[derive(Debug, Clone)]
pub struct ParserConfig {
    /// Check the trailers against the parsed contents.
    pub validate_structure: bool,
    /// Refuse, rather than synthesize, missing trailers.
    pub strict_mode: bool,
    /// Longest accepted element, in characters.
    pub max_segment_length: usize,
    /// Message releases the gateway accepts.
    pub allowed_versions: Vec<String>,
}

impl Default for ParserConfig {
    /// Validating, lenient, 4096-character elements, and the releases the
    /// legacy gateway ships with.
    fn default() -> (r: Self)
        ensures
            r.validate_structure == true,
            r.strict_mode == false,
            r.max_segment_length == 4096,
            r.allowed_versions@.len() == 3,
            r.allowed_versions@[0]@ == "D"@,
            r.allowed_versions@[1]@ == "01B"@,
            r.allowed_versions@[2]@ == "02B"@,
    {
        let mut allowed_versions: Vec<String> = Vec::new();
        allowed_versions.push("D".to_owned());
        allowed_versions.push("01B".to_owned());
        allowed_versions.push("02B".to_owned());
        ParserConfig {
            validate_structure: true,
            strict_mode: false,
            max_segment_length: 4096,
            allowed_versions,
        }
    }
}

/// The delimiter set in force, from the `UNA` advice or the standard
/// defaults.
#[derive(Debug, Clone, Copy, PartialEq, Eq, Structural)]
pub struct EdiDelimiters {
    /// Separates components within an element (standard `:`).
    pub component_separator: char,
    /// Separates elements within a segment (standard `+`).
    pub data_separator: char,
    /// Decimal mark (standard `.`).
    pub decimal_separator: char,
    /// Makes the next character literal (standard `?`).
    pub escape_character: char,
    /// Ends a segment (standard `'`).
    pub segment_terminator: char,
}

/// The standard delimiter set.
pub open spec fn spec_default_delimiters() -> EdiDelimiters {
    EdiDelimiters {
        component_separator: ':',
        data_separator: '+',
        decimal_separator: '.',
        escape_character: '?',
        segment_terminator: '\'',
    }
}

/// Whether the input opens with a `UNA` service string advice.
pub open spec fn spec_has_una(s: Seq<char>) -> bool {
    s.len() >= 3 && s[0] == 'U' && s[1] == 'N' && s[2] == 'A'
}

/// The delimiters a `UNA` advice defines: the six characters after the
/// tag are component separator, data separator, decimal mark, escape
/// character, a reserved space, and the segment terminator.
pub open spec fn spec_una_delimiters(s: Seq<char>) -> EdiDelimiters {
    EdiDelimiters {
        component_separator: s[3],
        data_separator: s[4],
        decimal_separator: s[5],
        escape_character: s[6],
        segment_terminator: s[8],
    }
}

/// One element scanned from `s` at `pos`: the components it splits into
/// and the position of the delimiter (or end of input) that stopped it.
/// `esc` is whether the previous character was an unconsumed escape;
/// `cur` and `acc` are the component and components read so far.
pub open spec fn scan_element(
    s: Seq<char>,
    pos: int,
    d: EdiDelimiters,
    esc: bool,
    cur: Seq<char>,
    acc: Seq<Seq<char>>,
) -> (Seq<Seq<char>>, int)
    decreases s.len() - pos,
{
    if pos < 0 || pos >= s.len() {
        (acc.push(cur), pos)
    } else {
        let c = s[pos];
        if esc {
            scan_element(s, pos + 1, d, false, cur.push(c), acc)
        } else if c == d.component_separator {
            scan_element(s, pos + 1, d, false, Seq::empty(), acc.push(cur))
        } else if c == d.escape_character {
            scan_element(s, pos + 1, d, true, cur, acc)
        } else if c == d.data_separator || c == d.segment_terminator {
            (acc.push(cur), pos)
        } else {
            scan_element(s, pos + 1, d, false, cur.push(c), acc)
        }
    }
}

/// Relies on `String::push`: appends exactly the one character.
#[verifier::external_body]
fn push_char(s: &mut String, c: char)
    ensures
        final(s)@ == old(s)@ + seq![c],
{
    s.push(c);
}

/// The streaming parser: the input as characters, a cursor, the delimiter
/// set in force and the configuration.
pub struct EdiParser {
    /// The whole input.
    pub chars: Vec<char>,
    /// Cursor into `chars`; everything before it has been consumed.
    pub position: usize,
    /// Delimiters in force.
    pub delimiters: EdiDelimiters,
    /// Configuration.
    pub config: ParserConfig,
}

impl EdiParser {
    /// The cursor never leaves the input.
    pub open spec fn wf(&self) -> bool {
        self.position <= self.chars@.len()
    }

    /// Create a parser over `input`: read the `UNA` service string advice
    /// when one is present (rejecting one too short to define all six
    /// delimiter characters), and fall back to the standard delimiters
    /// otherwise.
    pub fn new(input: &str, config: ParserConfig) -> (r: Result<EdiParser, EdiError>)
        ensures
            r matches Ok(p) ==> {
                &&& p.wf()
                &&& p.chars@ == input@
                &&& (spec_has_una(input@) ==> p.delimiters == spec_una_delimiters(input@)
                    && p.position == 9)
                &&& (!spec_has_una(input@) ==> p.delimiters == spec_default_delimiters()
                    && p.position == 0)
            },
            r is Err <==> (spec_has_una(input@) && input@.len() < 9),
            r matches Err(e) ==> e is InvalidServiceStringAdvice,
    {
        let n = input.unicode_len();
        let mut chars: Vec<char> = Vec::new();
        let mut i: usize = 0;
        while i < n
            invariant
                n == input@.len(),
                i <= n,
                chars@ == input@.subrange(0, i as int),
            decreases n - i,
        {
            chars.push(input.get_char(i));
            proof {
                assert(input@.subrange(0, i + 1 as int)
                    =~= input@.subrange(0, i as int) + seq![input@[i as int]]);
            }
            i = i + 1;
        }
        proof {
            assert(input@.subrange(0, n as int) =~= input@);
        }
        let has_una = chars.len() >= 3
            && chars[0] == 'U' && chars[1] == 'N' && chars[2] == 'A';
        if has_una {
            if chars.len() < 9 {
                return Err(EdiError::InvalidServiceStringAdvice);
            }
            let delimiters = EdiDelimiters {
                component_separator: chars[3],
                data_separator: chars[4],
                decimal_separator: chars[5],
                escape_character: chars[6],
                segment_terminator: chars[8],
            };
            Ok(EdiParser { chars, position: 9, delimiters, config })
        } else {
            Ok(EdiParser {
                chars,
                position: 0,
                delimiters: EdiDelimiters {
                    component_separator: ':',
                    data_separator: '+',
                    decimal_separator: '.',
                    escape_character: '?',
                    segment_terminator: '\'',
                },
                config,
            })
        }
    }

    /// The next character, if any, without consuming it.
    fn peek(&self) -> (r: Option<char>)
        requires
            self.wf(),
        ensures
            r matches Some(c) ==> self.position < self.chars@.len()
                && c == self.chars@[self.position as int],
            r is None <==> self.position == self.chars@.len(),
    {
        if self.position < self.chars.len() {
            Some(self.chars[self.position])
        } else {
            None
        }
    }

    /// The three characters at the cursor, if that many remain: the tag of
    /// the segment that would be parsed next.
    fn peek_tag(&self) -> (r: Option<(char, char, char)>)
        requires
            self.wf(),
        ensures
            r matches Some(t) ==> {
                &&& self.position + 3 <= self.chars@.len()
                &&& t.0 == self.chars@[self.position as int]
                &&& t.1 == self.chars@[self.position + 1]
                &&& t.2 == self.chars@[self.position + 2]
            },
            r is None <==> self.position + 3 > self.chars@.len(),
    {
        if self.chars.len() >= 3 && self.position <= self.chars.len() - 3 {
            Some((
                self.chars[self.position],
                self.chars[self.position + 1],
                self.chars[self.position + 2],
            ))
        } else {
            None
        }
    }

    /// Parse the three-character segment tag at the cursor and consume the
    /// data separator after it, if one follows.
    pub fn parse_segment_tag(&mut self) -> (r: Result<String, EdiError>)
        requires
            old(self).wf(),
        ensures
            final(self).wf(),
            final(self).chars == old(self).chars,
            final(self).delimiters == old(self).delimiters,
            final(self).config == old(self).config,
            final(self).position >= old(self).position,
            r matches Ok(tag) ==> {
                &&& final(self).position > old(self).position
                &&& tag@.len() == 3
                &&& tag@ == old(self).chars@.subrange(
                    old(self).position as int, old(self).position + 3)
            },
            r is Err <==> old(self).position + 3 > old(self).chars@.len(),
    {
        let n = self.chars.len();
        match self.peek_tag() {
            None => Err(EdiError::SyntaxError {
                position: self.position,
                details: "truncated segment tag".to_owned(),
            }),
            Some((a, b, c)) => {
                let mut tag = String::new();
                push_char(&mut tag, a);
                push_char(&mut tag, b);
                push_char(&mut tag, c);
                proof {
                    assert(self.position + 3 <= n);
                }
                self.position = self.position + 3;
                proof {
                    assert(tag@ =~= old(self).chars@.subrange(
                        old(self).position as int, old(self).position + 3));
                }
                if self.position < n {
                    if self.chars[self.position] == self.delimiters.data_separator {
                        self.position = self.position + 1;
                    }
                }
                Ok(tag)
            }
        }
    }

    /// Parse one element: components split at the component separator,
    /// with the escape character making the following character literal.
    /// The element ends at a data separator, a segment terminator or the
    /// end of the input, none of which is consumed.  An element longer
    /// than the configured maximum is a syntax error.
    ///
    /// On success the components and the stopping position are exactly
    /// what [`scan_element`] gives for the input at the old cursor.
    pub fn parse_element(&mut self) -> (r: Result<EdifactElement, EdiError>)
        requires
            old(self).wf(),
        ensures
            final(self).wf(),
            final(self).chars == old(self).chars,
            final(self).delimiters == old(self).delimiters,
            final(self).config == old(self).config,
            final(self).position >= old(self).position,
            ({
                let scanned = scan_element(
                    old(self).chars@,
                    old(self).position as int,
                    old(self).delimiters,
                    false,
                    Seq::empty(),
                    Seq::empty(),
                );
                &&& (r matches Ok(el) ==> {
                    &&& el.components@.map_values(|c: String| c@) == scanned.0
                    &&& final(self).position == scanned.1
                    &&& el.components@.len() >= 1
                })
                &&& (r is Err <==> scanned.1 - old(self).position
                    > old(self).config.max_segment_length)
            }),
    {
        let ghost d = self.delimiters;
        let ghost scanned = scan_element(
            self.chars@, self.position as int, d, false, Seq::empty(), Seq::empty());
        let mut components: Vec<String> = Vec::new();
        let mut current: String = String::new();
        let mut in_escape = false;
        let n = self.chars.len();
        let start = self.position;
        proof {
            assert(components@.map_values(|c: String| c@) =~= Seq::<Seq<char>>::empty());
        }
        while self.position < n
            invariant
                self.wf(),
                self.chars == old(self).chars,
                self.delimiters == old(self).delimiters,
                self.config == old(self).config,
                d == old(self).delimiters,
                start == old(self).position,
                self.position >= start,
                self.position - start <= self.config.max_segment_length,
                n == self.chars@.len(),
                scanned == scan_element(old(self).chars@, old(self).position as int, d,
                    false, Seq::empty(), Seq::empty()),
                scanned == scan_element(self.chars@, self.position as int, d,
                    in_escape, current@, components@.map_values(|c: String| c@)),
            ensures
                self.wf(),
                self.chars == old(self).chars,
                self.delimiters == old(self).delimiters,
                self.config == old(self).config,
                self.position >= start,
                self.position - start <= self.config.max_segment_length,
                n == self.chars@.len(),
                scanned == scan_element(self.chars@, self.position as int, d,
                    in_escape, current@, components@.map_values(|c: String| c@)),
                self.position < n ==> {
                    let c = self.chars@[self.position as int];
                    &&& !in_escape
                    &&& c != d.component_separator
                    &&& c != d.escape_character
                    &&& (c == d.data_separator || c == d.segment_terminator)
                },
            decreases n - self.position,
        {
            let c = self.chars[self.position];
            let ghost pre_cur = current@;
            let ghost pre_acc = components@.map_values(|x: String| x@);
            let ghost pre_pos = self.position as int;
            if in_escape {
                push_char(&mut current, c);
                in_escape = false;
                self.position = self.position + 1;
                proof {
                    assert(current@ =~= pre_cur.push(self.chars@[pre_pos]));
                }
            } else if c == self.delimiters.component_separator {
                components.push(current);
                current = String::new();
                self.position = self.position + 1;
                proof {
                    assert(components@.map_values(|x: String| x@) =~= pre_acc.push(pre_cur));
                    assert(current@ =~= Seq::<char>::empty());
                }
            } else if c == self.delimiters.escape_character {
                in_escape = true;
                self.position = self.position + 1;
            } else if c == self.delimiters.data_separator
                || c == self.delimiters.segment_terminator {
                break;
            } else {
                push_char(&mut current, c);
                self.position = self.position + 1;
                proof {
                    assert(current@ =~= pre_cur.push(self.chars@[pre_pos]));
                }
            }
            if self.position - start > self.config.max_segment_length {
                proof {
                    lemma_scan_end_ge(self.chars@, self.position as int, d,
                        in_escape, current@, components@.map_values(|x: String| x@));
                }
                return Err(EdiError::SyntaxError {
                    position: self.position,
                    details: "element exceeds the configured maximum length".to_owned(),
                });
            }
        }
        let ghost final_cur = current@;
        let ghost final_acc = components@.map_values(|x: String| x@);
        components.push(current);
        proof {
            assert(scanned == (final_acc.push(final_cur), self.position as int));
            assert(components@.map_values(|x: String| x@) =~= final_acc.push(final_cur));
        }
        Ok(EdifactElement { components })
    }

    /// Parse the elements of a segment up to and including its terminator;
    /// a segment cut short by the end of the input ends there.
    pub fn parse_segment_body(&mut self) -> (r: Result<Vec<EdifactElement>, EdiError>)
        requires
            old(self).wf(),
        ensures
            final(self).wf(),
            final(self).chars == old(self).chars,
            final(self).delimiters == old(self).delimiters,
            final(self).config == old(self).config,
            final(self).position >= old(self).position,
            r matches Ok(els) ==> els@.len() >= 1,
    {
        let mut elements: Vec<EdifactElement> = Vec::new();
        let n = self.chars.len();
        loop
            invariant
                self.wf(),
                self.chars == old(self).chars,
                self.delimiters == old(self).delimiters,
                self.config == old(self).config,
                self.position >= old(self).position,
                n == self.chars@.len(),
                elements@.len() >= 0,
            ensures
                self.wf(),
                self.chars == old(self).chars,
                self.delimiters == old(self).delimiters,
                self.config == old(self).config,
                self.position >= old(self).position,
                elements@.len() >= 1,
            decreases n - self.position,
        {
            let el = match self.parse_element() {
                Ok(el) => el,
                Err(e) => return Err(e),
            };
            elements.push(el);
            if self.position < n {
                let c = self.chars[self.position];
                if c == self.delimiters.data_separator {
                    self.position = self.position + 1;
                } else if c == self.delimiters.segment_terminator {
                    self.position = self.position + 1;
                    break;
                } else {
                    break;
                }
            } else {
                break;
            }
        }
        Ok(elements)
    }

    /// Parse one whole data segment: tag, elements, terminator.
    pub fn parse_segment(&mut self) -> (r: Result<EdifactSegment, EdiError>)
        requires
            old(self).wf(),
        ensures
            final(self).wf(),
            final(self).chars == old(self).chars,
            final(self).delimiters == old(self).delimiters,
            final(self).config == old(self).config,
            final(self).position >= old(self).position,
            r is Ok ==> final(self).position > old(self).position,
    {
        let tag = match self.parse_segment_tag() {
            Ok(t) => t,
            Err(e) => return Err(e),
        };
        let elements = match self.parse_segment_body() {
            Ok(els) => els,
            Err(e) => return Err(e),
        };
        Ok(EdifactSegment { tag, elements })
    }
}

/// The element scan never stops before where it started.
proof fn lemma_scan_end_ge(
    s: Seq<char>,
    pos: int,
    d: EdiDelimiters,
    esc: bool,
    cur: Seq<char>,
    acc: Seq<Seq<char>>,
)
    requires
        0 <= pos,
    ensures
        scan_element(s, pos, d, esc, cur, acc).1 >= pos,
    decreases s.len() - pos,
{
    if pos < s.len() {
        let c = s[pos];
        if esc {
            lemma_scan_end_ge(s, pos + 1, d, false, cur.push(c), acc);
        } else if c == d.component_separator {
            lemma_scan_end_ge(s, pos + 1, d, false, Seq::empty(), acc.push(cur));
        } else if c == d.escape_character {
            lemma_scan_end_ge(s, pos + 1, d, true, cur, acc);
        } else if c == d.data_separator || c == d.segment_terminator {
        } else {
            lemma_scan_end_ge(s, pos + 1, d, false, cur.push(c), acc);
        }
    }
}

/// Whether every character of `s` is a decimal digit.
pub open spec fn spec_all_digits(s: Seq<char>) -> bool {
    forall|i: int| 0 <= i < s.len() ==> 48 <= (#[trigger] s[i]) as u32 <= 57
}

/// The number a digit string denotes.
pub open spec fn spec_digits_val(s: Seq<char>) -> int
    decreases s.len(),
{
    if s.len() == 0 {
        0
    } else {
        spec_digits_val(s.drop_last()) * 10 + (s.last() as u32 - 48)
    }
}

/// A digit string denotes a number at least as large as any of its
/// prefixes denotes.
proof fn lemma_digits_prefix_le(s: Seq<char>, i: int)
    requires
        spec_all_digits(s),
        0 <= i <= s.len(),
    ensures
        0 <= spec_digits_val(s.subrange(0, i)) <= spec_digits_val(s),
    decreases s.len() - i,
{
    if i == s.len() {
        assert(s.subrange(0, i) =~= s);
        lemma_digits_nonneg(s);
    } else {
        lemma_digits_prefix_le(s, i + 1);
        let pre = s.subrange(0, i);
        let post = s.subrange(0, i + 1);
        assert(post.drop_last() =~= pre);
        lemma_digits_nonneg(pre);
        assert(spec_digits_val(post) == spec_digits_val(pre) * 10 + (s[i] as u32 - 48));
        assert(spec_digits_val(pre) * 10 >= spec_digits_val(pre)) by (nonlinear_arith)
            requires spec_digits_val(pre) >= 0,
        ;
    }
}

/// A digit string never denotes a negative number.
proof fn lemma_digits_nonneg(s: Seq<char>)
    requires
        spec_all_digits(s),
    ensures
        spec_digits_val(s) >= 0,
    decreases s.len(),
{
    if s.len() > 0 {
        assert(forall|i: int| 0 <= i < s.drop_last().len() ==>
            48 <= (#[trigger] s.drop_last()[i]) as u32 <= 57);
        lemma_digits_nonneg(s.drop_last());
        assert(spec_digits_val(s.drop_last()) * 10 >= 0) by (nonlinear_arith)
            requires spec_digits_val(s.drop_last()) >= 0,
        ;
    }
}

/// Parse a decimal count: `Some` exactly when the string is a non-empty
/// run of digits denoting a number that fits the counter.
pub fn parse_count(s: &String) -> (r: Option<u32>)
    ensures
        r matches Some(v) ==> {
            &&& s@.len() > 0
            &&& spec_all_digits(s@)
            &&& v == spec_digits_val(s@)
        },
        r is None <==> (s@.len() == 0 || !spec_all_digits(s@)
            || spec_digits_val(s@) > u32::MAX),
{
    let str = s.as_str();
    let n = str.unicode_len();
    if n == 0 {
        return None;
    }
    let mut acc: u64 = 0;
    let mut i: usize = 0;
    while i < n
        invariant
            n == s@.len(),
            str@ == s@,
            i <= n,
            spec_all_digits(s@.subrange(0, i as int)),
            acc == spec_digits_val(s@.subrange(0, i as int)),
            acc <= u32::MAX,
        decreases n - i,
    {
        let c = str.get_char(i);
        let code = c as u32;
        proof {
            let pre = s@.subrange(0, i as int);
            let post = s@.subrange(0, i + 1 as int);
            assert(post.drop_last() =~= pre);
            assert(post.last() == s@[i as int]);
        }
        if code < 48 || code > 57 {
            proof {
                assert(!spec_all_digits(s@)) by {
                    assert(!(48 <= s@[i as int] as u32 <= 57));
                }
            }
            return None;
        }
        let digit = (code - 48) as u64;
        let next = acc * 10 + digit;
        if next > u32::MAX as u64 {
            proof {
                if spec_all_digits(s@) {
                    lemma_digits_prefix_le(s@, i + 1);
                }
            }
            return None;
        }
        acc = next;
        i = i + 1;
    }
    proof {
        assert(s@.subrange(0, n as int) =~= s@);
    }
    Some(acc as u32)
}

/// The components of an element joined by the component separator.
pub open spec fn spec_join(parts: Seq<Seq<char>>, sep: char) -> Seq<char>
    decreases parts.len(),
{
    if parts.len() == 0 {
        Seq::empty()
    } else if parts.len() == 1 {
        parts[0]
    } else {
        spec_join(parts.drop_last(), sep) + seq![sep] + parts.last()
    }
}

/// Render an element back to text: its components joined by the component
/// separator.
pub fn join_components(el: &EdifactElement, sep: char) -> (r: String)
    ensures
        r@ == spec_join(el.components@.map_values(|s: String| s@), sep),
{
    let ghost mapped = el.components@.map_values(|s: String| s@);
    let n = el.components.len();
    let mut r = String::new();
    let mut i: usize = 0;
    proof {
        assert(mapped.subrange(0, 0) =~= Seq::<Seq<char>>::empty());
    }
    while i < n
        invariant
            mapped == el.components@.map_values(|s: String| s@),
            n == el.components@.len(),
            i <= n,
            r@ == spec_join(mapped.subrange(0, i as int), sep),
        decreases n - i,
    {
        if i > 0 {
            push_char(&mut r, sep);
        }
        r.append(el.components[i].as_str());
        proof {
            let pre = mapped.subrange(0, i as int);
            let post = mapped.subrange(0, i + 1 as int);
            assert(post.drop_last() =~= pre);
            assert(post.last() == mapped[i as int]);
            assert(mapped[i as int] == el.components@[i as int]@);
            if i == 0 {
                assert(post.len() == 1);
                assert(r@ =~= post[0]);
            }
        }
        i = i + 1;
    }
    proof {
        assert(mapped.subrange(0, n as int) =~= mapped);
    }
    r
}

/// The text of the element at `i`, or empty when the segment has no such
/// element.
fn element_text(els: &Vec<EdifactElement>, i: usize, sep: char) -> (r: String)
    ensures
        i < els@.len() ==> r@ == spec_join(
            els@[i as int].components@.map_values(|s: String| s@), sep),
        i >= els@.len() ==> r@ == Seq::<char>::empty(),
{
    if i < els.len() {
        join_components(&els[i], sep)
    } else {
        String::new()
    }
}

/// The component at `(i, j)`, or empty when absent.
fn component_at(els: &Vec<EdifactElement>, i: usize, j: usize) -> (r: String)
    ensures
        i < els@.len() && j < els@[i as int].components@.len() ==>
            r@ == els@[i as int].components@[j as int]@,
{
    if i < els.len() {
        if j < els[i].components.len() {
            return els[i].components[j].clone();
        }
    }
    String::new()
}

/// Whether `c` can open a segment tag: an upper-case letter or a digit.
fn is_tag_char(c: char) -> (r: bool)
    ensures
        r == (65 <= c as u32 <= 90 || 48 <= c as u32 <= 57),
{
    let u = c as u32;
    (65 <= u && u <= 90) || (48 <= u && u <= 57)
}

/// `count + 2` as a `u32`, saturating: the segment count a synthesized
/// `UNT` trailer reports (data segments plus header and trailer).
fn count_with_envelope(count: usize) -> (r: u32)
    ensures
        count + 2 <= u32::MAX ==> r == count + 2,
{
    let c = count as u64;
    if c <= (u32::MAX - 2) as u64 {
        (c + 2) as u32
    } else {
        u32::MAX
    }
}

/// Whether `v` is one of the allowed message releases.
pub open spec fn release_allowed(allowed: Seq<String>, v: Seq<char>) -> bool {
    exists|i: int| 0 <= i < allowed.len() && allowed[i]@ == v
}

impl EdiParser {
    /// Whether the configuration allows a message of release `v`.
    pub fn version_allowed(&self, v: &String) -> (r: bool)
        ensures
            r == release_allowed(self.config.allowed_versions@, v@),
    {
        let n = self.config.allowed_versions.len();
        let mut i: usize = 0;
        while i < n
            invariant
                n == self.config.allowed_versions@.len(),
                i <= n,
                forall|j: int| 0 <= j < i ==> self.config.allowed_versions@[j]@ != v@,
            decreases n - i,
        {
            if v.eq(&self.config.allowed_versions[i]) {
                proof {
                    assert(self.config.allowed_versions@[i as int]@ == v@);
                }
                return true;
            }
            i = i + 1;
        }
        proof {
            assert(!release_allowed(self.config.allowed_versions@, v@));
        }
        false
    }

    /// Parse the `UNB` interchange header.
    pub fn parse_unb(&mut self) -> (r: Result<UnbSegment, EdiError>)
        requires
            old(self).wf(),
        ensures
            final(self).wf(),
            final(self).chars == old(self).chars,
            final(self).delimiters == old(self).delimiters,
            final(self).config == old(self).config,
            final(self).position >= old(self).position,
            r is Ok ==> final(self).position > old(self).position,
    {
        let t = self.peek_tag();
        let is_unb = match t {
            Some(t3) => t3.0 == 'U' && t3.1 == 'N' && t3.2 == 'B',
            None => false,
        };
        if !is_unb {
            return Err(EdiError::SyntaxError {
                position: self.position,
                details: "expected UNB segment".to_owned(),
            });
        }
        let _tag = match self.parse_segment_tag() {
            Ok(tag) => tag,
            Err(e) => return Err(e),
        };
        let els = match self.parse_segment_body() {
            Ok(els) => els,
            Err(e) => return Err(e),
        };
        if els.len() < 2 {
            return Err(EdiError::MandatoryElementMissing);
        }
        let sep = self.delimiters.component_separator;
        Ok(UnbSegment {
            syntax_identifier: component_at(&els, 0, 0),
            syntax_version: component_at(&els, 0, 1),
            sender_identification: element_text(&els, 1, sep),
            recipient_identification: element_text(&els, 2, sep),
            preparation_time: element_text(&els, 3, sep),
            control_reference: element_text(&els, 4, sep),
            application_reference: element_text(&els, 6, sep),
        })
    }

    /// Parse one message: the `UNH` header, its data segments and the
    /// `UNT` trailer.  A missing trailer is an error in strict mode and is
    /// synthesized from the parsed contents otherwise.
    pub fn parse_message(&mut self) -> (r: Result<EdifactMessage, EdiError>)
        requires
            old(self).wf(),
        ensures
            final(self).wf(),
            final(self).chars == old(self).chars,
            final(self).delimiters == old(self).delimiters,
            final(self).config == old(self).config,
            final(self).position >= old(self).position,
            r is Ok ==> final(self).position > old(self).position,
    {
        let t = self.peek_tag();
        let is_unh = match t {
            Some(t3) => t3.0 == 'U' && t3.1 == 'N' && t3.2 == 'H',
            None => false,
        };
        if !is_unh {
            return Err(EdiError::SyntaxError {
                position: self.position,
                details: "expected UNH segment".to_owned(),
            });
        }
        let _tag = match self.parse_segment_tag() {
            Ok(tag) => tag,
            Err(e) => return Err(e),
        };
        let els = match self.parse_segment_body() {
            Ok(els) => els,
            Err(e) => return Err(e),
        };
        if els.len() < 2 {
            return Err(EdiError::MandatoryElementMissing);
        }
        let sep = self.delimiters.component_separator;
        let unh = UnhSegment {
            message_reference_number: element_text(&els, 0, sep),
            message_identifier: component_at(&els, 1, 0),
            message_version: component_at(&els, 1, 1),
            message_release: component_at(&els, 1, 2),
            controlling_agency: component_at(&els, 1, 3),
        };
        let mut segments: Vec<EdifactSegment> = Vec::new();
        let n = self.chars.len();
        let ghost entry = self.position;
        loop
            invariant
                self.wf(),
                self.chars == old(self).chars,
                self.delimiters == old(self).delimiters,
                self.config == old(self).config,
                self.position >= entry,
                entry > old(self).position,
                n == self.chars@.len(),
            ensures
                self.wf(),
                self.chars == old(self).chars,
                self.delimiters == old(self).delimiters,
                self.config == old(self).config,
                self.position > old(self).position,
                n == self.chars@.len(),
            decreases n - self.position,
        {
            let t2 = self.peek_tag();
            match t2 {
                None => {
                    if self.config.strict_mode {
                        return Err(EdiError::MandatoryElementMissing);
                    }
                    let unt = UntSegment {
                        segment_count: count_with_envelope(segments.len()),
                        message_reference_number: unh.message_reference_number.clone(),
                    };
                    return Ok(EdifactMessage { unh, segments, unt });
                }
                Some((a, b, c)) => {
                    if a == 'U' && b == 'N' && c == 'T' {
                        let _t = match self.parse_segment_tag() {
                            Ok(tag) => tag,
                            Err(e) => return Err(e),
                        };
                        let els2 = match self.parse_segment_body() {
                            Ok(e2) => e2,
                            Err(e) => return Err(e),
                        };
                        let count_text = element_text(&els2, 0, sep);
                        let segment_count = match parse_count(&count_text) {
                            Some(v) => v,
                            None => {
                                if self.config.strict_mode {
                                    return Err(EdiError::ValidationError(
                                        "UNT segment count is not a number".to_owned(),
                                    ));
                                }
                                0
                            }
                        };
                        let unt = UntSegment {
                            segment_count,
                            message_reference_number: element_text(&els2, 1, sep),
                        };
                        return Ok(EdifactMessage { unh, segments, unt });
                    }
                    if (a == 'U' && b == 'N' && c == 'H') || (a == 'U' && b == 'N' && c == 'Z') {
                        if self.config.strict_mode {
                            return Err(EdiError::MandatoryElementMissing);
                        }
                        let unt = UntSegment {
                            segment_count: count_with_envelope(segments.len()),
                            message_reference_number: unh.message_reference_number.clone(),
                        };
                        return Ok(EdifactMessage { unh, segments, unt });
                    }
                    if is_tag_char(a) && is_tag_char(b) && is_tag_char(c) {
                        let seg = match self.parse_segment() {
                            Ok(s) => s,
                            Err(e) => return Err(e),
                        };
                        segments.push(seg);
                    } else {
                        if self.config.strict_mode {
                            return Err(EdiError::SyntaxError {
                                position: self.position,
                                details: "unexpected characters after a segment".to_owned(),
                            });
                        }
                        let unt = UntSegment {
                            segment_count: count_with_envelope(segments.len()),
                            message_reference_number: unh.message_reference_number.clone(),
                        };
                        return Ok(EdifactMessage { unh, segments, unt });
                    }
                }
            }
        }
    }

    /// Check an interchange trailer against the header and the parsed
    /// messages: the control references must match and the trailer's count
    /// must equal the number of messages.
    pub fn validate_interchange(
        &self,
        unb: &UnbSegment,
        unz: &UnzSegment,
        message_count: usize,
    ) -> (r: Result<(), EdiError>)
        ensures
            r is Ok <==> (unb.control_reference@ == unz.interchange_control_reference@
                && unz.interchange_control_count == message_count),
            r matches Err(e) ==> e is ValidationError,
    {
        if !unb.control_reference.eq(&unz.interchange_control_reference) {
            return Err(EdiError::ValidationError(
                "control reference mismatch between UNB and UNZ".to_owned(),
            ));
        }
        if unz.interchange_control_count as u64 != message_count as u64 {
            return Err(EdiError::ValidationError(
                "message count mismatch between UNZ and contents".to_owned(),
            ));
        }
        Ok(())
    }

    /// Parse a whole interchange: the `UNB` header, every message, and the
    /// `UNZ` trailer (synthesized in lenient mode when absent), then
    /// validate the structure when the configuration asks for it.
    pub fn parse_interchange(&mut self) -> (r: Result<EdifactInterchange, EdiError>)
        requires
            old(self).wf(),
        ensures
            final(self).wf(),
            final(self).chars == old(self).chars,
            final(self).delimiters == old(self).delimiters,
            final(self).config == old(self).config,
            final(self).position >= old(self).position,
            r matches Ok(ic) ==> (final(self).config.validate_structure ==> {
                &&& ic.unb.control_reference@ == ic.unz.interchange_control_reference@
                &&& ic.unz.interchange_control_count == ic.messages@.len()
            }),
            r matches Ok(ic) ==> forall|k: int| 0 <= k < ic.messages@.len() ==>
                release_allowed(
                    final(self).config.allowed_versions@,
                    (#[trigger] ic.messages@[k]).unh.message_release@),
    {
        let unb = match self.parse_unb() {
            Ok(u) => u,
            Err(e) => return Err(e),
        };
        let sep = self.delimiters.component_separator;
        let mut messages: Vec<EdifactMessage> = Vec::new();
        let n = self.chars.len();
        loop
            invariant
                self.wf(),
                self.chars == old(self).chars,
                self.delimiters == old(self).delimiters,
                self.config == old(self).config,
                self.position >= old(self).position,
                sep == self.delimiters.component_separator,
                n == self.chars@.len(),
                forall|k: int| 0 <= k < messages@.len() ==> release_allowed(
                    self.config.allowed_versions@,
                    (#[trigger] messages@[k]).unh.message_release@),
            ensures
                self.wf(),
                self.chars == old(self).chars,
                self.delimiters == old(self).delimiters,
                self.config == old(self).config,
                self.position >= old(self).position,
                sep == self.delimiters.component_separator,
                n == self.chars@.len(),
                forall|k: int| 0 <= k < messages@.len() ==> release_allowed(
                    self.config.allowed_versions@,
                    (#[trigger] messages@[k]).unh.message_release@),
            decreases n - self.position,
        {
            let t = self.peek_tag();
            let is_unh = match t {
                Some(t3) => t3.0 == 'U' && t3.1 == 'N' && t3.2 == 'H',
                None => false,
            };
            if !is_unh {
                break;
            }
            let msg = match self.parse_message() {
                Ok(m) => m,
                Err(e) => return Err(e),
            };
            if !self.version_allowed(&msg.unh.message_release) {
                return Err(EdiError::UnsupportedVersion(msg.unh.message_release));
            }
            let ghost pre = messages@;
            messages.push(msg);
            proof {
                assert(forall|k: int| 0 <= k < pre.len() ==>
                    (#[trigger] messages@[k]) == pre[k]);
            }
        }
        let t = self.peek_tag();
        let has_unz = match t {
            Some(t3) => t3.0 == 'U' && t3.1 == 'N' && t3.2 == 'Z',
            None => false,
        };
        let unz: UnzSegment;
        if has_unz {
            let _tag = match self.parse_segment_tag() {
                Ok(tag) => tag,
                Err(e) => return Err(e),
            };
            let els = match self.parse_segment_body() {
                Ok(e2) => e2,
                Err(e) => return Err(e),
            };
            let count_text = element_text(&els, 0, sep);
            let interchange_control_count = match parse_count(&count_text) {
                Some(v) => v,
                None => {
                    if self.config.strict_mode {
                        return Err(EdiError::ValidationError(
                            "UNZ interchange count is not a number".to_owned(),
                        ));
                    }
                    0
                }
            };
            unz = UnzSegment {
                interchange_control_count,
                interchange_control_reference: element_text(&els, 1, sep),
            };
        } else {
            if self.config.strict_mode {
                return Err(EdiError::MandatoryElementMissing);
            }
            let c = messages.len() as u64;
            let interchange_control_count =
                if c <= u32::MAX as u64 { c as u32 } else { u32::MAX };
            unz = UnzSegment {
                interchange_control_count,
                interchange_control_reference: unb.control_reference.clone(),
            };
        }
        if self.config.validate_structure {
            match self.validate_interchange(&unb, &unz, messages.len()) {
                Ok(()) => {}
                Err(e) => return Err(e),
            }
        }
        Ok(EdifactInterchange { unb, messages, unz })
    }
}

} // verus!

//! Parse-error collection: error codes, positioned error records and a
//! de-duplicating error log.

use vstd::prelude::*;

use crate::strings::str_eq;

verus! {

/// A position in the input stream: line and column (1-based) and byte offset
/// (0-based).
pub struct Position {
    /// Line number.
    pub line: usize,
    /// Column on the line.
    pub col: usize,
    /// Offset in the input stream.
    pub offset: usize,
}

impl Position {
    /// Create a new position from the byte offset, the line and the column.
    pub fn new(offset: usize, line: usize, col: usize) -> (r: Self)
        ensures
            r.line == line,
            r.col == col,
            r.offset == offset,
    {
        Self { line, col, offset }
    }
}

/// A parse error: a message at a position.
pub struct ParseError {
    /// Parse error message.
    pub message: String,
    /// Line number (1-based) of the error.
    pub line: usize,
    /// Column (1-based) on the line of the error.
    pub col: usize,
    /// Position (0-based) of the error in the input stream.
    pub offset: usize,
}

impl ParseError {
    /// The record as a mathematical tuple: line, column, offset, message.
    pub open spec fn model(&self) -> (usize, usize, usize, Seq<char>) {
        (self.line, self.col, self.offset, self.message@)
    }
}

/// Whether the log already holds an error with this line, column and message.
pub open spec fn spec_has_error(
    errors: Seq<(usize, usize, usize, Seq<char>)>,
    line: usize,
    col: usize,
    message: Seq<char>,
) -> bool {
    exists|i: int|
        0 <= i < errors.len() && errors[i].0 == line && errors[i].1 == col && errors[i].3
            == message
}

/// A log of parse errors.  Adding an error whose line, column and message are
/// already present leaves the log unchanged.
pub struct ErrorLogger {
    /// The errors that occurred during parsing, in order of first arrival.
    errors: Vec<ParseError>,
}

impl ErrorLogger {
    /// The logged records, as mathematical tuples, in order.
    pub closed spec fn model(&self) -> Seq<(usize, usize, usize, Seq<char>)> {
        self.errors@.map_values(|e: ParseError| e.model())
    }

    /// Creates a new, empty error logger.
    pub fn new() -> (r: Self)
        ensures
            r.model() == Seq::<(usize, usize, usize, Seq<char>)>::empty(),
    {
        let r = Self { errors: Vec::new() };
        proof {
            assert(r.model() =~= Seq::<(usize, usize, usize, Seq<char>)>::empty());
        }
        r
    }

    /// Returns a copy of the logged errors.
    pub fn get_errors(&self) -> (r: Vec<ParseError>)
        ensures
            r@.map_values(|e: ParseError| e.model()) == self.model(),
            r@.len() == self.model().len(),
    {
        let mut out: Vec<ParseError> = Vec::new();
        let mut i: usize = 0;
        while i < self.errors.len()
            invariant
                i <= self.errors@.len(),
                out@.len() == i,
                forall|j: int| 0 <= j < i ==> out@[j].model() == #[trigger] self.errors@[j].model(),
            decreases self.errors@.len() - i,
        {
            let e = &self.errors[i];
            out.push(
                ParseError {
                    message: e.message.clone(),
                    line: e.line,
                    col: e.col,
                    offset: e.offset,
                },
            );
            i = i + 1;
        }
        proof {
            assert(out@.map_values(|e: ParseError| e.model()) =~= self.model());
        }
        out
    }

    /// Adds an error to the log, unless an error with the same line, column
    /// and message was logged before.
    pub fn add_error(&mut self, pos: Position, message: &str)
        ensures
            final(self).model() == if spec_has_error(
                old(self).model(),
                pos.line,
                pos.col,
                message@,
            ) {
                old(self).model()
            } else {
                old(self).model().push((pos.line, pos.col, pos.offset, message@))
            },
    {
        let ghost m0 = self.model();
        let mut i: usize = 0;
        while i < self.errors.len()
            invariant
                self.model() == m0,
                i <= self.errors@.len(),
                m0.len() == self.errors@.len(),
                forall|j: int| 0 <= j < self.errors@.len() ==> m0[j] == #[trigger] self.errors@[j].model(),
                forall|j: int|
                    0 <= j < i ==> !(m0[j].0 == pos.line && m0[j].1 == pos.col && m0[j].3
                        == message@),
            decreases self.errors@.len() - i,
        {
            let e = &self.errors[i];
            if e.line == pos.line && e.col == pos.col && str_eq(e.message.as_str(), message) {
                proof {
                    assert(m0[i as int] == self.errors@[i as int].model());
                    assert(m0[i as int].0 == pos.line && m0[i as int].1 == pos.col && m0[i as int].3
                        == message@);
                    assert(spec_has_error(m0, pos.line, pos.col, message@));
                }
                return ;
            }
            i = i + 1;
        }
        self.errors.push(
            ParseError {
                message: message.to_owned(),
                line: pos.line,
                col: pos.col,
                offset: pos.offset,
            },
        );
        proof {
            assert(!spec_has_error(m0, pos.line, pos.col, message@));
            assert(self.model() =~= m0.push((pos.line, pos.col, pos.offset, message@)));
        }
    }
}

impl Default for ErrorLogger {
    /// An empty error logger.
    fn default() -> (r: Self)
        ensures
            r.model() == Seq::<(usize, usize, usize, Seq<char>)>::empty(),
    {
        Self::new()
    }
}


/// The possible parser errors, as enumerated by the HTML parsing
/// specification.
pub enum ParserError {
    AbruptDoctypePublicIdentifier,
    AbruptDoctypeSystemIdentifier,
    AbruptClosingOfEmptyComment,
    AbsenceOfDigitsInNumericCharacterReference,
    CdataInHtmlContent,
    CharacterReferenceOutsideUnicodeRange,
    ControlCharacterInInputStream,
    ControlCharacterReference,
    EndTagWithAttributes,
    DuplicateAttribute,
    EndTagWithTrailingSolidus,
    EofBeforeTagName,
    EofInCdata,
    EofInComment,
    EofInDoctype,
    EofInScriptHtmlCommentLikeText,
    EofInTag,
    IncorrectlyClosedComment,
    IncorrectlyOpenedComment,
    InvalidCharacterSequenceAfterDoctypeName,
    InvalidFirstCharacterOfTagName,
    MissingAttributeValue,
    MissingDoctypeName,
    MissingDoctypePublicIdentifier,
    MissingDoctypeSystemIdentifier,
    MissingEndTagName,
    MissingQuoteBeforeDoctypePublicIdentifier,
    MissingQuoteBeforeDoctypeSystemIdentifier,
    MissingSemicolonAfterCharacterReference,
    MissingWhitespaceAfterDoctypePublicKeyword,
    MissingWhitespaceAfterDoctypeSystemKeyword,
    MissingWhitespaceBeforeDoctypeName,
    MissingWhitespaceBetweenAttributes,
    MissingWhitespaceBetweenDoctypePublicAndSystemIdentifiers,
    NestedComment,
    NoncharacterCharacterReference,
    NoncharacterInInputStream,
    NonVoidHtmlElementStartTagWithTrailingSolidus,
    NullCharacterReference,
    SurrogateCharacterReference,
    SurrogateInInputStream,
    UnexpectedCharacterAfterDoctypeSystemIdentifier,
    UnexpectedCharacterInAttributeName,
    UnexpectedCharacterInUnquotedAttributeValue,
    UnexpectedEqualsSignBeforeAttributeName,
    UnexpectedNullCharacter,
    UnexpectedQuestionMarkInsteadOfTagName,
    UnexpectedSolidusInTag,
    UnknownNamedCharacterReference,
    ExpectedDocTypeButGotChars,
    ExpectedDocTypeButGotStartTag,
    ExpectedDocTypeButGotEndTag,
}

impl ParserError {
    /// The specification name of the error, as a character sequence.
    pub open spec fn spec_str(&self) -> Seq<char> {
        match self {
            Self::AbruptDoctypePublicIdentifier => "abrupt-doctype-public-identifier"@,
            Self::AbruptDoctypeSystemIdentifier => "abrupt-doctype-system-identifier"@,
            Self::AbruptClosingOfEmptyComment => "abrupt-closing-of-empty-comment"@,
            Self::AbsenceOfDigitsInNumericCharacterReference => "absence-of-digits-in-numeric-character-reference"@,
            Self::CdataInHtmlContent => "cdata-in-html-content"@,
            Self::CharacterReferenceOutsideUnicodeRange => "character-reference-outside-unicode-range"@,
            Self::ControlCharacterInInputStream => "control-character-in-input-stream"@,
            Self::ControlCharacterReference => "control-character-reference"@,
            Self::EndTagWithAttributes => "end-tag-with-attributes"@,
            Self::DuplicateAttribute => "duplicate-attribute"@,
            Self::EndTagWithTrailingSolidus => "end-tag-with-trailing-solidus"@,
            Self::EofBeforeTagName => "eof-before-tag-name"@,
            Self::EofInCdata => "eof-in-cdata"@,
            Self::EofInComment => "eof-in-comment"@,
            Self::EofInDoctype => "eof-in-doctype"@,
            Self::EofInScriptHtmlCommentLikeText => "eof-in-script-html-comment-like-text"@,
            Self::EofInTag => "eof-in-tag"@,
            Self::IncorrectlyClosedComment => "incorrectly-closed-comment"@,
            Self::IncorrectlyOpenedComment => "incorrectly-opened-comment"@,
            Self::InvalidCharacterSequenceAfterDoctypeName => "invalid-character-sequence-after-doctype-name"@,
            Self::InvalidFirstCharacterOfTagName => "invalid-first-character-of-tag-name"@,
            Self::MissingAttributeValue => "missing-attribute-value"@,
            Self::MissingDoctypeName => "missing-doctype-name"@,
            Self::MissingDoctypePublicIdentifier => "missing-doctype-public-identifier"@,
            Self::MissingDoctypeSystemIdentifier => "missing-doctype-system-identifier"@,
            Self::MissingEndTagName => "missing-end-tag-name"@,
            Self::MissingQuoteBeforeDoctypePublicIdentifier => "missing-quote-before-doctype-public-identifier"@,
            Self::MissingQuoteBeforeDoctypeSystemIdentifier => "missing-quote-before-doctype-system-identifier"@,
            Self::MissingSemicolonAfterCharacterReference => "missing-semicolon-after-character-reference"@,
            Self::MissingWhitespaceAfterDoctypePublicKeyword => "missing-whitespace-after-doctype-public-keyword"@,
            Self::MissingWhitespaceAfterDoctypeSystemKeyword => "missing-whitespace-after-doctype-system-keyword"@,
            Self::MissingWhitespaceBeforeDoctypeName => "missing-whitespace-before-doctype-name"@,
            Self::MissingWhitespaceBetweenAttributes => "missing-whitespace-between-attributes"@,
            Self::MissingWhitespaceBetweenDoctypePublicAndSystemIdentifiers => "missing-whitespace-between-doctype-public-and-system-identifiers"@,
            Self::NestedComment => "nested-comment"@,
            Self::NoncharacterCharacterReference => "noncharacter-character-reference"@,
            Self::NoncharacterInInputStream => "noncharacter-in-input-stream"@,
            Self::NonVoidHtmlElementStartTagWithTrailingSolidus => "non-void-html-element-start-tag-with-trailing-solidus"@,
            Self::NullCharacterReference => "null-character-reference"@,
            Self::SurrogateCharacterReference => "surrogate-character-reference"@,
            Self::SurrogateInInputStream => "surrogate-in-input-stream"@,
            Self::UnexpectedCharacterAfterDoctypeSystemIdentifier => "unexpected-character-after-doctype-system-identifier"@,
            Self::UnexpectedCharacterInAttributeName => "unexpected-character-in-attribute-name"@,
            Self::UnexpectedCharacterInUnquotedAttributeValue => "unexpected-character-in-unquoted-attribute-value"@,
            Self::UnexpectedEqualsSignBeforeAttributeName => "unexpected-equals-sign-before-attribute-name"@,
            Self::UnexpectedNullCharacter => "unexpected-null-character"@,
            Self::UnexpectedQuestionMarkInsteadOfTagName => "unexpected-question-mark-instead-of-tag-name"@,
            Self::UnexpectedSolidusInTag => "unexpected-solidus-in-tag"@,
            Self::UnknownNamedCharacterReference => "unknown-named-character-reference"@,
            Self::ExpectedDocTypeButGotChars => "expected-doctype-but-got-chars"@,
            Self::ExpectedDocTypeButGotStartTag => "expected-doctype-but-got-start-tag"@,
            Self::ExpectedDocTypeButGotEndTag => "expected-doctype-but-got-end-tag"@,
        }
    }

    /// The specification name of the error.
    pub fn as_str(&self) -> (r: &'static str)
        ensures
            r@ == self.spec_str(),
    {
        match self {
            Self::AbruptDoctypePublicIdentifier => "abrupt-doctype-public-identifier",
            Self::AbruptDoctypeSystemIdentifier => "abrupt-doctype-system-identifier",
            Self::AbruptClosingOfEmptyComment => "abrupt-closing-of-empty-comment",
            Self::AbsenceOfDigitsInNumericCharacterReference => "absence-of-digits-in-numeric-character-reference",
            Self::CdataInHtmlContent => "cdata-in-html-content",
            Self::CharacterReferenceOutsideUnicodeRange => "character-reference-outside-unicode-range",
            Self::ControlCharacterInInputStream => "control-character-in-input-stream",
            Self::ControlCharacterReference => "control-character-reference",
            Self::EndTagWithAttributes => "end-tag-with-attributes",
            Self::DuplicateAttribute => "duplicate-attribute",
            Self::EndTagWithTrailingSolidus => "end-tag-with-trailing-solidus",
            Self::EofBeforeTagName => "eof-before-tag-name",
            Self::EofInCdata => "eof-in-cdata",
            Self::EofInComment => "eof-in-comment",
            Self::EofInDoctype => "eof-in-doctype",
            Self::EofInScriptHtmlCommentLikeText => "eof-in-script-html-comment-like-text",
            Self::EofInTag => "eof-in-tag",
            Self::IncorrectlyClosedComment => "incorrectly-closed-comment",
            Self::IncorrectlyOpenedComment => "incorrectly-opened-comment",
            Self::InvalidCharacterSequenceAfterDoctypeName => "invalid-character-sequence-after-doctype-name",
            Self::InvalidFirstCharacterOfTagName => "invalid-first-character-of-tag-name",
            Self::MissingAttributeValue => "missing-attribute-value",
            Self::MissingDoctypeName => "missing-doctype-name",
            Self::MissingDoctypePublicIdentifier => "missing-doctype-public-identifier",
            Self::MissingDoctypeSystemIdentifier => "missing-doctype-system-identifier",
            Self::MissingEndTagName => "missing-end-tag-name",
            Self::MissingQuoteBeforeDoctypePublicIdentifier => "missing-quote-before-doctype-public-identifier",
            Self::MissingQuoteBeforeDoctypeSystemIdentifier => "missing-quote-before-doctype-system-identifier",
            Self::MissingSemicolonAfterCharacterReference => "missing-semicolon-after-character-reference",
            Self::MissingWhitespaceAfterDoctypePublicKeyword => "missing-whitespace-after-doctype-public-keyword",
            Self::MissingWhitespaceAfterDoctypeSystemKeyword => "missing-whitespace-after-doctype-system-keyword",
            Self::MissingWhitespaceBeforeDoctypeName => "missing-whitespace-before-doctype-name",
            Self::MissingWhitespaceBetweenAttributes => "missing-whitespace-between-attributes",
            Self::MissingWhitespaceBetweenDoctypePublicAndSystemIdentifiers => "missing-whitespace-between-doctype-public-and-system-identifiers",
            Self::NestedComment => "nested-comment",
            Self::NoncharacterCharacterReference => "noncharacter-character-reference",
            Self::NoncharacterInInputStream => "noncharacter-in-input-stream",
            Self::NonVoidHtmlElementStartTagWithTrailingSolidus => "non-void-html-element-start-tag-with-trailing-solidus",
            Self::NullCharacterReference => "null-character-reference",
            Self::SurrogateCharacterReference => "surrogate-character-reference",
            Self::SurrogateInInputStream => "surrogate-in-input-stream",
            Self::UnexpectedCharacterAfterDoctypeSystemIdentifier => "unexpected-character-after-doctype-system-identifier",
            Self::UnexpectedCharacterInAttributeName => "unexpected-character-in-attribute-name",
            Self::UnexpectedCharacterInUnquotedAttributeValue => "unexpected-character-in-unquoted-attribute-value",
            Self::UnexpectedEqualsSignBeforeAttributeName => "unexpected-equals-sign-before-attribute-name",
            Self::UnexpectedNullCharacter => "unexpected-null-character",
            Self::UnexpectedQuestionMarkInsteadOfTagName => "unexpected-question-mark-instead-of-tag-name",
            Self::UnexpectedSolidusInTag => "unexpected-solidus-in-tag",
            Self::UnknownNamedCharacterReference => "unknown-named-character-reference",
            Self::ExpectedDocTypeButGotChars => "expected-doctype-but-got-chars",
            Self::ExpectedDocTypeButGotStartTag => "expected-doctype-but-got-start-tag",
            Self::ExpectedDocTypeButGotEndTag => "expected-doctype-but-got-end-tag",
        }
    }
}

} // verus!

//! Revisions of a document.
//!
//! A revision is written `<sequence>-<digest>`: a decimal number that counts
//! the changes of the document from one on, a dash, and a digest of 32
//! hexadecimal digits. Revisions are ordered by their number first and by
//! their digest second.

use crate::error::{ChillError, ErrorView, RevisionFault, RevisionParseErrorKind};
use crate::text::{
    all_decimal_digits, all_hex_digits, char_count, decimal_text, decimal_value, find_char,
    index_of, index_of_from, is_all_hex, is_decimal_digit, is_u64_numeral,
    lemma_decimal_text_digits, lemma_decimal_value_of_text,
    lemma_lex_less_irreflexive, lemma_lex_less_transitive, lemma_lex_less_trichotomy, lex_less,
    parse_u64, same_text, text_less, u64_to_decimal, without_plus,
};
use core::cmp::Ordering;
use vstd::prelude::*;
use vstd::std_specs::cmp::{PartialEqSpec, PartialOrdSpec};
use vstd::string::*;

verus! {

/// The number of hexadecimal digits of a digest.
pub const DIGEST_LENGTH: usize = 32;

/// The revision of a document: which change of the document it is, and a
/// digest of the content after that change.
#[derive(Debug, Eq, Ord, Hash)]
pub struct RevisionId {
    sequence: u64,
    digest: String,
}

/// What a revision holds, as plain values.
pub struct RevisionIdView {
    /// The number of the change, from one on.
    pub sequence: u64,
    /// The digest, as it was written.
    pub digest: Seq<char>,
}

/// `digest` is a digest: 32 hexadecimal digits, of either case.
pub open spec fn is_digest(digest: Seq<char>) -> bool {
    digest.len() == DIGEST_LENGTH && all_hex_digits(digest)
}

/// `revision` is a revision: its number is at least one and its digest is a
/// digest.
pub open spec fn is_revision(revision: RevisionIdView) -> bool {
    revision.sequence >= 1 && is_digest(revision.digest)
}

/// The text of a revision: its number in decimal, a dash, and its digest.
pub open spec fn format_revision(revision: RevisionIdView) -> Seq<char> {
    decimal_text(revision.sequence as nat) + seq!['-'] + revision.digest
}

/// What the digest of a new revision is checked for, in this order.
pub open spec fn check_digest(digest: Seq<char>) -> Option<RevisionFault> {
    if !all_hex_digits(digest) {
        Some(RevisionFault::DigestNotAllHex)
    } else if digest.len() != DIGEST_LENGTH {
        Some(RevisionFault::DigestParse)
    } else {
        None
    }
}

/// The revision that `text` stands for, or the first rule that it breaks.
/// The text is split at its first dash. The part before it must be a number
/// that `u64` holds, and not zero; the part after it must be a digest.
pub open spec fn parse_revision(text: Seq<char>) -> Result<RevisionIdView, RevisionFault> {
    let dash = index_of(text, '-');
    let number = text.subrange(0, dash);
    let digest = text.subrange(dash + 1, text.len() as int);
    if dash >= text.len() {
        Err(RevisionFault::TooFewParts)
    } else if !is_u64_numeral(number) {
        Err(RevisionFault::NumberParse)
    } else if decimal_value(without_plus(number)) == 0 {
        Err(RevisionFault::ZeroSequenceNumber)
    } else {
        match check_digest(digest) {
            Some(fault) => Err(fault),
            None => Ok(
                RevisionIdView { sequence: decimal_value(without_plus(number)) as u64, digest },
            ),
        }
    }
}

/// `a` comes strictly before `b`: its number is smaller, or the numbers are
/// the same and its digest comes first in lexicographic order.
pub open spec fn revision_less(a: RevisionIdView, b: RevisionIdView) -> bool {
    a.sequence < b.sequence || (a.sequence == b.sequence && lex_less(a.digest, b.digest))
}

/// Asks `uuid` whether a digest is an identifier, with
/// `uuid::Uuid::parse_str`. That function accepts four forms: 32
/// hexadecimal digits; 36 characters with dashes; the same in braces; the
/// same after `urn:uuid:`. Each but the first needs a character that is no
/// hexadecimal digit, so of a text of hexadecimal digits it accepts exactly
/// those of length 32.
#[verifier::external_body]
fn uuid_parse(digest: &str) -> (r: Result<(), uuid::Error>)
    requires
        all_hex_digits(digest@),
    ensures
        r is Ok <==> digest@.len() == DIGEST_LENGTH,
{
    uuid::Uuid::parse_str(digest).map(|_| ())
}

impl View for RevisionId {
    type V = RevisionIdView;

    closed spec fn view(&self) -> RevisionIdView {
        RevisionIdView { sequence: self.sequence, digest: self.digest@ }
    }
}

impl RevisionId {
    #[verifier::type_invariant]
    spec fn well_formed(self) -> bool {
        is_revision(self@)
    }

    /// Checks a digest, and makes the revision if the digest is one.
    fn with_digest(sequence: u64, digest: &str) -> (r: Result<RevisionId, ChillError>)
        requires
            sequence >= 1,
        ensures
            match r {
                Ok(revision) => check_digest(digest@) is None && revision@ == (RevisionIdView {
                    sequence,
                    digest: digest@,
                }),
                Err(e) => e@ matches ErrorView::RevisionParse(fault) && check_digest(digest@)
                    == Some(fault),
            },
    {
        if !is_all_hex(digest) {
            return Err(
                ChillError::RevisionParse { kind: RevisionParseErrorKind::DigestNotAllHex },
            );
        }
        match uuid_parse(digest) {
            Err(cause) => Err(
                ChillError::RevisionParse { kind: RevisionParseErrorKind::DigestParse(cause) },
            ),
            Ok(_) => Ok(RevisionId { sequence, digest: String::from_str(digest) }),
        }
    }

    /// Makes a revision from its number and its digest, which are checked as
    /// `parse` checks them.
    pub fn new(sequence: u64, digest: &str) -> (r: Result<RevisionId, ChillError>)
        ensures
            match r {
                Ok(revision) => revision@ == (RevisionIdView { sequence, digest: digest@ })
                    && is_revision(revision@),
                Err(e) => e@ matches ErrorView::RevisionParse(fault) && fault == (if sequence
                    == 0 {
                    RevisionFault::ZeroSequenceNumber
                } else if !all_hex_digits(digest@) {
                    RevisionFault::DigestNotAllHex
                } else {
                    RevisionFault::DigestParse
                }) && !is_revision(RevisionIdView { sequence, digest: digest@ }),
            },
    {
        if sequence == 0 {
            return Err(
                ChillError::RevisionParse { kind: RevisionParseErrorKind::ZeroSequenceNumber },
            );
        }
        RevisionId::with_digest(sequence, digest)
    }

    /// Reads a revision from its text.
    pub fn parse(text: &str) -> (r: Result<RevisionId, ChillError>)
        ensures
            match r {
                Ok(revision) => parse_revision(text@) matches Ok(read) && read == revision@,
                Err(e) => e@ matches ErrorView::RevisionParse(fault) && parse_revision(text@)
                    matches Err(broken) && broken == fault,
            },
    {
        let length = char_count(text);
        let dash = match find_char(text, '-') {
            None => {
                return Err(
                    ChillError::RevisionParse { kind: RevisionParseErrorKind::TooFewParts },
                );
            },
            Some(dash) => dash,
        };
        let number = text.substring_char(0, dash);
        let digest = text.substring_char(dash + 1, length);
        let sequence = match parse_u64(number) {
            Err(cause) => {
                return Err(
                    ChillError::RevisionParse { kind: RevisionParseErrorKind::NumberParse(cause) },
                );
            },
            Ok(sequence) => sequence,
        };
        if sequence == 0 {
            return Err(
                ChillError::RevisionParse { kind: RevisionParseErrorKind::ZeroSequenceNumber },
            );
        }
        RevisionId::with_digest(sequence, digest)
    }

    /// The number of the change, from one on.
    pub fn sequence(&self) -> (r: u64)
        ensures
            r == self@.sequence,
            r >= 1,
    {
        proof {
            use_type_invariant(self);
        }
        self.sequence
    }

    /// The digest, as it was written.
    pub fn digest(&self) -> (r: &str)
        ensures
            r@ == self@.digest,
            is_digest(r@),
    {
        proof {
            use_type_invariant(self);
        }
        self.digest.as_str()
    }

    /// The text of the revision, which `parse` reads back as this revision.
    pub fn format(&self) -> (r: String)
        ensures
            r@ == format_revision(self@),
            parse_revision(r@) matches Ok(read) && read == self@,
    {
        proof {
            use_type_invariant(self);
            law_parse_format(self@);
        }
        let mut text = u64_to_decimal(self.sequence);
        text.append("-");
        text.append(self.digest.as_str());
        proof {
            reveal_strlit("-");
            assert("-"@ =~= seq!['-']);
        }
        text
    }

    /// Tells whether this revision comes strictly before `other`.
    pub fn is_before(&self, other: &RevisionId) -> (r: bool)
        ensures
            r == revision_less(self@, other@),
    {
        if self.sequence != other.sequence {
            self.sequence < other.sequence
        } else {
            text_less(self.digest.as_str(), other.digest.as_str())
        }
    }

    /// Tells whether this revision and `other` are the same revision.
    pub fn is_same(&self, other: &RevisionId) -> (r: bool)
        ensures
            r == (self@ == other@),
    {
        self.sequence == other.sequence && same_text(self.digest.as_str(), other.digest.as_str())
    }
}

impl Clone for RevisionId {
    fn clone(&self) -> (r: Self)
        ensures
            r@ == self@,
    {
        proof {
            use_type_invariant(self);
        }
        RevisionId { sequence: self.sequence, digest: self.digest.clone() }
    }
}

impl PartialEq for RevisionId {
    fn eq(&self, other: &Self) -> (r: bool) {
        self.is_same(other)
    }
}

impl vstd::std_specs::cmp::PartialEqSpecImpl for RevisionId {
    open spec fn obeys_eq_spec() -> bool {
        true
    }

    open spec fn eq_spec(&self, other: &Self) -> bool {
        self@ == other@
    }
}

impl PartialOrd for RevisionId {
    fn partial_cmp(&self, other: &Self) -> (r: Option<Ordering>) {
        if self.is_before(other) {
            Some(Ordering::Less)
        } else if other.is_before(self) {
            Some(Ordering::Greater)
        } else {
            Some(Ordering::Equal)
        }
    }
}

impl vstd::std_specs::cmp::PartialOrdSpecImpl for RevisionId {
    open spec fn obeys_partial_cmp_spec() -> bool {
        true
    }

    open spec fn partial_cmp_spec(&self, other: &Self) -> Option<Ordering> {
        if revision_less(self@, other@) {
            Some(Ordering::Less)
        } else if revision_less(other@, self@) {
            Some(Ordering::Greater)
        } else {
            Some(Ordering::Equal)
        }
    }
}

/// A decimal numeral holds no dash, so the first dash of a numeral that is
/// followed by a dash is that dash.
proof fn lemma_first_dash(number: Seq<char>, rest: Seq<char>, from: int)
    requires
        all_decimal_digits(number),
        0 <= from <= number.len(),
    ensures
        index_of_from(number + seq!['-'] + rest, '-', from) == number.len(),
    decreases number.len() - from,
{
    let text = number + seq!['-'] + rest;
    if from < number.len() {
        assert(text[from] == number[from]);
        assert(is_decimal_digit(number[from]));
        lemma_first_dash(number, rest, from + 1);
    } else {
        assert(text[from] == '-');
    }
}

/// Reading the text of a revision gives the revision back: for every number
/// from one on and every digest, `parse` of `format` is the identity.
pub proof fn law_parse_format(revision: RevisionIdView)
    requires
        is_revision(revision),
    ensures
        parse_revision(format_revision(revision)) matches Ok(read) && read == revision,
{
    let number = decimal_text(revision.sequence as nat);
    let text = format_revision(revision);
    lemma_decimal_text_digits(revision.sequence as nat);
    lemma_decimal_value_of_text(revision.sequence as nat);
    lemma_first_dash(number, revision.digest, 0);
    let dash = index_of(text, '-');
    assert(dash == number.len());
    assert(text.subrange(0, dash) =~= number);
    assert(text.subrange(dash + 1, text.len() as int) =~= revision.digest);
    assert(is_decimal_digit(number[0]));
    assert(without_plus(number) == number);
}

/// What `parse` accepts is a revision, and writing and reading it again
/// does not change it: no round trip through the text changes a revision.
pub proof fn law_parse_accepts_revisions_only(text: Seq<char>)
    ensures
        parse_revision(text) matches Ok(revision) ==> is_revision(revision) && parse_revision(
            format_revision(revision),
        ) == parse_revision(text),
{
    let dash = index_of(text, '-');
    let number = text.subrange(0, dash);
    if let Ok(revision) = parse_revision(text) {
        assert(decimal_value(without_plus(number)) <= u64::MAX);
        law_parse_format(revision);
    }
}

/// A revision with a smaller number comes first, whatever the digests are.
pub proof fn law_order_by_sequence(a: RevisionIdView, b: RevisionIdView)
    requires
        a.sequence < b.sequence,
    ensures
        revision_less(a, b),
        !revision_less(b, a),
{
}

/// Of two revisions with the same number, the one whose digest comes first
/// in lexicographic order comes first.
pub proof fn law_order_by_digest(a: RevisionIdView, b: RevisionIdView)
    requires
        a.sequence == b.sequence,
    ensures
        revision_less(a, b) == lex_less(a.digest, b.digest),
{
}

/// The operators `<` and `==` on revisions are the order and the equality
/// of what the revisions hold, and they agree: two revisions compare as
/// equal exactly if they are the same.
pub proof fn law_operators(a: RevisionId, b: RevisionId)
    ensures
        a.partial_cmp_spec(&b) == Some(Ordering::Less) <==> revision_less(a@, b@),
        a.partial_cmp_spec(&b) == Some(Ordering::Greater) <==> revision_less(b@, a@),
        a.partial_cmp_spec(&b) == Some(Ordering::Equal) <==> a@ == b@,
        a.eq_spec(&b) <==> a@ == b@,
{
    law_order_total(a@, b@);
}

/// The order of revisions is total: of two revisions exactly one of three
/// holds, the first comes before the second, they are the same, or the
/// second comes before the first.
pub proof fn law_order_total(a: RevisionIdView, b: RevisionIdView)
    ensures
        revision_less(a, b) || a == b || revision_less(b, a),
        !(revision_less(a, b) && revision_less(b, a)),
        !revision_less(a, a),
{
    lemma_lex_less_trichotomy(a.digest, b.digest, 0);
    lemma_lex_less_irreflexive(a.digest, 0);
}

/// The order of revisions is transitive.
pub proof fn law_order_transitive(a: RevisionIdView, b: RevisionIdView, c: RevisionIdView)
    requires
        revision_less(a, b),
        revision_less(b, c),
    ensures
        revision_less(a, c),
{
    if a.sequence == b.sequence && b.sequence == c.sequence {
        lemma_lex_less_transitive(a.digest, b.digest, c.digest, 0);
    }
}

} // verus!

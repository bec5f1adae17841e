//! Passphrase analysis and generation, done by the `passwords` crate: the
//! counts of an analysis, the settings of a generator, and the choice among
//! the generated passphrases.

use vstd::prelude::*;

use crate::error::StoreError;
use crate::text::views;

verus! {

/// The counts of characters of an analysed passphrase.
#[derive(Debug, Clone, Copy, PartialEq, Eq, Structural)]
pub struct PassphraseCounts {
    pub length: usize,
    pub spaces: usize,
    pub numbers: usize,
    pub lowercase_letters: usize,
    pub uppercase_letters: usize,
    pub symbols: usize,
    pub other_characters: usize,
    pub consecutive: usize,
    pub non_consecutive: usize,
}

/// What `passwords::analyzer::analyze` finds in a passphrase.
pub uninterp spec fn analysis_of(passphrase: Seq<char>) -> PassphraseCounts;

/// A control character (Unicode general category Cc).
pub open spec fn is_control_char(c: char) -> bool {
    (c as u32) <= 0x1f || (0x7f <= (c as u32) && (c as u32) <= 0x9f)
}

/// An ASCII digit.
pub open spec fn is_number_char(c: char) -> bool {
    48 <= (c as u32) && (c as u32) <= 57
}

/// An ASCII capital letter.
pub open spec fn is_uppercase_char(c: char) -> bool {
    65 <= (c as u32) && (c as u32) <= 90
}

/// An ASCII small letter.
pub open spec fn is_lowercase_char(c: char) -> bool {
    97 <= (c as u32) && (c as u32) <= 122
}

/// The space character.
pub open spec fn is_space_char(c: char) -> bool {
    (c as u32) == 32
}

/// An ASCII punctuation character.
pub open spec fn is_symbol_char(c: char) -> bool {
    let u = c as u32;
    (33 <= u && u <= 47) || (58 <= u && u <= 64) || (91 <= u && u <= 96) || (123 <= u && u
        <= 126)
}

/// A character that is none of the kinds above.
pub open spec fn is_other_char(c: char) -> bool {
    !is_number_char(c) && !is_uppercase_char(c) && !is_lowercase_char(c) && !is_space_char(c)
        && !is_symbol_char(c)
}

/// The characters of a passphrase that an analysis looks at: all but the
/// control characters.
pub open spec fn analysed_chars(p: Seq<char>) -> Seq<char> {
    p.filter(|c: char| !is_control_char(c))
}

/// Analyses a passphrase.
///
/// Calls `passwords::analyzer::analyze`. Its result is named
/// `analysis_of`; besides, as its source shows, control characters are
/// skipped and the length and the counts of digits, capitals, small
/// letters, spaces, punctuation and other characters count the remaining
/// characters of each kind. The counts of repeated characters are only
/// named.
#[verifier::external_body]
fn analyze_counts(passphrase: &str) -> (res: PassphraseCounts)
    ensures
        res == analysis_of(passphrase@),
        res.length == analysed_chars(passphrase@).len(),
        res.numbers == analysed_chars(passphrase@).filter(|c: char| is_number_char(c)).len(),
        res.uppercase_letters == analysed_chars(passphrase@).filter(
            |c: char| is_uppercase_char(c),
        ).len(),
        res.lowercase_letters == analysed_chars(passphrase@).filter(
            |c: char| is_lowercase_char(c),
        ).len(),
        res.spaces == analysed_chars(passphrase@).filter(|c: char| is_space_char(c)).len(),
        res.symbols == analysed_chars(passphrase@).filter(|c: char| is_symbol_char(c)).len(),
        res.other_characters == analysed_chars(passphrase@).filter(|c: char| is_other_char(c)).len(),
{
    let a = passwords::analyzer::analyze(passphrase);
    PassphraseCounts {
        length: a.length(),
        spaces: a.spaces_count(),
        numbers: a.numbers_count(),
        lowercase_letters: a.lowercase_letters_count(),
        uppercase_letters: a.uppercase_letters_count(),
        symbols: a.symbols_count(),
        other_characters: a.other_characters_count(),
        consecutive: a.consecutive_count(),
        non_consecutive: a.non_consecutive_count(),
    }
}

/// An analysed passphrase.
#[derive(Debug, Clone, Copy)]
pub struct AnalyzedPassphrase {
    counts: PassphraseCounts,
}

impl AnalyzedPassphrase {
    /// The counts of the analysis.
    pub closed spec fn counts(&self) -> PassphraseCounts {
        self.counts
    }

    /// Analyses `passphrase`.
    pub fn new(passphrase: &str) -> (res: Self)
        ensures
            res.counts() == analysis_of(passphrase@),
            res.counts().length == analysed_chars(passphrase@).len(),
            res.counts().numbers == analysed_chars(passphrase@).filter(
                |c: char| is_number_char(c),
            ).len(),
            res.counts().uppercase_letters == analysed_chars(passphrase@).filter(
                |c: char| is_uppercase_char(c),
            ).len(),
            res.counts().lowercase_letters == analysed_chars(passphrase@).filter(
                |c: char| is_lowercase_char(c),
            ).len(),
            res.counts().spaces == analysed_chars(passphrase@).filter(
                |c: char| is_space_char(c),
            ).len(),
            res.counts().symbols == analysed_chars(passphrase@).filter(
                |c: char| is_symbol_char(c),
            ).len(),
            res.counts().other_characters == analysed_chars(passphrase@).filter(
                |c: char| is_other_char(c),
            ).len(),
    {
        AnalyzedPassphrase { counts: analyze_counts(passphrase) }
    }

    /// The number of characters looked at.
    pub fn length(&self) -> (res: usize)
        ensures
            res == self.counts().length,
    {
        self.counts.length
    }

    /// The number of spaces.
    pub fn space_count(&self) -> (res: usize)
        ensures
            res == self.counts().spaces,
    {
        self.counts.spaces
    }

    /// The number of digits.
    pub fn numbers_count(&self) -> (res: usize)
        ensures
            res == self.counts().numbers,
    {
        self.counts.numbers
    }

    /// The number of small letters.
    pub fn lowercase_letters_count(&self) -> (res: usize)
        ensures
            res == self.counts().lowercase_letters,
    {
        self.counts.lowercase_letters
    }

    /// The number of capital letters.
    pub fn uppercase_letters_count(&self) -> (res: usize)
        ensures
            res == self.counts().uppercase_letters,
    {
        self.counts.uppercase_letters
    }

    /// The number of punctuation characters.
    pub fn symbols_count(&self) -> (res: usize)
        ensures
            res == self.counts().symbols,
    {
        self.counts.symbols
    }

    /// The number of other characters.
    pub fn other_characters_count(&self) -> (res: usize)
        ensures
            res == self.counts().other_characters,
    {
        self.counts.other_characters
    }

    /// The number of characters repeated right after themselves.
    pub fn consecutive_count(&self) -> (res: usize)
        ensures
            res == self.counts().consecutive,
    {
        self.counts.consecutive
    }

    /// The number of repeated characters that do not follow themselves.
    pub fn non_consecutive_count(&self) -> (res: usize)
        ensures
            res == self.counts().non_consecutive,
    {
        self.counts.non_consecutive
    }
}

/// The analysis of an optional passphrase.
pub fn analyze_optional(passphrase: Option<&str>) -> (res: Option<AnalyzedPassphrase>)
    ensures
        match passphrase {
            Some(p) => res.is_some() && res.unwrap().counts() == analysis_of(p@),
            None => res.is_none(),
        },
{
    match passphrase {
        Some(p) => Some(AnalyzedPassphrase::new(p)),
        None => None,
    }
}

/// The settings of a passphrase generator.
#[derive(Debug, Clone, Copy, PartialEq, Eq, Structural)]
pub struct PassphraseGenerator {
    pub length: usize,
    pub numbers: bool,
    pub lowercase_letters: bool,
    pub uppercase_letters: bool,
    pub symbols: bool,
    pub spaces: bool,
    pub exclude_similar_characters: bool,
    pub strict: bool,
}

/// Characters left out when similar looking characters are excluded.
pub open spec fn is_similar_char(c: char) -> bool {
    c == '0' || c == '1' || c == 'i' || c == 'l' || c == 'o' || c == 'I' || c == 'O' || c == '"'
        || c == '\'' || c == '`' || c == '|'
}

/// A character that the settings let a generated passphrase hold.
pub open spec fn allowed_char(g: PassphraseGenerator, c: char) -> bool {
    &&& (g.numbers && is_number_char(c)) || (g.lowercase_letters && is_lowercase_char(c)) || (
    g.uppercase_letters && is_uppercase_char(c)) || (g.symbols && is_symbol_char(c)) || (g.spaces
        && is_space_char(c))
    &&& !(g.exclude_similar_characters && is_similar_char(c))
}

/// A passphrase holds a character of each kind that strict settings ask
/// for.
pub open spec fn covers_kinds(g: PassphraseGenerator, p: Seq<char>) -> bool {
    &&& g.numbers ==> exists|i: int| 0 <= i < p.len() && is_number_char(#[trigger] p[i])
    &&& g.lowercase_letters ==> exists|i: int| 0 <= i < p.len() && is_lowercase_char(#[trigger] p[i])
    &&& g.uppercase_letters ==> exists|i: int| 0 <= i < p.len() && is_uppercase_char(#[trigger] p[i])
    &&& g.symbols ==> exists|i: int| 0 <= i < p.len() && is_symbol_char(#[trigger] p[i])
    &&& g.spaces ==> exists|i: int| 0 <= i < p.len() && is_space_char(#[trigger] p[i])
}

/// The number of kinds of characters the settings enable.
pub open spec fn kinds_enabled(g: PassphraseGenerator) -> int {
    (if g.numbers { 1int } else { 0 }) + (if g.lowercase_letters { 1int } else { 0 }) + (
    if g.uppercase_letters { 1int } else { 0 }) + (if g.symbols { 1int } else { 0 }) + (
    if g.spaces { 1int } else { 0 })
}

/// The refusal of the settings, where they are refused.
pub open spec fn generator_refusal(g: PassphraseGenerator) -> Option<Seq<char>> {
    if g.length == 0 {
        Some("The length of passwords cannot be 0."@)
    } else if kinds_enabled(g) == 0 {
        Some("You need to enable at least one kind of characters."@)
    } else if g.strict && g.length < kinds_enabled(g) {
        Some("The length of passwords is too short."@)
    } else {
        None
    }
}

/// A generated passphrase fits the settings.
pub open spec fn fits_settings(g: PassphraseGenerator, p: Seq<char>) -> bool {
    &&& p.len() == g.length
    &&& forall|i: int| 0 <= i < p.len() ==> allowed_char(g, #[trigger] p[i])
    &&& g.strict ==> covers_kinds(g, p)
}

/// Generates `count` random passphrases with the settings `g`.
///
/// Calls `passwords::PasswordGenerator::generate`. The passphrases are
/// random; what is claimed is what its source shows of every outcome: the
/// settings are refused, with its message, exactly in the cases of
/// `generator_refusal`, and otherwise there are `count` passphrases, each
/// of the set length, made of enabled characters only, and, with strict
/// settings, holding every enabled kind.
#[verifier::external_body]
fn generate_random(g: PassphraseGenerator, count: usize) -> (res: Result<Vec<String>, String>)
    ensures
        match res {
            Ok(ps) => generator_refusal(g) is None && ps@.len() == count && forall|i: int|
                0 <= i < ps@.len() ==> fits_settings(g, #[trigger] ps@[i]@),
            Err(msg) => generator_refusal(g) == Some(msg@),
        },
{
    let generator = passwords::PasswordGenerator {
        length: g.length,
        numbers: g.numbers,
        lowercase_letters: g.lowercase_letters,
        uppercase_letters: g.uppercase_letters,
        symbols: g.symbols,
        spaces: g.spaces,
        exclude_similar_characters: g.exclude_similar_characters,
        strict: g.strict,
    };
    generator.generate(count).map_err(|e| e.to_string())
}

impl PassphraseGenerator {
    /// The default settings: eight characters of digits and small letters.
    pub fn new() -> (res: Self)
        ensures
            res == (PassphraseGenerator {
                length: 8,
                numbers: true,
                lowercase_letters: true,
                uppercase_letters: false,
                symbols: false,
                spaces: false,
                exclude_similar_characters: false,
                strict: false,
            }),
    {
        PassphraseGenerator {
            length: 8,
            numbers: true,
            lowercase_letters: true,
            uppercase_letters: false,
            symbols: false,
            spaces: false,
            exclude_similar_characters: false,
            strict: false,
        }
    }

    /// Sets the length of the passphrases.
    pub fn length(self, length: usize) -> (res: Self)
        ensures
            res == (Self { length, ..self }),
    {
        Self { length, ..self }
    }

    /// Sets whether digits are used.
    pub fn numbers(self, numbers: bool) -> (res: Self)
        ensures
            res == (Self { numbers, ..self }),
    {
        Self { numbers, ..self }
    }

    /// Sets whether small letters are used.
    pub fn lowercase_letters(self, lowercase_letters: bool) -> (res: Self)
        ensures
            res == (Self { lowercase_letters, ..self }),
    {
        Self { lowercase_letters, ..self }
    }

    /// Sets whether capital letters are used.
    pub fn uppercase_letters(self, uppercase_letters: bool) -> (res: Self)
        ensures
            res == (Self { uppercase_letters, ..self }),
    {
        Self { uppercase_letters, ..self }
    }

    /// Sets whether punctuation is used.
    pub fn symbols(self, symbols: bool) -> (res: Self)
        ensures
            res == (Self { symbols, ..self }),
    {
        Self { symbols, ..self }
    }

    /// Sets whether spaces are used.
    pub fn spaces(self, spaces: bool) -> (res: Self)
        ensures
            res == (Self { spaces, ..self }),
    {
        Self { spaces, ..self }
    }

    /// Sets whether similar looking characters are left out.
    pub fn exclude_similar_characters(self, exclude_similar_characters: bool) -> (res: Self)
        ensures
            res == (Self { exclude_similar_characters, ..self }),
    {
        Self { exclude_similar_characters, ..self }
    }

    /// Sets whether every enabled kind of character must occur.
    pub fn strict(self, strict: bool) -> (res: Self)
        ensures
            res == (Self { strict, ..self }),
    {
        Self { strict, ..self }
    }

    /// Generates `count` passphrases to choose from.
    pub fn generate(self, count: usize) -> (res: Result<GeneratedPassphrases, StoreError>)
        ensures
            match res {
                Ok(g) => generator_refusal(self) is None && g.choices().len() == count && forall|
                    i: int,
                | 0 <= i < g.choices().len() ==> fits_settings(self, #[trigger] g.choices()[i]),
                Err(e) => match generator_refusal(self) {
                    Some(msg) => e matches StoreError::PassphraseGeneration(m) && m@ == msg,
                    None => false,
                },
            },
    {
        match generate_random(self, count) {
            Ok(passwords) => Ok(GeneratedPassphrases { passwords }),
            Err(msg) => Err(StoreError::PassphraseGeneration(msg)),
        }
    }
}

/// Generated passphrases to choose one from.
#[derive(Debug)]
pub struct GeneratedPassphrases {
    passwords: Vec<String>,
}

impl GeneratedPassphrases {
    /// The passphrases, in order.
    pub closed spec fn choices(&self) -> Seq<Seq<char>> {
        views(self.passwords@)
    }

    /// The passphrases with their indices.
    pub fn passphrases(&self) -> (res: Vec<(usize, String)>)
        ensures
            res@.len() == self.choices().len(),
            forall|i: int|
                0 <= i < res@.len() ==> (#[trigger] res@[i]).0 == i && res@[i].1@
                    == self.choices()[i],
    {
        let mut res: Vec<(usize, String)> = Vec::new();
        let mut i: usize = 0;
        while i < self.passwords.len()
            invariant
                i <= self.passwords@.len(),
                res@.len() == i,
                forall|j: int|
                    0 <= j < i ==> (#[trigger] res@[j]).0 == j && res@[j].1@
                        == self.passwords@[j]@,
            decreases self.passwords@.len() - i,
        {
            res.push((i, self.passwords[i].clone()));
            i = i + 1;
        }
        res
    }

    /// The passphrase at `index`, or the error that there is none.
    pub fn select(self, index: usize) -> (res: Result<String, StoreError>)
        ensures
            match res {
                Ok(p) => index < self.choices().len() && p@ == self.choices()[index as int],
                Err(e) => index >= self.choices().len() && (e matches StoreError::PassphraseIndex(i)
                    && i == index),
            },
    {
        if index >= self.passwords.len() {
            return Err(StoreError::PassphraseIndex(index));
        }
        let mut passwords = self.passwords;
        let p = passwords.remove(index);
        Ok(p)
    }
}

} // verus!

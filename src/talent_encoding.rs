//! The encoding configuration of one schema version, and the checks that a
//! loadout string must pass against it.

use vstd::prelude::*;
use vstd::string::*;

use crate::version::Version;

verus! {

/// Why a loadout string does not fit an encoding configuration.
#[derive(Clone, Copy, Debug, PartialEq, Eq, Structural)]
pub enum TalentEncodingError {
    InvalidBase64Charset,
    StringTooShort,
    IncorrectSerializationVersion,
}

/// One schema version: the alphabet whose positions give each character's
/// value, the widths of the header and per-node fields, and the number of bits
/// that each character carries.
#[derive(Debug, PartialEq, Eq)]
pub struct TalentEncoding {
    pub version: Version,
    pub base64_chars: String,
    pub serialization_version: usize,
    pub version_bits: usize,
    pub spec_bits: usize,
    pub tree_bits: usize,
    pub rank_bits: usize,
    pub choice_bits: usize,
    pub byte_size: usize,
}

/// `i` is the first position of `c` in `alphabet`.
pub open spec fn is_first_index(alphabet: Seq<char>, c: char, i: int) -> bool {
    &&& 0 <= i < alphabet.len()
    &&& alphabet[i] == c
    &&& forall|j: int| 0 <= j < i ==> alphabet[j] != c
}

/// The value that character `c` stands for: its first position in `alphabet`.
pub open spec fn symbol_value(alphabet: Seq<char>, c: char) -> int {
    choose|i: int| is_first_index(alphabet, c, i)
}

/// Every character of `s` occurs in `alphabet`.
pub open spec fn in_alphabet(alphabet: Seq<char>, s: Seq<char>) -> bool {
    forall|i: int| 0 <= i < s.len() ==> alphabet.contains(#[trigger] s[i])
}

/// The values of the characters of `s`, one per character.
pub open spec fn symbols_of(alphabet: Seq<char>, s: Seq<char>) -> Seq<usize> {
    s.map_values(|c: char| symbol_value(alphabet, c) as usize)
}

pub proof fn lemma_symbol_value_is_first_index(alphabet: Seq<char>, c: char, i: int)
    requires
        is_first_index(alphabet, c, i),
    ensures
        symbol_value(alphabet, c) == i,
{
    let k = symbol_value(alphabet, c);
    assert(is_first_index(alphabet, c, k));
    if k < i {
        assert(alphabet[k] != c);
    } else if i < k {
        assert(alphabet[i] != c);
    }
}

/// Relies on regex::escape, regex::Regex::new and Regex::is_match: the
/// pattern `[^...]` built from the escaped alphabet is the class of every
/// character outside the alphabet, so a match is a character of `s` that the
/// alphabet lacks. `None` when the pattern does not compile (an empty class).
#[verifier::external_body]
fn regex_finds_char_outside(alphabet: &str, s: &str) -> (r: Option<bool>)
    ensures
        r matches Some(found) ==> (found <==> !in_alphabet(alphabet@, s@)),
{
    let pattern = format!("[^{}]", regex::escape(alphabet));
    match regex::Regex::new(&pattern) {
        Ok(re) => Some(re.is_match(s)),
        Err(_) => None,
    }
}

/// The characters of `s`, in order.
pub fn chars_of(s: &str) -> (r: Vec<char>)
    ensures
        r@ == s@,
{
    let n = s.unicode_len();
    let mut r: Vec<char> = Vec::new();
    let mut i: usize = 0;
    while i < n
        invariant
            n == s@.len(),
            i <= n,
            r@ == s@.subrange(0, i as int),
        decreases n - i,
    {
        r.push(s.get_char(i));
        i += 1;
    }
    assert(r@ == s@);
    r
}

/// The first position of `c` in `alphabet`, if any.
fn position_in(alphabet: &Vec<char>, c: char) -> (r: Option<usize>)
    ensures
        match r {
            Some(i) => is_first_index(alphabet@, c, i as int),
            None => !alphabet@.contains(c),
        },
{
    let mut i: usize = 0;
    while i < alphabet.len()
        invariant
            i <= alphabet@.len(),
            forall|j: int| 0 <= j < i ==> alphabet@[j] != c,
        decreases alphabet@.len() - i,
    {
        if alphabet[i] == c {
            return Some(i);
        }
        i += 1;
    }
    None
}

impl Clone for TalentEncoding {
    fn clone(&self) -> (r: TalentEncoding)
        ensures
            r == *self,
    {
        TalentEncoding {
            version: self.version,
            base64_chars: self.base64_chars.clone(),
            serialization_version: self.serialization_version,
            version_bits: self.version_bits,
            spec_bits: self.spec_bits,
            tree_bits: self.tree_bits,
            rank_bits: self.rank_bits,
            choice_bits: self.choice_bits,
            byte_size: self.byte_size,
        }
    }
}

impl Default for TalentEncoding {
    /// The configuration of the current live client: base64 characters, six
    /// bits per character.
    fn default() -> (r: TalentEncoding)
        ensures
            r.version == (Version {
                product: crate::version::ProductType::WOW,
                major: 11,
                patch: 2,
                minor: 0,
                build: 63003,
            }),
            r.base64_chars@ == "ABCDEFGHIJKLMNOPQRSTUVWXYZabcdefghijklmnopqrstuvwxyz0123456789+/"@,
            r.serialization_version == 2,
            r.version_bits == 8,
            r.spec_bits == 16,
            r.tree_bits == 128,
            r.rank_bits == 6,
            r.choice_bits == 2,
            r.byte_size == 6,
    {
        TalentEncoding {
            version: Version::default(),
            base64_chars: String::from_str(
                "ABCDEFGHIJKLMNOPQRSTUVWXYZabcdefghijklmnopqrstuvwxyz0123456789+/",
            ),
            serialization_version: 2,
            version_bits: 8,
            spec_bits: 16,
            tree_bits: 128,
            rank_bits: 6,
            choice_bits: 2,
            byte_size: 6,
        }
    }
}

impl TalentEncoding {
    /// Each character carries at least one bit, and every field that is read
    /// as a number fits in 64 bits.
    pub open spec fn well_formed(&self) -> bool {
        &&& self.byte_size > 0
        &&& self.version_bits <= 64
        &&& self.spec_bits <= 64
        &&& self.rank_bits <= 64
        &&& self.choice_bits <= 64
    }

    /// The number of bits of the header: version, specialization and tree fields.
    pub open spec fn header_bits(&self) -> int {
        self.version_bits + self.spec_bits + self.tree_bits
    }

    /// A string of `len` characters carries the whole header.
    pub open spec fn fits_header(&self, len: int) -> bool {
        self.header_bits() <= len * self.byte_size
    }

    /// The outcome of the three checks, in the order they are made.
    pub open spec fn validation(&self, s: Seq<char>, version: u64) -> Result<(), TalentEncodingError> {
        if !in_alphabet(self.base64_chars@, s) {
            Err(TalentEncodingError::InvalidBase64Charset)
        } else if !self.fits_header(s.len() as int) {
            Err(TalentEncodingError::StringTooShort)
        } else if version != self.serialization_version {
            Err(TalentEncodingError::IncorrectSerializationVersion)
        } else {
            Ok(())
        }
    }

    /// The value of `c`: its first position in the alphabet.
    pub fn find_symbol_value(&self, c: char) -> (r: Result<usize, TalentEncodingError>)
        ensures
            r is Ok <==> self.base64_chars@.contains(c),
            r matches Ok(v) ==> v == symbol_value(self.base64_chars@, c),
            r matches Err(e) ==> e == TalentEncodingError::InvalidBase64Charset,
    {
        let alphabet = chars_of(self.base64_chars.as_str());
        match position_in(&alphabet, c) {
            Some(i) => {
                proof {
                    lemma_symbol_value_is_first_index(self.base64_chars@, c, i as int);
                }
                Ok(i)
            },
            None => Err(TalentEncodingError::InvalidBase64Charset),
        }
    }

    /// The value of `c`, which must be in the alphabet.
    pub fn find_char_unchecked(&self, c: char) -> (r: usize)
        requires
            self.base64_chars@.contains(c),
        ensures
            r == symbol_value(self.base64_chars@, c),
    {
        match self.find_symbol_value(c) {
            Ok(v) => v,
            Err(_) => 0,
        }
    }

    /// The values of all characters of `string`, or `InvalidBase64Charset`
    /// where one of them is not in the alphabet.
    pub fn symbol_values(&self, string: &str) -> (r: Result<Vec<usize>, TalentEncodingError>)
        ensures
            r is Ok <==> in_alphabet(self.base64_chars@, string@),
            r matches Ok(v) ==> v@ == symbols_of(self.base64_chars@, string@),
            r matches Err(e) ==> e == TalentEncodingError::InvalidBase64Charset,
    {
        let alphabet = chars_of(self.base64_chars.as_str());
        let chars = chars_of(string);
        let mut values: Vec<usize> = Vec::new();
        let mut i: usize = 0;
        while i < chars.len()
            invariant
                alphabet@ == self.base64_chars@,
                chars@ == string@,
                i <= chars@.len(),
                values@ == symbols_of(self.base64_chars@, string@.subrange(0, i as int)),
                in_alphabet(self.base64_chars@, string@.subrange(0, i as int)),
            decreases chars@.len() - i,
        {
            match position_in(&alphabet, chars[i]) {
                Some(p) => {
                    proof {
                        lemma_symbol_value_is_first_index(alphabet@, chars@[i as int], p as int);
                        assert(string@.subrange(0, i + 1) == string@.subrange(0, i as int).push(
                            chars@[i as int],
                        ));
                    }
                    values.push(p);
                    i += 1;
                },
                None => {
                    proof {
                        assert(!in_alphabet(self.base64_chars@, string@)) by {
                            assert(string@[i as int] == chars@[i as int]);
                        }
                    }
                    return Err(TalentEncodingError::InvalidBase64Charset);
                },
            }
        }
        assert(string@.subrange(0, i as int) == string@);
        Ok(values)
    }

    /// Every character of `string` is in the alphabet.
    pub fn valid_base64(&self, string: &str) -> (r: Result<(), TalentEncodingError>)
        ensures
            r == (if in_alphabet(self.base64_chars@, string@) {
                Ok(())
            } else {
                Err(TalentEncodingError::InvalidBase64Charset)
            }),
    {
        match regex_finds_char_outside(self.base64_chars.as_str(), string) {
            Some(true) => Err(TalentEncodingError::InvalidBase64Charset),
            Some(false) => Ok(()),
            None => match self.symbol_values(string) {
                Ok(_) => Ok(()),
                Err(e) => Err(e),
            },
        }
    }

    /// `string` has enough characters to carry the header.
    pub fn valid_size(&self, string: &str) -> (r: Result<(), TalentEncodingError>)
        ensures
            r == (if self.fits_header(string@.len() as int) {
                Ok(())
            } else {
                Err(TalentEncodingError::StringTooShort)
            }),
    {
        let len = string.unicode_len();
        let header = self.version_bits as u128 + self.spec_bits as u128 + self.tree_bits as u128;
        assert((len as u128) * (self.byte_size as u128) <= u128::MAX) by (nonlinear_arith)
            requires
                len <= u64::MAX,
                self.byte_size <= u64::MAX,
        ;
        let available = (len as u128) * (self.byte_size as u128);
        if header <= available {
            Ok(())
        } else {
            Err(TalentEncodingError::StringTooShort)
        }
    }

    /// `version` is the serialization version of this configuration.
    pub fn valid_version(&self, version: u64) -> (r: Result<(), TalentEncodingError>)
        ensures
            r == (if version == self.serialization_version {
                Ok(())
            } else {
                Err(TalentEncodingError::IncorrectSerializationVersion)
            }),
    {
        if self.serialization_version as u64 == version {
            Ok(())
        } else {
            Err(TalentEncodingError::IncorrectSerializationVersion)
        }
    }

    /// The charset, length and version checks, the first failure reported.
    pub fn is_valid(&self, string: &str, version: u64) -> (r: Result<(), TalentEncodingError>)
        ensures
            r == self.validation(string@, version),
    {
        match self.valid_base64(string) {
            Err(e) => return Err(e),
            Ok(()) => {},
        }
        match self.valid_size(string) {
            Err(e) => return Err(e),
            Ok(()) => {},
        }
        self.valid_version(version)
    }
}

} // verus!

use vstd::prelude::*;
use vstd::string::*;
use crate::error::WatermarkError;
use crate::level::Strength;

verus! {

/// The largest scalar payload that any text and strength can give.
pub const MAX_PAYLOAD: i128 = 6_259_024_837_169_589_887_727_615_082_575;

/// An ordered set of printable characters. A character's symbol index is its
/// position in the set.
#[derive(Debug, Clone, Copy, PartialEq, Eq, Structural)]
pub enum Alphabet {
    /// Letters, digits, `+` and `/`: 64 symbols.
    Base64,
    /// Letters, digits, punctuation and the space: 80 symbols.
    Extended,
}

impl Alphabet {
    /// The characters of the alphabet, in the order of their indices.
    pub open spec fn symbols(self) -> Seq<char> {
        match self {
            Alphabet::Base64 => "ABCDEFGHIJKLMNOPQRSTUVWXYZabcdefghijklmnopqrstuvwxyz0123456789+/"@,
            Alphabet::Extended =>
                "ABCDEFGHIJKLMNOPQRSTUVWXYZabcdefghijklmnopqrstuvwxyz0123456789!@#$%^&*(),.<>/?; "@,
        }
    }

    /// How many symbols the alphabet has.
    pub open spec fn spec_size(self) -> int {
        match self {
            Alphabet::Base64 => 64,
            Alphabet::Extended => 80,
        }
    }

    /// The position of `c` in the alphabet, if it occurs there.
    pub open spec fn index_of(self, c: char) -> Option<int> {
        self.symbols().index_of_first(c)
    }

    /// The index of `c`, taken as nothing where the alphabet lacks it.
    pub open spec fn weight(self, c: char) -> int {
        match self.index_of(c) {
            Some(i) => i,
            None => 0,
        }
    }

    /// The first character of `text` that the alphabet lacks, if there is one.
    pub open spec fn first_rejected(self, text: Seq<char>) -> Option<char>
        decreases text.len(),
    {
        if text.len() == 0 {
            None
        } else if self.first_rejected(text.drop_last()) is Some {
            self.first_rejected(text.drop_last())
        } else if self.index_of(text.last()) is None {
            Some(text.last())
        } else {
            None
        }
    }

    /// The sum of the symbol indices of the characters of `text`.
    pub open spec fn index_sum(self, text: Seq<char>) -> int
        decreases text.len(),
    {
        if text.len() == 0 {
            0
        } else {
            self.index_sum(text.drop_last()) + self.weight(text.last())
        }
    }

    /// The scalar payload of `text`: the sum of its symbol indices, scaled by a
    /// strength given in millionths. The result is in fixed-point units.
    pub open spec fn payload(self, text: Seq<char>, strength_micros: int) -> int {
        self.index_sum(text) * strength_micros
    }

    /// What rejects a text at one of its prefixes rejects the whole text, with the same character.
    pub proof fn lemma_rejected_prefix(self, text: Seq<char>, n: int)
        requires
            0 <= n <= text.len(),
            self.first_rejected(text.take(n)) is Some,
        ensures
            self.first_rejected(text) == self.first_rejected(text.take(n)),
        decreases text.len() - n,
    {
        if n < text.len() {
            assert(text.take(n + 1).drop_last() =~= text.take(n));
            self.lemma_rejected_prefix(text, n + 1);
        } else {
            assert(text.take(n) =~= text);
        }
    }

    /// A symbol index is below the size of the alphabet.
    pub proof fn lemma_weight_bounds(self, c: char)
        ensures
            0 <= self.weight(c) < self.spec_size(),
            self.index_of(c) matches Some(i) ==> 0 <= i < self.spec_size(),
    {
        self.lemma_size();
        self.symbols().index_of_first_ensures(c);
    }

    /// The alphabet has as many symbols as its size says.
    pub proof fn lemma_size(self)
        ensures
            self.symbols().len() == self.spec_size(),
    {
        reveal_strlit("ABCDEFGHIJKLMNOPQRSTUVWXYZabcdefghijklmnopqrstuvwxyz0123456789+/");
        reveal_strlit(
            "ABCDEFGHIJKLMNOPQRSTUVWXYZabcdefghijklmnopqrstuvwxyz0123456789!@#$%^&*(),.<>/?; ",
        );
    }

    /// The characters of the alphabet as a string, in the order of their indices.
    pub fn table(self) -> (table: &'static str)
        ensures
            table@ == self.symbols(),
            table@.len() == self.spec_size(),
    {
        proof {
            self.lemma_size();
        }
        match self {
            Alphabet::Base64 => "ABCDEFGHIJKLMNOPQRSTUVWXYZabcdefghijklmnopqrstuvwxyz0123456789+/",
            Alphabet::Extended =>
                "ABCDEFGHIJKLMNOPQRSTUVWXYZabcdefghijklmnopqrstuvwxyz0123456789!@#$%^&*(),.<>/?; ",
        }
    }

    /// How many symbols the alphabet has.
    pub fn size(self) -> (n: u8)
        ensures
            n == self.spec_size(),
    {
        match self {
            Alphabet::Base64 => 64,
            Alphabet::Extended => 80,
        }
    }
}

/// The symbol index of `c`: its position in the alphabet, or nothing where the
/// alphabet lacks it.
pub fn symbol_index(alphabet: Alphabet, c: char) -> (index: Option<u8>)
    ensures
        match index {
            Some(i) => alphabet.index_of(c) == Some(i as int),
            None => alphabet.index_of(c) is None,
        },
{
    let table = alphabet.table();
    let n: u8 = alphabet.size();
    let mut i: u8 = 0;
    while i < n
        invariant
            i <= n,
            n == table@.len(),
            table@ == alphabet.symbols(),
            forall|j: int| 0 <= j < i ==> table@[j] != c,
        decreases n - i,
    {
        if table.get_char(i as usize) == c {
            proof {
                assert(table@[i as int] == c);
                table@.index_of_first_ensures(c);
            }
            return Some(i);
        }
        i += 1;
    }
    proof {
        table@.index_of_first_ensures(c);
    }
    None
}

/// Encodes `text` symbol by symbol: one index per character, in order. The first
/// character that the alphabet lacks fails the whole text.
pub fn encode_symbols(text: &str, alphabet: Alphabet) -> (result: Result<Vec<u8>, WatermarkError>)
    ensures
        match result {
            Ok(indices) => {
                &&& alphabet.first_rejected(text@) is None
                &&& indices@.len() == text@.len()
                &&& forall|i: int|
                    0 <= i < text@.len() ==> alphabet.index_of(#[trigger] text@[i]) == Some(
                        indices@[i] as int,
                    )
            },
            Err(e) => alphabet.first_rejected(text@) matches Some(c)
                && e == WatermarkError::InvalidCharacter(c),
        },
{
    let mut indices: Vec<u8> = Vec::new();
    for c in it: text.chars()
        invariant
            it.seq() == text@,
            indices@.len() == it.index(),
            alphabet.first_rejected(text@.take(it.index() as int)) is None,
            forall|j: int|
                0 <= j < it.index() ==> alphabet.index_of(#[trigger] text@[j]) == Some(
                    indices@[j] as int,
                ),
    {
        proof {
            assert(text@.take(it.index() + 1).drop_last() =~= text@.take(it.index() as int));
        }
        match symbol_index(alphabet, c) {
            Some(index) => {
                indices.push(index);
            },
            None => {
                proof {
                    alphabet.lemma_rejected_prefix(text@, it.index() + 1);
                }
                return Err(WatermarkError::InvalidCharacter(c));
            },
        }
    }
    proof {
        assert(text@.take(text@.len() as int) =~= text@);
    }
    Ok(indices)
}

/// The scalar payload of `text`: the sum of its symbol indices times the
/// strength, in fixed-point units. The first character that the alphabet lacks
/// fails the whole text.
pub fn scalar_payload(text: &str, alphabet: Alphabet, strength: Strength) -> (result: Result<
    i128,
    WatermarkError,
>)
    ensures
        match result {
            Ok(payload) => {
                &&& alphabet.first_rejected(text@) is None
                &&& payload == alphabet.payload(text@, strength.spec_micros())
                &&& 0 <= payload <= MAX_PAYLOAD
            },
            Err(e) => alphabet.first_rejected(text@) matches Some(c)
                && e == WatermarkError::InvalidCharacter(c),
        },
{
    let n = text.unicode_len();
    let mut sum: u128 = 0;
    for c in it: text.chars()
        invariant
            it.seq() == text@,
            n == text@.len(),
            sum == alphabet.index_sum(text@.take(it.index() as int)),
            sum <= 79 * it.index(),
            alphabet.first_rejected(text@.take(it.index() as int)) is None,
    {
        proof {
            assert(text@.take(it.index() + 1).drop_last() =~= text@.take(it.index() as int));
            alphabet.lemma_weight_bounds(c);
        }
        match symbol_index(alphabet, c) {
            Some(index) => {
                sum = sum + index as u128;
            },
            None => {
                proof {
                    alphabet.lemma_rejected_prefix(text@, it.index() + 1);
                }
                return Err(WatermarkError::InvalidCharacter(c));
            },
        }
    }
    let micros = strength.micros();
    proof {
        assert(text@.take(n as int) =~= text@);
        assert(0 <= sum * micros <= MAX_PAYLOAD) by (nonlinear_arith)
            requires
                0 <= sum <= 79 * 0xffff_ffff_ffff_ffff,
                0 < micros <= 0xffff_ffff,
        ;
    }
    Ok((sum as i128) * (micros as i128))
}

/// The scalar payload of `words` over the extended alphabet.
pub fn get_watermark_from_str(words: &str, strength: Strength) -> (result: Result<
    i128,
    WatermarkError,
>)
    ensures
        match result {
            Ok(payload) => {
                &&& Alphabet::Extended.first_rejected(words@) is None
                &&& payload == Alphabet::Extended.payload(words@, strength.spec_micros())
                &&& 0 <= payload <= MAX_PAYLOAD
            },
            Err(e) => Alphabet::Extended.first_rejected(words@) matches Some(c)
                && e == WatermarkError::InvalidCharacter(c),
        },
{
    scalar_payload(words, Alphabet::Extended, strength)
}

} // verus!

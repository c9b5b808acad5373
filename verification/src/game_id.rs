use vstd::prelude::*;

use crate::random::random_uppercase_letters;
use vstd::string::StringSliceAdditionalSpecFns;

verus! {

/// A six-byte game code, such as `ABCDEF`. The bytes always form valid UTF-8.
#[derive(Debug, Clone, Copy, PartialEq, Eq, Hash)]
pub struct GameID {
    bytes: [u8; 6],
}

/// Why a text is not a game code.
#[derive(Debug, Clone, Copy, PartialEq, Eq, Structural)]
pub enum GameIdError {
    /// The text is not exactly six bytes long.
    IncorrectLength,
}

impl GameIdError {
    pub fn message(&self) -> (message: &'static str)
        ensures
            message@ == "failed to convert from String to GameID, incorrect length"@,
    {
        "failed to convert from String to GameID, incorrect length"
    }
}

/// The upper-case form of a text, as `str::to_uppercase` gives it.
pub uninterp spec fn uppercase(s: Seq<char>) -> Seq<char>;

/// `str::to_uppercase`: the text with every character mapped to upper case.
#[verifier::external_body]
fn to_uppercase(s: &str) -> (upper: String)
    ensures
        upper@ == uppercase(s@),
{
    s.to_uppercase()
}

/// `std::str::from_utf8(..).unwrap()`: the text that valid UTF-8 bytes encode.
#[verifier::external_body]
fn decode(bytes: &[u8; 6]) -> (text: &str)
    requires
        vstd::utf8::valid_utf8(bytes@),
    ensures
        text@ == vstd::utf8::decode_utf8(bytes@),
{
    std::str::from_utf8(bytes).unwrap()
}

/// Bytes in `A..=Z` are valid UTF-8.
proof fn lemma_letters_valid_utf8(bytes: Seq<u8>)
    requires
        forall|i: int| 0 <= i < bytes.len() ==> 65 <= #[trigger] bytes[i] <= 90,
    ensures
        vstd::utf8::valid_utf8(bytes),
{
    let chars = Seq::new(bytes.len(), |i: int| bytes[i] as char);
    assert(vstd::utf8::is_ascii_chars(chars));
    vstd::utf8::is_ascii_chars_encode_utf8(chars);
    vstd::utf8::encode_utf8_valid_utf8(chars);
    assert(vstd::utf8::encode_utf8(chars) =~= bytes);
}

/// A fresh game code of six random upper-case letters.
pub fn generate_game_code() -> (code: GameID)
    ensures
        forall|i: int| 0 <= i < 6 ==> 65 <= #[trigger] code.view_bytes()[i] <= 90,
{
    let letters = random_uppercase_letters(6);
    let bytes: [u8; 6] = [letters[0], letters[1], letters[2], letters[3], letters[4], letters[5]];
    proof {
        assert(bytes@ =~= letters@);
        lemma_letters_valid_utf8(bytes@);
    }
    GameID { bytes }
}

impl GameID {
    #[verifier::type_invariant]
    spec fn well_formed(self) -> bool {
        vstd::utf8::valid_utf8(self.bytes@)
    }

    pub closed spec fn view_bytes(self) -> Seq<u8> {
        self.bytes@
    }

    /// The six bytes of the code.
    pub fn bytes(&self) -> (bytes: [u8; 6])
        ensures
            bytes@ == self.view_bytes(),
    {
        self.bytes
    }

    pub proof fn lemma_len(self)
        ensures
            self.view_bytes().len() == 6,
    {
    }

    /// The code as text.
    pub fn as_str(&self) -> (text: &str)
        ensures
            text@ == vstd::utf8::decode_utf8(self.view_bytes()),
    {
        proof {
            use_type_invariant(self);
        }
        decode(&self.bytes)
    }

    /// Reads a game code: the text must be six bytes long and is taken in
    /// upper case. Upper-casing must keep it six bytes long, which holds for
    /// every text of six ASCII characters; `try_from_str` checks it.
    pub fn try_from(value: &str) -> (code: Result<GameID, GameIdError>)
        requires
            value.spec_bytes().len() == 6 ==> vstd::utf8::encode_utf8(uppercase(value@)).len() == 6,
        ensures
            value.spec_bytes().len() != 6 ==> code matches Err(GameIdError::IncorrectLength),
            value.spec_bytes().len() == 6 ==> (code matches Ok(c) && c.view_bytes() == vstd::utf8::encode_utf8(uppercase(value@))),
    {
        if value.as_bytes().len() != 6 {
            return Err(GameIdError::IncorrectLength);
        }
        let upper = to_uppercase(value);
        let raw = upper.as_str().as_bytes();
        let bytes: [u8; 6] = [raw[0], raw[1], raw[2], raw[3], raw[4], raw[5]];
        proof {
            assert(bytes@ =~= raw@);
            vstd::utf8::encode_utf8_valid_utf8(uppercase(value@));
        }
        Ok(GameID { bytes })
    }

    /// Reads a game code like `try_from`; `None` for a six-byte text whose
    /// upper case is not six bytes long, which `try_from` cannot store.
    pub fn try_from_str(value: &str) -> (code: Option<Result<GameID, GameIdError>>)
        ensures
            value.spec_bytes().len() != 6 ==> code matches Some(Err(GameIdError::IncorrectLength)),
            value.spec_bytes().len() == 6 && vstd::utf8::encode_utf8(uppercase(value@)).len() == 6 ==> (code matches Some(Ok(c)) && c.view_bytes() == vstd::utf8::encode_utf8(uppercase(value@))),
            value.spec_bytes().len() == 6 && vstd::utf8::encode_utf8(uppercase(value@)).len() != 6 ==> code is None,
    {
        if value.as_bytes().len() != 6 {
            return Some(Err(GameIdError::IncorrectLength));
        }
        let upper = to_uppercase(value);
        if upper.as_str().as_bytes().len() != 6 {
            return None;
        }
        Some(GameID::try_from(value))
    }
}

} // verus!

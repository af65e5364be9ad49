//! A decoded request: the argument count and the raw bytes of each
//! argument, with the two ways a handler reads an argument.

use vstd::prelude::*;
use vstd::string::StringSliceAdditionalSpecFns;
use vstd::utf8::{decode_utf8, encode_utf8_decode_utf8, valid_utf8};

verus! {

/// `core::str::Utf8Error`, the reason `core::str::from_utf8` gives for
/// refusing a byte slice. Nothing is said of what it holds.
#[verifier::external_type_specification]
#[verifier::external_body]
pub struct ExUtf8Error(core::str::Utf8Error);

/// `core::str::from_utf8` accepts a byte slice exactly when it is well-formed
/// UTF-8, and the text it then returns is made of those same bytes.
pub assume_specification[ core::str::from_utf8 ](v: &[u8]) -> (text: Result<
    &str,
    core::str::Utf8Error,
>)
    ensures
        text is Ok <==> valid_utf8(v@),
        text matches Ok(s) ==> s.spec_bytes() == v@,
;

/// Why an argument could not be read.
#[derive(Debug, Clone, Copy, PartialEq, Eq)]
pub enum ParseError {
    /// The request holds no argument at that index.
    MissingArgument,
    /// The argument is there, but its bytes are not UTF-8 text.
    InvalidText,
}

/// A request as the tokenizer hands it over. Argument 0 is the command name.
///
/// `argc` is the count the request announced; `argv` holds the arguments that
/// could be materialized. An index is readable when it lies below both.
#[derive(Debug)]
pub struct Parser {
    pub argc: usize,
    pub argv: Vec<Vec<u8>>,
}

/// The mathematical content of a [`Parser`].
pub struct Request {
    pub argc: nat,
    pub args: Seq<Seq<u8>>,
}

impl Request {
    /// The raw bytes of argument `index`, where the request holds one.
    pub open spec fn arg(self, index: int) -> Option<Seq<u8>> {
        if 0 <= index < self.argc && index < self.args.len() {
            Some(self.args[index])
        } else {
            None
        }
    }

    /// Argument `index` read as text, where it is there and is UTF-8.
    pub open spec fn text(self, index: int) -> Option<Seq<char>> {
        match self.arg(index) {
            Some(bytes) => if valid_utf8(bytes) {
                Some(decode_utf8(bytes))
            } else {
                None
            },
            None => None,
        }
    }
}

impl View for Parser {
    type V = Request;

    open spec fn view(&self) -> Request {
        Request { argc: self.argc as nat, args: self.argv@.map_values(|a: Vec<u8>| a@) }
    }
}

impl Parser {
    /// A request that announces as many arguments as it holds.
    pub fn new(argv: Vec<Vec<u8>>) -> (parser: Parser)
        ensures
            parser.argc == argv@.len(),
            parser.argv == argv,
    {
        let argc = argv.len();
        Parser { argc, argv }
    }

    /// The raw bytes of argument `index`.
    pub fn get_vec(&self, index: usize) -> (bytes: Result<Vec<u8>, ParseError>)
        ensures
            match self@.arg(index as int) {
                Some(raw) => bytes matches Ok(v) && v@ == raw,
                None => bytes == Err::<Vec<u8>, ParseError>(ParseError::MissingArgument),
            },
    {
        if index >= self.argc || index >= self.argv.len() {
            return Err(ParseError::MissingArgument);
        }
        Ok(self.argv[index].clone())
    }

    /// Argument `index` decoded as text.
    pub fn get_str(&self, index: usize) -> (text: Result<&str, ParseError>)
        ensures
            match text {
                Ok(s) => self@.text(index as int) == Some(s@),
                Err(ParseError::MissingArgument) => self@.arg(index as int) is None,
                Err(ParseError::InvalidText) => self@.arg(index as int) is Some && self@.text(
                    index as int,
                ) is None,
            },
    {
        if index >= self.argc || index >= self.argv.len() {
            return Err(ParseError::MissingArgument);
        }
        match core::str::from_utf8(self.argv[index].as_slice()) {
            Ok(s) => {
                proof {
                    encode_utf8_decode_utf8(s@);
                }
                Ok(s)
            },
            Err(_) => Err(ParseError::InvalidText),
        }
    }
}

} // verus!

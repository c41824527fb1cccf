//! Commands for the system to run, as plain values.

use vstd::prelude::*;
use vstd::string::StringSliceAdditionalSpecFns;
use vstd::utf8::{decode_utf8, encode_utf8_decode_utf8, valid_utf8};
use crate::error::{Error, ErrorView};

verus! {

/// A command to run: the program, its arguments, and the text that it is to
/// find on its standard input.
#[derive(Debug)]
pub struct Invocation {
    pub program: String,
    pub arguments: Vec<String>,
    pub std_in: String,
}

/// What an [`Invocation`] is in contracts.
pub struct InvocationView {
    pub program: Seq<char>,
    pub arguments: Seq<Seq<char>>,
    pub std_in: Seq<char>,
}

impl View for Invocation {
    type V = InvocationView;

    open spec fn view(&self) -> InvocationView {
        InvocationView {
            program: self.program@,
            arguments: self.arguments.deep_view(),
            std_in: self.std_in@,
        }
    }
}

/// The texts of `items`, in order.
pub open spec fn texts_of(items: Seq<&str>) -> Seq<Seq<char>> {
    items.map_values(|item: &str| item@)
}

/// The command that runs `program` with `arguments`, `std_in_string` on its
/// standard input.
pub fn run(program: &str, arguments: &[&str], std_in_string: &str) -> (invocation: Invocation)
    ensures
        invocation@ == (InvocationView {
            program: program@,
            arguments: texts_of(arguments@),
            std_in: std_in_string@,
        }),
{
    let mut owned: Vec<String> = Vec::new();
    let mut i: usize = 0;
    while i < arguments.len()
        invariant
            i <= arguments.len(),
            owned.len() == i,
            forall|k: int| 0 <= k < i ==> (#[trigger] owned[k])@ == arguments[k]@,
        decreases arguments.len() - i,
    {
        owned.push(arguments[i].to_owned());
        i += 1;
    }
    assert(owned.deep_view() =~= texts_of(arguments@));
    Invocation { program: program.to_owned(), arguments: owned, std_in: std_in_string.to_owned() }
}

/// The command that runs `program` alone: no arguments, nothing on its
/// standard input.
pub fn run_basic(program: &str) -> (invocation: Invocation)
    ensures
        invocation@ == (InvocationView {
            program: program@,
            arguments: Seq::empty(),
            std_in: Seq::empty(),
        }),
{
    let invocation = Invocation {
        program: program.to_owned(),
        arguments: Vec::new(),
        std_in: String::new(),
    };
    assert(invocation.arguments.deep_view() =~= Seq::empty());
    invocation
}

/// Taken on trust from the standard library: `std::str::from_utf8` accepts
/// exactly the bytes that are well-formed UTF-8, and gives them back as text,
/// the same bytes unchanged. Anything else it refuses, which is `None` here.
#[verifier::external_body]
fn utf8_text(bytes: &[u8]) -> (res: Option<&str>)
    ensures
        res is Some <==> valid_utf8(bytes@),
        res matches Some(text) ==> text.spec_bytes() == bytes@,
{
    std::str::from_utf8(bytes).ok()
}

/// What a command that has ended leaves to read: the text that it printed, if
/// it ended well and printed UTF-8, and a failure otherwise.
pub open spec fn output_of(success: bool, stdout: Seq<u8>) -> Result<Seq<char>, ErrorView> {
    if success && valid_utf8(stdout) {
        Ok(decode_utf8(stdout))
    } else {
        Err(ErrorView::CommandExecutionFailure)
    }
}

/// The text that a command printed, from how it ended and the bytes on its
/// standard output. A command that did not end well has failed, whatever it
/// printed; so has one whose output is not UTF-8.
pub fn output_text(success: bool, stdout: &[u8]) -> (res: Result<String, Error>)
    ensures
        match res {
            Ok(text) => output_of(success, stdout@) == Ok::<Seq<char>, ErrorView>(text@),
            Err(error) => output_of(success, stdout@) == Err::<Seq<char>, ErrorView>(error@),
        },
{
    if !success {
        return Err(Error::CommandExecutionFailure);
    }
    match utf8_text(stdout) {
        Some(text) => {
            proof {
                encode_utf8_decode_utf8(text@);
            }
            Ok(text.to_owned())
        },
        None => Err(Error::CommandExecutionFailure),
    }
}

} // verus!

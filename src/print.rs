use vstd::prelude::*;
use vstd::string::StringSliceAdditionalSpecFns;
use crate::writer::{write_bytes, Writer};

verus! {

#[verifier::external_type_specification]
#[verifier::external_body]
pub struct ExArguments<'a>(core::fmt::Arguments<'a>);

/// Relies on core::fmt::write: renders the format arguments into a fresh
/// string, and gives `None` when one of the arguments' formatting impls
/// reports an error. What the text is depends on those impls, so nothing
/// is stated of it.
#[verifier::external_body]
fn render(args: core::fmt::Arguments) -> (r: Option<String>) {
    let mut text = String::new();
    match core::fmt::write(&mut text, args) {
        Ok(()) => Some(text),
        Err(_) => None,
    }
}

/// The writer's formatted-output path: it takes the place of a
/// `core::fmt::Write` impl that would pass each piece of text to
/// `write_string`. Renders `args`; when that succeeds, writes the text and
/// returns `true`, the writer ending as writing that text byte by byte
/// leaves it. When an argument fails to format, nothing is written and the
/// result is `false`, so the caller can release the writer before it fails.
pub fn _print(writer: &mut Writer, args: core::fmt::Arguments) -> (ok: bool)
    requires
        old(writer).wf(),
    ensures
        final(writer).wf(),
        final(writer).attribute() == old(writer).attribute(),
        ok ==> exists|text: Seq<u8>|
            (final(writer).column(), final(writer).grid()) == #[trigger] write_bytes(
                old(writer).column(),
                old(writer).grid(),
                old(writer).attribute(),
                text,
            ),
        !ok ==> final(writer).column() == old(writer).column() && final(writer).grid()
            == old(writer).grid(),
{
    match render(args) {
        Some(text) => {
            let s = text.as_str();
            writer.write_string(s);
            assert((writer.column(), writer.grid()) == write_bytes(
                old(writer).column(),
                old(writer).grid(),
                old(writer).attribute(),
                s.spec_bytes(),
            ));
            true
        },
        None => false,
    }
}

} // verus!

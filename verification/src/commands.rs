//! The chat commands' own decisions: the argument of a command, the unit of
//! a jump, the help text and the reply to an unknown command.

use vstd::prelude::*;
use vstd::string::*;

use crate::message::{EmbedField, join3, field};
use crate::string_to_vec::space_offsets;
use crate::string_to_vector::{getName, text};
use crate::strings::trimmed;
use crate::utils::{notice_field, notice_text};

verus! {

broadcast use {vstd::utf8::encode_utf8_valid_utf8, vstd::utf8::encode_utf8_decode_utf8};

/// Whether the texts `a` and `b` are the same, as `==` on `str` tells.
pub fn same_text(a: &str, b: &str) -> (r: bool)
    ensures
        r == (a@ == b@),
{
    let x = a.as_bytes();
    let y = b.as_bytes();
    proof {
        assert(a@ == vstd::utf8::decode_utf8(a.spec_bytes()));
        assert(b@ == vstd::utf8::decode_utf8(b.spec_bytes()));
    }
    if x.len() != y.len() {
        return false;
    }
    let mut i: usize = 0;
    while i < x.len()
        invariant
            x@ == a.spec_bytes(),
            y@ == b.spec_bytes(),
            x@.len() == y@.len(),
            i <= x@.len(),
            forall|j: int| 0 <= j < i ==> x@[j] == y@[j],
        decreases x@.len() - i,
    {
        if x[i] != y[i] {
            return false;
        }
        i = i + 1;
    }
    assert(x@ =~= y@);
    true
}

/// The argument of a command message: the rest of the message after its
/// first space, trimmed, when the message has a space.
pub fn command_argument(content: &str) -> (arg: Option<&str>)
    ensures
        arg is Some <==> space_offsets(content.spec_bytes()).len() > 0,
        arg matches Some(a) ==> a@ == trimmed(
            text(
                content.spec_bytes().subrange(
                    space_offsets(content.spec_bytes())[0],
                    content.spec_bytes().len() as int,
                ),
            ),
        ),
{
    let parts = getName(content);
    if parts.len() == 2 {
        Some(parts[1])
    } else {
        None
    }
}

/// The unit of a jump within a track.
#[derive(Debug, Clone, Copy, PartialEq, Eq)]
pub enum SeekUnit {
    Seconds,
    Minutes,
    Hours,
}

/// How many seconds one `unit` counts when jumping: an hour counts 360.
pub open spec fn unit_seconds(unit: SeekUnit) -> nat {
    match unit {
        SeekUnit::Seconds => 1,
        SeekUnit::Minutes => 60,
        SeekUnit::Hours => 360,
    }
}

/// How many seconds one `unit` counts, as [`unit_seconds`] states.
pub fn seconds_per(unit: &SeekUnit) -> (n: u32)
    ensures
        n == unit_seconds(*unit),
{
    match unit {
        SeekUnit::Seconds => 1,
        SeekUnit::Minutes => 60,
        SeekUnit::Hours => 360,
    }
}

/// The unit that a jump's flag names: "-s" seconds, "-m" minutes, "-h"
/// hours; any other flag names none.
pub fn seek_unit(flag: &str) -> (unit: Option<SeekUnit>)
    ensures
        flag@ == "-s"@ <==> unit == Some(SeekUnit::Seconds),
        flag@ == "-m"@ <==> unit == Some(SeekUnit::Minutes),
        flag@ == "-h"@ <==> unit == Some(SeekUnit::Hours),
{
    proof {
        reveal_strlit("-s");
        reveal_strlit("-m");
        reveal_strlit("-h");
        assert("-s"@[1] != "-m"@[1] && "-s"@[1] != "-h"@[1] && "-m"@[1] != "-h"@[1]);
    }
    if same_text(flag, "-s") {
        Some(SeekUnit::Seconds)
    } else if same_text(flag, "-m") {
        Some(SeekUnit::Minutes)
    } else if same_text(flag, "-h") {
        Some(SeekUnit::Hours)
    } else {
        None
    }
}

/// The words that announce a jump in `unit`, before the point jumped to.
pub open spec fn seek_words_text(unit: SeekUnit) -> Seq<char> {
    match unit {
        SeekUnit::Seconds => "🦘 Salto al segundo"@,
        SeekUnit::Minutes => "🦘 Salto al minuto"@,
        SeekUnit::Hours => "🦘 Salto a la hora"@,
    }
}

/// The words that announce a jump in `unit`, as [`seek_words_text`] states.
pub fn seek_words(unit: &SeekUnit) -> (w: String)
    ensures
        w@ == seek_words_text(*unit),
{
    match unit {
        SeekUnit::Seconds => String::from_str("🦘 Salto al segundo"),
        SeekUnit::Minutes => String::from_str("🦘 Salto al minuto"),
        SeekUnit::Hours => String::from_str("🦘 Salto a la hora"),
    }
}

/// The notice for a jump whose flag names no unit.
pub fn wrong_command_notice() -> (f: EmbedField)
    ensures
        f.name@ == "🛑 Comando incorrecto"@,
        f.value@ == notice_text("-"@),
        !f.inline,
{
    notice_field("🛑 Comando incorrecto", "-", false)
}

/// The fields of the help message.
pub fn help_fields() -> (fields: Vec<EmbedField>)
    ensures
        fields@.len() == 1,
        fields@[0].name@ == "🛑 pause:"@,
        fields@[0].value@ == "pausar una cancion"@,
        !fields@[0].inline,
{
    let mut fields: Vec<EmbedField> = Vec::new();
    fields.push(field("🛑 pause:", "pausar una cancion", false));
    fields
}

/// The notice for a command that does not exist: named "Error", holding
/// "El comando <name> no es correcto" in a code block, on its own line.
pub fn unknown_command_notice(name: &str) -> (f: EmbedField)
    ensures
        f.name@ == "Error"@,
        f.value@ == notice_text("El comando "@ + name@ + " no es correcto"@),
        !f.inline,
{
    let text = join3("El comando ", name, " no es correcto");
    notice_field("Error", text.as_str(), false)
}

} // verus!

//! Message helpers: random embed colours and one-line notices.

use vstd::prelude::*;
use vstd::string::*;

use crate::message::{EmbedField, join3};

verus! {

#[verifier::external_type_specification]
#[verifier::external_body]
pub struct ExThreadRng(rand::rngs::ThreadRng);

/// Calls `rand::thread_rng`, which hands out the thread's random number
/// generator. Nothing is stated of the generator.
#[verifier::external_body]
fn thread_rng() -> rand::rngs::ThreadRng {
    rand::thread_rng()
}

/// Calls `rand::Rng::gen_range` with the range `low..high`, which returns a
/// random value of that range and panics when the range is empty (ruled out
/// by `requires`). That the value lies in the range is all that is stated;
/// which value comes is left to chance.
#[verifier::external_body]
fn gen_range_u8(rng: &mut rand::rngs::ThreadRng, low: u8, high: u8) -> (r: u8)
    requires
        low < high,
    ensures
        low <= r < high,
{
    rand::Rng::gen_range(rng, low..high)
}

/// A random embed colour: red, green and blue, each drawn from `0..255`.
pub fn get_rand_colors() -> (rgb: (u8, u8, u8))
    ensures
        rgb.0 < 255,
        rgb.1 < 255,
        rgb.2 < 255,
{
    let red = gen_range_u8(&mut thread_rng(), 0, 255);
    let green = gen_range_u8(&mut thread_rng(), 0, 255);
    let blue = gen_range_u8(&mut thread_rng(), 0, 255);
    (red, green, blue)
}

/// The text of a one-line notice: `value` in a `css` code block.
pub open spec fn notice_text(value: Seq<char>) -> Seq<char> {
    "```css\n"@ + value + "\n```"@
}

/// The field of a one-line notice: named `name`, holding `value` in a `css`
/// code block.
pub fn notice_field(name: &str, value: &str, inline: bool) -> (f: EmbedField)
    ensures
        f.name@ == name@,
        f.value@ == notice_text(value@),
        f.inline == inline,
{
    EmbedField {
        name: String::from_str(name),
        value: join3("```css\n", value, "\n```"),
        inline,
    }
}

} // verus!

//! The colour in which a listing shows a name.

use crate::utils::mode::{executable, is_executable};
use crate::utils::text::str_eq;
use vstd::prelude::*;

verus! {

/// The escape sequence that selects the colour of an entry: bold blue for a
/// directory, cyan for a symbolic link, yellow for a character device,
/// magenta for a block device, bold green for any other file with an execute
/// bit, and the reset sequence for the rest.
pub open spec fn color_of(file_type: Seq<char>, mode: u32) -> Seq<char> {
    if file_type == "d"@ {
        "\x1b[1;34m"@
    } else if file_type == "l"@ {
        "\x1b[36m"@
    } else if file_type == "c"@ {
        "\x1b[33m"@
    } else if file_type == "b"@ {
        "\x1b[35m"@
    } else if is_executable(mode) {
        "\x1b[1;32m"@
    } else {
        "\x1b[0m"@
    }
}

/// The escape sequence that selects the colour of an entry whose type letter
/// is `file_type` and whose mode word is `mode`.
pub fn get_color(file_type: &str, mode: u32) -> (color: String)
    ensures
        color@ == color_of(file_type@, mode),
{
    let color = if str_eq(file_type, "d") {
        "\x1b[1;34m"
    } else if str_eq(file_type, "l") {
        "\x1b[36m"
    } else if str_eq(file_type, "c") {
        "\x1b[33m"
    } else if str_eq(file_type, "b") {
        "\x1b[35m"
    } else if executable(mode) {
        "\x1b[1;32m"
    } else {
        "\x1b[0m"
    };
    color.to_owned()
}

} // verus!

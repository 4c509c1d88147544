//! Script snippets for a monitor addressed directly by the side it hangs on,
//! without a local pixel buffer.

use vstd::prelude::*;
use vstd::string::StringExecFns;

use crate::misc::{AsIfPixel, Side};
use crate::strfmt::{fmt_u64, fmt_usize, push_char, spec_dec};

verus! {

/// The script that sets the side-addressed monitor's background and text
/// color to the pixel's colors.
pub open spec fn spec_side_set_color(pix: AsIfPixel, side: Side) -> Seq<char> {
    "global.monitor"@ + side.spec_name() + ".setBackgroundColour("@ + spec_dec(
        pix.background_color.spec_number() as int,
    ) + ")\n    global.monitor"@ + side.spec_name() + ".setTextColour("@ + spec_dec(
        pix.text_color.spec_number() as int,
    ) + ")\n    \n"@
}

/// The script that sets the side-addressed monitor's colors to the pixel's.
pub fn set_color(pix: AsIfPixel, side: Side) -> (r: String)
    ensures
        r@ == spec_side_set_color(pix, side),
{
    let mut s = String::new();
    s.append("global.monitor");
    s.append(side.name());
    s.append(".setBackgroundColour(");
    let bc = fmt_u64(pix.background_color.to_number() as u64);
    s.append(bc.as_str());
    s.append(")\n    global.monitor");
    s.append(side.name());
    s.append(".setTextColour(");
    let tc = fmt_u64(pix.text_color.to_number() as u64);
    s.append(tc.as_str());
    s.append(")\n    \n");
    proof {
        assert(s@ =~= spec_side_set_color(pix, side));
    }
    s
}

/// The script that moves the side-addressed monitor's cursor to
/// `(x + 1, y + 1)` and writes the pixel's character there.
pub open spec fn spec_side_write_txt(x: int, y: int, pix: AsIfPixel, side: Side) -> Seq<char> {
    "global.monitor"@ + side.spec_name() + ".setCursorPos("@ + spec_dec(x + 1) + ", "@ + spec_dec(
        y + 1,
    ) + ")\n    global.monitor"@ + side.spec_name() + ".write(\""@ + seq![pix.spec_text()]
        + "\") \n"@
}

/// The script that writes the pixel's character at `(x + 1, y + 1)` on the
/// side-addressed monitor.
pub fn write_txt(x: usize, y: usize, pix: AsIfPixel, side: Side) -> (r: String)
    requires
        x < usize::MAX,
        y < usize::MAX,
    ensures
        r@ == spec_side_write_txt(x as int, y as int, pix, side),
{
    let mut s = String::new();
    s.append("global.monitor");
    s.append(side.name());
    s.append(".setCursorPos(");
    let xs = fmt_usize(x + 1);
    s.append(xs.as_str());
    s.append(", ");
    let ys = fmt_usize(y + 1);
    s.append(ys.as_str());
    s.append(")\n    global.monitor");
    s.append(side.name());
    s.append(".write(\"");
    push_char(&mut s, pix.text());
    s.append("\") \n");
    proof {
        assert(s@ =~= spec_side_write_txt(x as int, y as int, pix, side));
    }
    s
}

} // verus!

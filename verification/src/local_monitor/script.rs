//! Generating the host-side scripts that redraw a monitor: every function
//! states the exact text it produces.

use vstd::prelude::*;
use vstd::string::StringExecFns;

use crate::local_monitor::drawing::{hex_digit_str, spec_hex_digit};
use crate::local_monitor::{InitMethod, LocalMonitor};
use crate::misc::{AsIfPixel, ColorId};
use crate::strfmt::{fmt_u64, fmt_usize, push_char, spec_dec};

verus! {

/// One character as it appears inside a double-quoted piece of script text:
/// the double quote, the backslash, tab, return and newline are
/// backslash-escaped, other control characters get a braced hexadecimal
/// escape, and everything else stands as itself.
pub open spec fn spec_quote_char(c: char) -> Seq<char> {
    if c == '"' {
        seq!['\\', '"']
    } else if c == '\\' {
        seq!['\\', '\\']
    } else if c == '\t' {
        seq!['\\', 't']
    } else if c == '\r' {
        seq!['\\', 'r']
    } else if c == '\n' {
        seq!['\\', 'n']
    } else if (c as u32) < 32 || (c as u32) == 127 {
        if (c as u32) < 16 {
            seq!['\\', 'u', '{', spec_hex_digit(c as int), '}']
        } else {
            seq!['\\', 'u', '{', spec_hex_digit(c as int / 16), spec_hex_digit(c as int % 16), '}']
        }
    } else {
        seq![c]
    }
}

/// A piece of text as it appears inside a double-quoted piece of script
/// text, character by character.
pub open spec fn spec_quoted(s: Seq<char>) -> Seq<char>
    decreases s.len(),
{
    if s.len() == 0 {
        Seq::empty()
    } else {
        spec_quote_char(s[0]) + spec_quoted(s.drop_first())
    }
}

/// Append the in-quotes form of one character.
fn push_quoted_char(out: &mut String, c: char)
    ensures
        final(out)@ == old(out)@ + spec_quote_char(c),
{
    if c == '"' {
        out.append("\\\"");
        proof {
            reveal_strlit("\\\"");
            assert(final(out)@ =~= old(out)@ + spec_quote_char(c));
        }
    } else if c == '\\' {
        out.append("\\\\");
        proof {
            reveal_strlit("\\\\");
            assert(final(out)@ =~= old(out)@ + spec_quote_char(c));
        }
    } else if c == '\t' {
        out.append("\\t");
        proof {
            reveal_strlit("\\t");
            assert(final(out)@ =~= old(out)@ + spec_quote_char(c));
        }
    } else if c == '\r' {
        out.append("\\r");
        proof {
            reveal_strlit("\\r");
            assert(final(out)@ =~= old(out)@ + spec_quote_char(c));
        }
    } else if c == '\n' {
        out.append("\\n");
        proof {
            reveal_strlit("\\n");
            assert(final(out)@ =~= old(out)@ + spec_quote_char(c));
        }
    } else {
        let code = c as u32;
        if code < 32 || code == 127 {
            out.append("\\u{");
            proof {
                reveal_strlit("\\u{");
            }
            if code < 16 {
                out.append(hex_digit_str(code));
            } else {
                out.append(hex_digit_str(code / 16));
                out.append(hex_digit_str(code % 16));
            }
            out.append("}");
            proof {
                reveal_strlit("}");
                assert(final(out)@ =~= old(out)@ + spec_quote_char(c));
            }
        } else {
            push_char(out, c);
            proof {
                assert(final(out)@ =~= old(out)@ + spec_quote_char(c));
            }
        }
    }
}

/// Append the in-quotes form of a piece of text.
fn append_quoted(out: &mut String, s: &str)
    ensures
        final(out)@ == old(out)@ + spec_quoted(s@),
{
    let ghost full = old(out)@ + spec_quoted(s@);
    proof {
        assert(s@.skip(0) =~= s@);
    }
    let n = s.unicode_len();
    let mut k: usize = 0;
    while k < n
        invariant
            n == s@.len(),
            k <= n,
            full == old(out)@ + spec_quoted(s@),
            full == out@ + spec_quoted(s@.skip(k as int)),
        decreases n - k,
    {
        let ghost rest = s@.skip(k as int);
        let c = s.get_char(k);
        proof {
            assert(rest[0] == s@[k as int]);
            assert(rest.drop_first() =~= s@.skip(k + 1));
        }
        let ghost before = out@;
        push_quoted_char(out, c);
        proof {
            assert(before + (spec_quote_char(c) + spec_quoted(s@.skip(k + 1))) =~= out@
                + spec_quoted(s@.skip(k + 1)));
        }
        k = k + 1;
    }
    proof {
        assert(s@.skip(n as int) =~= Seq::<char>::empty());
        assert(out@ + Seq::<char>::empty() =~= out@);
    }
}

/// The script that sets a monitor's background and text color, colors
/// written as hexadecimal literals.
pub open spec fn spec_set_color_hex(name: Seq<char>, pix: AsIfPixel) -> Seq<char> {
    "global."@ + name + ".setBackgroundColour("@ + pix.background_color.spec_hex_str() + ")\nglobal."@
        + name + ".setTextColour("@ + pix.text_color.spec_hex_str() + ")\n"@
}

/// The script that sets a monitor's background and text color, colors
/// written in decimal.
pub open spec fn spec_set_color_dec(name: Seq<char>, pix: AsIfPixel) -> Seq<char> {
    "global."@ + name + ".setBackgroundColour("@ + spec_dec(
        pix.background_color.spec_number() as int,
    ) + ")\nglobal."@ + name + ".setTextColour("@ + spec_dec(pix.text_color.spec_number() as int)
        + ")\n"@
}

/// The script that moves a monitor's cursor to the one-based position
/// `(x + 1, y + 1)`.
pub open spec fn spec_set_cursor(name: Seq<char>, x: int, y: int) -> Seq<char> {
    "global."@ + name + ".setCursorPos("@ + spec_dec(x + 1) + ", "@ + spec_dec(y + 1) + ")\n"@
}

/// The script that writes a quoted piece of text at the cursor.
pub open spec fn spec_write_multi(name: Seq<char>, txt: Seq<char>) -> Seq<char> {
    "global."@ + name + ".write(\""@ + txt + "\")\n"@
}

/// The script that writes one character at the cursor.
pub open spec fn spec_write_one(name: Seq<char>, c: char) -> Seq<char> {
    "global."@ + name + ".write('"@ + seq![c] + "')\n"@
}

/// The script that clears a monitor to a background color.
pub open spec fn spec_clear(name: Seq<char>, color: ColorId) -> Seq<char> {
    "global."@ + name + ".setBackgroundColour("@ + spec_dec(color.spec_number() as int)
        + ")\nglobal."@ + name + ".clear()"@
}

impl LocalMonitor {
    /// Append the color-setting script when `create_str` asks for text; the
    /// count of script lines it stands for is returned either way.
    pub fn ext_script_set_color(&self, out: &mut String, create_str: bool, pix: AsIfPixel) -> (n:
        usize)
        ensures
            n == 2,
            create_str ==> final(out)@ == old(out)@ + spec_set_color_hex(self.name@, pix),
            !create_str ==> final(out)@ == old(out)@,
    {
        if create_str {
            out.append("global.");
            out.append(self.name.as_str());
            out.append(".setBackgroundColour(");
            out.append(pix.background_color.to_str());
            out.append(")\nglobal.");
            out.append(self.name.as_str());
            out.append(".setTextColour(");
            out.append(pix.text_color.to_str());
            out.append(")\n");
            proof {
                assert(final(out)@ =~= old(out)@ + spec_set_color_hex(self.name@, pix));
            }
        }
        2
    }

    /// Append the cursor-setting script for the zero-based cell `(x, y)` when
    /// `create_str` asks for text.
    pub fn ext_script_set_cursor(&self, out: &mut String, create_str: bool, x: usize, y: usize) -> (
        n: usize)
        requires
            x < usize::MAX,
            y < usize::MAX,
        ensures
            n == 1,
            create_str ==> final(out)@ == old(out)@ + spec_set_cursor(self.name@, x as int, y as int),
            !create_str ==> final(out)@ == old(out)@,
    {
        if create_str {
            out.append("global.");
            out.append(self.name.as_str());
            out.append(".setCursorPos(");
            let xs = fmt_usize(x + 1);
            out.append(xs.as_str());
            out.append(", ");
            let ys = fmt_usize(y + 1);
            out.append(ys.as_str());
            out.append(")\n");
            proof {
                assert(final(out)@ =~= old(out)@ + spec_set_cursor(self.name@, x as int, y as int));
            }
        }
        1
    }

    /// Append the script writing `txt`, quoted as it stands, when
    /// `create_str` asks for text.
    pub fn ext_script_write_multi_char(&self, out: &mut String, create_str: bool, txt: &str) -> (n:
        usize)
        ensures
            n == 1,
            create_str ==> final(out)@ == old(out)@ + spec_write_multi(self.name@, txt@),
            !create_str ==> final(out)@ == old(out)@,
    {
        if create_str {
            out.append("global.");
            out.append(self.name.as_str());
            out.append(".write(\"");
            out.append(txt);
            out.append("\")\n");
            proof {
                assert(final(out)@ =~= old(out)@ + spec_write_multi(self.name@, txt@));
            }
        }
        1
    }

    /// Append the script writing the pixel's one character when `create_str`
    /// asks for text.
    pub fn ext_script_write_char(&self, out: &mut String, create_str: bool, pix: AsIfPixel) -> (n:
        usize)
        ensures
            n == 1,
            create_str ==> final(out)@ == old(out)@ + spec_write_one(self.name@, pix.spec_text()),
            !create_str ==> final(out)@ == old(out)@,
    {
        if create_str {
            out.append("global.");
            out.append(self.name.as_str());
            out.append(".write('");
            push_char(out, pix.text());
            out.append("')\n");
            proof {
                assert(final(out)@ =~= old(out)@ + spec_write_one(self.name@, pix.spec_text()));
            }
        }
        1
    }

    /// The color-setting script, colors in decimal, and its line count.
    pub fn gen_script_set_color(&self, pix: AsIfPixel) -> (r: (String, usize))
        ensures
            r.0@ == spec_set_color_dec(self.name@, pix),
            r.1 == 2,
    {
        let mut s = String::new();
        s.append("global.");
        s.append(self.name.as_str());
        s.append(".setBackgroundColour(");
        let bc = fmt_u64(pix.background_color.to_number() as u64);
        s.append(bc.as_str());
        s.append(")\nglobal.");
        s.append(self.name.as_str());
        s.append(".setTextColour(");
        let tc = fmt_u64(pix.text_color.to_number() as u64);
        s.append(tc.as_str());
        s.append(")\n");
        proof {
            assert(s@ =~= spec_set_color_dec(self.name@, pix));
        }
        (s, 2)
    }

    /// The text-color-setting script and its line count.
    pub fn gen_script_set_txt_color(&self, pix: AsIfPixel) -> (r: (String, usize))
        ensures
            r.0@ == "global."@ + self.name@ + ".setTextColour("@ + spec_dec(
                pix.text_color.spec_number() as int,
            ) + ")\n"@,
            r.1 == 1,
    {
        let mut s = String::new();
        s.append("global.");
        s.append(self.name.as_str());
        s.append(".setTextColour(");
        let tc = fmt_u64(pix.text_color.to_number() as u64);
        s.append(tc.as_str());
        s.append(")\n");
        proof {
            assert(s@ =~= "global."@ + self.name@ + ".setTextColour("@ + spec_dec(
                pix.text_color.spec_number() as int,
            ) + ")\n"@);
        }
        (s, 1)
    }

    /// The background-color-setting script and its line count.
    pub fn gen_script_set_bg_color(&self, pix: AsIfPixel) -> (r: (String, usize))
        ensures
            r.0@ == "global."@ + self.name@ + ".setBackgroundColour("@ + spec_dec(
                pix.background_color.spec_number() as int,
            ) + ")\n"@,
            r.1 == 1,
    {
        let mut s = String::new();
        s.append("global.");
        s.append(self.name.as_str());
        s.append(".setBackgroundColour(");
        let bc = fmt_u64(pix.background_color.to_number() as u64);
        s.append(bc.as_str());
        s.append(")\n");
        proof {
            assert(s@ =~= "global."@ + self.name@ + ".setBackgroundColour("@ + spec_dec(
                pix.background_color.spec_number() as int,
            ) + ")\n"@);
        }
        (s, 1)
    }

    /// The cursor-setting script for the zero-based cell `(x, y)` and its
    /// line count.
    pub fn gen_script_set_cursor(&self, x: usize, y: usize) -> (r: (String, usize))
        requires
            x < usize::MAX,
            y < usize::MAX,
        ensures
            r.0@ == spec_set_cursor(self.name@, x as int, y as int),
            r.1 == 1,
    {
        let mut s = String::new();
        s.append("global.");
        s.append(self.name.as_str());
        s.append(".setCursorPos(");
        let xs = fmt_usize(x + 1);
        s.append(xs.as_str());
        s.append(", ");
        let ys = fmt_usize(y + 1);
        s.append(ys.as_str());
        s.append(")\n");
        proof {
            assert(s@ =~= spec_set_cursor(self.name@, x as int, y as int));
        }
        (s, 1)
    }

    /// The script writing `txt`, quoted as it stands, and its line count.
    pub fn gen_script_write_multi_char(&self, txt: &str) -> (r: (String, usize))
        ensures
            r.0@ == spec_write_multi(self.name@, txt@),
            r.1 == 1,
    {
        let mut s = String::new();
        self.ext_script_write_multi_char(&mut s, true, txt);
        proof {
            assert(s@ =~= spec_write_multi(self.name@, txt@));
        }
        (s, 1)
    }

    /// The script writing the pixel's one character and its line count.
    pub fn gen_script_write_char(&self, pix: AsIfPixel) -> (r: (String, usize))
        ensures
            r.0@ == spec_write_one(self.name@, pix.spec_text()),
            r.1 == 1,
    {
        let mut s = String::new();
        self.ext_script_write_char(&mut s, true, pix);
        proof {
            assert(s@ =~= spec_write_one(self.name@, pix.spec_text()));
        }
        (s, 1)
    }

    /// The script moving the cursor to the zero-based cell `(x, y)` and
    /// writing the pixel's character there, and its line count.
    pub fn gen_script_write_txt(&self, x: usize, y: usize, pix: AsIfPixel) -> (r: (String, usize))
        requires
            x < usize::MAX,
            y < usize::MAX,
        ensures
            r.0@ == spec_set_cursor(self.name@, x as int, y as int) + spec_write_one(
                self.name@,
                pix.spec_text(),
            ),
            r.1 == 2,
    {
        let mut s = String::new();
        self.ext_script_set_cursor(&mut s, true, x, y);
        self.ext_script_write_char(&mut s, true, pix);
        proof {
            assert(s@ =~= spec_set_cursor(self.name@, x as int, y as int) + spec_write_one(
                self.name@,
                pix.spec_text(),
            ));
        }
        (s, 2)
    }

    /// The script clearing the monitor to `color` and its line count.
    pub fn gen_script_clear(&self, color: ColorId) -> (r: (String, usize))
        ensures
            r.0@ == spec_clear(self.name@, color),
            r.1 == 2,
    {
        let mut s = String::new();
        s.append("global.");
        s.append(self.name.as_str());
        s.append(".setBackgroundColour(");
        let bc = fmt_u64(color.to_number() as u64);
        s.append(bc.as_str());
        s.append(")\nglobal.");
        s.append(self.name.as_str());
        s.append(".clear()");
        proof {
            assert(s@ =~= spec_clear(self.name@, color));
        }
        (s, 2)
    }

    /// The script that binds the monitor's global name to its peripheral. A
    /// remote monitor is reached through a `wrap_remote` helper that the
    /// host environment must already define; the side and the remote name
    /// are quoted with their specials escaped.
    pub fn gen_script_init_monitor(init_method: &InitMethod) -> (r: String)
        ensures
            init_method matches InitMethod::Local(side) ==> r@ == "global."@
                + LocalMonitor::spec_gen_name(*init_method) + " = peripheral.wrap(\""@
                + side.spec_name() + "\")"@,
            init_method matches InitMethod::Remote { side, name } ==> r@ == "global."@
                + LocalMonitor::spec_gen_name(*init_method) + " = wrap_remote(\""@
                + spec_quoted(side.spec_name()) + "\", \""@ + spec_quoted(name@) + "\")"@,
    {
        match init_method {
            InitMethod::Local(side) => {
                let mut s = String::new();
                s.append("global.");
                let n = LocalMonitor::gen_name(init_method);
                s.append(n.as_str());
                s.append(" = peripheral.wrap(\"");
                s.append(side.name());
                s.append("\")");
                proof {
                    assert(s@ =~= "global."@ + LocalMonitor::spec_gen_name(*init_method)
                        + " = peripheral.wrap(\""@ + side.spec_name() + "\")"@);
                }
                s
            },
            InitMethod::Remote { side, name } => {
                let mut s = String::new();
                s.append("global.");
                let n = LocalMonitor::gen_name(init_method);
                s.append(n.as_str());
                s.append(" = wrap_remote(\"");
                append_quoted(&mut s, side.name());
                s.append("\", \"");
                append_quoted(&mut s, name.as_str());
                s.append("\")");
                proof {
                    assert(s@ =~= "global."@ + LocalMonitor::spec_gen_name(*init_method)
                        + " = wrap_remote(\""@ + spec_quoted(side.spec_name()) + "\", \""@
                        + spec_quoted(name@) + "\")"@);
                }
                s
            },
        }
    }

    /// The script that maps one palette color to the RGB value `target`, and
    /// its line count.
    pub fn gen_script_set_palette(&self, clr: ColorId, target: u32) -> (r: (String, usize))
        ensures
            r.0@ == "global."@ + self.name@ + ".setPaletteColour("@ + spec_dec(
                clr.spec_number() as int,
            ) + ", "@ + spec_dec(target as int) + ")\n"@,
            r.1 == 1,
    {
        let mut s = String::new();
        s.append("global.");
        s.append(self.name.as_str());
        s.append(".setPaletteColour(");
        let c = fmt_u64(clr.to_number() as u64);
        s.append(c.as_str());
        s.append(", ");
        let t = fmt_u64(target as u64);
        s.append(t.as_str());
        s.append(")\n");
        proof {
            assert(s@ =~= "global."@ + self.name@ + ".setPaletteColour("@ + spec_dec(
                clr.spec_number() as int,
            ) + ", "@ + spec_dec(target as int) + ")\n"@);
        }
        (s, 1)
    }
}

} // verus!

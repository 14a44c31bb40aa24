//! The renderers: each turns a palette into the exact terminal text that
//! the front-end writes out.

use vstd::prelude::*;
use vstd::string::StringExecFns;

use crate::colour::ColourInfo;
use crate::colour::ansi_of;

verus! {

/// One line of the coloured renderer: a background swatch, a reset, then
/// the hex text.
pub open spec fn coloured_line_of(c: ColourInfo) -> Seq<char> {
    ansi_of(c.colour) + "      "@ + "\x1b[30;m"@ + " "@ + "#"@ + c.hex@ + "\n"@
}

/// The whole output of the coloured renderer.
pub open spec fn coloured_output_of(s: Seq<ColourInfo>) -> Seq<char>
    decreases s.len(),
{
    if s.len() == 0 {
        Seq::empty()
    } else {
        coloured_line_of(s[0]) + coloured_output_of(s.skip(1))
    }
}

proof fn lemma_coloured_step(s: Seq<ColourInfo>, i: int)
    requires
        0 <= i < s.len(),
    ensures
        coloured_output_of(s.skip(i)) == coloured_line_of(s[i]) + coloured_output_of(s.skip(i + 1)),
{
    assert(s.skip(i)[0] == s[i]);
    assert(s.skip(i).skip(1) =~= s.skip(i + 1));
}

/// Renders one line per colour: an ANSI background swatch, a reset, then
/// the hex text.
pub fn print_lines_coloured(colours: &Vec<ColourInfo>) -> (r: String)
    ensures
        r@ == coloured_output_of(colours@),
{
    let mut out = String::new();
    let mut i: usize = 0;
    proof {
        assert(colours@.skip(0) =~= colours@);
        assert(out@ + coloured_output_of(colours@) =~= coloured_output_of(colours@));
    }
    while i < colours.len()
        invariant
            i <= colours@.len(),
            out@ + coloured_output_of(colours@.skip(i as int)) == coloured_output_of(colours@),
        decreases colours@.len() - i,
    {
        let ghost prev = out@;
        let swatch = colours[i].ansi_block();
        out.append(swatch.as_str());
        out.append("      ");
        out.append("\x1b[30;m");
        out.append(" ");
        let hex = colours[i].hex();
        out.append(hex.as_str());
        out.append("\n");
        proof {
            lemma_coloured_step(colours@, i as int);
            assert(out@ =~= prev + coloured_line_of(colours@[i as int]));
            assert(out@ + coloured_output_of(colours@.skip(i as int + 1)) =~= prev
                + coloured_output_of(colours@.skip(i as int)));
        }
        i += 1;
    }
    proof {
        assert(colours@.skip(colours@.len() as int) =~= Seq::<ColourInfo>::empty());
        assert(out@ + coloured_output_of(colours@.skip(colours@.len() as int)) =~= out@);
    }
    out
}

/// One line of the plain renderer: the hex text alone.
pub open spec fn uncoloured_line_of(c: ColourInfo) -> Seq<char> {
    "#"@ + c.hex@ + "\n"@
}

/// The whole output of the plain renderer.
pub open spec fn uncoloured_output_of(s: Seq<ColourInfo>) -> Seq<char>
    decreases s.len(),
{
    if s.len() == 0 {
        Seq::empty()
    } else {
        uncoloured_line_of(s[0]) + uncoloured_output_of(s.skip(1))
    }
}

proof fn lemma_uncoloured_step(s: Seq<ColourInfo>, i: int)
    requires
        0 <= i < s.len(),
    ensures
        uncoloured_output_of(s.skip(i)) == uncoloured_line_of(s[i]) + uncoloured_output_of(
            s.skip(i + 1),
        ),
{
    assert(s.skip(i)[0] == s[i]);
    assert(s.skip(i).skip(1) =~= s.skip(i + 1));
}

/// Renders one line per colour: the bare hex text, no ANSI codes.
pub fn print_lines_uncoloured(colours: &Vec<ColourInfo>) -> (r: String)
    ensures
        r@ == uncoloured_output_of(colours@),
{
    let mut out = String::new();
    let mut i: usize = 0;
    proof {
        assert(colours@.skip(0) =~= colours@);
        assert(out@ + uncoloured_output_of(colours@) =~= uncoloured_output_of(colours@));
    }
    while i < colours.len()
        invariant
            i <= colours@.len(),
            out@ + uncoloured_output_of(colours@.skip(i as int)) == uncoloured_output_of(colours@),
        decreases colours@.len() - i,
    {
        let ghost prev = out@;
        let hex = colours[i].hex();
        out.append(hex.as_str());
        out.append("\n");
        proof {
            lemma_uncoloured_step(colours@, i as int);
            assert(out@ =~= prev + uncoloured_line_of(colours@[i as int]));
            assert(out@ + uncoloured_output_of(colours@.skip(i as int + 1)) =~= prev
                + uncoloured_output_of(colours@.skip(i as int)));
        }
        i += 1;
    }
    proof {
        assert(colours@.skip(colours@.len() as int) =~= Seq::<ColourInfo>::empty());
        assert(out@ + uncoloured_output_of(colours@.skip(colours@.len() as int)) =~= out@);
    }
    out
}

/// The lines of the full-line block renderer, one swatch line per colour.
pub open spec fn block_lines_of(s: Seq<ColourInfo>) -> Seq<char>
    decreases s.len(),
{
    if s.len() == 0 {
        Seq::empty()
    } else {
        ansi_of(s[0].colour) + "\n"@ + block_lines_of(s.skip(1))
    }
}

/// The whole output of the full-line block renderer: the swatch lines,
/// then one reset line.
pub open spec fn block_output_of(s: Seq<ColourInfo>) -> Seq<char> {
    block_lines_of(s) + "\x1b[30;m"@ + "\n"@
}

proof fn lemma_block_step(s: Seq<ColourInfo>, i: int)
    requires
        0 <= i < s.len(),
    ensures
        block_lines_of(s.skip(i)) == ansi_of(s[i].colour) + "\n"@ + block_lines_of(s.skip(i + 1)),
{
    assert(s.skip(i)[0] == s[i]);
    assert(s.skip(i).skip(1) =~= s.skip(i + 1));
}

/// Renders one full line of background colour per colour, then a reset line.
pub fn print_block_lines(colours: &Vec<ColourInfo>) -> (r: String)
    ensures
        r@ == block_output_of(colours@),
{
    let mut out = String::new();
    let mut i: usize = 0;
    proof {
        assert(colours@.skip(0) =~= colours@);
        assert(out@ + block_lines_of(colours@) =~= block_lines_of(colours@));
    }
    while i < colours.len()
        invariant
            i <= colours@.len(),
            out@ + block_lines_of(colours@.skip(i as int)) == block_lines_of(colours@),
        decreases colours@.len() - i,
    {
        let ghost prev = out@;
        let swatch = colours[i].ansi_block();
        out.append(swatch.as_str());
        out.append("\n");
        proof {
            lemma_block_step(colours@, i as int);
            assert(out@ =~= prev + (ansi_of(colours@[i as int].colour) + "\n"@));
            assert(out@ + block_lines_of(colours@.skip(i as int + 1)) =~= prev + block_lines_of(
                colours@.skip(i as int),
            ));
        }
        i += 1;
    }
    out.append("\x1b[30;m");
    out.append("\n");
    proof {
        assert(colours@.skip(colours@.len() as int) =~= Seq::<ColourInfo>::empty());
        assert(out@ =~= block_output_of(colours@));
    }
    out
}

/// One entry of the code renderer: an indented, quoted hex text, coloured
/// inline when asked for, with a comma after every entry but the last.
pub open spec fn code_entry_of(c: ColourInfo, coloured: bool, last: bool) -> Seq<char> {
    "\t\""@ + (if coloured {
        ansi_of(c.colour) + "#"@ + c.hex@ + "\x1b[30;m"@
    } else {
        "#"@ + c.hex@
    }) + (if last {
        "\""@
    } else {
        "\","@
    }) + "\n"@
}

/// The entry lines of the code renderer.
pub open spec fn code_entries_of(s: Seq<ColourInfo>, coloured: bool) -> Seq<char>
    decreases s.len(),
{
    if s.len() == 0 {
        Seq::empty()
    } else {
        code_entry_of(s[0], coloured, s.len() == 1) + code_entries_of(s.skip(1), coloured)
    }
}

/// The whole output of the code renderer: an array-literal-like block.
pub open spec fn code_output_of(s: Seq<ColourInfo>, coloured: bool) -> Seq<char> {
    "["@ + "\n"@ + code_entries_of(s, coloured) + (if coloured {
        "\x1b[30;m"@
    } else {
        Seq::<char>::empty()
    }) + "]"@ + "\n"@
}

proof fn lemma_code_step(s: Seq<ColourInfo>, coloured: bool, i: int)
    requires
        0 <= i < s.len(),
    ensures
        code_entries_of(s.skip(i), coloured) == code_entry_of(s[i], coloured, i == s.len() - 1)
            + code_entries_of(s.skip(i + 1), coloured),
{
    assert(s.skip(i)[0] == s[i]);
    assert(s.skip(i).skip(1) =~= s.skip(i + 1));
}

/// Renders the palette as an array-literal-like block: one quoted entry
/// per colour, comma-separated with no trailing comma, optionally
/// ANSI-coloured inline.
#[verifier::rlimit(60)]
pub fn print_lines_code(colours: &Vec<ColourInfo>, coloured: bool) -> (r: String)
    ensures
        r@ == code_output_of(colours@, coloured),
{
    let mut out = String::from_str("[");
    out.append("\n");
    let mut i: usize = 0;
    proof {
        assert(colours@.skip(0) =~= colours@);
        assert(out@ + code_entries_of(colours@, coloured) =~= "["@ + "\n"@ + code_entries_of(
            colours@,
            coloured,
        ));
    }
    while i < colours.len()
        invariant
            i <= colours@.len(),
            out@ + code_entries_of(colours@.skip(i as int), coloured) == "["@ + "\n"@
                + code_entries_of(colours@, coloured),
        decreases colours@.len() - i,
    {
        let ghost prev = out@;
        out.append("\t\"");
        if coloured {
            let swatch = colours[i].ansi_block();
            out.append(swatch.as_str());
            let hex = colours[i].hex();
            out.append(hex.as_str());
            out.append("\x1b[30;m");
        } else {
            let hex = colours[i].hex();
            out.append(hex.as_str());
        }
        if i == colours.len() - 1 {
            out.append("\"");
        } else {
            out.append("\",");
        }
        out.append("\n");
        proof {
            lemma_code_step(colours@, coloured, i as int);
            assert(out@ =~= prev + code_entry_of(
                colours@[i as int],
                coloured,
                i == colours@.len() - 1,
            ));
            assert(out@ + code_entries_of(colours@.skip(i as int + 1), coloured) =~= prev
                + code_entries_of(colours@.skip(i as int), coloured));
        }
        i += 1;
    }
    if coloured {
        out.append("\x1b[30;m");
    }
    out.append("]");
    out.append("\n");
    proof {
        assert(colours@.skip(colours@.len() as int) =~= Seq::<ColourInfo>::empty());
        assert(out@ =~= code_output_of(colours@, coloured));
    }
    out
}

/// One entry of the clipboard text, with a comma after every entry but the
/// last.
pub open spec fn copy_entry_of(c: ColourInfo, last: bool) -> Seq<char> {
    "\t\""@ + "#"@ + c.hex@ + (if last {
        "\""@
    } else {
        "\","@
    })
}

/// The entries of the clipboard text.
pub open spec fn copy_entries_of(s: Seq<ColourInfo>) -> Seq<char>
    decreases s.len(),
{
    if s.len() == 0 {
        Seq::empty()
    } else {
        copy_entry_of(s[0], s.len() == 1) + copy_entries_of(s.skip(1))
    }
}

/// The clipboard text of a palette: a closed array literal with one quoted
/// hex entry per colour and no trailing comma.
pub open spec fn copyable_code_of(s: Seq<ColourInfo>) -> Seq<char> {
    "gradient = ["@ + copy_entries_of(s) + "]"@
}

proof fn lemma_copy_step(s: Seq<ColourInfo>, i: int)
    requires
        0 <= i < s.len(),
    ensures
        copy_entries_of(s.skip(i)) == copy_entry_of(s[i], i == s.len() - 1) + copy_entries_of(
            s.skip(i + 1),
        ),
{
    assert(s.skip(i)[0] == s[i]);
    assert(s.skip(i).skip(1) =~= s.skip(i + 1));
}

/// Builds the plain text that the clipboard receives: the palette as a
/// closed array literal, one quoted hex entry per colour.
pub fn copyable_code(colours: &Vec<ColourInfo>) -> (r: String)
    ensures
        r@ == copyable_code_of(colours@),
{
    let mut out = String::from_str("gradient = [");
    let mut i: usize = 0;
    proof {
        assert(colours@.skip(0) =~= colours@);
        assert(out@ + copy_entries_of(colours@) =~= "gradient = ["@ + copy_entries_of(colours@));
    }
    while i < colours.len()
        invariant
            i <= colours@.len(),
            out@ + copy_entries_of(colours@.skip(i as int)) == "gradient = ["@ + copy_entries_of(
                colours@,
            ),
        decreases colours@.len() - i,
    {
        let ghost prev = out@;
        out.append("\t\"");
        let hex = colours[i].hex();
        out.append(hex.as_str());
        if i == colours.len() - 1 {
            out.append("\"");
        } else {
            out.append("\",");
        }
        proof {
            lemma_copy_step(colours@, i as int);
            assert(out@ =~= prev + copy_entry_of(colours@[i as int], i == colours@.len() - 1));
            assert(out@ + copy_entries_of(colours@.skip(i as int + 1)) =~= prev + copy_entries_of(
                colours@.skip(i as int),
            ));
        }
        i += 1;
    }
    out.append("]");
    proof {
        assert(colours@.skip(colours@.len() as int) =~= Seq::<ColourInfo>::empty());
        assert(out@ =~= copyable_code_of(colours@));
    }
    out
}

} // verus!

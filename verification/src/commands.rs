//! The palette generators: random, gradient, gradient-from-random, the wal
//! colour-scheme document, and lines of hex text.

use vstd::prelude::*;
use vstd::arithmetic::div_mod::lemma_basic_div;
use vstd::arithmetic::div_mod::lemma_div_pos_is_pos;
use vstd::arithmetic::div_mod::lemma_fundamental_div_mod;
use vstd::arithmetic::div_mod::lemma_mod_bound;
use vstd::arithmetic::mul::lemma_mul_inequality;
use vstd::arithmetic::mul::lemma_mul_nonnegative;

use crate::codec::hexadecimal_to_colour;
use crate::codec::lemma_decode_of_encode;
use crate::codec::spec_decode;
use crate::codec::spec_trim;
use crate::codec::strip_hash;
use crate::codec::trim;
use crate::colour::Colour;
use crate::colour::ColourInfo;
use crate::colour::hex_of;
use crate::errors::PaletteError;

verus! {

pub type CommandReturn = Result<Vec<ColourInfo>, PaletteError>;

#[verifier::external_type_specification]
#[verifier::external_body]
pub struct ExThreadRng(rand::rngs::ThreadRng);

/// Relies on rand's `Rng::gen::<u8>` on a `ThreadRng`: draws one byte from
/// the thread-local generator. Nothing is promised of the value drawn.
#[verifier::external_body]
fn random_byte(rng: &mut rand::rngs::ThreadRng) -> u8 {
    rand::Rng::gen::<u8>(rng)
}

/// Generates a palette of `n` colours whose channels are drawn from the
/// given random source.
pub fn rand(n: usize, rng: &mut rand::rngs::ThreadRng) -> (res: CommandReturn)
    ensures
        res matches Ok(v) && v@.len() == n && (forall|i: int| 0 <= i < n ==> (#[trigger] v@[i]).wf()),
{
    let mut out: Vec<ColourInfo> = Vec::new();
    let mut i: usize = 0;
    while i < n
        invariant
            i <= n,
            out@.len() == i,
            forall|j: int| 0 <= j < i ==> (#[trigger] out@[j]).wf(),
        decreases n - i,
    {
        let r = random_byte(rng);
        let g = random_byte(rng);
        let b = random_byte(rng);
        out.push(ColourInfo::new(Colour::new(r, g, b)));
        i += 1;
    }
    Ok(out)
}

/// The signed per-step change of one channel: the channel difference
/// divided by the step count, truncating toward zero.
pub open spec fn chan_step(s: u8, e: u8, n: int) -> int {
    if e >= s {
        (e - s) / n
    } else {
        -((s - e) / n)
    }
}

/// One channel after `i` steps: the start channel advanced `i` times by the
/// per-step change.
pub open spec fn grad_chan(s: u8, e: u8, n: int, i: int) -> int {
    s + i * chan_step(s, e, n)
}

/// The colour of gradient step `i`.
pub open spec fn grad_colour(s: Colour, e: Colour, n: int, i: int) -> Colour {
    Colour {
        r: grad_chan(s.r, e.r, n, i) as u8,
        g: grad_chan(s.g, e.g, n, i) as u8,
        b: grad_chan(s.b, e.b, n, i) as u8,
    }
}

/// Whether a palette is the gradient of `n` steps between two colours.
pub open spec fn is_gradient_of(v: Seq<ColourInfo>, sc: Colour, ec: Colour, n: int) -> bool {
    forall|i: int|
        0 <= i < v.len() ==> (#[trigger] v[i]).wf() && v[i].colour == grad_colour(sc, ec, n, i)
}

/// Every gradient step of a channel stays between its two endpoints.
proof fn lemma_grad_chan_bounds(s: u8, e: u8, n: int, i: int)
    requires
        1 <= n,
        0 <= i <= n,
    ensures
        e >= s ==> s <= grad_chan(s, e, n, i) <= e,
        e < s ==> e <= grad_chan(s, e, n, i) <= s,
{
    if e >= s {
        let d = e - s;
        let q = d / n;
        lemma_div_pos_is_pos(d, n);
        lemma_fundamental_div_mod(d, n);
        lemma_mod_bound(d, n);
        lemma_mul_nonnegative(i, q);
        lemma_mul_inequality(i, n, q);
        assert(n * q == q * n) by (nonlinear_arith);
    } else {
        let d = s - e;
        let q = d / n;
        lemma_div_pos_is_pos(d, n);
        lemma_fundamental_div_mod(d, n);
        lemma_mod_bound(d, n);
        lemma_mul_nonnegative(i, q);
        lemma_mul_inequality(i, n, q);
        assert(n * q == q * n) by (nonlinear_arith);
        assert(i * -q == -(i * q)) by (nonlinear_arith);
    }
}

/// Each gradient step of a channel advances the previous step by the
/// per-step change.
proof fn lemma_grad_chan_step(s: u8, e: u8, n: int, i: int)
    requires
        1 <= n,
        1 <= i,
    ensures
        grad_chan(s, e, n, i) == grad_chan(s, e, n, i - 1) + chan_step(s, e, n),
{
    let q = chan_step(s, e, n);
    assert(i * q == (i - 1) * q + q) by (nonlinear_arith);
}

/// The magnitude of the per-step change of one channel.
fn chan_step_mag(s: u8, e: u8, chunks: usize) -> (q: u8)
    requires
        chunks >= 1,
    ensures
        e >= s ==> q as int == chan_step(s, e, chunks as int),
        e < s ==> q as int == -chan_step(s, e, chunks as int),
{
    let d: u8 = if e >= s {
        e - s
    } else {
        s - e
    };
    if chunks > 255 {
        proof {
            lemma_basic_div(d as int, chunks as int);
        }
        0
    } else {
        d / (chunks as u8)
    }
}

/// Generates a gradient palette of `chunks` colours. Step 0 is exactly the
/// decoded start colour; every later step advances each channel by the
/// truncated per-channel difference divided by `chunks`, so the last step
/// approaches the end colour without being owed to reach it. Zero steps are
/// rejected rather than clamped.
pub fn gradient(start: String, end: String, chunks: usize) -> (res: CommandReturn)
    ensures
        match spec_decode(start@) {
            None => res matches Err(e) && (e matches PaletteError::MalformedHex(t) && t@
                == start@),
            Some(sc) => match spec_decode(end@) {
                None => res matches Err(e) && (e matches PaletteError::MalformedHex(t) && t@
                    == end@),
                Some(ec) => if chunks == 0 {
                    res matches Err(e) && e is InvalidStepCount
                } else {
                    res matches Ok(v) && v@.len() == chunks && is_gradient_of(
                        v@,
                        sc,
                        ec,
                        chunks as int,
                    )
                },
            },
        },
{
    let sci = match hexadecimal_to_colour(start.as_str()) {
        Ok(ci) => ci,
        Err(e) => {
            return Err(e);
        },
    };
    let eci = match hexadecimal_to_colour(end.as_str()) {
        Ok(ci) => ci,
        Err(e) => {
            return Err(e);
        },
    };
    if chunks == 0 {
        return Err(PaletteError::InvalidStepCount);
    }
    let sc = sci.colour;
    let ec = eci.colour;
    let up_r = ec.r >= sc.r;
    let up_g = ec.g >= sc.g;
    let up_b = ec.b >= sc.b;
    let q_r = chan_step_mag(sc.r, ec.r, chunks);
    let q_g = chan_step_mag(sc.g, ec.g, chunks);
    let q_b = chan_step_mag(sc.b, ec.b, chunks);
    let mut cur = sc;
    let mut grad: Vec<ColourInfo> = Vec::new();
    grad.push(ColourInfo::new(cur));
    let mut k: usize = 1;
    while k < chunks
        invariant
            1 <= k <= chunks,
            grad@.len() == k,
            spec_decode(start@) == Some(sc),
            spec_decode(end@) == Some(ec),
            up_r == (ec.r >= sc.r),
            up_g == (ec.g >= sc.g),
            up_b == (ec.b >= sc.b),
            up_r ==> q_r as int == chan_step(sc.r, ec.r, chunks as int),
            !up_r ==> q_r as int == -chan_step(sc.r, ec.r, chunks as int),
            up_g ==> q_g as int == chan_step(sc.g, ec.g, chunks as int),
            !up_g ==> q_g as int == -chan_step(sc.g, ec.g, chunks as int),
            up_b ==> q_b as int == chan_step(sc.b, ec.b, chunks as int),
            !up_b ==> q_b as int == -chan_step(sc.b, ec.b, chunks as int),
            cur.r as int == grad_chan(sc.r, ec.r, chunks as int, k - 1),
            cur.g as int == grad_chan(sc.g, ec.g, chunks as int, k - 1),
            cur.b as int == grad_chan(sc.b, ec.b, chunks as int, k - 1),
            forall|i: int| 0 <= i < k ==> (#[trigger] grad@[i]).wf() && grad@[i].colour
                == grad_colour(sc, ec, chunks as int, i),
        decreases chunks - k,
    {
        proof {
            lemma_grad_chan_step(sc.r, ec.r, chunks as int, k as int);
            lemma_grad_chan_step(sc.g, ec.g, chunks as int, k as int);
            lemma_grad_chan_step(sc.b, ec.b, chunks as int, k as int);
            lemma_grad_chan_bounds(sc.r, ec.r, chunks as int, k as int);
            lemma_grad_chan_bounds(sc.g, ec.g, chunks as int, k as int);
            lemma_grad_chan_bounds(sc.b, ec.b, chunks as int, k as int);
            lemma_grad_chan_bounds(sc.r, ec.r, chunks as int, k - 1);
            lemma_grad_chan_bounds(sc.g, ec.g, chunks as int, k - 1);
            lemma_grad_chan_bounds(sc.b, ec.b, chunks as int, k - 1);
        }
        if up_r {
            cur.r = cur.r + q_r;
        } else {
            cur.r = cur.r - q_r;
        }
        if up_g {
            cur.g = cur.g + q_g;
        } else {
            cur.g = cur.g - q_g;
        }
        if up_b {
            cur.b = cur.b + q_b;
        } else {
            cur.b = cur.b - q_b;
        }
        grad.push(ColourInfo::new(cur));
        k += 1;
    }
    Ok(grad)
}

/// Generates a gradient palette of `chunks` colours between two colours
/// drawn from the given random source.
pub fn gradient_rand(chunks: usize, rng: &mut rand::rngs::ThreadRng) -> (res: CommandReturn)
    ensures
        chunks == 0 ==> (res matches Err(e) && e is InvalidStepCount),
        chunks >= 1 ==> (res matches Ok(v) && v@.len() == chunks && (exists|sc: Colour, ec: Colour|
            is_gradient_of(v@, sc, ec, chunks as int))),
{
    let ends = match rand(2, rng) {
        Ok(v) => v,
        Err(e) => {
            return Err(e);
        },
    };
    let start_hex = ends[0].hex();
    let end_hex = ends[1].hex();
    proof {
        reveal_strlit("#");
        lemma_decode_of_encode(ends@[0].colour);
        lemma_decode_of_encode(ends@[1].colour);
        assert(strip_hash(start_hex@) =~= hex_of(ends@[0].colour));
        assert(strip_hash(end_hex@) =~= hex_of(ends@[1].colour));
    }
    gradient(start_hex, end_hex, chunks)
}

/// What the wal colour-scheme document holds: the short-string values of
/// its top-level `colors` object, in document order, or nothing when the
/// text is not a JSON object with a `colors` object. This is a fixed
/// function of the text alone.
pub uninterp spec fn wal_entries_of(s: Seq<char>) -> Option<Seq<Seq<char>>>;

/// Relies on json's `parse`, `JsonValue` and `Object`: parses the document
/// and hands out, in document order, the short-string values of its
/// top-level `colors` object; a parse failure or any other document shape
/// gives nothing.
#[verifier::external_body]
fn parse_wal_colours(text: &str) -> (r: Option<Vec<String>>)
    ensures
        match r {
            Some(v) => wal_entries_of(text@) == Some(v.deep_view()),
            None => wal_entries_of(text@) is None,
        },
{
    let parsed = match json::parse(text) { Ok(v) => v, Err(_) => return None };
    if let json::JsonValue::Object(obj) = parsed {
        if let Some(json::JsonValue::Object(cols)) = obj.get("colors") {
            let mut out = Vec::new();
            for (_key, value) in cols.iter() {
                if let json::JsonValue::Short(hex) = value {
                    out.push(hex.as_str().to_owned());
                }
            }
            return Some(out);
        }
    }
    None
}

/// Loads a palette from the text of a wal colour-scheme document: a JSON
/// object whose `colors` object maps keys to hex strings. The palette
/// holds the decoded `colors` values in document order.
pub fn wal(contents: &str) -> (res: CommandReturn)
    ensures
        match wal_entries_of(contents@) {
            None => res matches Err(e) && e is ConfigMalformed,
            Some(entries) => match res {
                Ok(v) => v@.len() == entries.len() && (forall|i: int|
                    0 <= i < entries.len() ==> (#[trigger] spec_decode(entries[i])) == Some(
                        v@[i].colour,
                    ) && v@[i].wf()),
                Err(e) => exists|i: int|
                    0 <= i < entries.len() && (#[trigger] spec_decode(entries[i])) is None && (
                    forall|j: int| 0 <= j < i ==> (#[trigger] spec_decode(entries[j])) is Some) && (
                    e matches PaletteError::MalformedHex(t) && t@ == entries[i]),
            },
        },
{
    let entries = match parse_wal_colours(contents) {
        Some(v) => v,
        None => {
            return Err(PaletteError::ConfigMalformed);
        },
    };
    let mut out: Vec<ColourInfo> = Vec::new();
    let mut idx: usize = 0;
    while idx < entries.len()
        invariant
            idx <= entries@.len(),
            out@.len() == idx,
            wal_entries_of(contents@) == Some(entries.deep_view()),
            forall|j: int| 0 <= j < idx ==> (#[trigger] spec_decode(entries.deep_view()[j]))
                == Some(out@[j].colour) && out@[j].wf(),
        decreases entries@.len() - idx,
    {
        proof {
            assert(entries.deep_view()[idx as int] == entries@[idx as int]@);
        }
        match hexadecimal_to_colour(entries[idx].as_str()) {
            Ok(ci) => out.push(ci),
            Err(e) => {
                return Err(e);
            },
        }
        idx += 1;
    }
    Ok(out)
}

/// Decodes a palette from lines of hex text, as read from standard input:
/// each line is trimmed of surrounding whitespace and decoded, in order,
/// and the first malformed line fails the whole palette.
pub fn colourize(lines: Vec<String>) -> (res: CommandReturn)
    ensures
        match res {
            Ok(v) => v@.len() == lines.deep_view().len() && (forall|i: int|
                0 <= i < lines.deep_view().len() ==> (#[trigger] spec_decode(
                    spec_trim(lines.deep_view()[i]),
                )) == Some(v@[i].colour) && v@[i].wf()),
            Err(e) => exists|i: int|
                0 <= i < lines.deep_view().len() && (#[trigger] spec_decode(
                    spec_trim(lines.deep_view()[i]),
                )) is None && (forall|j: int|
                    0 <= j < i ==> (#[trigger] spec_decode(spec_trim(lines.deep_view()[j]))) is Some)
                    && (e matches PaletteError::MalformedHex(t) && t@ == spec_trim(
                    lines.deep_view()[i],
                )),
        },
{
    let mut out: Vec<ColourInfo> = Vec::new();
    let mut idx: usize = 0;
    while idx < lines.len()
        invariant
            idx <= lines@.len(),
            out@.len() == idx,
            forall|j: int| 0 <= j < idx ==> (#[trigger] spec_decode(
                spec_trim(lines.deep_view()[j]),
            )) == Some(out@[j].colour) && out@[j].wf(),
        decreases lines@.len() - idx,
    {
        proof {
            assert(lines.deep_view()[idx as int] == lines@[idx as int]@);
        }
        let line = trim(lines[idx].as_str());
        match hexadecimal_to_colour(line.as_str()) {
            Ok(ci) => out.push(ci),
            Err(e) => {
                return Err(e);
            },
        }
        idx += 1;
    }
    Ok(out)
}

} // verus!

use vstd::prelude::*;

verus! {

/// A color with one byte per channel, alpha included.
#[derive(Clone, Copy, Debug, PartialEq, Eq, Structural)]
pub struct Color {
    pub r: u8,
    pub g: u8,
    pub b: u8,
    pub a: u8,
}

/// The border drawn around windows.
#[derive(Clone, Copy, Debug, PartialEq, Eq, Structural)]
pub struct BorderConfig {
    pub focused_color: Color,
    pub normal_color: Color,
    pub thickness: u8,
    pub radius: u8,
}

/// The default border thickness.
pub fn default_thickness() -> (r: u8)
    ensures
        r == 2,
{
    2
}

/// The default border corner radius.
pub fn default_radius() -> (r: u8)
    ensures
        r == 10,
{
    10
}

impl Default for BorderConfig {
    /// Red focused border, grey normal border, default thickness and
    /// radius.
    fn default() -> (r: BorderConfig)
        ensures
            r == (BorderConfig {
                focused_color: Color { r: 255, g: 0, b: 0, a: 255 },
                normal_color: Color { r: 128, g: 128, b: 128, a: 128 },
                thickness: 2,
                radius: 10,
            }),
    {
        BorderConfig {
            focused_color: Color { r: 255, g: 0, b: 0, a: 255 },
            normal_color: Color { r: 128, g: 128, b: 128, a: 128 },
            thickness: default_thickness(),
            radius: default_radius(),
        }
    }
}

/// Window decoration configuration: the border, and whether clients may
/// draw their own decorations.
#[derive(Clone, Copy, Debug, PartialEq, Eq, Structural)]
pub struct DecorationConfig {
    pub border: BorderConfig,
    pub allow_csd: bool,
}

impl Default for DecorationConfig {
    fn default() -> (r: DecorationConfig)
        ensures
            r.border == (BorderConfig {
                focused_color: Color { r: 255, g: 0, b: 0, a: 255 },
                normal_color: Color { r: 128, g: 128, b: 128, a: 128 },
                thickness: 2,
                radius: 10,
            }),
            !r.allow_csd,
    {
        DecorationConfig { border: BorderConfig::default(), allow_csd: false }
    }
}

/// Value of one hexadecimal digit, as an ASCII byte.
pub open spec fn hex_digit(b: u8) -> Option<int> {
    if 48 <= b <= 57 {
        Some((b - 48) as int)
    } else if 97 <= b <= 102 {
        Some((b - 87) as int)
    } else if 65 <= b <= 70 {
        Some((b - 55) as int)
    } else {
        None
    }
}

/// Value of a two-digit hexadecimal byte.
pub open spec fn hex_pair(hi: u8, lo: u8) -> Option<int> {
    match (hex_digit(hi), hex_digit(lo)) {
        (Some(h), Some(l)) => Some(16 * h + l),
        _ => None,
    }
}

/// A color written as a hexadecimal string, with an optional leading `#`:
/// three digits (each channel doubled), six digits (opaque), or eight
/// digits with an alpha channel.
pub open spec fn parse_hex_color_spec(s: Seq<u8>) -> Option<Color> {
    let body = if s.len() > 0 && s[0] == 35 {
        s.skip(1)
    } else {
        s
    };
    if body.len() == 3 {
        match (hex_digit(body[0]), hex_digit(body[1]), hex_digit(body[2])) {
            (Some(r), Some(g), Some(b)) => Some(
                Color { r: (r * 17) as u8, g: (g * 17) as u8, b: (b * 17) as u8, a: 255 },
            ),
            _ => None,
        }
    } else if body.len() == 6 {
        match (hex_pair(body[0], body[1]), hex_pair(body[2], body[3]), hex_pair(body[4], body[5])) {
            (Some(r), Some(g), Some(b)) => Some(Color { r: r as u8, g: g as u8, b: b as u8, a: 255 }),
            _ => None,
        }
    } else if body.len() == 8 {
        match (hex_pair(body[0], body[1]), hex_pair(body[2], body[3]), hex_pair(body[4], body[5]), hex_pair(
            body[6],
            body[7],
        )) {
            (Some(r), Some(g), Some(b), Some(a)) => Some(
                Color { r: r as u8, g: g as u8, b: b as u8, a: a as u8 },
            ),
            _ => None,
        }
    } else {
        None
    }
}

/// Exec value of one hexadecimal digit.
fn hex_digit_val(b: u8) -> (r: Option<u8>)
    ensures
        match r {
            Some(v) => hex_digit(b) == Some(v as int) && v < 16,
            None => hex_digit(b) is None,
        },
{
    if 48 <= b && b <= 57 {
        Some(b - 48)
    } else if 97 <= b && b <= 102 {
        Some(b - 87)
    } else if 65 <= b && b <= 70 {
        Some(b - 55)
    } else {
        None
    }
}

/// Exec value of a two-digit hexadecimal byte.
fn hex_pair_val(hi: u8, lo: u8) -> (r: Option<u8>)
    ensures
        match r {
            Some(v) => hex_pair(hi, lo) == Some(v as int),
            None => hex_pair(hi, lo) is None,
        },
{
    match (hex_digit_val(hi), hex_digit_val(lo)) {
        (Some(h), Some(l)) => Some(16 * h + l),
        _ => None,
    }
}

/// Parse a hexadecimal color string given as its bytes.
pub fn parse_hex_color(s: &[u8]) -> (r: Option<Color>)
    ensures
        r == parse_hex_color_spec(s@),
{
    let off: usize = if s.len() > 0 && s[0] == 35 {
        1
    } else {
        0
    };
    proof {
        if off == 1 {
            assert(s@.skip(1).len() == s@.len() - 1);
        }
    }
    let n = s.len() - off;
    if n == 3 {
        proof {
            lemma_skip_index(s@, off as int, 0);
            lemma_skip_index(s@, off as int, 1);
            lemma_skip_index(s@, off as int, 2);
        }
        match (hex_digit_val(s[off]), hex_digit_val(s[off + 1]), hex_digit_val(s[off + 2])) {
            (Some(r), Some(g), Some(b)) => Some(Color { r: r * 17, g: g * 17, b: b * 17, a: 255 }),
            _ => None,
        }
    } else if n == 6 {
        proof {
            lemma_skip_index(s@, off as int, 0);
            lemma_skip_index(s@, off as int, 1);
            lemma_skip_index(s@, off as int, 2);
            lemma_skip_index(s@, off as int, 3);
            lemma_skip_index(s@, off as int, 4);
            lemma_skip_index(s@, off as int, 5);
        }
        match (
            hex_pair_val(s[off], s[off + 1]),
            hex_pair_val(s[off + 2], s[off + 3]),
            hex_pair_val(s[off + 4], s[off + 5]),
        ) {
            (Some(r), Some(g), Some(b)) => Some(Color { r, g, b, a: 255 }),
            _ => None,
        }
    } else if n == 8 {
        proof {
            lemma_skip_index(s@, off as int, 0);
            lemma_skip_index(s@, off as int, 1);
            lemma_skip_index(s@, off as int, 2);
            lemma_skip_index(s@, off as int, 3);
            lemma_skip_index(s@, off as int, 4);
            lemma_skip_index(s@, off as int, 5);
            lemma_skip_index(s@, off as int, 6);
            lemma_skip_index(s@, off as int, 7);
        }
        match (
            hex_pair_val(s[off], s[off + 1]),
            hex_pair_val(s[off + 2], s[off + 3]),
            hex_pair_val(s[off + 4], s[off + 5]),
            hex_pair_val(s[off + 6], s[off + 7]),
        ) {
            (Some(r), Some(g), Some(b), Some(a)) => Some(Color { r, g, b, a }),
            _ => None,
        }
    } else {
        None
    }
}

proof fn lemma_skip_index(s: Seq<u8>, off: int, i: int)
    requires
        0 <= off <= s.len(),
        0 <= i < s.len() - off,
    ensures
        s.skip(off)[i] == s[off + i],
{
}

/// Relies on grass's `from_string` with the null filesystem (imports
/// disabled): the compiler hands back the stylesheet or fails.  Nothing
/// more is promised of the outcome — stylesheet builtins may draw
/// randomness, so two runs on one source need not agree; `finish_style`
/// takes whatever came back.
#[verifier::external_body]
fn compile_scss(source: &str) -> (r: Option<String>)
{
    let options = grass::Options::default().fs(&grass::NullFs);
    match grass::from_string(source, &options) {
        Ok(css) => Some(css),
        Err(_) => None,
    }
}

/// Why a stylesheet could not be produced.
#[derive(Clone, Copy, Debug, PartialEq, Eq, Structural)]
pub enum StyleError {
    CompileFailed,
}

/// Turn a compiler outcome into the stylesheet result: a compiled sheet is
/// used as it stands, a failed compile is the one error.
pub fn finish_style(compiled: Option<String>) -> (r: Result<String, StyleError>)
    ensures
        match compiled {
            Some(css) => r == Ok::<String, StyleError>(css),
            None => r == Err::<String, StyleError>(StyleError::CompileFailed),
        },
{
    match compiled {
        Some(css) => Ok(css),
        None => Err(StyleError::CompileFailed),
    }
}

/// Produce the stylesheet for a configuration file's contents: a file
/// with a `css` extension is used exactly as it stands; anything else is
/// handed to the stylesheet compiler, whose outcome `finish_style` turns
/// into the result.  Of the compiled branch only the error mapping is
/// promised: the compiler's output is not a function the engine can state.
pub fn compile_style(contents: String, extension: Option<&String>) -> (r: Result<
    String,
    StyleError,
>)
    ensures
        ({
            let plain = match extension {
                Some(e) => e@ == "css"@,
                None => false,
            };
            if plain {
                r == Ok::<String, StyleError>(contents)
            } else {
                match r {
                    Ok(_) => true,
                    Err(e) => e == StyleError::CompileFailed,
                }
            }
        }),
{
    let css_ext: String = "css".to_owned();
    let plain = match extension {
        Some(e) => *e == css_ext,
        None => false,
    };
    if plain {
        Ok(contents)
    } else {
        finish_style(compile_scss(contents.as_str()))
    }
}

} // verus!

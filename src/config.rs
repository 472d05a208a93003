//! The choices that configure a map: generator, noise kernel and
//! interpolation, their names, and the default values of the configuration.
use vstd::prelude::*;
use crate::color::Color;

verus! {

/// Whether two strings hold the same characters.
fn same_text(a: &str, b: &str) -> (r: bool)
    ensures
        r == (a@ == b@),
{
    a.to_owned() == b.to_owned()
}

/// The error for a name that no variant of `kind` has:
/// `Cannot convert <name> to <kind>`.
fn unknown_name(name: &str, kind: &str) -> (e: String)
    ensures
        e@ == "Cannot convert "@ + name@ + " to "@ + kind@,
{
    let mut e = "Cannot convert ".to_owned();
    e.append(name);
    e.append(" to ");
    e.append(kind);
    e
}

/// The terrain generators.
#[derive(Clone, Copy, Debug, PartialEq, Eq, Structural)]
pub enum Generator {
    Diamond,
    Fractal,
    Midpoint,
}

/// The noise kernels of the fractal generator.
#[derive(Clone, Copy, Debug, PartialEq, Eq, Structural)]
pub enum Noise {
    Value,
    Gradient,
    Simplex,
}

/// The easing functions that blend noise values between lattice points.
#[derive(Clone, Copy, Debug, PartialEq, Eq, Structural)]
pub enum Interpolation {
    Linear,
    Cubic,
    Quintic,
    Cosine,
}

pub open spec fn generator_name(g: Generator) -> Seq<char> {
    match g {
        Generator::Diamond => "diamond"@,
        Generator::Fractal => "fractal"@,
        Generator::Midpoint => "midpoint"@,
    }
}

/// The generator whose name is `s`, if any.
pub open spec fn generator_named(s: Seq<char>) -> Option<Generator> {
    if s == "diamond"@ {
        Some(Generator::Diamond)
    } else if s == "fractal"@ {
        Some(Generator::Fractal)
    } else if s == "midpoint"@ {
        Some(Generator::Midpoint)
    } else {
        None
    }
}

pub open spec fn noise_name(n: Noise) -> Seq<char> {
    match n {
        Noise::Value => "value"@,
        Noise::Gradient => "gradient"@,
        Noise::Simplex => "simplex"@,
    }
}

/// The noise kernel whose name is `s`, if any.
pub open spec fn noise_named(s: Seq<char>) -> Option<Noise> {
    if s == "value"@ {
        Some(Noise::Value)
    } else if s == "gradient"@ {
        Some(Noise::Gradient)
    } else if s == "simplex"@ {
        Some(Noise::Simplex)
    } else {
        None
    }
}

pub open spec fn interpolation_name(i: Interpolation) -> Seq<char> {
    match i {
        Interpolation::Linear => "linear"@,
        Interpolation::Cubic => "cubic"@,
        Interpolation::Quintic => "quintic"@,
        Interpolation::Cosine => "cosine"@,
    }
}

/// The interpolation whose name is `s`, if any.
pub open spec fn interpolation_named(s: Seq<char>) -> Option<Interpolation> {
    if s == "linear"@ {
        Some(Interpolation::Linear)
    } else if s == "cubic"@ {
        Some(Interpolation::Cubic)
    } else if s == "quintic"@ {
        Some(Interpolation::Quintic)
    } else if s == "cosine"@ {
        Some(Interpolation::Cosine)
    } else {
        None
    }
}

impl Generator {
    /// The generator's name, as written in a configuration.
    pub fn as_str(self) -> (s: &'static str)
        ensures
            s@ == generator_name(self),
    {
        match self {
            Generator::Diamond => "diamond",
            Generator::Fractal => "fractal",
            Generator::Midpoint => "midpoint",
        }
    }

    /// The generator named `s`; an unknown name gives
    /// `Cannot convert <s> to Generator`.
    pub fn parse(s: &str) -> (r: Result<Generator, String>)
        ensures
            match r {
                Ok(g) => generator_named(s@) == Some(g),
                Err(e) => generator_named(s@) is None && e@ == "Cannot convert "@ + s@ + " to "@
                    + "Generator"@,
            },
    {
        if same_text(s, "diamond") {
            Ok(Generator::Diamond)
        } else if same_text(s, "fractal") {
            Ok(Generator::Fractal)
        } else if same_text(s, "midpoint") {
            Ok(Generator::Midpoint)
        } else {
            Err(unknown_name(s, "Generator"))
        }
    }
}

impl Noise {
    /// The kernel's name, as written in a configuration.
    pub fn as_str(self) -> (s: &'static str)
        ensures
            s@ == noise_name(self),
    {
        match self {
            Noise::Value => "value",
            Noise::Gradient => "gradient",
            Noise::Simplex => "simplex",
        }
    }

    /// The kernel named `s`; an unknown name gives
    /// `Cannot convert <s> to Noise`.
    pub fn parse(s: &str) -> (r: Result<Noise, String>)
        ensures
            match r {
                Ok(n) => noise_named(s@) == Some(n),
                Err(e) => noise_named(s@) is None && e@ == "Cannot convert "@ + s@ + " to "@
                    + "Noise"@,
            },
    {
        if same_text(s, "value") {
            Ok(Noise::Value)
        } else if same_text(s, "gradient") {
            Ok(Noise::Gradient)
        } else if same_text(s, "simplex") {
            Ok(Noise::Simplex)
        } else {
            Err(unknown_name(s, "Noise"))
        }
    }
}

impl Interpolation {
    /// The interpolation's name, as written in a configuration.
    pub fn as_str(self) -> (s: &'static str)
        ensures
            s@ == interpolation_name(self),
    {
        match self {
            Interpolation::Linear => "linear",
            Interpolation::Cubic => "cubic",
            Interpolation::Quintic => "quintic",
            Interpolation::Cosine => "cosine",
        }
    }

    /// The interpolation named `s`; an unknown name gives
    /// `Cannot convert <s> to Interpolation`.
    pub fn parse(s: &str) -> (r: Result<Interpolation, String>)
        ensures
            match r {
                Ok(i) => interpolation_named(s@) == Some(i),
                Err(e) => interpolation_named(s@) is None && e@ == "Cannot convert "@ + s@
                    + " to "@ + "Interpolation"@,
            },
    {
        if same_text(s, "linear") {
            Ok(Interpolation::Linear)
        } else if same_text(s, "cubic") {
            Ok(Interpolation::Cubic)
        } else if same_text(s, "quintic") {
            Ok(Interpolation::Quintic)
        } else if same_text(s, "cosine") {
            Ok(Interpolation::Cosine)
        } else {
            Err(unknown_name(s, "Interpolation"))
        }
    }
}

impl core::str::FromStr for Generator {
    type Err = String;

    fn from_str(s: &str) -> Result<Generator, String> {
        Generator::parse(s)
    }
}

impl core::str::FromStr for Noise {
    type Err = String;

    fn from_str(s: &str) -> Result<Noise, String> {
        Noise::parse(s)
    }
}

impl core::str::FromStr for Interpolation {
    type Err = String;

    fn from_str(s: &str) -> Result<Interpolation, String> {
        Interpolation::parse(s)
    }
}

/// The default name of the image file.
pub fn default_output() -> (s: String)
    ensures
        s@ == "out.png"@,
{
    "out.png".to_owned()
}

/// The default color of lit slopes: `#FFFFCC`.
pub fn default_light() -> (c: Color)
    ensures
        c == (Color { r: 0xFF, g: 0xFF, b: 0xCC }),
{
    Color::new([0xFFu8, 0xFFu8, 0xCCu8])
}

/// The default color of slopes in shadow: `#331133`.
pub fn default_dark() -> (c: Color)
    ensures
        c == (Color { r: 0x33, g: 0x11, b: 0x33 }),
{
    Color::new([0x33u8, 0x11u8, 0x33u8])
}

/// Each generator's name is read back as that generator.
pub proof fn lemma_generator_name_parses(g: Generator)
    ensures
        generator_named(generator_name(g)) == Some(g),
{
    reveal_strlit("diamond");
    reveal_strlit("fractal");
    reveal_strlit("midpoint");
    assert("fractal"@[0] != "diamond"@[0]);
}

/// Each noise kernel's name is read back as that kernel.
pub proof fn lemma_noise_name_parses(n: Noise)
    ensures
        noise_named(noise_name(n)) == Some(n),
{
    reveal_strlit("value");
    reveal_strlit("gradient");
    reveal_strlit("simplex");
    assert("value"@.len() != "gradient"@.len());
    assert("value"@.len() != "simplex"@.len());
    assert("gradient"@.len() != "simplex"@.len());
}

/// Each interpolation's name is read back as that interpolation.
pub proof fn lemma_interpolation_name_parses(i: Interpolation)
    ensures
        interpolation_named(interpolation_name(i)) == Some(i),
{
    reveal_strlit("linear");
    reveal_strlit("cubic");
    reveal_strlit("quintic");
    reveal_strlit("cosine");
    assert("linear"@.len() != "cubic"@.len());
    assert("linear"@.len() != "quintic"@.len());
    assert("cubic"@.len() != "quintic"@.len());
    assert("cubic"@.len() != "cosine"@.len());
    assert("quintic"@.len() != "cosine"@.len());
    assert("cosine"@[0] != "linear"@[0]);
}

/// Default number of octaves of the fractal generator.
pub const DEFAULT_OCTAVE: u32 = 10;

/// What a configuration asks to be run, with its defaults filled in.
#[derive(Clone, Copy, Debug, PartialEq, Eq, Structural)]
pub enum Pipeline {
    Diamond,
    Midpoint,
    /// Fractal accumulation over a noise kernel, with its interpolation and
    /// number of octaves.
    Fractal(Noise, Interpolation, u32),
}

/// Resolves a configuration's choices: the fractal generator takes the
/// gradient kernel, cubic interpolation and ten octaves unless told
/// otherwise; the two displacement generators take none of these.
pub fn resolve_pipeline(
    generator: Generator,
    noise: Option<Noise>,
    interpolation: Option<Interpolation>,
    octave: Option<u32>,
) -> (p: Pipeline)
    ensures
        generator == Generator::Diamond ==> p == Pipeline::Diamond,
        generator == Generator::Midpoint ==> p == Pipeline::Midpoint,
        generator == Generator::Fractal ==> p == Pipeline::Fractal(
            match noise {
                Some(n) => n,
                None => Noise::Gradient,
            },
            match interpolation {
                Some(i) => i,
                None => Interpolation::Cubic,
            },
            match octave {
                Some(o) => o,
                None => DEFAULT_OCTAVE,
            },
        ),
{
    match generator {
        Generator::Diamond => Pipeline::Diamond,
        Generator::Midpoint => Pipeline::Midpoint,
        Generator::Fractal => {
            let n = match noise {
                Some(n) => n,
                None => Noise::Gradient,
            };
            let i = match interpolation {
                Some(i) => i,
                None => Interpolation::Cubic,
            };
            let o = match octave {
                Some(o) => o,
                None => DEFAULT_OCTAVE,
            };
            Pipeline::Fractal(n, i, o)
        },
    }
}

} // verus!

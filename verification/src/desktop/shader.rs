//! The catalogue of post-processing effects: which single-pass and
//! multipass effects exist, their display labels and the stable keys that
//! settings store. Compiling and drawing them is the frontend's.
use vstd::prelude::*;
use crate::text::str_eq;

verus! {

/// The single-pass effects.
#[derive(Debug, Clone, Copy, PartialEq, Eq, Structural)]
pub enum ShaderKind {
    /// No effect.
    NoEffect,
    Scanlines,
    LcdGrid,
    Lcd3x,
    Crt,
}

/// The multipass effects.
#[derive(Debug, Clone, Copy, PartialEq, Eq, Structural)]
pub enum MultipassKind {
    Blur,
    ScaleFx,
}

/// The active effect: a built-in single-pass one, a multipass one or the
/// imported custom shader.
#[derive(Debug, Clone, Copy, PartialEq, Eq, Structural)]
pub enum Active {
    Builtin(ShaderKind),
    Multipass(MultipassKind),
    Custom,
}

impl Default for ShaderKind {
    fn default() -> (r: ShaderKind)
        ensures
            r == ShaderKind::NoEffect,
    {
        ShaderKind::NoEffect
    }
}

impl Default for Active {
    fn default() -> (r: Active)
        ensures
            r == Active::Builtin(ShaderKind::NoEffect),
    {
        Active::Builtin(ShaderKind::NoEffect)
    }
}

/// The stable key of a single-pass effect.
pub open spec fn shader_key_of(k: ShaderKind) -> Seq<char> {
    match k {
        ShaderKind::NoEffect => "none"@,
        ShaderKind::Scanlines => "scanlines"@,
        ShaderKind::LcdGrid => "lcd-grid"@,
        ShaderKind::Lcd3x => "lcd3x"@,
        ShaderKind::Crt => "crt"@,
    }
}

/// The single-pass effect with key `s` (no effect for an unknown key).
pub open spec fn shader_of_key(s: Seq<char>) -> ShaderKind {
    if s == "scanlines"@ {
        ShaderKind::Scanlines
    } else if s == "lcd-grid"@ {
        ShaderKind::LcdGrid
    } else if s == "lcd3x"@ {
        ShaderKind::Lcd3x
    } else if s == "crt"@ {
        ShaderKind::Crt
    } else {
        ShaderKind::NoEffect
    }
}

/// The stable key of a multipass effect (distinct from the single-pass
/// keys).
pub open spec fn multipass_key_of(k: MultipassKind) -> Seq<char> {
    match k {
        MultipassKind::Blur => "blur"@,
        MultipassKind::ScaleFx => "scalefx"@,
    }
}

impl ShaderKind {
    /// Every single-pass effect, in display order.
    pub fn all() -> (r: [ShaderKind; 5])
        ensures
            r@ == seq![ShaderKind::NoEffect, ShaderKind::Scanlines, ShaderKind::LcdGrid, ShaderKind::Lcd3x, ShaderKind::Crt],
    {
        let r = [ShaderKind::NoEffect, ShaderKind::Scanlines, ShaderKind::LcdGrid, ShaderKind::Lcd3x, ShaderKind::Crt];
        assert(r@ =~= seq![ShaderKind::NoEffect, ShaderKind::Scanlines, ShaderKind::LcdGrid, ShaderKind::Lcd3x, ShaderKind::Crt]);
        r
    }

    /// A display label.
    pub fn label(self) -> (r: &'static str)
        ensures
            self == ShaderKind::NoEffect ==> r@ == "Nenhum"@,
            self == ShaderKind::Scanlines ==> r@ == "Scanlines"@,
            self == ShaderKind::LcdGrid ==> r@ == "LCD grid"@,
            self == ShaderKind::Lcd3x ==> r@ == "LCD3x"@,
            self == ShaderKind::Crt ==> r@ == "CRT"@,
    {
        match self {
            ShaderKind::NoEffect => "Nenhum",
            ShaderKind::Scanlines => "Scanlines",
            ShaderKind::LcdGrid => "LCD grid",
            ShaderKind::Lcd3x => "LCD3x",
            ShaderKind::Crt => "CRT",
        }
    }

    /// The stable key for settings.
    pub fn key(self) -> (r: &'static str)
        ensures
            r@ == shader_key_of(self),
    {
        match self {
            ShaderKind::NoEffect => "none",
            ShaderKind::Scanlines => "scanlines",
            ShaderKind::LcdGrid => "lcd-grid",
            ShaderKind::Lcd3x => "lcd3x",
            ShaderKind::Crt => "crt",
        }
    }

    /// The effect with key `s`; no effect for an unknown key.
    pub fn from_key(s: &str) -> (r: ShaderKind)
        ensures
            r == shader_of_key(s@),
    {
        if str_eq(s, "scanlines") {
            ShaderKind::Scanlines
        } else if str_eq(s, "lcd-grid") {
            ShaderKind::LcdGrid
        } else if str_eq(s, "lcd3x") {
            ShaderKind::Lcd3x
        } else if str_eq(s, "crt") {
            ShaderKind::Crt
        } else {
            ShaderKind::NoEffect
        }
    }
}

impl MultipassKind {
    /// Every multipass effect, in display order.
    pub fn all() -> (r: [MultipassKind; 2])
        ensures
            r@ == seq![MultipassKind::Blur, MultipassKind::ScaleFx],
    {
        let r = [MultipassKind::Blur, MultipassKind::ScaleFx];
        assert(r@ =~= seq![MultipassKind::Blur, MultipassKind::ScaleFx]);
        r
    }

    /// A display label.
    pub fn label(self) -> (r: &'static str)
        ensures
            self == MultipassKind::Blur ==> r@ == "Blur"@,
            self == MultipassKind::ScaleFx ==> r@ == "ScaleFX"@,
    {
        match self {
            MultipassKind::Blur => "Blur",
            MultipassKind::ScaleFx => "ScaleFX",
        }
    }

    /// The stable key for settings.
    pub fn key(self) -> (r: &'static str)
        ensures
            r@ == multipass_key_of(self),
    {
        match self {
            MultipassKind::Blur => "blur",
            MultipassKind::ScaleFx => "scalefx",
        }
    }

    /// The multipass effect with key `s`, if any.
    pub fn from_key(s: &str) -> (r: Option<MultipassKind>)
        ensures
            r == if s@ == "blur"@ {
                Some(MultipassKind::Blur)
            } else if s@ == "scalefx"@ {
                Some(MultipassKind::ScaleFx)
            } else {
                None
            },
    {
        if str_eq(s, "blur") {
            Some(MultipassKind::Blur)
        } else if str_eq(s, "scalefx") {
            Some(MultipassKind::ScaleFx)
        } else {
            None
        }
    }
}

/// Law of the settings keys: each single-pass effect's key leads back to
/// it.
pub proof fn law_shader_key_round_trip(k: ShaderKind)
    ensures
        shader_of_key(shader_key_of(k)) == k,
{
    reveal_strlit("none");
    reveal_strlit("scanlines");
    reveal_strlit("lcd-grid");
    reveal_strlit("lcd3x");
    reveal_strlit("crt");
    assert("none"@.len() != "scanlines"@.len() && "none"@.len() != "lcd-grid"@.len() && "none"@[0] != "lcd3x"@[0]
        && "none"@.len() != "crt"@.len());
    assert("scanlines"@.len() != "lcd-grid"@.len() && "scanlines"@.len() != "lcd3x"@.len() && "scanlines"@.len()
        != "crt"@.len());
    assert("lcd-grid"@.len() != "lcd3x"@.len() && "lcd-grid"@.len() != "crt"@.len() && "lcd3x"@.len() != "crt"@.len());
}

} // verus!

//! From spectra to the colors of a display.

use vstd::prelude::*;
use vstd::arithmetic::power2::pow2;
use crate::arithmetic::is_sum;
use crate::arithmetic::Arithmetic;
use crate::scalar::Scalar;
use crate::spectrum::Spectrum;

verus! {

/// The bit pattern of 600 nanometers in meters, where red begins.
pub const RED_FROM_BITS: u64 = 0x3EA4_21F5_F40D_8376;

/// The bit pattern of 500 nanometers in meters, where green begins.
pub const GREEN_FROM_BITS: u64 = 0x3EA0_C6F7_A0B5_ED8D;

/// The three bands of light that a display shows.
#[derive(Clone, Copy, Debug, PartialEq, Eq, Structural)]
pub enum Band {
    Red,
    Green,
    Blue,
}

/// A color of a display: a level for each band.
#[derive(Clone, Copy, Debug, PartialEq, Eq, Structural)]
pub struct Rgb {
    pub r: u8,
    pub g: u8,
    pub b: u8,
}

/// The band that a wavelength in meters belongs to: red from 600 nanometers
/// on, green from 500 nanometers on, blue below and for what is not a number.
pub open spec fn band_of(wavelength: Scalar) -> Band {
    if Scalar::of(RED_FROM_BITS).num_le(wavelength) {
        Band::Red
    } else if Scalar::of(GREEN_FROM_BITS).num_le(wavelength) {
        Band::Green
    } else {
        Band::Blue
    }
}

/// Tells the band that a wavelength in meters belongs to.
pub fn band(wavelength: Scalar) -> (band: Band)
    ensures
        band == band_of(wavelength),
{
    if wavelength.ge(Scalar::from_bits(RED_FROM_BITS)) {
        Band::Red
    } else if wavelength.ge(Scalar::from_bits(GREEN_FROM_BITS)) {
        Band::Green
    } else {
        Band::Blue
    }
}

/// Whether none of the first `n` wavelengths belongs to the band.
pub open spec fn band_is_empty(grid: Seq<Scalar>, n: int, band: Band) -> bool {
    forall|i: int| 0 <= i < n && i < grid.len() ==> band_of(#[trigger] grid[i]) != band
}

/// Whether `power` is what the arithmetic gives as the power of the band among
/// the first `n` samples: zero to begin with, and the power of each sample of
/// the band added in turn.
pub open spec fn is_band_power<A: Arithmetic>(
    ar: &A,
    grid: Seq<Scalar>,
    samples: Seq<Scalar>,
    n: nat,
    band: Band,
    power: Scalar,
) -> bool
    decreases n,
{
    if n == 0 {
        power == Scalar::of(0)
    } else {
        exists|before: Scalar|
            is_band_power(ar, grid, samples, (n - 1) as nat, band, before) && #[trigger] is_band_step(
                ar,
                grid[n - 1],
                samples[n - 1],
                band,
                before,
                power,
            )
    }
}

/// Whether `after` is what a sample makes of the power `before` of a band: the
/// sum of that and the sample's power if its wavelength belongs to the band,
/// and else the same.
pub open spec fn is_band_step<A: Arithmetic>(
    ar: &A,
    wavelength: Scalar,
    sample: Scalar,
    band: Band,
    before: Scalar,
    after: Scalar,
) -> bool {
    if band_of(wavelength) == band {
        is_sum(ar, before, sample, after)
    } else {
        after == before
    }
}

/// The power of a band among the first `n + 1` samples comes from that among
/// the first `n` by the step that sample `n` asks for.
proof fn lemma_band_step<A: Arithmetic>(
    ar: &A,
    grid: Seq<Scalar>,
    samples: Seq<Scalar>,
    n: nat,
    band: Band,
    before: Scalar,
    after: Scalar,
)
    requires
        n < grid.len(),
        n < samples.len(),
        is_band_power(ar, grid, samples, n, band, before),
        is_band_step(ar, grid[n as int], samples[n as int], band, before, after),
    ensures
        is_band_power(ar, grid, samples, n + 1, band, after),
{
    assert((n + 1 - 1) as nat == n);
    assert(is_band_step(ar, grid[n + 1 - 1], samples[n + 1 - 1], band, before, after));
}

/// Whether `color` is what the arithmetic gives as the color that shows the
/// samples: in each band the level of the band's power.
pub open spec fn is_display_color<A: Arithmetic>(
    ar: &A,
    grid: Seq<Scalar>,
    samples: Seq<Scalar>,
    color: Rgb,
) -> bool {
    exists|red: Scalar, green: Scalar, blue: Scalar|
        {
            &&& #[trigger] is_band_power(ar, grid, samples, grid.len(), Band::Red, red)
            &&& #[trigger] is_band_power(ar, grid, samples, grid.len(), Band::Green, green)
            &&& #[trigger] is_band_power(ar, grid, samples, grid.len(), Band::Blue, blue)
            &&& color.r == red.level()
            &&& color.g == green.level()
            &&& color.b == blue.level()
        }
}

/// The color that shows a spectrum: in each band the powers of the samples of
/// that band are added up, and the sum becomes the level of the band. A band
/// without samples is dark.
pub fn display_color<A: Arithmetic>(ar: &A, spectrum: &Spectrum) -> (color: Rgb)
    requires
        spectrum.well_formed(),
    ensures
        is_display_color(ar, spectrum.grid(), spectrum.samples(), color),
        band_is_empty(spectrum.grid(), spectrum.grid().len() as int, Band::Red) ==> color.r == 0,
        band_is_empty(spectrum.grid(), spectrum.grid().len() as int, Band::Green) ==> color.g
            == 0,
        band_is_empty(spectrum.grid(), spectrum.grid().len() as int, Band::Blue) ==> color.b == 0,
{
    let mut red = Scalar::zero();
    let mut green = Scalar::zero();
    let mut blue = Scalar::zero();
    let mut k: usize = 0;
    let n = spectrum.size();
    while k < n
        invariant
            0 <= k <= n,
            n == spectrum.grid().len(),
            n == spectrum.samples().len(),
            spectrum.well_formed(),
            is_band_power(ar, spectrum.grid(), spectrum.samples(), k as nat, Band::Red, red),
            is_band_power(ar, spectrum.grid(), spectrum.samples(), k as nat, Band::Green, green),
            is_band_power(ar, spectrum.grid(), spectrum.samples(), k as nat, Band::Blue, blue),
            band_is_empty(spectrum.grid(), k as int, Band::Red) ==> red == Scalar::of(0),
            band_is_empty(spectrum.grid(), k as int, Band::Green) ==> green == Scalar::of(0),
            band_is_empty(spectrum.grid(), k as int, Band::Blue) ==> blue == Scalar::of(0),
        decreases n - k,
    {
        let power = spectrum.index(k);
        let ghost red_before = red;
        let ghost green_before = green;
        let ghost blue_before = blue;
        match band(spectrum.wavelength(k)) {
            Band::Red => {
                red = ar.add(red, power);
            },
            Band::Green => {
                green = ar.add(green, power);
            },
            Band::Blue => {
                blue = ar.add(blue, power);
            },
        }
        proof {
            let grid = spectrum.grid();
            let samples = spectrum.samples();
            lemma_band_step(ar, grid, samples, k as nat, Band::Red, red_before, red);
            lemma_band_step(ar, grid, samples, k as nat, Band::Green, green_before, green);
            lemma_band_step(ar, grid, samples, k as nat, Band::Blue, blue_before, blue);
        }
        k += 1;
    }
    proof {
        crate::value::lemma_values(Scalar::of(0));
    }
    Rgb { r: red.to_level(), g: green.to_level(), b: blue.to_level() }
}

/// The bands begin at the binary64 numbers nearest to six and to five ten
/// millionths: ten million times each is 6 or 5, less a remainder that is
/// smaller than half a step between neighboring numbers.
pub proof fn lemma_band_limits()
    ensures
        10000000 * Scalar::of(RED_FROM_BITS).value() == 6 * pow2(1074) - 2564352 * pow2(1001),
        10000000 * Scalar::of(GREEN_FROM_BITS).value() == 5 * pow2(1074) - 2136960 * pow2(1001),
{
    vstd::arithmetic::power2::lemma2_to64();
    vstd::arithmetic::power2::lemma_pow2_adds(73, 1001);
    vstd::arithmetic::power2::lemma_pow2_adds(64, 9);
    let step = pow2(1001) as int;
    let red = Scalar::of(RED_FROM_BITS);
    assert(red.exponent() == 1002 && red.fraction() == 0x421F5F40D8376);
    let sig_red: int = 5666839779443574;
    assert(red.significand() == sig_red);
    assert(pow2(73) == 0x2000000000000000000);
    assert(10000000 * (sig_red * step) == 6 * (0x2000000000000000000 * step) - 2564352 * step)
        by (nonlinear_arith)
        requires
            sig_red == 5666839779443574,
    ;
    let green = Scalar::of(GREEN_FROM_BITS);
    assert(green.exponent() == 1002 && green.fraction() == 0xC6F7A0B5ED8D);
    let sig_green: int = 4722366482869645;
    assert(green.significand() == sig_green);
    assert(10000000 * (sig_green * step) == 5 * (0x2000000000000000000 * step) - 2136960 * step)
        by (nonlinear_arith)
        requires
            sig_green == 4722366482869645,
    ;
}

} // verus!

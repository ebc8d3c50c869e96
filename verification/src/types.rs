//! Parameters of the nonlinear devices, and the linearised stamps that a device
//! model returns for them.

use vstd::prelude::*;

verus! {

/// Which way a bipolar transistor is doped.
#[derive(Clone, Copy, Debug, PartialEq, Eq, Structural)]
pub enum Polarity {
    Npn,
    Pnp,
}

/// A junction diode.
#[derive(Clone, Copy, Debug, PartialEq)]
pub struct Diode<T> {
    /// Saturation current.
    pub is_sat: T,
    /// Emission coefficient.
    pub n: T,
    /// Reverse breakdown voltage; `None` for a diode without breakdown.
    pub bv: Option<T>,
    /// Current at the breakdown voltage; `None` for the model's default.
    pub ibv: Option<T>,
}

impl<T> Diode<T> {
    /// Plain Shockley diode with no Zener breakdown.
    pub fn shockley(is_sat: T, n: T) -> (r: Diode<T>)
        ensures
            r == (Diode { is_sat, n, bv: None, ibv: None }),
    {
        Diode { is_sat, n, bv: None, ibv: None }
    }

    /// Zener diode with reverse breakdown at `bv` volts.  A missing `ibv` means a
    /// breakdown current of 1e-3 A: the diode keeps it missing, and the device model
    /// puts in that value.
    pub fn zener(is_sat: T, n: T, bv: T, ibv: Option<T>) -> (r: Diode<T>)
        ensures
            r == (Diode { is_sat, n, bv: Some(bv), ibv }),
    {
        Diode { is_sat, n, bv: Some(bv), ibv }
    }
}

/// A diode linearised around an operating point: the conductance `gd` and the
/// companion current `ieq`.
#[derive(Clone, Copy, Debug, PartialEq)]
pub struct DiodeStamp<T> {
    pub gd: T,
    pub ieq: T,
}

impl<T: Copy> DiodeStamp<T> {
    /// The conductance.
    pub fn gd(&self) -> (r: T)
        ensures
            r == self.gd,
    {
        self.gd
    }

    /// The companion current.
    pub fn ieq(&self) -> (r: T)
        ensures
            r == self.ieq,
    {
        self.ieq
    }
}

/// A Gummel-Poon bipolar transistor.  The optional parameters default inside the
/// device model.
#[derive(Clone, Copy, Debug, PartialEq)]
pub struct Transistor<T> {
    pub polarity: Polarity,
    pub beta: T,
    pub is_sat: T,
    pub nf: T,
    pub vaf: T,
    /// Base-emitter junction capacitance.
    pub cje_farads: T,
    /// Base-collector junction capacitance.
    pub cjc_farads: T,
    pub br: Option<T>,
    pub nr: Option<T>,
    pub var_: Option<T>,
    pub ikf: Option<T>,
    pub ikr: Option<T>,
    pub ise: Option<T>,
    pub ne: Option<T>,
    pub isc: Option<T>,
    pub nc: Option<T>,
    /// Forward transit time.
    pub tf_seconds: Option<T>,
    /// Reverse transit time.
    pub tr_seconds: Option<T>,
}

impl<T> Transistor<T> {
    /// A transistor with the given parameters; `polarity_npn` picks the doping.
    #[allow(clippy::too_many_arguments)]
    pub fn new(
        polarity_npn: bool,
        beta: T,
        is_sat: T,
        nf: T,
        vaf: T,
        cje_farads: T,
        cjc_farads: T,
        br: Option<T>,
        nr: Option<T>,
        var_: Option<T>,
        ikf: Option<T>,
        ikr: Option<T>,
        ise: Option<T>,
        ne: Option<T>,
        isc: Option<T>,
        nc: Option<T>,
        tf_seconds: Option<T>,
        tr_seconds: Option<T>,
    ) -> (r: Transistor<T>)
        ensures
            r.polarity == (if polarity_npn {
                Polarity::Npn
            } else {
                Polarity::Pnp
            }),
            r == (Transistor {
                polarity: r.polarity,
                beta,
                is_sat,
                nf,
                vaf,
                cje_farads,
                cjc_farads,
                br,
                nr,
                var_,
                ikf,
                ikr,
                ise,
                ne,
                isc,
                nc,
                tf_seconds,
                tr_seconds,
            }),
    {
        Transistor {
            polarity: if polarity_npn {
                Polarity::Npn
            } else {
                Polarity::Pnp
            },
            beta,
            is_sat,
            nf,
            vaf,
            cje_farads,
            cjc_farads,
            br,
            nr,
            var_,
            ikf,
            ikr,
            ise,
            ne,
            isc,
            nc,
            tf_seconds,
            tr_seconds,
        }
    }
}

/// A transistor linearised around an operating point:
/// `I_C = gm Vbe + gmu Vbc + i_eq_c`, `I_B = gpi Vbe + gmu_b Vbc + i_eq_b`, and
/// the emitter current by Kirchhoff's law.
#[derive(Clone, Copy, Debug, PartialEq)]
pub struct TransistorStamp<T> {
    pub g_be: T,
    pub g_bc: T,
    pub gm: T,
    pub gmu: T,
    pub gpi: T,
    pub gmu_b: T,
    pub i_eq_b: T,
    pub i_eq_c: T,
    pub i_eq_e: T,
}

impl<T: Copy> TransistorStamp<T> {
    pub fn g_be(&self) -> (r: T)
        ensures
            r == self.g_be,
    {
        self.g_be
    }

    pub fn g_bc(&self) -> (r: T)
        ensures
            r == self.g_bc,
    {
        self.g_bc
    }

    pub fn gm(&self) -> (r: T)
        ensures
            r == self.gm,
    {
        self.gm
    }

    pub fn gmu(&self) -> (r: T)
        ensures
            r == self.gmu,
    {
        self.gmu
    }

    pub fn gpi(&self) -> (r: T)
        ensures
            r == self.gpi,
    {
        self.gpi
    }

    pub fn gmu_b(&self) -> (r: T)
        ensures
            r == self.gmu_b,
    {
        self.gmu_b
    }

    pub fn i_eq_b(&self) -> (r: T)
        ensures
            r == self.i_eq_b,
    {
        self.i_eq_b
    }

    pub fn i_eq_c(&self) -> (r: T)
        ensures
            r == self.i_eq_c,
    {
        self.i_eq_c
    }

    pub fn i_eq_e(&self) -> (r: T)
        ensures
            r == self.i_eq_e,
    {
        self.i_eq_e
    }
}

} // verus!

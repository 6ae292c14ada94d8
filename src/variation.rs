use vstd::prelude::*;

verus! {

/// The number of variation kinds.
pub const VARIATION_COUNT: usize = 25;

/// A nonlinear transform of the plane, one of a fixed catalogue. Most kinds
/// take no parameter; `Blob` takes three and `PDJ` four, of type `P`.
#[derive(Debug, Clone, Copy, PartialEq)]
pub enum Variation<P> {
    Id,
    Sinusoidal,
    Spherical,
    Swirl,
    Horseshoe,
    Polar,
    Handkerchief,
    Heart,
    Disc,
    Spiral,
    Hyperbolic,
    Diamond,
    Ex,
    Bent,
    Fisheye,
    Eyefish,
    Exponential,
    Power,
    Cosine,
    Cylinder,
    Tangent,
    Bubble,
    Cross,
    Blob(P, P, P),
    PDJ(P, P, P, P),
}

/// The kind of a variation, without its parameters.
#[derive(Debug, Clone, Copy, PartialEq, Eq, Structural)]
pub enum VariationDiscriminant {
    Id,
    Sinusoidal,
    Spherical,
    Swirl,
    Horseshoe,
    Polar,
    Handkerchief,
    Heart,
    Disc,
    Spiral,
    Hyperbolic,
    Diamond,
    Ex,
    Bent,
    Fisheye,
    Eyefish,
    Exponential,
    Power,
    Cosine,
    Cylinder,
    Tangent,
    Bubble,
    Cross,
    Blob,
    PDJ,
}

impl VariationDiscriminant {
    /// How many parameters a variation of this kind carries.
    pub open spec fn arity(self) -> nat {
        match self {
            VariationDiscriminant::Blob => 3,
            VariationDiscriminant::PDJ => 4,
            _ => 0,
        }
    }

    /// The position of this kind in the catalogue.
    pub open spec fn position(self) -> nat {
        match self {
            VariationDiscriminant::Id => 0,
            VariationDiscriminant::Sinusoidal => 1,
            VariationDiscriminant::Spherical => 2,
            VariationDiscriminant::Swirl => 3,
            VariationDiscriminant::Horseshoe => 4,
            VariationDiscriminant::Polar => 5,
            VariationDiscriminant::Handkerchief => 6,
            VariationDiscriminant::Heart => 7,
            VariationDiscriminant::Disc => 8,
            VariationDiscriminant::Spiral => 9,
            VariationDiscriminant::Hyperbolic => 10,
            VariationDiscriminant::Diamond => 11,
            VariationDiscriminant::Ex => 12,
            VariationDiscriminant::Bent => 13,
            VariationDiscriminant::Fisheye => 14,
            VariationDiscriminant::Eyefish => 15,
            VariationDiscriminant::Exponential => 16,
            VariationDiscriminant::Power => 17,
            VariationDiscriminant::Cosine => 18,
            VariationDiscriminant::Cylinder => 19,
            VariationDiscriminant::Tangent => 20,
            VariationDiscriminant::Bubble => 21,
            VariationDiscriminant::Cross => 22,
            VariationDiscriminant::Blob => 23,
            VariationDiscriminant::PDJ => 24,
        }
    }

    pub fn num_parameters(&self) -> (n: usize)
        ensures
            n == self.arity(),
    {
        match self {
            VariationDiscriminant::Blob => 3,
            VariationDiscriminant::PDJ => 4,
            _ => 0,
        }
    }

    /// The kind at position `i` of the catalogue, `None` past its end. Every
    /// kind stands at exactly one position.
    pub fn from_index(i: usize) -> (d: Option<VariationDiscriminant>)
        ensures
            d is Some <==> i < VARIATION_COUNT,
            d is Some ==> d->0.position() == i,
    {
        match i {
            0 => Some(VariationDiscriminant::Id),
            1 => Some(VariationDiscriminant::Sinusoidal),
            2 => Some(VariationDiscriminant::Spherical),
            3 => Some(VariationDiscriminant::Swirl),
            4 => Some(VariationDiscriminant::Horseshoe),
            5 => Some(VariationDiscriminant::Polar),
            6 => Some(VariationDiscriminant::Handkerchief),
            7 => Some(VariationDiscriminant::Heart),
            8 => Some(VariationDiscriminant::Disc),
            9 => Some(VariationDiscriminant::Spiral),
            10 => Some(VariationDiscriminant::Hyperbolic),
            11 => Some(VariationDiscriminant::Diamond),
            12 => Some(VariationDiscriminant::Ex),
            13 => Some(VariationDiscriminant::Bent),
            14 => Some(VariationDiscriminant::Fisheye),
            15 => Some(VariationDiscriminant::Eyefish),
            16 => Some(VariationDiscriminant::Exponential),
            17 => Some(VariationDiscriminant::Power),
            18 => Some(VariationDiscriminant::Cosine),
            19 => Some(VariationDiscriminant::Cylinder),
            20 => Some(VariationDiscriminant::Tangent),
            21 => Some(VariationDiscriminant::Bubble),
            22 => Some(VariationDiscriminant::Cross),
            23 => Some(VariationDiscriminant::Blob),
            24 => Some(VariationDiscriminant::PDJ),
            _ => None,
        }
    }
}

impl<P> Variation<P> {
    /// The kind of this variation.
    pub open spec fn kind(self) -> VariationDiscriminant {
        match self {
            Variation::Id => VariationDiscriminant::Id,
            Variation::Sinusoidal => VariationDiscriminant::Sinusoidal,
            Variation::Spherical => VariationDiscriminant::Spherical,
            Variation::Swirl => VariationDiscriminant::Swirl,
            Variation::Horseshoe => VariationDiscriminant::Horseshoe,
            Variation::Polar => VariationDiscriminant::Polar,
            Variation::Handkerchief => VariationDiscriminant::Handkerchief,
            Variation::Heart => VariationDiscriminant::Heart,
            Variation::Disc => VariationDiscriminant::Disc,
            Variation::Spiral => VariationDiscriminant::Spiral,
            Variation::Hyperbolic => VariationDiscriminant::Hyperbolic,
            Variation::Diamond => VariationDiscriminant::Diamond,
            Variation::Ex => VariationDiscriminant::Ex,
            Variation::Bent => VariationDiscriminant::Bent,
            Variation::Fisheye => VariationDiscriminant::Fisheye,
            Variation::Eyefish => VariationDiscriminant::Eyefish,
            Variation::Exponential => VariationDiscriminant::Exponential,
            Variation::Power => VariationDiscriminant::Power,
            Variation::Cosine => VariationDiscriminant::Cosine,
            Variation::Cylinder => VariationDiscriminant::Cylinder,
            Variation::Tangent => VariationDiscriminant::Tangent,
            Variation::Bubble => VariationDiscriminant::Bubble,
            Variation::Cross => VariationDiscriminant::Cross,
            Variation::Blob(..) => VariationDiscriminant::Blob,
            Variation::PDJ(..) => VariationDiscriminant::PDJ,
        }
    }

    /// The parameters of this variation, in declaration order.
    pub open spec fn params(self) -> Seq<P> {
        match self {
            Variation::Blob(h, l, w) => seq![h, l, w],
            Variation::PDJ(a, b, c, d) => seq![a, b, c, d],
            _ => Seq::empty(),
        }
    }

    pub fn discriminant(&self) -> (d: VariationDiscriminant)
        ensures
            d == self.kind(),
    {
        match self {
            Variation::Id => VariationDiscriminant::Id,
            Variation::Sinusoidal => VariationDiscriminant::Sinusoidal,
            Variation::Spherical => VariationDiscriminant::Spherical,
            Variation::Swirl => VariationDiscriminant::Swirl,
            Variation::Horseshoe => VariationDiscriminant::Horseshoe,
            Variation::Polar => VariationDiscriminant::Polar,
            Variation::Handkerchief => VariationDiscriminant::Handkerchief,
            Variation::Heart => VariationDiscriminant::Heart,
            Variation::Disc => VariationDiscriminant::Disc,
            Variation::Spiral => VariationDiscriminant::Spiral,
            Variation::Hyperbolic => VariationDiscriminant::Hyperbolic,
            Variation::Diamond => VariationDiscriminant::Diamond,
            Variation::Ex => VariationDiscriminant::Ex,
            Variation::Bent => VariationDiscriminant::Bent,
            Variation::Fisheye => VariationDiscriminant::Fisheye,
            Variation::Eyefish => VariationDiscriminant::Eyefish,
            Variation::Exponential => VariationDiscriminant::Exponential,
            Variation::Power => VariationDiscriminant::Power,
            Variation::Cosine => VariationDiscriminant::Cosine,
            Variation::Cylinder => VariationDiscriminant::Cylinder,
            Variation::Tangent => VariationDiscriminant::Tangent,
            Variation::Bubble => VariationDiscriminant::Bubble,
            Variation::Cross => VariationDiscriminant::Cross,
            Variation::Blob(..) => VariationDiscriminant::Blob,
            Variation::PDJ(..) => VariationDiscriminant::PDJ,
        }
    }
}

impl<P: Copy> Variation<P> {
    pub fn parameters(&self) -> (r: Vec<P>)
        ensures
            r@ == self.params(),
    {
        let r = match self {
            Variation::Blob(h, l, w) => vec![*h, *l, *w],
            Variation::PDJ(a, b, c, d) => vec![*a, *b, *c, *d],
            _ => Vec::new(),
        };
        assert(r@ =~= self.params());
        r
    }

    /// Builds the variation of kind `discr` from a flat parameter list. It
    /// succeeds exactly when the list holds as many values as that kind
    /// declares, and then carries them in order.
    pub fn build(discr: VariationDiscriminant, parameters: &[P]) -> (r: Option<Variation<P>>)
        ensures
            r is Some <==> parameters@.len() == discr.arity(),
            r is Some ==> r->0.kind() == discr && r->0.params() == parameters@,
    {
        if parameters.len() != discr.num_parameters() {
            return None;
        }
        let v = match discr {
            VariationDiscriminant::Id => Variation::Id,
            VariationDiscriminant::Sinusoidal => Variation::Sinusoidal,
            VariationDiscriminant::Spherical => Variation::Spherical,
            VariationDiscriminant::Swirl => Variation::Swirl,
            VariationDiscriminant::Horseshoe => Variation::Horseshoe,
            VariationDiscriminant::Polar => Variation::Polar,
            VariationDiscriminant::Handkerchief => Variation::Handkerchief,
            VariationDiscriminant::Heart => Variation::Heart,
            VariationDiscriminant::Disc => Variation::Disc,
            VariationDiscriminant::Spiral => Variation::Spiral,
            VariationDiscriminant::Hyperbolic => Variation::Hyperbolic,
            VariationDiscriminant::Diamond => Variation::Diamond,
            VariationDiscriminant::Ex => Variation::Ex,
            VariationDiscriminant::Bent => Variation::Bent,
            VariationDiscriminant::Fisheye => Variation::Fisheye,
            VariationDiscriminant::Eyefish => Variation::Eyefish,
            VariationDiscriminant::Exponential => Variation::Exponential,
            VariationDiscriminant::Power => Variation::Power,
            VariationDiscriminant::Cosine => Variation::Cosine,
            VariationDiscriminant::Cylinder => Variation::Cylinder,
            VariationDiscriminant::Tangent => Variation::Tangent,
            VariationDiscriminant::Bubble => Variation::Bubble,
            VariationDiscriminant::Cross => Variation::Cross,
            VariationDiscriminant::Blob => Variation::Blob(
                parameters[0],
                parameters[1],
                parameters[2],
            ),
            VariationDiscriminant::PDJ => Variation::PDJ(
                parameters[0],
                parameters[1],
                parameters[2],
                parameters[3],
            ),
        };
        assert(v.params() =~= parameters@);
        Some(v)
    }
}

/// A variation carries exactly as many parameters as its kind declares, and
/// its kind and parameters determine it. So building from a variation's own
/// kind and parameters gives that variation back.
pub proof fn lemma_build_round_trip<P>(v: Variation<P>, w: Variation<P>)
    ensures
        v.params().len() == v.kind().arity(),
        v.kind() == w.kind() && v.params() == w.params() ==> v == w,
{
    if v.kind() == w.kind() && v.params() == w.params() {
        match v {
            Variation::Blob(..) => {
                assert(v.params()[0] == w.params()[0]);
                assert(v.params()[1] == w.params()[1]);
                assert(v.params()[2] == w.params()[2]);
            },
            Variation::PDJ(..) => {
                assert(v.params()[0] == w.params()[0]);
                assert(v.params()[1] == w.params()[1]);
                assert(v.params()[2] == w.params()[2]);
                assert(v.params()[3] == w.params()[3]);
            },
            _ => {},
        }
    }
}

} // verus!

use vstd::prelude::*;

verus! {

/// The unit system in which a well presents its data.
#[derive(PartialEq, Eq, Structural, Clone, Copy, Debug)]
pub enum PresentationUnits {
    US,
    EU,
}

/// Where a well quantity comes from: not recorded, sent by the client, or
/// computed by the server.
#[derive(PartialEq, Eq, Structural, Clone, Copy, Debug)]
pub enum ComputationMode {
    Off,
    Client,
    Server,
}

/// The physical quantity that a series of values measures, for unit conversion;
/// temperatures and the values of custom tags are kept as they are.
#[derive(PartialEq, Eq, Structural, Clone, Copy, Debug)]
pub enum Quantity {
    Pressure,
    Rate,
    Density,
    Volume,
    Injectivity,
    Unconverted,
}

/// How a value moves from one unit system to another: divided by the
/// quantity's US-per-EU factor, multiplied by it, or left as it is.
#[derive(PartialEq, Eq, Structural, Clone, Copy, Debug)]
pub enum ConversionStep {
    Divide,
    Multiply,
    Keep,
}

pub open spec fn spec_conversion_step(from: PresentationUnits, to: PresentationUnits)
    -> ConversionStep
{
    if from == PresentationUnits::US && to == PresentationUnits::EU {
        ConversionStep::Divide
    } else if from == PresentationUnits::EU && to == PresentationUnits::US {
        ConversionStep::Multiply
    } else {
        ConversionStep::Keep
    }
}

/// The step that every `convert_*` function of the service applies when going
/// from `from` units to `to` units.
pub fn conversion_step(from: &PresentationUnits, to: &PresentationUnits) -> (r: ConversionStep)
    ensures
        r == spec_conversion_step(*from, *to),
{
    if *from == PresentationUnits::US && *to == PresentationUnits::EU {
        ConversionStep::Divide
    } else if *from == PresentationUnits::EU && *to == PresentationUnits::US {
        ConversionStep::Multiply
    } else {
        ConversionStep::Keep
    }
}

pub open spec fn inverse_step(s: ConversionStep) -> ConversionStep {
    match s {
        ConversionStep::Divide => ConversionStep::Multiply,
        ConversionStep::Multiply => ConversionStep::Divide,
        ConversionStep::Keep => ConversionStep::Keep,
    }
}

/// Converting from `a` to `b` and then from `b` back to `a` applies inverse
/// steps, so a round trip through the other unit system returns the value.
pub proof fn conversion_round_trip(a: PresentationUnits, b: PresentationUnits)
    ensures
        spec_conversion_step(b, a) == inverse_step(spec_conversion_step(a, b)),
        a == b ==> spec_conversion_step(a, b) == ConversionStep::Keep,
{
}

} // verus!

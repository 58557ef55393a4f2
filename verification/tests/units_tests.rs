use geotool::units::{conversion_step, ConversionStep, PresentationUnits};

#[test]
fn conversion_steps() {
    let us = PresentationUnits::US;
    let eu = PresentationUnits::EU;
    assert_eq!(conversion_step(&us, &eu), ConversionStep::Divide);
    assert_eq!(conversion_step(&eu, &us), ConversionStep::Multiply);
    assert_eq!(conversion_step(&us, &us), ConversionStep::Keep);
    assert_eq!(conversion_step(&eu, &eu), ConversionStep::Keep);
}

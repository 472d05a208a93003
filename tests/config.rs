use mapgen::{
    default_dark, default_light, default_output, resolve_pipeline, Color, Generator,
    Interpolation, Noise, Pipeline,
};

#[test]
fn color_channels() {
    let c = Color::new([1, 2, 3]);
    assert_eq!((c.red(), c.green(), c.blue()), (1, 2, 3));
    assert_eq!(c.channels(), [1, 2, 3]);
}

#[test]
fn defaults() {
    assert_eq!(default_output(), "out.png");
    assert_eq!(default_light(), Color::new([0xFF, 0xFF, 0xCC]));
    assert_eq!(default_dark(), Color::new([0x33, 0x11, 0x33]));
}

#[test]
fn names_round_trip() {
    for g in [Generator::Diamond, Generator::Fractal, Generator::Midpoint] {
        assert_eq!(Generator::parse(g.as_str()), Ok(g));
    }
    for n in [Noise::Value, Noise::Gradient, Noise::Simplex] {
        assert_eq!(n.as_str().parse::<Noise>(), Ok(n));
    }
    for i in [
        Interpolation::Linear,
        Interpolation::Cubic,
        Interpolation::Quintic,
        Interpolation::Cosine,
    ] {
        assert_eq!(Interpolation::parse(i.as_str()), Ok(i));
    }
    assert_eq!(Generator::Midpoint.as_str(), "midpoint");
}

#[test]
fn unknown_names_are_rejected() {
    assert_eq!(
        Generator::parse("plasma"),
        Err("Cannot convert plasma to Generator".to_string())
    );
    assert_eq!(Noise::parse("Value"), Err("Cannot convert Value to Noise".to_string()));
    assert_eq!(
        "".parse::<Interpolation>(),
        Err("Cannot convert  to Interpolation".to_string())
    );
}

#[test]
fn pipeline_defaults() {
    assert_eq!(
        resolve_pipeline(Generator::Fractal, None, None, None),
        Pipeline::Fractal(Noise::Gradient, Interpolation::Cubic, 10)
    );
    assert_eq!(
        resolve_pipeline(Generator::Fractal, Some(Noise::Simplex), Some(Interpolation::Linear), Some(1)),
        Pipeline::Fractal(Noise::Simplex, Interpolation::Linear, 1)
    );
    assert_eq!(
        resolve_pipeline(Generator::Diamond, Some(Noise::Value), None, Some(3)),
        Pipeline::Diamond
    );
    assert_eq!(resolve_pipeline(Generator::Midpoint, None, None, None), Pipeline::Midpoint);
}

use editors_engine::effects::compositing::BlendMode;

#[test]
fn blend_mode_catalog() {
    let all = BlendMode::all();
    assert_eq!(all.len(), 22);
    assert_eq!(all[0], BlendMode::Normal);
    assert_eq!(all[21], BlendMode::Divide);
    assert_eq!(BlendMode::LinearDodge.display_name(), "Linear Dodge (Add)");
    assert_eq!(BlendMode::Multiply.formula(), "R = S × D");
    assert_eq!(BlendMode::SoftLight.formula(), "R = D(2S+(1-D)(2S-1))");
    assert_eq!(BlendMode::ColorBurn.display_name(), "Color Burn");
}

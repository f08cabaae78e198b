use editors_engine::effects::text_render::{TextAnchor, TextAnimation, TextColor, TextOverlay, TextPosition, TextShadow};

fn f(b: u32) -> f32 {
    f32::from_bits(b)
}

#[test]
fn overlay_styles() {
    let s = TextOverlay::simple("Hello");
    assert_eq!(s.content, "Hello");
    assert_eq!(s.font_family, "sans-serif");
    assert_eq!(f(s.font_size_bits), 48.0);
    assert_eq!(s.color.hex, "#FFFFFF");
    assert_eq!((f(s.position.x_bits), f(s.position.y_bits)), (0.5, 0.9));
    assert_eq!(s.anchor, TextAnchor::Center);
    assert_eq!(s.animation, TextAnimation::NoAnimation);
    let shadow = s.shadow.unwrap();
    assert_eq!((f(shadow.offset_x_bits), f(shadow.blur_bits)), (2.0, 4.0));
    let sub = TextOverlay::subtitle("Sub");
    assert_eq!(f(sub.font_size_bits), 36.0);
    let bg = sub.background.unwrap();
    assert_eq!((f(bg.opacity_bits), f(bg.padding_bits), f(bg.corner_radius_bits)), (0.7, 8.0, 4.0));
    assert!(sub.shadow.is_none());
    let t = TextOverlay::title("Title");
    assert_eq!(f(t.font_size_bits), 72.0);
    assert_eq!(f(t.position.y_bits), 0.3);
    assert_eq!(t.animation, TextAnimation::FadeIn { duration_ms: 500 });
    assert_eq!(f(t.outline.unwrap().width_bits), 3.0);
    assert_ne!(TextOverlay::simple("a").id, TextOverlay::simple("a").id);
}

#[test]
fn colors_and_positions() {
    assert_eq!(TextColor::black().hex, "#000000");
    let c = TextColor::with_hex("#12AB34");
    assert_eq!(c.hex, "#12AB34");
    assert_eq!(f(c.opacity_bits), 1.0);
    assert_eq!(TextPosition::center(), TextPosition::at(0.5f32.to_bits(), 0.5f32.to_bits()));
    assert_eq!(f(TextPosition::top_center().y_bits), 0.1);
    assert_eq!(TextShadow::default().color, "#000000");
}

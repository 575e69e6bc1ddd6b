//! Cel shading quantization and outline detection.

use alice_animation::npr::{AnimeShading, CelShading, OutlineConfig};

#[test]
fn test_cel_shading_quantize() {
    let cel = CelShading { shadow_steps: 3, thresholds: vec![300, 700], ..Default::default() };
    assert_eq!(cel.quantize(100), 0);
    assert_eq!(cel.quantize(500), 333);
    assert_eq!(cel.quantize(900), 666);
}

#[test]
fn test_quantize_no_thresholds_passthrough() {
    let cel = CelShading { shadow_steps: 4, thresholds: vec![], ..Default::default() };
    assert_eq!(cel.quantize(437), 437);
}

#[test]
fn test_outline_detection() {
    let outline = OutlineConfig { width: 20, epsilon: 5, ..Default::default() };
    assert!(outline.is_outline(10));
    assert!(!outline.is_outline(100));
}

#[test]
fn test_outline_alpha() {
    let outline = OutlineConfig::default();
    let alpha = outline.outline_alpha(0, 0);
    assert!(alpha > 0);
    let alpha_far = outline.outline_alpha(1000, 0);
    assert_eq!(alpha_far, 0);
}

#[test]
fn test_anime_shading_default() {
    let shading = AnimeShading::default();
    assert_eq!(shading.cel_shading.shadow_steps, 2);
    assert!(shading.ao_strength > 0);
    assert!(shading.rim_light > 0);
}

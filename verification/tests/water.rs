use gigantomachia::water::WaterStyle;

#[test]
fn water_defaults_to_the_stylized_style() {
    assert_eq!(WaterStyle::default(), WaterStyle::Stylized);
    assert_ne!(WaterStyle::Realistic, WaterStyle::Stylized);
}

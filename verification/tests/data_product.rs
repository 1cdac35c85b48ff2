use bakery::data::product::WsProductData;

#[test]
fn test_ws_product_data_default() {
    let json_default_build_config = r#"
    {
        "version": "4"
    }"#;
    let data: WsProductData = WsProductData::from_str(json_default_build_config).expect("Failed to parse product data");
    assert_eq!(data.name(), "NA");
    assert_eq!(data.project(), data.name());
    assert_eq!(data.product(), data.name());
    assert_eq!(data.description(), "NA");
    assert_eq!(data.arch(), "NA");
}

#[test]
fn test_ws_product_data() {
    let json_default_build_config = r#"
    {
        "version": "4",
        "name": "test-name",
        "description": "test description",
        "arch": "test-arch"
    }"#;
    let data: WsProductData = WsProductData::from_str(json_default_build_config).expect("Failed to parse product data");
    assert_eq!(data.name(), "test-name");
    assert_eq!(data.project(), data.name());
    assert_eq!(data.product(), data.name());
    assert_eq!(data.description(), "test description");
    assert_eq!(data.arch(), "test-arch");
}

#[test]
fn test_ws_project_name_data() {
    let json_default_build_config = r#"
    {
        "version": "4",
        "name": "test-name",
        "project": "test-project",
        "description": "test description",
        "arch": "test-arch"
    }"#;
    let data: WsProductData = WsProductData::from_str(json_default_build_config).expect("Failed to parse product data");
    assert_eq!(data.name(), "test-name");
    assert_eq!(data.project(), "test-project");
    assert_eq!(data.product(), data.name());
    assert_eq!(data.description(), "test description");
    assert_eq!(data.arch(), "test-arch");
}

#[test]
fn test_ws_product_name_data() {
    let json_default_build_config = r#"
    {
        "version": "4",
        "name": "test-name",
        "product": "test-product",
        "description": "test description",
        "arch": "test-arch"
    }"#;
    let data: WsProductData = WsProductData::from_str(json_default_build_config).expect("Failed to parse product data");
    assert_eq!(data.name(), "test-name");
    assert_eq!(data.project(), data.name());
    assert_eq!(data.product(), "test-product");
    assert_eq!(data.description(), "test description");
    assert_eq!(data.arch(), "test-arch");
}

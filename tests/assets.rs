use sensor_bridge::assets::{
    cached_image_name, elements_of_type, is_image_file_name, is_url, text_font_families,
    verify_config,
};
use sensor_bridge::model::{
    ConditionalImageConfig, DisplayConfig, ElementConfig, ElementType, ImageConfig, TextAlign,
    TextConfig, VerticalAlign,
};

fn element(name: &str, t: ElementType) -> ElementConfig {
    ElementConfig {
        id: format!("id-{}", name),
        name: name.to_string(),
        element_type: t,
        x: 0,
        y: 0,
        text_config: None,
        image_config: None,
        graph_config: None,
        conditional_image_config: None,
    }
}

fn text(name: &str, family: &str) -> ElementConfig {
    let mut e = element(name, ElementType::Text);
    e.text_config = Some(TextConfig {
        sensor_id: "cpu".to_string(),
        format: "{value}".to_string(),
        font_family: family.to_string(),
        font_size: 12,
        font_color: "#ffffffff".to_string(),
        alignment: TextAlign::Left,
        vertical_alignment: VerticalAlign::Top,
        width: 10,
        height: 10,
    });
    e
}

#[test]
fn urls() {
    assert!(is_url("https://example.com/a.png"));
    assert!(is_url("http://x"));
    assert!(!is_url("/home/u/a.png"));
    assert!(!is_url("ftp://x"));
}

#[test]
fn configuration_verification_reports_first_missing_file() {
    let mut img = element("Logo", ElementType::StaticImage);
    img.image_config = Some(ImageConfig { image_path: "/tmp/logo.png".to_string(), width: 1, height: 1 });
    let mut cond = element("Gauge", ElementType::ConditionalImage);
    cond.conditional_image_config = Some(ConditionalImageConfig {
        sensor_id: "cpu".to_string(),
        sensor_value: "".to_string(),
        images_path: "/tmp/g.zip".to_string(),
        width: 1,
        height: 1,
    });
    let config = DisplayConfig {
        resolution_width: 10,
        resolution_height: 10,
        elements: vec![text("T", "Arial"), img, cond],
    };
    assert!(verify_config(&config, &vec![false, true, true]).is_ok());
    let e = verify_config(&config, &vec![true, false, false]).err().unwrap();
    assert_eq!(e.message(), "'Logo': Image path '/tmp/logo.png' does not exist.");
    let e = verify_config(&config, &vec![true, true, false]).err().unwrap();
    assert_eq!(e.element_name, "Gauge");
    assert_eq!(e.reason, "Filepath '/tmp/g.zip' does not exist.");
}

#[test]
fn font_families_and_element_kinds() {
    let config = DisplayConfig {
        resolution_width: 10,
        resolution_height: 10,
        elements: vec![
            text("a", "Arial"),
            element("g", ElementType::Graph),
            text("b", "Mono"),
            text("c", "Arial"),
        ],
    };
    assert_eq!(text_font_families(&config), vec!["Arial".to_string(), "Mono".to_string()]);
    assert_eq!(elements_of_type(&config, ElementType::Text), vec![0, 2, 3]);
    assert_eq!(elements_of_type(&config, ElementType::Graph), vec![1]);
    assert!(elements_of_type(&config, ElementType::StaticImage).is_empty());
}

#[test]
fn conditional_image_cache_names() {
    assert_eq!(cached_image_name("levels/10.jpg"), "10.png");
    assert_eq!(cached_image_name("a/b/50.png"), "50.png");
    assert_eq!(cached_image_name("90"), "90.png");
    assert_eq!(cached_image_name("x/.hidden"), ".hidden.png");
    assert_eq!(cached_image_name("x/archive.tar.gz"), "archive.tar.png");
    assert!(is_image_file_name("10.PNG"));
    assert!(is_image_file_name("a.jpeg"));
    assert!(!is_image_file_name("readme.txt"));
    assert!(!is_image_file_name(".png"));
    for p in ["levels/10.jpg", "deep/er/x.gif", "plain"] {
        let n = cached_image_name(p);
        assert!(!n.contains('/'));
        assert!(n.ends_with(".png"));
        assert_eq!(std::path::Path::new(p).file_name().map(|f| std::path::Path::new(f).with_extension("png")).unwrap().to_str().unwrap(), n);
    }
}

use launcher::icons::{format_of, icon_search_paths, ImageFormat};

#[test]
fn format_by_extension() {
    assert_eq!(format_of("icons/tv.svg"), ImageFormat::Svg);
    assert_eq!(format_of(".svg"), ImageFormat::Svg);
    assert_eq!(format_of("icons/tv.png"), ImageFormat::Raster);
    assert_eq!(format_of("icons/tv.SVG"), ImageFormat::Raster);
    assert_eq!(format_of("icons/tv.svg.bak"), ImageFormat::Raster);
    assert_eq!(format_of("svg"), ImageFormat::Raster);
    assert_eq!(format_of(""), ImageFormat::Raster);
}

#[test]
fn search_order_of_a_named_icon() {
    assert_eq!(
        icon_search_paths("tv.png", Some("/home/u/.local/share/launcher/icons/tv.png")),
        vec![
            "tv.png",
            "assets/tv.png",
            "icons/tv.png",
            "/home/u/.local/share/launcher/icons/tv.png",
            "assets/icons/default.svg",
            "icons/default.svg",
        ]
    );
}

#[test]
fn search_order_without_a_user_directory() {
    assert_eq!(
        icon_search_paths("icons/tv.png", None),
        vec![
            "icons/tv.png",
            "assets/icons/tv.png",
            "icons/icons/tv.png",
            "assets/icons/default.svg",
            "icons/default.svg",
        ]
    );
}

#[test]
fn empty_icon_path_looks_for_the_default_icon_only() {
    let expected = vec!["assets/icons/default.svg", "icons/default.svg"];
    assert_eq!(icon_search_paths("", None), expected);
    assert_eq!(icon_search_paths("", Some("/home/u/icons/")), expected);
}

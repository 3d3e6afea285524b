//! Tests for configuration options and their validation.

use hyper_render::{ColorScheme, Config, Error, OutputFormat, Scale};

#[test]
fn test_config_default_values() {
    let config = Config::default();

    assert_eq!(config.width, 800);
    assert_eq!(config.height, 600);
    assert_eq!(config.scale, Scale::from_micro(1_000_000));
    assert_eq!(config.format, OutputFormat::Png);
    assert_eq!(config.color_scheme, ColorScheme::Light);
    assert!(!config.auto_height);
    assert_eq!(config.background, [255, 255, 255, 255]);
}

#[test]
fn test_config_new_equals_default() {
    let new = Config::new();
    let default = Config::default();

    assert_eq!(new.width, default.width);
    assert_eq!(new.height, default.height);
    assert_eq!(new.scale, default.scale);
}

#[test]
fn test_config_builder_chaining() {
    let config = Config::new()
        .width(1920)
        .height(1080)
        .scale(Scale::from_micro(2_000_000))
        .format(OutputFormat::Pdf)
        .color_scheme(ColorScheme::Dark)
        .auto_height(true)
        .background([100, 100, 100, 255]);

    assert_eq!(config.width, 1920);
    assert_eq!(config.height, 1080);
    assert_eq!(config.scale, Scale::from_micro(2_000_000));
    assert_eq!(config.format, OutputFormat::Pdf);
    assert_eq!(config.color_scheme, ColorScheme::Dark);
    assert!(config.auto_height);
    assert_eq!(config.background, [100, 100, 100, 255]);
}

#[test]
fn test_config_builder() {
    let config = Config::new()
        .width(1920)
        .height(1080)
        .scale(Scale::from_micro(2_000_000))
        .format(OutputFormat::Png);

    assert_eq!(config.width, 1920);
    assert_eq!(config.height, 1080);
    assert_eq!(config.scale, Scale::from_micro(2_000_000));
}

#[test]
fn test_default_config() {
    let config = Config::default();
    assert_eq!(config.width, 800);
    assert_eq!(config.height, 600);
    assert_eq!(config.scale, Scale::from_micro(1_000_000));
}

#[test]
fn test_config_size_convenience() {
    let config = Config::new().size(1280, 720);

    assert_eq!(config.width, 1280);
    assert_eq!(config.height, 720);
}

#[test]
fn test_config_transparent_convenience() {
    let config = Config::new().transparent();

    assert_eq!(config.background, [0, 0, 0, 0]);
}

#[test]
fn test_config_validate_valid() {
    let config = Config::new();
    assert!(config.validate().is_ok());
}

#[test]
fn test_config_validate_edge_cases() {
    // Minimum valid dimensions and a tiny scale.
    assert!(Config::new()
        .width(1)
        .height(1)
        .scale(Scale::from_micro(1000))
        .validate()
        .is_ok());

    // Large dimensions.
    assert!(Config::new().width(10000).height(10000).validate().is_ok());

    // Large scale.
    assert!(Config::new().scale(Scale::from_micro(100_000_000)).validate().is_ok());
}

#[test]
fn test_config_validation_zero_width() {
    let config = Config::new().width(0);
    assert!(config.validate().is_err());
}

#[test]
fn test_config_validation_zero_height() {
    let config = Config::new().height(0);
    assert!(config.validate().is_err());
}

#[test]
fn test_config_validation_zero_scale() {
    let config = Config::new().scale(Scale::from_micro(0));
    assert!(config.validate().is_err());
}

#[test]
fn test_config_validation_negative_scale() {
    let config = Config::new().scale(Scale::from_micro(-1_000_000));
    assert!(config.validate().is_err());
}

#[test]
fn test_config_validation_not_finite_scale() {
    let config = Config::new().scale(Scale::not_finite());
    assert!(config.validate().is_err());
}

#[test]
fn test_config_validation_valid() {
    let config = Config::new()
        .width(1)
        .height(1)
        .scale(Scale::from_micro(100_000));
    assert!(config.validate().is_ok());
}

#[test]
fn test_invalid_config_error_kind() {
    let err = Config::new().width(0).validate().unwrap_err();
    assert!(matches!(err, Error::InvalidConfig(_)));

    let err = Config::new().height(0).validate().unwrap_err();
    assert!(matches!(err, Error::InvalidConfig(_)));

    let err = Config::new().scale(Scale::not_finite()).validate().unwrap_err();
    assert!(matches!(err, Error::InvalidConfig(_)));
}

#[test]
fn test_error_display_invalid_config() {
    let config = Config::new().width(0);
    let err = config.validate().unwrap_err();

    let msg = err.message();
    assert!(
        msg.contains("width") || msg.contains("config"),
        "error message should be descriptive: {}",
        msg
    );
}

#[test]
fn test_error_messages_name_their_kind() {
    assert!(Error::PngEncode("x".to_string()).message().contains("PNG"));
    assert!(Error::PdfCreate("x".to_string()).message().contains("PDF"));
    assert!(Error::Layout("x".to_string()).message().contains("layout"));
    assert!(Error::Font("x".to_string()).message().contains("font"));
    assert!(Error::Io("x".to_string()).message().contains("I/O"));
    assert!(Error::PngRender("x".to_string()).message().contains("PNG"));
    assert!(Error::PdfRender("x".to_string()).message().contains("PDF"));
    assert!(Error::FormatNotEnabled("pdf".to_string())
        .message()
        .contains("enabled"));
}

#[test]
fn test_config_immutability() {
    // Builder methods return a new configuration and leave the old one as
    // it was.
    let config1 = Config::new();
    let config2 = config1.clone().width(1000);

    assert_eq!(config1.width, 800);
    assert_eq!(config2.width, 1000);
}

#[test]
fn test_config_debug() {
    let config = Config::new();
    let debug = format!("{:?}", config);

    assert!(debug.contains("width"));
    assert!(debug.contains("height"));
    assert!(debug.contains("scale"));
}

#[test]
fn test_output_format_display() {
    assert_eq!(OutputFormat::Png.name(), "png");
    assert_eq!(OutputFormat::Pdf.name(), "pdf");
}

#[test]
fn test_output_format_default() {
    let format = OutputFormat::default();
    assert_eq!(format, OutputFormat::Png);
}

#[test]
fn test_color_scheme_default() {
    let scheme = ColorScheme::default();
    assert_eq!(scheme, ColorScheme::Light);
}

#[test]
fn test_output_format_equality() {
    assert_eq!(OutputFormat::Png, OutputFormat::Png);
    assert_eq!(OutputFormat::Pdf, OutputFormat::Pdf);
    assert_ne!(OutputFormat::Png, OutputFormat::Pdf);
}

#[test]
fn test_color_scheme_equality() {
    assert_eq!(ColorScheme::Light, ColorScheme::Light);
    assert_eq!(ColorScheme::Dark, ColorScheme::Dark);
    assert_ne!(ColorScheme::Light, ColorScheme::Dark);
}

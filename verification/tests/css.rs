use cantara::conversions::Rgb8;
use cantara::conversions::Rgba8;
use cantara::css::CssFontFamily;
use cantara::css::CssHandler;
use cantara::css::CssString;
use cantara::css::GenericFontFamily;
use cantara::css::PlaceItems;
use cantara::settings::CssSize;
use cantara::settings::FontRepresentation;
use cantara::settings::HorizontalAlign;

#[test]
fn test_css_handler() {
    let mut handler = CssHandler::new();
    handler.background_color(Rgb8::new(100, 100, 100));
    handler.set_important(true);
    handler.color(Rgba8::new(255, 255, 255, 255));
    handler.set_important(false);
    handler.padding_left(CssSize::Px(200));
    handler.padding_right(CssSize::Px(200));
    handler.padding_top(CssSize::Px(200));
    handler.padding_bottom(CssSize::Px(200));

    assert_eq!(
        handler.to_css_string().as_str(),
        "background-color:rgb(100, 100, 100);color:rgba(255, 255, 255, 255)!important;padding-left:20px;padding-right:20px;padding-top:20px;padding-bottom:20px;"
    );
}

#[test]
fn test_empty_handler_css() {
    let handler = CssHandler::new();
    assert_eq!(handler.to_css_string().as_str(), "");
}

#[test]
fn test_css_size_strings() {
    assert_eq!(CssSize::Px(200).to_css_string(), "20px");
    assert_eq!(CssSize::Pt(224).to_css_string(), "22.4pt");
    assert_eq!(CssSize::Em(15).to_css_string(), "1.5em");
    assert_eq!(CssSize::Percentage(1000).to_css_string(), "100%");
    assert_eq!(CssSize::Null.to_css_string(), "0");
}

#[test]
fn test_css_size_null_and_tenths() {
    assert!(CssSize::Null.is_null());
    assert!(CssSize::Px(0).is_null());
    assert!(!CssSize::Px(1).is_null());
    assert_eq!(CssSize::null(), CssSize::Null);
    assert_eq!(CssSize::Pt(320).value_tenths(), 320);
    let mut size = CssSize::Pt(320);
    size.set_value_tenths(224);
    assert_eq!(size, CssSize::Pt(224));
    let mut null_size = CssSize::Null;
    null_size.set_value_tenths(50);
    assert_eq!(null_size, CssSize::Px(50));
}

#[test]
fn test_font_family_strings() {
    assert_eq!(GenericFontFamily::Serif.to_css_string(), "serif");
    assert_eq!(GenericFontFamily::SansSerif.to_css_string(), "sans-serif");
    assert_eq!(GenericFontFamily::SystemUi.to_css_string(), "system-ui");

    let with_name = CssFontFamily::with_family("Libre Baskerville".to_string());
    assert_eq!(with_name.to_css_string(), "Libre Baskerville, sans-serif");

    let without_name = CssFontFamily::without_family();
    assert_eq!(without_name.to_css_string(), "sans-serif");
}

#[test]
fn test_place_items_strings() {
    assert_eq!(PlaceItems::StartStretch.to_css_string(), "start stretch");
    assert_eq!(PlaceItems::CenterStretch.to_css_string(), "center stretch");
    assert_eq!(PlaceItems::EndStretch.to_css_string(), "end stretch");
}

#[test]
fn test_handler_url_int_and_tenths() {
    let mut handler = CssHandler::new();
    handler.background_image("pics/background.png");
    handler.z_index(-3);
    handler.opacity(25);
    handler.line_height(12);
    handler.place_items(PlaceItems::CenterStretch);
    handler.text_align(HorizontalAlign::Left);
    assert_eq!(
        handler.to_css_string(),
        "background-image:url('pics/background.png');z-index:-3;opacity:1;line-height:1.2;place-items:center stretch;text-align:left;"
    );
}

#[test]
fn test_handler_extend_applies_important_flag() {
    let mut other = CssHandler::new();
    other.background_size("cover");
    other.background_repeat("no-repeat");

    let mut handler = CssHandler::new();
    handler.set_important(true);
    handler.extend(&other);
    assert_eq!(
        handler.to_css_string(),
        "background-size:cover!important;background-repeat:no-repeat!important;"
    );
}

#[test]
fn test_handler_from_font() {
    let font = FontRepresentation::default();
    let handler = CssHandler::from_font(&font);
    assert_eq!(
        handler.to_css_string(),
        "font-family:sans-serif;font-size:32pt;line-height:1.2;color:rgba(255, 255, 255, 255);text-align:center;"
    );
}

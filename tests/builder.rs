use svg_creator::decimal::Decimal;
use svg_creator::save::{image_file_name, save_plan, save_status, SAVE_MALFORMED, SAVE_OK};
use svg_creator::svg::Svg;

fn d(mantissa: i64, scale: u32) -> Decimal {
    Decimal::new(mantissa, scale)
}

fn number_text(n: Decimal) -> String {
    let mut out = String::new();
    n.write_to(&mut out);
    out
}

fn blank(view: &str) -> Svg {
    Svg::new(d(1, 0), "px", d(1, 0), "px", view, "doc")
}

#[test]
fn decimal_fixed_point_text() {
    assert_eq!(number_text(d(125, 1)), "12.5");
    assert_eq!(number_text(d(900, 0)), "900");
    assert_eq!(number_text(d(5, 1)), "0.5");
    assert_eq!(number_text(d(-15, 1)), "-1.5");
    assert_eq!(number_text(d(-5, 2)), "-0.05");
    assert_eq!(number_text(d(0, 0)), "0");
    assert_eq!(number_text(d(8205, 2)), "82.05");
    assert_eq!(number_text(d(58171564, 5)), "581.71564");
    assert_eq!(number_text(d(i64::MIN, 0)), "-9223372036854775808");
    assert_eq!(number_text(d(i64::MAX, 3)), "9223372036854775.807");
    assert_eq!(number_text(d(1, 25)), "0.0000000000000000000000001");
}

#[test]
fn decimal_drops_trailing_zeros() {
    assert_eq!(d(1250, 2), d(125, 1));
    assert_eq!(number_text(d(1250, 2)), "12.5");
    assert_eq!(d(9000, 1), d(900, 0));
    assert_eq!(number_text(d(0, 3)), "0");
    assert_eq!(number_text(d(-100, 2)), "-1");
    assert_eq!(number_text(d(100, 0)), "100");
}

#[test]
fn unit_goes_inside_the_quotes() {
    let mut svg = blank("");
    svg.width(d(125, 1), "px");
    assert_eq!(svg.contents(), "width=\"12.5px\" ");
    assert!(svg.contents().contains("=\"12.5px\""));
    assert!(!svg.contents().contains("=\"12.5\" px"));
    assert!(!svg.contents().contains("=\"12.5\"px"));
}

#[test]
fn attribute_setters_write_name_and_value() {
    let mut svg = blank("");
    svg.fill("#fff");
    assert_eq!(svg.contents(), "fill=\"#fff\" ");
    let mut svg = blank("");
    svg.result("blur").t("text/css").in1("SourceGraphic").in2("BackgroundImage");
    assert_eq!(
        svg.contents(),
        "result=\"blur\" type=\"text/css\" in=\"SourceGraphic\" in2=\"BackgroundImage\" "
    );
    let mut svg = blank("");
    svg.link("#in").href("s").font_family("serif").key_times("0;1").system_language("en");
    assert_eq!(
        svg.contents(),
        "xlink:href=\"#in\" href=\"s\" font-family=\"serif\" keyTimes=\"0;1\" systemLanguage=\"en\" "
    );
    let mut svg = blank("");
    svg.from("0").to("5").begin("1s").max("3s").restart("never").attribute_type("XML");
    assert_eq!(
        svg.contents(),
        "from=\"0\" to=\"5\" begin=\"1s\" max=\"3s\" restart=\"never\" attributeType=\"XML\" "
    );
    let mut svg = blank("");
    svg.stroke_miterlimit(d(4, 0)).font_size(d(12, 0), "pt").path_length(" ");
    assert_eq!(svg.contents(), "stroke-miterlimit=\"4\" font-size=\"12pt\" pathLength=\" \" ");
    let mut svg = blank("");
    svg.fill("");
    assert_eq!(svg.contents(), "fill=\"\" ");
}

#[test]
fn elements_and_content() {
    let mut svg = blank("");
    svg.line(d(0, 0), d(5, 1), d(10, 0), d(-2, 0), "black").close();
    assert_eq!(svg.contents(), "<line x1=\"0\" y1=\"0.5\" x2=\"10\" y2=\"-2\" stroke=\"black\" />");
    let mut svg = blank("");
    svg.css(".a{fill:red}").b("bold").title("T").content("raw<&>");
    assert_eq!(
        svg.contents(),
        "<style type=\"text/css\">.a{fill:red}</style><b>bold</b><title>T</title>raw<&>"
    );
    let mut svg = blank("");
    svg.defs().close_tag().close_deps().switch().close_tag().close_switch().foreign_object().close_tag().div().close_tag().close_div().close_foreign_object();
    assert_eq!(
        svg.contents(),
        "<defs ></defs><switch ></switch><foreignObject ><div xmlns=\"http://www.w3.org/1999/xhtml\"  ></div></foreignObject>"
    );
    let mut svg = blank("");
    svg.fe_offset().fe_blend().fe_morphology().fe_convolve_matrix().fe_color_matrix().span().tspan();
    assert_eq!(
        svg.contents(),
        "<feOffset <feBlend <feMorphology <feConvolveMatrix <feColorMatrix <span <tspan "
    );
    let mut svg = blank("");
    svg.close_span().close_tspan().close_circle().close_a().close_text().group().close_group();
    assert_eq!(svg.contents(), "</span></tspan></circle></a></text><g></g>");
}

#[test]
fn fragments_follow_call_order() {
    let mut svg = blank("");
    svg.rect().x(d(1, 0), "px").y(d(2, 0), "px").fill("red").close().circle().close().end();
    let text = svg.contents();
    let pieces = ["<rect ", "x=\"1px\" ", "y=\"2px\" ", "fill=\"red\" ", "/>", "<circle ", "/>", "</svg>"];
    assert_eq!(text, pieces.concat());
    let mut offset = 0;
    for piece in pieces {
        assert_eq!(&text[offset..offset + piece.len()], piece);
        offset += piece.len();
    }
}

#[test]
fn empty_view_box_is_left_out() {
    let mut svg = Svg::new(d(10, 0), "px", d(20, 0), "", "", "plain");
    svg.start();
    assert!(!svg.contents().contains("viewBox"));
    assert_eq!(
        svg.contents(),
        "<?xml version=\"1.0\"?>\n<svg xmlns=\"http://www.w3.org/2000/svg\" xmlns:xlink=\"http://www.w3.org/1999/xlink\" width=\"10px\" height=\"20\" role=\"img\" id=\"plain\">"
    );
}

#[test]
fn view_box_is_written_once() {
    let mut svg = blank("0 0 1 1");
    svg.start();
    assert_eq!(svg.contents().matches("viewBox=").count(), 1);
    assert!(svg.contents().contains(" viewBox=\"0 0 1 1\" "));
}

#[test]
fn existing_directory_is_not_created_again() {
    let first = save_plan("flags", "japan", false);
    assert!(first.create_dir);
    let second = save_plan("flags", "japan", true);
    assert!(!second.create_dir);
    assert_eq!(second.dir, "flags");
    assert_eq!(second.file, "flags/japan.svg");
    assert_eq!(second.check_file, "flags/japan_check");
}

#[test]
fn unbalanced_document_reports_malformed() {
    let mut svg = blank("0 0 1 1");
    svg.start().rect().width(d(1, 0), "px").g();
    assert!(!svg.contents().ends_with("</svg>"));
    assert_eq!(save_status(false), 1);
    assert_eq!(save_status(false), SAVE_MALFORMED);
    assert_eq!(save_status(true), SAVE_OK);
}

#[test]
fn image_file_name_is_last_segment() {
    assert_eq!(image_file_name("https://simpleicons.org/icons/rust.svg"), "rust.svg");
    assert_eq!(image_file_name("logo.svg"), "logo.svg");
    assert_eq!(image_file_name("dir/"), "");
    assert_eq!(image_file_name(""), "");
    assert_eq!(image_file_name("a/é/ü.svg"), "ü.svg");
}

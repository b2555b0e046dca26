use svg_creator::decimal::Decimal;
use svg_creator::save::{image_file_name, save_plan, save_status, SAVE_OK};
use svg_creator::svg::Svg;

const SVG_HEAD: &str = "<?xml version=\"1.0\"?>\n<svg xmlns=\"http://www.w3.org/2000/svg\" xmlns:xlink=\"http://www.w3.org/1999/xlink\"";

fn d(mantissa: i64, scale: u32) -> Decimal {
    Decimal::new(mantissa, scale)
}

/// Whether `pieces` occur in `text` one after the other, without overlap.
fn in_order(text: &str, pieces: &[&str]) -> bool {
    let mut from = 0;
    for piece in pieces {
        match text[from..].find(piece) {
            Some(at) => from += at + piece.len(),
            None => return false,
        }
    }
    true
}

fn count(text: &str, piece: &str) -> usize {
    text.matches(piece).count()
}

/// Whether the start and end tags of `text` pair up under one root
/// element, the way the strict checker run by a save would see them.
fn balanced(text: &str) -> bool {
    let mut rest = text;
    if let Some(decl_end) = rest.strip_prefix("<?").and_then(|r| r.find("?>")) {
        rest = &rest[decl_end + 4..];
    }
    let mut open: Vec<&str> = Vec::new();
    let mut roots = 0;
    while let Some(lt) = rest.find('<') {
        if open.is_empty() && !rest[..lt].trim().is_empty() {
            return false;
        }
        rest = &rest[lt + 1..];
        let mut in_quotes = false;
        let gt = match rest.char_indices().find(|&(_, c)| {
            if c == '"' {
                in_quotes = !in_quotes;
            }
            c == '>' && !in_quotes
        }) {
            Some((at, _)) => at,
            None => return false,
        };
        let tag = &rest[..gt];
        rest = &rest[gt + 1..];
        if let Some(name) = tag.strip_prefix('/') {
            if open.pop() != Some(name.trim()) {
                return false;
            }
        } else {
            let name = tag.split(|c: char| c.is_whitespace() || c == '/').next().unwrap_or("");
            if name.is_empty() {
                return false;
            }
            if open.is_empty() {
                roots += 1;
            }
            if !tag.ends_with('/') {
                open.push(name);
            }
        }
    }
    open.is_empty() && roots == 1 && rest.trim().is_empty()
}

/// What the save of a finished document reports, with the checker's verdict
/// taken from `balanced`.
fn saved_status(svg: &Svg, dir: &str, name: &str) -> i32 {
    let plan = save_plan(dir, name, true);
    assert_eq!(plan.file, format!("{dir}/{name}.svg"));
    assert_eq!(plan.check_file, format!("{dir}/{name}_check"));
    save_status(balanced(svg.contents()))
}

#[test]
pub fn japan() {
    let mut svg = Svg::new(d(900, 0), "px", d(600, 0), "px", "0 0 900 600", "japan");
    svg.start()
        .rect()
        .width(d(900, 0), "px")
        .height(d(600, 0), "px")
        .fill("#fff")
        .close()
        .circle()
        .cx(d(450, 0), "px")
        .cy(d(300, 0), "px")
        .r(d(180, 0), "px")
        .fill("#bc002d")
        .close()
        .end();
    let expected = format!(
        "{SVG_HEAD} width=\"900px\" height=\"600px\" viewBox=\"0 0 900 600\" role=\"img\" id=\"japan\">\
         <rect width=\"900px\" height=\"600px\" fill=\"#fff\" />\
         <circle cx=\"450px\" cy=\"300px\" r=\"180px\" fill=\"#bc002d\" />\
         </svg>"
    );
    assert_eq!(svg.contents(), expected);
    let text = svg.contents();
    assert_eq!(count(text, "<svg "), 1);
    assert_eq!(count(text, "<rect "), 1);
    assert_eq!(count(text, "<circle "), 1);
    assert_eq!(count(text, "</svg>"), 1);
    assert!(in_order(text, &["<svg ", "<rect ", "/>", "<circle ", "/>", "</svg>"]));
    assert_eq!(saved_status(&svg, "flags", "japan"), 0);
}

#[test]
pub fn clippy() {
    let icon = image_file_name("https://simpleicons.org/icons/rust.svg");
    assert_eq!(icon, "rust.svg");
    let svg = Svg::badge_document(true, "clippy", "failed", "success", "PHN2Zy8+");
    let text = svg.contents();
    assert!(text.starts_with(SVG_HEAD));
    assert!(text.contains(" width=\"164px\" height=\"28px\" viewBox=\"0 0 164 28\" role=\"img\" id=\"clippy\">"));
    assert!(text.contains("<image xlink:href=\"data:image/svg+xml;base64,PHN2Zy8+\" "));
    assert!(text.contains("fill=\"#00ff00\" "));
    assert!(!text.contains("#ff0000"));
    assert!(in_order(text, &[">clippy</text>", ">success</text>", "</g></svg>"]));
    assert!(!text.contains("failed"));
    assert_eq!(saved_status(&svg, "badges", "clippy"), 0);
}

#[test]
pub fn china() {
    let mut svg = Svg::new(d(900, 0), "px", d(600, 0), "px", "0 0 900 600", "china");
    svg.start()
        .path()
        .fill("#EE1C25")
        .d("M0 0h900v600H0")
        .close()
        .g()
        .transform("translate(150,150) scale(3)")
        .close_tag()
        .path()
        .fill("#FF0")
        .d("M0,-30 17.63355,24.27051 -28.53171,-9.27051H28.53171L-17.63355,24.27051")
        .id("s")
        .close()
        .close_group()
        .u()
        .href("s")
        .transform("translate(300,60) rotate(23.036243)")
        .close()
        .u()
        .href("s")
        .transform("translate(360,120) rotate(45.869898)")
        .close()
        .u()
        .href("s")
        .transform("translate(360,210) rotate(69.945396)")
        .close()
        .u()
        .href("s")
        .transform("translate(300,270) rotate(20.659808)")
        .close()
        .end();
    let text = svg.contents();
    assert_eq!(count(text, "<g "), 1);
    assert_eq!(count(text, "</g>"), 1);
    assert_eq!(count(text, "<use "), 4);
    assert!(in_order(
        text,
        &[
            "<path fill=\"#EE1C25\" d=\"M0 0h900v600H0\" />",
            "<g transform=\"translate(150,150) scale(3)\" >",
            "<path fill=\"#FF0\" d=\"M0,-30 17.63355,24.27051 -28.53171,-9.27051H28.53171L-17.63355,24.27051\" id=\"s\" />",
            "</g>",
            "<use href=\"s\" transform=\"translate(300,60) rotate(23.036243)\" />",
            "<use href=\"s\" transform=\"translate(360,120) rotate(45.869898)\" />",
            "<use href=\"s\" transform=\"translate(360,210) rotate(69.945396)\" />",
            "<use href=\"s\" transform=\"translate(300,270) rotate(20.659808)\" />",
            "</svg>",
        ]
    ));
    assert_eq!(saved_status(&svg, "flags", "china"), 0);
}

#[test]
pub fn france() {
    let mut svg = Svg::new(d(900, 0), "px", d(600, 0), "px", "0 0 900 600", "france");
    svg.start()
        .rect()
        .width(d(300, 0), "px")
        .height(d(600, 0), "px")
        .fill("#fff")
        .x(d(300, 0), "px")
        .close()
        .rect()
        .width(d(300, 0), "px")
        .height(d(600, 0), "px")
        .fill("#ed2939")
        .x(d(600, 0), "px")
        .close()
        .rect()
        .width(d(300, 0), "px")
        .height(d(600, 0), "px")
        .fill("#002395")
        .close()
        .end();
    let expected = format!(
        "{SVG_HEAD} width=\"900px\" height=\"600px\" viewBox=\"0 0 900 600\" role=\"img\" id=\"france\">\
         <rect width=\"300px\" height=\"600px\" fill=\"#fff\" x=\"300px\" />\
         <rect width=\"300px\" height=\"600px\" fill=\"#ed2939\" x=\"600px\" />\
         <rect width=\"300px\" height=\"600px\" fill=\"#002395\" />\
         </svg>"
    );
    assert_eq!(svg.contents(), expected);
    assert_eq!(saved_status(&svg, "flags", "france"), 0);
}

#[test]
pub fn italy() {
    let mut svg = Svg::new(d(900, 0), "px", d(600, 0), "px", "0 0 900 600", "italy");
    svg.start()
        .rect()
        .width(d(300, 0), "px")
        .height(d(600, 0), "px")
        .fill("#F1F2F1")
        .x(d(300, 0), "px")
        .close()
        .rect()
        .width(d(300, 0), "px")
        .height(d(600, 0), "px")
        .fill("#ce2b37")
        .x(d(600, 0), "px")
        .close()
        .rect()
        .width(d(300, 0), "px")
        .height(d(600, 0), "px")
        .fill("#009246")
        .close()
        .end();
    let text = svg.contents();
    assert_eq!(count(text, "<rect "), 3);
    assert!(in_order(
        text,
        &[
            "id=\"italy\">",
            "<rect width=\"300px\" height=\"600px\" fill=\"#F1F2F1\" x=\"300px\" />",
            "<rect width=\"300px\" height=\"600px\" fill=\"#ce2b37\" x=\"600px\" />",
            "<rect width=\"300px\" height=\"600px\" fill=\"#009246\" />",
            "</svg>",
        ]
    ));
    assert!(text.ends_with("</svg>"));
    assert_eq!(saved_status(&svg, "flags", "italy"), 0);
}

#[test]
pub fn algeria() {
    let mut svg = Svg::new(d(900, 0), "px", d(600, 0), "px", "0 0 900 600", "algeria");
    svg.start()
        .path().fill("#fff").d("M0 0h900v600H0z").close()
        .path().fill("#063").d("M0 0h450v600H0z").close()
        .path().fill("#d21034").d("M579.903811 225a150 150 0 1 0 0 150 120 120 0 1 1 0-150M585.676275 300 450 255.916106 533.852549 371.329239v-142.658277L450 344.083894z").close()
        .end();
    let text = svg.contents();
    assert!(in_order(
        text,
        &[
            "<path fill=\"#fff\" d=\"M0 0h900v600H0z\" />",
            "<path fill=\"#063\" d=\"M0 0h450v600H0z\" />",
            "<path fill=\"#d21034\" d=\"M579.903811 225a150 150 0 1 0 0 150 120 120 0 1 1 0-150M585.676275 300 450 255.916106 533.852549 371.329239v-142.658277L450 344.083894z\" />",
            "</svg>",
        ]
    ));
    assert_eq!(saved_status(&svg, "flags", "algeria"), 0);
}

#[test]
pub fn morocco() {
    let mut svg = Svg::new(d(900, 0), "px", d(600, 0), "px", "0 0 900 600", "morocco");
    svg.start()
        .path()
        .fill("#c1272d")
        .d("m0 0h90000v60000H0z")
        .close()
        .path()
        .fill("none")
        .d("m45000 17308 7460 22960-19531-14190h24142L37540 40268z")
        .stroke("#006233")
        .stroke_width(d(1426, 0), "px")
        .close()
        .end();
    let text = svg.contents();
    assert!(in_order(
        text,
        &[
            "<path fill=\"#c1272d\" d=\"m0 0h90000v60000H0z\" />",
            "<path fill=\"none\" d=\"m45000 17308 7460 22960-19531-14190h24142L37540 40268z\" stroke=\"#006233\" stroke-width=\"1426px\" />",
            "</svg>",
        ]
    ));
    assert_eq!(saved_status(&svg, "flags", "morocco"), 0);
}

#[test]
pub fn greece() {
    let mut svg = Svg::new(d(900, 0), "px", d(600, 0), "px", "0 0 900 600", "greece");
    svg.start()
        .rect()
        .width(d(27, 0), "px")
        .height(d(18, 0), "px")
        .fill("#0D5EAF")
        .close()
        .path()
        .fill("none")
        .d("M5,0V11 M0,5H10 M10,3H27 M10,7H27 M0,11H27 M0,15H27")
        .stroke("#fff")
        .stroke_width(d(2, 0), "px")
        .close()
        .end();
    let text = svg.contents();
    assert!(in_order(
        text,
        &[
            "<rect width=\"27px\" height=\"18px\" fill=\"#0D5EAF\" />",
            "<path fill=\"none\" d=\"M5,0V11 M0,5H10 M10,3H27 M10,7H27 M0,11H27 M0,15H27\" stroke=\"#fff\" stroke-width=\"2px\" />",
            "</svg>",
        ]
    ));
    assert_eq!(saved_status(&svg, "flags", "greece"), 0);
}

#[test]
pub fn arch() {
    let mut svg = Svg::new(d(512, 0), "px", d(512, 0), "px", "0 0 512 512", "arch");
    svg.start()
        .rect()
        .width(d(512, 0), "px")
        .height(d(512, 0), "px")
        .fill("#fff")
        .rx(d(15, 0), "px").close()
        .a()
        .href("https://archlinux.org")
        .target("_blank")
        .close_tag()
        .title("The arch distro")
        .path().fill("none").d("M5,0V11 M0,5H10 M10,3H27 M10,7H27 M0,11H27 M0,15H27").stroke("#fff").stroke_width(d(2, 0), "px").close()
        .path().fill("#1793d1").d("M256 72c-14 35-23 57-39 91 10 11 22 23 41 36-21-8-35-17-45-26-21 43-53 103-117 220 50-30 90-48 127-55-2-7-3-14-3-22v-1c1-33 18-58 38-56 20 1 36 29 35 62l-2 17c36 7 75 26 125 54l-27-50c-13-10-27-23-55-38 19 5 33 11 44 17-86-159-93-180-122-250z")
        .close()
        .close_a()
        .end();
    let text = svg.contents();
    assert!(in_order(
        text,
        &[
            "<rect width=\"512px\" height=\"512px\" fill=\"#fff\" rx=\"15px\" />",
            "<a href=\"https://archlinux.org\" target=\"_blank\" >",
            "<title>The arch distro</title>",
            "stroke-width=\"2px\" />",
            "<path fill=\"#1793d1\" d=\"M256 72c",
            "-122-250z\" />",
            "</a>",
            "</svg>",
        ]
    ));
    assert_eq!(saved_status(&svg, "distros", "arch"), 0);
}

#[test]
pub fn fedora() {
    let mut svg = Svg::new(d(267, 0), "px", d(267, 0), "px", "0 0 267 267", "fedora");
    svg.start()
        .path()
        .d("M 266.62575,133.50613 C 266.62575,59.98128 207.02222,0.37583 133.49792,0.37583 C 60.00668,0.37583 0.42639,59.93123 0.37425,133.41225 L 0.37425,236.4333 C 0.4138,253.11763 13.94545,266.62417 30.64027,266.62417 L 133.55192,266.62417 C 207.05167,266.59532 266.62575,207.01142 266.62575,133.50613")
        .id("voice")
        .fill("#294172")
        .close()
        .path()
        .d("M 77.126289,142.09756 C 77.126289,142.09756 124.97104,142.09756 124.97104,142.09756 C 124.97104,142.09756 124.97104,189.94234 124.97104,189.94234 C 124.97104,216.35263 103.53659,237.78707 77.126289,237.78707 C 50.715979,237.78707 29.28153,216.35263 29.28153,189.94234 C 29.28153,163.53203 50.715979,142.09756 77.126289,142.09756")
        .id("in")
        .fill("none")
        .stroke("#3c6eb4")
        .stroke_width(d(2921, 2), "px")
        .close()
        .u()
        .transform("matrix(-1,0,0,-1,249.71151,284.2882)")
        .id("finity")
        .link("#in")
        .close()
        .path()
        .d("M 139.6074,127.52923 L 139.6074,189.87541 C 139.6074,224.37943 111.63203,252.35541 77.12679,252.35541 C 71.89185,252.35541 68.1703,251.7644 63.32444,250.49771 C 56.25849,248.64859 50.48398,242.85518 50.48158,236.1166 C 50.48158,227.97147 56.39394,222.0467 65.23187,222.0467 C 69.43824,222.0467 70.96454,222.85435 77.12679,222.85435 C 95.3184,222.85435 110.07443,208.11916 110.10634,189.92756 L 110.10634,161.27099 C 110.10634,158.70324 108.01971,156.62274 105.44767,156.62274 L 83.78246,156.61846 C 75.71034,156.61846 69.18845,150.18003 69.18845,142.0858 C 69.18414,133.94124 75.77725,127.52923 83.93653,127.52923")
        .id("free")
        .fill("#fff")
        .close()
        .u()
        .transform("matrix(-1,0,0,-1,249.71152,284.28821)")
        .id("dom")
        .link("#free")
        .close()
        .path()
        .d("M 243.65456,243.58425 C 243.65456,243.58425 243.6546,238.05286 243.6546,238.05286 L 241.12607,243.85062 C 241.12607,243.85062 238.66466,238.05286 238.66466,238.05286 L 238.66513,243.58425 L 237.24683,243.58425 L 237.24683,234.84933 L 238.73387,234.84933 C 238.73387,234.84933 241.16784,240.42984 241.16784,240.42984 L 243.56495,234.84933 L 245.07039,234.84933 L 245.07039,243.58425 L 243.65456,243.58425 z M 233.32154,236.31241 L 233.32154,243.58425 L 231.83941,243.58425 L 231.83941,236.31241 L 229.35453,236.31241 L 229.35453,234.84933 L 235.80399,234.84933 L 235.80399,236.31241")
        .id("TM")
        .fill("#3c6eb4")
        .close()
        .end();
    let text = svg.contents();
    assert_eq!(count(text, "<path "), 4);
    assert_eq!(count(text, "<use "), 2);
    assert!(in_order(
        text,
        &[
            "id=\"voice\" fill=\"#294172\" />",
            "id=\"in\" fill=\"none\" stroke=\"#3c6eb4\" stroke-width=\"29.21px\" />",
            "<use transform=\"matrix(-1,0,0,-1,249.71151,284.2882)\" id=\"finity\" xlink:href=\"#in\" />",
            "id=\"free\" fill=\"#fff\" />",
            "<use transform=\"matrix(-1,0,0,-1,249.71152,284.28821)\" id=\"dom\" xlink:href=\"#free\" />",
            "id=\"TM\" fill=\"#3c6eb4\" />",
            "</svg>",
        ]
    ));
    assert_eq!(saved_status(&svg, "distros", "fedora"), 0);
}

#[test]
pub fn animate() {
    let mut svg = Svg::new(d(10, 0), "px", d(10, 0), "px", "0 0 10 10", "rec");
    svg.start()
        .rect()
        .width(d(10, 0), "px")
        .height(d(10, 0), "px")
        .close_tag()
        .animate()
        .attribute_name("rx")
        .values("0;5;0")
        .dur("10s")
        .repeat_count("indefinite")
        .close()
        .close_rect()
        .end();
    let expected = format!(
        "{SVG_HEAD} width=\"10px\" height=\"10px\" viewBox=\"0 0 10 10\" role=\"img\" id=\"rec\">\
         <rect width=\"10px\" height=\"10px\" >\
         <animate attributeName=\"rx\" values=\"0;5;0\" dur=\"10s\" repeatCount=\"indefinite\" />\
         </rect></svg>"
    );
    assert_eq!(svg.contents(), expected);
    assert_eq!(saved_status(&svg, "animates", "rectangle"), 0);
}

#[test]
pub fn ellipse() {
    let mut svg = Svg::new(d(200, 0), "px", d(100, 0), "px", "0 0 200 100", "ellipse");
    svg.start()
        .ellipse()
        .cx(d(100, 0), "px")
        .cy(d(50, 0), "px")
        .rx(d(100, 0), "px")
        .ry(d(50, 0), "px")
        .close()
        .end();
    let expected = format!(
        "{SVG_HEAD} width=\"200px\" height=\"100px\" viewBox=\"0 0 200 100\" role=\"img\" id=\"ellipse\">\
         <ellipse cx=\"100px\" cy=\"50px\" rx=\"100px\" ry=\"50px\" />\
         </svg>"
    );
    assert_eq!(svg.contents(), expected);
    assert_eq!(saved_status(&svg, "animates", "ellipse"), SAVE_OK);
}

#[test]
pub fn zuu() {
    assert_eq!(image_file_name("https://simpleicons.org/icons/grunt.svg"), "grunt.svg");
    let mut svg = Svg::new(d(10, 0), "px", d(10, 0), "px", "0 0 10 10", "zuu");
    svg.start()
        .embedded_image("Z3J1bnQ=")
        .width(d(14, 0), "px")
        .height(d(14, 0), "px")
        .close()
        .text()
        .x(d(49526276, 5), "px")
        .y(d(175, 0), "px")
        .transform("scale(0.1)")
        .fill("#222")
        .close_tag()
        .content("CLIPPY")
        .close_text()
        .text()
        .x(d(12313833, 4), "px")
        .y(d(175, 0), "px")
        .transform("scale(0.1)")
        .fill("#222")
        .close_tag()
        .content("SUCCESS")
        .close_text()
        .end();
    let text = svg.contents();
    assert!(in_order(
        text,
        &[
            "<image xlink:href=\"data:image/svg+xml;base64,Z3J1bnQ=\" width=\"14px\" height=\"14px\" />",
            "<text x=\"495.26276px\" y=\"175px\" transform=\"scale(0.1)\" fill=\"#222\" >CLIPPY</text>",
            "<text x=\"1231.3833px\" y=\"175px\" transform=\"scale(0.1)\" fill=\"#222\" >SUCCESS</text>",
            "</svg>",
        ]
    ));
    assert_eq!(saved_status(&svg, "graphics", "zuu"), 0);
}

#[test]
fn badge_failure_uses_failure_text_and_red() {
    let svg = Svg::badge_document(false, "clippy", "failed", "success", "aWNvbg==");
    let text = svg.contents();
    assert!(text.contains("fill=\"#ff0000\" "));
    assert!(!text.contains("#00ff00"));
    assert!(in_order(text, &[">clippy</text>", ">failed</text>"]));
    assert!(!text.contains("success"));
    assert!(in_order(
        text,
        &[
            "<g shape-rendering=\"crispEdges\" ><rect width=\"82.05px\" height=\"28px\" fill=\"#222\" ></rect>",
            "x=\"9px\" y=\"7px\" width=\"14px\" height=\"14px\" />",
            "</g><g text-anchor=\"middle\" text-rendering=\"geometricPrecision\" font-size=\"100px\" >",
            "<rect x=\"82.05px\" width=\"82.1716px\" height=\"100px\" fill=\"#ff0000\" ></rect>",
            "fill=\"#fff\" textLength=\"410.5255px\" >clippy",
            "font-weight=\"bold\" fill=\"#fff\" textLength=\"581.71564px\" >failed",
        ]
    ));
}

#[test]
fn unbalanced_tags_fail_the_check() {
    let mut svg = Svg::new(d(10, 0), "px", d(10, 0), "px", "0 0 10 10", "broken");
    svg.start().g().close_tag().rect().width(d(10, 0), "px").close().end();
    assert!(!balanced(svg.contents()));
    assert_eq!(saved_status(&svg, "flags", "broken"), 1);
}

use vstd::prelude::*;
use crate::decimal::{Decimal, DecimalView};
use crate::svg::{attr_text, measure_text, Svg, SvgView};

verus! {

/// A length in pixels, `mantissa / 10^scale` px.
pub open spec fn px(mantissa: int, scale: nat) -> Seq<char> {
    measure_text(DecimalView { mantissa, scale }, "px"@)
}

/// The empty badge canvas: 164 by 28 pixels, identified by the label.
pub open spec fn badge_canvas(label: Seq<char>) -> SvgView {
    SvgView {
        text: Seq::empty(),
        width: DecimalView { mantissa: 164, scale: 0 },
        width_unit: "px"@,
        height: DecimalView { mantissa: 28, scale: 0 },
        height_unit: "px"@,
        view_box: "0 0 164 28"@,
        id: label,
    }
}

/// The left cell of a badge: a dark background holding the icon.
pub open spec fn badge_label_cell(icon: Seq<char>) -> Seq<char> {
    "<g "@ + attr_text("shape-rendering"@, "crispEdges"@) + ">"@ + "<rect "@ + attr_text(
        "width"@,
        px(8205, 2),
    ) + attr_text("height"@, px(28, 0)) + attr_text("fill"@, "#222"@) + ">"@ + "</rect>"@
        + "<image xlink:href=\"data:image/svg+xml;base64,"@ + icon + "\" "@ + attr_text(
        "x"@,
        px(9, 0),
    ) + attr_text("y"@, px(7, 0)) + attr_text("width"@, px(14, 0)) + attr_text(
        "height"@,
        px(14, 0),
    ) + "/>"@ + "</g>"@
}

/// The opening of the right cell: a group carrying the text settings of the
/// captions, then the coloured background, green when `passed` holds and red
/// otherwise.
pub open spec fn badge_status_background(passed: bool) -> Seq<char> {
    "<g "@ + attr_text("text-anchor"@, "middle"@) + attr_text(
        "text-rendering"@,
        "geometricPrecision"@,
    ) + attr_text("font-size"@, px(100, 0)) + ">"@ + "<rect "@ + attr_text("x"@, px(8205, 2))
        + attr_text("width"@, px(821716, 4)) + attr_text("height"@, px(100, 0)) + attr_text(
        "fill"@,
        if passed {
            "#00ff00"@
        } else {
            "#ff0000"@
        },
    ) + ">"@ + "</rect>"@
}

/// The caption that repeats the label, in white.
pub open spec fn badge_label_caption(label: Seq<char>) -> Seq<char> {
    "<text "@ + attr_text("x"@, px(49526276, 5)) + attr_text("y"@, px(175, 0)) + attr_text(
        "transform"@,
        "scale(0.1)"@,
    ) + attr_text("fill"@, "#fff"@) + attr_text("textLength"@, px(4105255, 4)) + ">"@ + label
        + "</text>"@
}

/// The caption that gives the outcome, in bold white.
pub open spec fn badge_status_caption(status: Seq<char>) -> Seq<char> {
    "<text "@ + attr_text("x"@, px(12313833, 4)) + attr_text("y"@, px(175, 0)) + attr_text(
        "transform"@,
        "scale(0.1)"@,
    ) + attr_text("font-weight"@, "bold"@) + attr_text("fill"@, "#fff"@) + attr_text(
        "textLength"@,
        px(58171564, 5),
    ) + ">"@ + status + "</text>"@
}

/// The whole text of a badge document.
pub open spec fn badge_text(
    passed: bool,
    label: Seq<char>,
    failure: Seq<char>,
    success: Seq<char>,
    icon: Seq<char>,
) -> Seq<char> {
    badge_canvas(label).start_text() + badge_label_cell(icon) + badge_status_background(passed)
        + badge_label_caption(label) + badge_status_caption(
        if passed {
            success
        } else {
            failure
        },
    ) + "</g>"@ + "</svg>"@
}

impl Svg {
    fn write_badge_label_cell(&mut self, icon: &str)
        ensures
            final(self)@ == old(self)@.appended(badge_label_cell(icon@)),
    {
        self.g().shape_rendering("crispEdges").close_tag().rect().width(
            Decimal::new(8205, 2),
            "px",
        ).height(Decimal::new(28, 0), "px").fill("#222").close_tag().close_rect().embedded_image(
            icon,
        ).x(Decimal::new(9, 0), "px").y(Decimal::new(7, 0), "px").width(
            Decimal::new(14, 0),
            "px",
        ).height(Decimal::new(14, 0), "px").close().close_group();
        proof {
            assert(self@.text =~= old(self)@.text + badge_label_cell(icon@));
        }
    }

    fn write_badge_status_background(&mut self, passed: bool)
        ensures
            final(self)@ == old(self)@.appended(badge_status_background(passed)),
    {
        let background = if passed {
            "#00ff00"
        } else {
            "#ff0000"
        };
        self.g().text_anchor("middle").text_rendering("geometricPrecision").font_size(
            Decimal::new(100, 0),
            "px",
        ).close_tag().rect().x(Decimal::new(8205, 2), "px").width(
            Decimal::new(821716, 4),
            "px",
        ).height(Decimal::new(100, 0), "px").fill(background).close_tag().close_rect();
        proof {
            assert(self@.text =~= old(self)@.text + badge_status_background(passed));
        }
    }

    fn write_badge_label_caption(&mut self, label: &str)
        ensures
            final(self)@ == old(self)@.appended(badge_label_caption(label@)),
    {
        self.text().x(Decimal::new(49526276, 5), "px").y(Decimal::new(175, 0), "px").transform(
            "scale(0.1)",
        ).fill("#fff").text_length(Decimal::new(4105255, 4), "px").close_tag().content(
            label,
        ).close_text();
        proof {
            assert(self@.text =~= old(self)@.text + badge_label_caption(label@));
        }
    }

    fn write_badge_status_caption(&mut self, status: &str)
        ensures
            final(self)@ == old(self)@.appended(badge_status_caption(status@)),
    {
        self.text().x(Decimal::new(12313833, 4), "px").y(Decimal::new(175, 0), "px").transform(
            "scale(0.1)",
        ).font_weight("bold").fill("#fff").text_length(
            Decimal::new(58171564, 5),
            "px",
        ).close_tag().content(status).close_text();
        proof {
            assert(self@.text =~= old(self)@.text + badge_status_caption(status@));
        }
    }

    /// A complete two-cell status badge: the icon on a dark cell, then the
    /// label and the outcome text on a green cell when `passed` holds (with
    /// the `success` text) or a red one otherwise (with the `failure` text).
    /// `icon` is the base64 text of the icon, an SVG file.
    pub fn badge_document(
        passed: bool,
        label: &str,
        failure: &str,
        success: &str,
        icon: &str,
    ) -> (r: Svg)
        ensures
            r@ == badge_canvas(label@).appended(
                badge_text(passed, label@, failure@, success@, icon@),
            ),
    {
        let mut svg = Svg::new(
            Decimal::new(164, 0),
            "px",
            Decimal::new(28, 0),
            "px",
            "0 0 164 28",
            label,
        );
        let status = if passed {
            success
        } else {
            failure
        };
        svg.start();
        svg.write_badge_label_cell(icon);
        svg.write_badge_status_background(passed);
        svg.write_badge_label_caption(label);
        svg.write_badge_status_caption(status);
        svg.close_group().end();
        proof {
            assert(svg@.text =~= badge_text(passed, label@, failure@, success@, icon@));
        }
        svg
    }
}

} // verus!

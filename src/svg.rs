use vstd::prelude::*;
use vstd::string::StringExecFns;
use crate::decimal::{Decimal, DecimalView};

verus! {

/// An attribute as written in an element's attribute list: its name and its value.
pub type Attribute = (Seq<char>, Seq<char>);

/// What an attribute setter writes: `name="value" `, the value copied verbatim
/// between double quotes and followed by one space.
pub open spec fn attr_text(name: Seq<char>, value: Seq<char>) -> Seq<char> {
    name + seq!['=', '"'] + value + seq!['"', ' ']
}

/// The value of a numeric attribute: the number in fixed-point form with the
/// unit written right after it.
pub open spec fn measure_text(n: DecimalView, unit: Seq<char>) -> Seq<char> {
    n.text() + unit
}

/// One attribute of the root tag: ` name="value"`.
pub open spec fn root_attr_text(a: Attribute) -> Seq<char> {
    seq![' '] + a.0 + seq!['=', '"'] + a.1 + seq!['"']
}

/// An attribute list of the root tag, in order.
pub open spec fn attrs_text(attrs: Seq<Attribute>) -> Seq<char>
    decreases attrs.len(),
{
    if attrs.len() == 0 {
        Seq::empty()
    } else {
        attrs_text(attrs.drop_last()) + root_attr_text(attrs.last())
    }
}

/// The document as the builder sees it: the text written so far and the
/// settings the root tag is made from.
pub struct SvgView {
    pub text: Seq<char>,
    pub width: DecimalView,
    pub width_unit: Seq<char>,
    pub height: DecimalView,
    pub height_unit: Seq<char>,
    pub view_box: Seq<char>,
    pub id: Seq<char>,
}

impl SvgView {
    /// The same document with `frag` written at the end of its text.
    pub open spec fn appended(self, frag: Seq<char>) -> SvgView {
        SvgView { text: self.text + frag, ..self }
    }

    /// The attributes of the root `<svg>` tag, in the order they are written.
    /// The `viewBox` attribute is left out when the view box is empty.
    pub open spec fn root_attributes(self) -> Seq<Attribute> {
        seq![
            ("xmlns"@, "http://www.w3.org/2000/svg"@),
            ("xmlns:xlink"@, "http://www.w3.org/1999/xlink"@),
            ("width"@, measure_text(self.width, self.width_unit)),
            ("height"@, measure_text(self.height, self.height_unit)),
        ] + (if self.view_box.len() == 0 {
            Seq::empty()
        } else {
            seq![("viewBox"@, self.view_box)]
        }) + seq![("role"@, "img"@), ("id"@, self.id)]
    }

    /// What `start` writes: the XML declaration and the root tag.
    pub open spec fn start_text(self) -> Seq<char> {
        "<?xml version=\"1.0\"?>\n"@ + "<svg"@ + attrs_text(self.root_attributes()) + seq!['>']
    }
}

proof fn lemma_attrs_text_push(attrs: Seq<Attribute>, a: Attribute)
    ensures
        attrs_text(attrs.push(a)) == attrs_text(attrs) + root_attr_text(a),
{
    assert(attrs.push(a).drop_last() =~= attrs);
}

/// An SVG document under construction. Every operation appends one fragment
/// of markup to the document's text, in call order, and hands the document
/// back so that calls can be chained.
pub struct Svg {
    svg: String,
    view_box: String,
    width: Decimal,
    height: Decimal,
    width_unit: String,
    height_unit: String,
    id: String,
}

impl View for Svg {
    type V = SvgView;

    closed spec fn view(&self) -> SvgView {
        SvgView {
            text: self.svg@,
            width: self.width@,
            width_unit: self.width_unit@,
            height: self.height@,
            height_unit: self.height_unit@,
            view_box: self.view_box@,
            id: self.id@,
        }
    }
}

fn push_attr(out: &mut String, name: &str, value: &str)
    ensures
        final(out)@ == old(out)@ + attr_text(name@, value@),
{
    out.append(name);
    out.append("=\"");
    out.append(value);
    out.append("\" ");
    proof {
        reveal_strlit("=\"");
        reveal_strlit("\" ");
        assert(final(out)@ =~= old(out)@ + attr_text(name@, value@));
    }
}

fn push_number(out: &mut String, name: &str, n: Decimal)
    ensures
        final(out)@ == old(out)@ + attr_text(name@, n@.text()),
{
    out.append(name);
    out.append("=\"");
    n.write_to(out);
    out.append("\" ");
    proof {
        reveal_strlit("=\"");
        reveal_strlit("\" ");
        assert(final(out)@ =~= old(out)@ + attr_text(name@, n@.text()));
    }
}

fn push_measure(out: &mut String, name: &str, n: Decimal, unit: &str)
    ensures
        final(out)@ == old(out)@ + attr_text(name@, measure_text(n@, unit@)),
{
    out.append(name);
    out.append("=\"");
    n.write_to(out);
    out.append(unit);
    out.append("\" ");
    proof {
        reveal_strlit("=\"");
        reveal_strlit("\" ");
        assert(final(out)@ =~= old(out)@ + attr_text(name@, measure_text(n@, unit@)));
    }
}

fn push_root_attr(out: &mut String, name: &str, value: &str)
    ensures
        final(out)@ == old(out)@ + root_attr_text((name@, value@)),
{
    out.append(" ");
    out.append(name);
    out.append("=\"");
    out.append(value);
    out.append("\"");
    proof {
        reveal_strlit(" ");
        reveal_strlit("=\"");
        reveal_strlit("\"");
        assert(final(out)@ =~= old(out)@ + root_attr_text((name@, value@)));
    }
}

fn push_root_measure(out: &mut String, name: &str, n: Decimal, unit: &str)
    ensures
        final(out)@ == old(out)@ + root_attr_text((name@, measure_text(n@, unit@))),
{
    out.append(" ");
    out.append(name);
    out.append("=\"");
    n.write_to(out);
    out.append(unit);
    out.append("\"");
    proof {
        reveal_strlit(" ");
        reveal_strlit("=\"");
        reveal_strlit("\"");
        assert(final(out)@ =~= old(out)@ + root_attr_text((name@, measure_text(n@, unit@))));
    }
}

impl Svg {
    /// A new, empty document whose root tag will carry the given size,
    /// view box and id. An empty `view` leaves the `viewBox` attribute out.
    pub fn new(
        width: Decimal,
        width_unit: &str,
        height: Decimal,
        height_unit: &str,
        view: &str,
        id: &str,
    ) -> (r: Self)
        ensures
            r@ == (SvgView {
                text: Seq::empty(),
                width: width@,
                width_unit: width_unit@,
                height: height@,
                height_unit: height_unit@,
                view_box: view@,
                id: id@,
            }),
    {
        let r = Svg {
            svg: String::new(),
            view_box: String::from_str(view),
            width,
            height,
            width_unit: String::from_str(width_unit),
            height_unit: String::from_str(height_unit),
            id: String::from_str(id),
        };
        proof {
            assert(r@.text =~= Seq::empty());
        }
        r
    }

    /// The text written so far.
    pub fn contents(&self) -> (r: &str)
        ensures
            r@ == self@.text,
    {
        self.svg.as_str()
    }

    /// Writes the XML declaration and the opening root tag, with the namespace
    /// declarations, the size, the view box when it is not empty, and the id.
    pub fn start(&mut self) -> (r: &mut Self)
        ensures
            r@ == old(self)@.appended(old(self)@.start_text()),
            *final(self) == *final(r),
    {
        let ghost attrs = old(self)@.root_attributes();
        let ghost mut done: Seq<Attribute> = Seq::empty();
        self.svg.append("<?xml version=\"1.0\"?>\n");
        self.svg.append("<svg");
        let ghost head = self.svg@;
        push_root_attr(&mut self.svg, "xmlns", "http://www.w3.org/2000/svg");
        proof {
            lemma_attrs_text_push(done, attrs[0]);
            done = done.push(attrs[0]);
        }
        push_root_attr(&mut self.svg, "xmlns:xlink", "http://www.w3.org/1999/xlink");
        proof {
            lemma_attrs_text_push(done, attrs[1]);
            done = done.push(attrs[1]);
        }
        push_root_measure(&mut self.svg, "width", self.width, self.width_unit.as_str());
        proof {
            lemma_attrs_text_push(done, attrs[2]);
            done = done.push(attrs[2]);
        }
        push_root_measure(&mut self.svg, "height", self.height, self.height_unit.as_str());
        proof {
            lemma_attrs_text_push(done, attrs[3]);
            done = done.push(attrs[3]);
        }
        if !self.view_box.as_str().is_empty() {
            push_root_attr(&mut self.svg, "viewBox", self.view_box.as_str());
            proof {
                lemma_attrs_text_push(done, attrs[4]);
                done = done.push(attrs[4]);
            }
        }
        push_root_attr(&mut self.svg, "role", "img");
        proof {
            lemma_attrs_text_push(done, attrs[done.len() as int]);
            done = done.push(attrs[done.len() as int]);
        }
        push_root_attr(&mut self.svg, "id", self.id.as_str());
        proof {
            lemma_attrs_text_push(done, attrs[done.len() as int]);
            done = done.push(attrs[done.len() as int]);
            assert(done =~= attrs);
            assert(self.svg@ == head + attrs_text(done));
        }
        self.svg.append(">");
        proof {
            reveal_strlit(">");
            assert(self.svg@ =~= old(self)@.text + old(self)@.start_text());
        }
        self
    }

    /// Opens an `<animate>` element. Its attributes, if any, follow.
    pub fn animate(&mut self) -> (r: &mut Self)
        ensures
            r@ == old(self)@.appended("<animate "@),
            *final(self) == *final(r),
    {
        self.svg.append("<animate ");
        self
    }

    /// Opens an `<feOffset>` filter primitive. Its attributes, if any, follow.
    pub fn fe_offset(&mut self) -> (r: &mut Self)
        ensures
            r@ == old(self)@.appended("<feOffset "@),
            *final(self) == *final(r),
    {
        self.svg.append("<feOffset ");
        self
    }

    /// Opens a `<circle>` element. Its attributes, if any, follow.
    pub fn circle(&mut self) -> (r: &mut Self)
        ensures
            r@ == old(self)@.appended("<circle "@),
            *final(self) == *final(r),
    {
        self.svg.append("<circle ");
        self
    }

    /// Opens a `<g>` group. Its attributes, if any, follow.
    pub fn g(&mut self) -> (r: &mut Self)
        ensures
            r@ == old(self)@.appended("<g "@),
            *final(self) == *final(r),
    {
        self.svg.append("<g ");
        self
    }

    /// Opens a `<g>` group without attributes; its children follow directly.
    pub fn group(&mut self) -> (r: &mut Self)
        ensures
            r@ == old(self)@.appended("<g>"@),
            *final(self) == *final(r),
    {
        self.svg.append("<g>");
        self
    }

    /// Opens an `<a>` link. Its attributes, if any, follow.
    pub fn a(&mut self) -> (r: &mut Self)
        ensures
            r@ == old(self)@.appended("<a "@),
            *final(self) == *final(r),
    {
        self.svg.append("<a ");
        self
    }

    /// Opens a `<text>` element. Its attributes, if any, follow.
    pub fn text(&mut self) -> (r: &mut Self)
        ensures
            r@ == old(self)@.appended("<text "@),
            *final(self) == *final(r),
    {
        self.svg.append("<text ");
        self
    }

    /// Opens an `<ellipse>` element. Its attributes, if any, follow.
    pub fn ellipse(&mut self) -> (r: &mut Self)
        ensures
            r@ == old(self)@.appended("<ellipse "@),
            *final(self) == *final(r),
    {
        self.svg.append("<ellipse ");
        self
    }

    /// Opens an XHTML `<div>` (for use inside a foreign object), with its
    /// namespace declared. Its attributes, if any, follow.
    pub fn div(&mut self) -> (r: &mut Self)
        ensures
            r@ == old(self)@.appended("<div xmlns=\"http://www.w3.org/1999/xhtml\"  "@),
            *final(self) == *final(r),
    {
        self.svg.append("<div xmlns=\"http://www.w3.org/1999/xhtml\"  ");
        self
    }

    /// Opens a `<foreignObject>` element. Its attributes, if any, follow.
    pub fn foreign_object(&mut self) -> (r: &mut Self)
        ensures
            r@ == old(self)@.appended("<foreignObject "@),
            *final(self) == *final(r),
    {
        self.svg.append("<foreignObject ");
        self
    }

    /// Opens a `<tspan>` element. Its attributes, if any, follow.
    pub fn tspan(&mut self) -> (r: &mut Self)
        ensures
            r@ == old(self)@.appended("<tspan "@),
            *final(self) == *final(r),
    {
        self.svg.append("<tspan ");
        self
    }

    /// Opens an `<feMorphology>` filter primitive. Its attributes, if any, follow.
    pub fn fe_morphology(&mut self) -> (r: &mut Self)
        ensures
            r@ == old(self)@.appended("<feMorphology "@),
            *final(self) == *final(r),
    {
        self.svg.append("<feMorphology ");
        self
    }

    /// Opens an `<feConvolveMatrix>` filter primitive. Its attributes, if any, follow.
    pub fn fe_convolve_matrix(&mut self) -> (r: &mut Self)
        ensures
            r@ == old(self)@.appended("<feConvolveMatrix "@),
            *final(self) == *final(r),
    {
        self.svg.append("<feConvolveMatrix ");
        self
    }

    /// Opens an `<feBlend>` filter primitive. Its attributes, if any, follow.
    pub fn fe_blend(&mut self) -> (r: &mut Self)
        ensures
            r@ == old(self)@.appended("<feBlend "@),
            *final(self) == *final(r),
    {
        self.svg.append("<feBlend ");
        self
    }

    /// Opens an `<feColorMatrix>` filter primitive. Its attributes, if any, follow.
    pub fn fe_color_matrix(&mut self) -> (r: &mut Self)
        ensures
            r@ == old(self)@.appended("<feColorMatrix "@),
            *final(self) == *final(r),
    {
        self.svg.append("<feColorMatrix ");
        self
    }

    /// Opens a `<span>` element. Its attributes, if any, follow.
    pub fn span(&mut self) -> (r: &mut Self)
        ensures
            r@ == old(self)@.appended("<span "@),
            *final(self) == *final(r),
    {
        self.svg.append("<span ");
        self
    }

    /// Opens a `<switch>` element. Its attributes, if any, follow.
    pub fn switch(&mut self) -> (r: &mut Self)
        ensures
            r@ == old(self)@.appended("<switch "@),
            *final(self) == *final(r),
    {
        self.svg.append("<switch ");
        self
    }

    /// Opens a `<defs>` block. Its attributes, if any, follow.
    pub fn defs(&mut self) -> (r: &mut Self)
        ensures
            r@ == old(self)@.appended("<defs "@),
            *final(self) == *final(r),
    {
        self.svg.append("<defs ");
        self
    }

    /// Opens a `<use>` element. Its attributes, if any, follow.
    pub fn u(&mut self) -> (r: &mut Self)
        ensures
            r@ == old(self)@.appended("<use "@),
            *final(self) == *final(r),
    {
        self.svg.append("<use ");
        self
    }

    /// Opens a `<path>` element. Its attributes, if any, follow.
    pub fn path(&mut self) -> (r: &mut Self)
        ensures
            r@ == old(self)@.appended("<path "@),
            *final(self) == *final(r),
    {
        self.svg.append("<path ");
        self
    }

    /// Opens a `<rect>` element. Its attributes, if any, follow.
    pub fn rect(&mut self) -> (r: &mut Self)
        ensures
            r@ == old(self)@.appended("<rect "@),
            *final(self) == *final(r),
    {
        self.svg.append("<rect ");
        self
    }

    /// Writes the `</circle>` end tag.
    pub fn close_circle(&mut self) -> (r: &mut Self)
        ensures
            r@ == old(self)@.appended("</circle>"@),
            *final(self) == *final(r),
    {
        self.svg.append("</circle>");
        self
    }

    /// Closes the open start tag as an empty element: `/>`.
    pub fn close(&mut self) -> (r: &mut Self)
        ensures
            r@ == old(self)@.appended("/>"@),
            *final(self) == *final(r),
    {
        self.svg.append("/>");
        self
    }

    /// Writes the `</a>` end tag.
    pub fn close_a(&mut self) -> (r: &mut Self)
        ensures
            r@ == old(self)@.appended("</a>"@),
            *final(self) == *final(r),
    {
        self.svg.append("</a>");
        self
    }

    /// Writes the `</text>` end tag.
    pub fn close_text(&mut self) -> (r: &mut Self)
        ensures
            r@ == old(self)@.appended("</text>"@),
            *final(self) == *final(r),
    {
        self.svg.append("</text>");
        self
    }

    /// Writes the `</div>` end tag.
    pub fn close_div(&mut self) -> (r: &mut Self)
        ensures
            r@ == old(self)@.appended("</div>"@),
            *final(self) == *final(r),
    {
        self.svg.append("</div>");
        self
    }

    /// Writes the `</foreignObject>` end tag.
    pub fn close_foreign_object(&mut self) -> (r: &mut Self)
        ensures
            r@ == old(self)@.appended("</foreignObject>"@),
            *final(self) == *final(r),
    {
        self.svg.append("</foreignObject>");
        self
    }

    /// Ends the open start tag with `>`, so that children or text follow.
    pub fn close_tag(&mut self) -> (r: &mut Self)
        ensures
            r@ == old(self)@.appended(">"@),
            *final(self) == *final(r),
    {
        self.svg.append(">");
        self
    }

    /// Writes the `</tspan>` end tag.
    pub fn close_tspan(&mut self) -> (r: &mut Self)
        ensures
            r@ == old(self)@.appended("</tspan>"@),
            *final(self) == *final(r),
    {
        self.svg.append("</tspan>");
        self
    }

    /// Writes the `</span>` end tag.
    pub fn close_span(&mut self) -> (r: &mut Self)
        ensures
            r@ == old(self)@.appended("</span>"@),
            *final(self) == *final(r),
    {
        self.svg.append("</span>");
        self
    }

    /// Writes the `</switch>` end tag.
    pub fn close_switch(&mut self) -> (r: &mut Self)
        ensures
            r@ == old(self)@.appended("</switch>"@),
            *final(self) == *final(r),
    {
        self.svg.append("</switch>");
        self
    }

    /// Writes the `</rect>` end tag.
    pub fn close_rect(&mut self) -> (r: &mut Self)
        ensures
            r@ == old(self)@.appended("</rect>"@),
            *final(self) == *final(r),
    {
        self.svg.append("</rect>");
        self
    }

    /// Writes the `</g>` end tag.
    pub fn close_group(&mut self) -> (r: &mut Self)
        ensures
            r@ == old(self)@.appended("</g>"@),
            *final(self) == *final(r),
    {
        self.svg.append("</g>");
        self
    }

    /// Writes the `</defs>` end tag.
    pub fn close_deps(&mut self) -> (r: &mut Self)
        ensures
            r@ == old(self)@.appended("</defs>"@),
            *final(self) == *final(r),
    {
        self.svg.append("</defs>");
        self
    }

    /// Writes the `</svg>` end tag that closes the document.
    pub fn end(&mut self) -> (r: &mut Self)
        ensures
            r@ == old(self)@.appended("</svg>"@),
            *final(self) == *final(r),
    {
        self.svg.append("</svg>");
        self
    }

    /// Sets `values`, the list of animation values, copied verbatim.
    pub fn values(&mut self, value: &str) -> (r: &mut Self)
        ensures
            r@ == old(self)@.appended(attr_text("values"@, value@)),
            *final(self) == *final(r),
    {
        push_attr(&mut self.svg, "values", value);
        self
    }

    /// Sets `filter`, the filter applied to the element, copied verbatim.
    pub fn filter(&mut self, f: &str) -> (r: &mut Self)
        ensures
            r@ == old(self)@.appended(attr_text("filter"@, f@)),
            *final(self) == *final(r),
    {
        push_attr(&mut self.svg, "filter", f);
        self
    }

    /// Sets `result`, the name of a filter primitive's output, copied verbatim.
    pub fn result(&mut self, f: &str) -> (r: &mut Self)
        ensures
            r@ == old(self)@.appended(attr_text("result"@, f@)),
            *final(self) == *final(r),
    {
        push_attr(&mut self.svg, "result", f);
        self
    }

    /// Sets `in`, the first input of a filter primitive, copied verbatim.
    pub fn in1(&mut self, i: &str) -> (r: &mut Self)
        ensures
            r@ == old(self)@.appended(attr_text("in"@, i@)),
            *final(self) == *final(r),
    {
        push_attr(&mut self.svg, "in", i);
        self
    }

    /// Sets `in2`, the second input of a filter primitive, copied verbatim.
    pub fn in2(&mut self, i: &str) -> (r: &mut Self)
        ensures
            r@ == old(self)@.appended(attr_text("in2"@, i@)),
            *final(self) == *final(r),
    {
        push_attr(&mut self.svg, "in2", i);
        self
    }

    /// Sets `target`, where a link opens, copied verbatim.
    pub fn target(&mut self, target: &str) -> (r: &mut Self)
        ensures
            r@ == old(self)@.appended(attr_text("target"@, target@)),
            *final(self) == *final(r),
    {
        push_attr(&mut self.svg, "target", target);
        self
    }

    /// Sets `font-family`, the font family, copied verbatim.
    pub fn font_family(&mut self, family: &str) -> (r: &mut Self)
        ensures
            r@ == old(self)@.appended(attr_text("font-family"@, family@)),
            *final(self) == *final(r),
    {
        push_attr(&mut self.svg, "font-family", family);
        self
    }

    /// Sets `class`, the class names, copied verbatim.
    pub fn class(&mut self, class: &str) -> (r: &mut Self)
        ensures
            r@ == old(self)@.appended(attr_text("class"@, class@)),
            *final(self) == *final(r),
    {
        push_attr(&mut self.svg, "class", class);
        self
    }

    /// Sets `pointer-events`, when the element receives pointer events, copied verbatim.
    pub fn pointer_events(&mut self, event: &str) -> (r: &mut Self)
        ensures
            r@ == old(self)@.appended(attr_text("pointer-events"@, event@)),
            *final(self) == *final(r),
    {
        push_attr(&mut self.svg, "pointer-events", event);
        self
    }

    /// Sets `systemLanguage`, the languages the element is meant for, copied verbatim.
    pub fn system_language(&mut self, lang: &str) -> (r: &mut Self)
        ensures
            r@ == old(self)@.appended(attr_text("systemLanguage"@, lang@)),
            *final(self) == *final(r),
    {
        push_attr(&mut self.svg, "systemLanguage", lang);
        self
    }

    /// Sets `type`, the type of the element's content, copied verbatim.
    pub fn t(&mut self, t: &str) -> (r: &mut Self)
        ensures
            r@ == old(self)@.appended(attr_text("type"@, t@)),
            *final(self) == *final(r),
    {
        push_attr(&mut self.svg, "type", t);
        self
    }

    /// Sets `dur`, the duration of an animation, copied verbatim.
    pub fn dur(&mut self, duration: &str) -> (r: &mut Self)
        ensures
            r@ == old(self)@.appended(attr_text("dur"@, duration@)),
            *final(self) == *final(r),
    {
        push_attr(&mut self.svg, "dur", duration);
        self
    }

    /// Sets `max`, the longest an animation may last, copied verbatim.
    pub fn max(&mut self, duration: &str) -> (r: &mut Self)
        ensures
            r@ == old(self)@.appended(attr_text("max"@, duration@)),
            *final(self) == *final(r),
    {
        push_attr(&mut self.svg, "max", duration);
        self
    }

    /// Sets `begin`, when an animation begins, copied verbatim.
    pub fn begin(&mut self, duration: &str) -> (r: &mut Self)
        ensures
            r@ == old(self)@.appended(attr_text("begin"@, duration@)),
            *final(self) == *final(r),
    {
        push_attr(&mut self.svg, "begin", duration);
        self
    }

    /// Sets `restart`, when an animation may restart, copied verbatim.
    pub fn restart(&mut self, restart: &str) -> (r: &mut Self)
        ensures
            r@ == old(self)@.appended(attr_text("restart"@, restart@)),
            *final(self) == *final(r),
    {
        push_attr(&mut self.svg, "restart", restart);
        self
    }

    /// Sets `to`, the value an animation ends at, copied verbatim.
    pub fn to(&mut self, to: &str) -> (r: &mut Self)
        ensures
            r@ == old(self)@.appended(attr_text("to"@, to@)),
            *final(self) == *final(r),
    {
        push_attr(&mut self.svg, "to", to);
        self
    }

    /// Sets `keyTimes`, the timing of an animation's values, copied verbatim.
    pub fn key_times(&mut self, key: &str) -> (r: &mut Self)
        ensures
            r@ == old(self)@.appended(attr_text("keyTimes"@, key@)),
            *final(self) == *final(r),
    {
        push_attr(&mut self.svg, "keyTimes", key);
        self
    }

    /// Sets `attributeName`, the attribute an animation changes, copied verbatim.
    pub fn attribute_name(&mut self, name: &str) -> (r: &mut Self)
        ensures
            r@ == old(self)@.appended(attr_text("attributeName"@, name@)),
            *final(self) == *final(r),
    {
        push_attr(&mut self.svg, "attributeName", name);
        self
    }

    /// Sets `text-anchor`, how text is aligned on its position, copied verbatim.
    pub fn text_anchor(&mut self, anchor: &str) -> (r: &mut Self)
        ensures
            r@ == old(self)@.appended(attr_text("text-anchor"@, anchor@)),
            *final(self) == *final(r),
    {
        push_attr(&mut self.svg, "text-anchor", anchor);
        self
    }

    /// Sets `alignment-baseline`, the baseline text is aligned to, copied verbatim.
    pub fn alignment_baseline(&mut self, align: &str) -> (r: &mut Self)
        ensures
            r@ == old(self)@.appended(attr_text("alignment-baseline"@, align@)),
            *final(self) == *final(r),
    {
        push_attr(&mut self.svg, "alignment-baseline", align);
        self
    }

    /// Sets `dx`, a shift along the x-axis, copied verbatim.
    pub fn dx(&mut self, d: &str) -> (r: &mut Self)
        ensures
            r@ == old(self)@.appended(attr_text("dx"@, d@)),
            *final(self) == *final(r),
    {
        push_attr(&mut self.svg, "dx", d);
        self
    }

    /// Sets `dy`, a shift along the y-axis, copied verbatim.
    pub fn dy(&mut self, d: &str) -> (r: &mut Self)
        ensures
            r@ == old(self)@.appended(attr_text("dy"@, d@)),
            *final(self) == *final(r),
    {
        push_attr(&mut self.svg, "dy", d);
        self
    }

    /// Sets `attributeType`, the namespace of the attribute an animation changes, copied verbatim.
    pub fn attribute_type(&mut self, t: &str) -> (r: &mut Self)
        ensures
            r@ == old(self)@.appended(attr_text("attributeType"@, t@)),
            *final(self) == *final(r),
    {
        push_attr(&mut self.svg, "attributeType", t);
        self
    }

    /// Sets `repeatCount`, how many times an animation repeats, copied verbatim.
    pub fn repeat_count(&mut self, t: &str) -> (r: &mut Self)
        ensures
            r@ == old(self)@.appended(attr_text("repeatCount"@, t@)),
            *final(self) == *final(r),
    {
        push_attr(&mut self.svg, "repeatCount", t);
        self
    }

    /// Sets `from`, the value an animation starts from, copied verbatim.
    pub fn from(&mut self, from: &str) -> (r: &mut Self)
        ensures
            r@ == old(self)@.appended(attr_text("from"@, from@)),
            *final(self) == *final(r),
    {
        push_attr(&mut self.svg, "from", from);
        self
    }

    /// Sets `transform`, the transformation of the element, copied verbatim.
    pub fn transform(&mut self, transform: &str) -> (r: &mut Self)
        ensures
            r@ == old(self)@.appended(attr_text("transform"@, transform@)),
            *final(self) == *final(r),
    {
        push_attr(&mut self.svg, "transform", transform);
        self
    }

    /// Sets `pathLength`, the author's total length of a path, copied verbatim.
    pub fn path_length(&mut self, l: &str) -> (r: &mut Self)
        ensures
            r@ == old(self)@.appended(attr_text("pathLength"@, l@)),
            *final(self) == *final(r),
    {
        push_attr(&mut self.svg, "pathLength", l);
        self
    }

    /// Sets `fill`, the paint of the element's interior, copied verbatim.
    pub fn fill(&mut self, fill: &str) -> (r: &mut Self)
        ensures
            r@ == old(self)@.appended(attr_text("fill"@, fill@)),
            *final(self) == *final(r),
    {
        push_attr(&mut self.svg, "fill", fill);
        self
    }

    /// Sets `d`, the path data, copied verbatim.
    pub fn d(&mut self, d: &str) -> (r: &mut Self)
        ensures
            r@ == old(self)@.appended(attr_text("d"@, d@)),
            *final(self) == *final(r),
    {
        push_attr(&mut self.svg, "d", d);
        self
    }

    /// Sets `stroke`, the paint of the element's outline, copied verbatim.
    pub fn stroke(&mut self, stroke: &str) -> (r: &mut Self)
        ensures
            r@ == old(self)@.appended(attr_text("stroke"@, stroke@)),
            *final(self) == *final(r),
    {
        push_attr(&mut self.svg, "stroke", stroke);
        self
    }

    /// Sets `id`, the element's identifier, copied verbatim.
    pub fn id(&mut self, id: &str) -> (r: &mut Self)
        ensures
            r@ == old(self)@.appended(attr_text("id"@, id@)),
            *final(self) == *final(r),
    {
        push_attr(&mut self.svg, "id", id);
        self
    }

    /// Sets `href`, the referenced resource, copied verbatim.
    pub fn href(&mut self, href: &str) -> (r: &mut Self)
        ensures
            r@ == old(self)@.appended(attr_text("href"@, href@)),
            *final(self) == *final(r),
    {
        push_attr(&mut self.svg, "href", href);
        self
    }

    /// Sets `xlink:href`, the referenced resource, in the XLink namespace, copied verbatim.
    pub fn link(&mut self, href: &str) -> (r: &mut Self)
        ensures
            r@ == old(self)@.appended(attr_text("xlink:href"@, href@)),
            *final(self) == *final(r),
    {
        push_attr(&mut self.svg, "xlink:href", href);
        self
    }

    /// Sets `style`, the inline style, copied verbatim.
    pub fn style(&mut self, style: &str) -> (r: &mut Self)
        ensures
            r@ == old(self)@.appended(attr_text("style"@, style@)),
            *final(self) == *final(r),
    {
        push_attr(&mut self.svg, "style", style);
        self
    }

    /// Sets `font-weight`, the font weight, copied verbatim.
    pub(crate) fn font_weight(&mut self, weight: &str) -> (r: &mut Self)
        ensures
            r@ == old(self)@.appended(attr_text("font-weight"@, weight@)),
            *final(self) == *final(r),
    {
        push_attr(&mut self.svg, "font-weight", weight);
        self
    }

    /// Sets `text-rendering`, the rendering hint for text, copied verbatim.
    pub(crate) fn text_rendering(&mut self, rendering: &str) -> (r: &mut Self)
        ensures
            r@ == old(self)@.appended(attr_text("text-rendering"@, rendering@)),
            *final(self) == *final(r),
    {
        push_attr(&mut self.svg, "text-rendering", rendering);
        self
    }

    /// Sets `shape-rendering`, the rendering hint for shapes, copied verbatim.
    pub(crate) fn shape_rendering(&mut self, rendering: &str) -> (r: &mut Self)
        ensures
            r@ == old(self)@.appended(attr_text("shape-rendering"@, rendering@)),
            *final(self) == *final(r),
    {
        push_attr(&mut self.svg, "shape-rendering", rendering);
        self
    }

    /// Sets `font-size`, the font size: the number, then `unit`.
    pub fn font_size(&mut self, size: Decimal, unit: &str) -> (r: &mut Self)
        ensures
            r@ == old(self)@.appended(attr_text("font-size"@, measure_text(size@, unit@))),
            *final(self) == *final(r),
    {
        push_measure(&mut self.svg, "font-size", size, unit);
        self
    }

    /// Sets `width`, the width: the number, then `unit`.
    pub fn width(&mut self, width: Decimal, unit: &str) -> (r: &mut Self)
        ensures
            r@ == old(self)@.appended(attr_text("width"@, measure_text(width@, unit@))),
            *final(self) == *final(r),
    {
        push_measure(&mut self.svg, "width", width, unit);
        self
    }

    /// Sets `rx`, the radius on the x-axis: the number, then `unit`.
    pub fn rx(&mut self, rx: Decimal, unit: &str) -> (r: &mut Self)
        ensures
            r@ == old(self)@.appended(attr_text("rx"@, measure_text(rx@, unit@))),
            *final(self) == *final(r),
    {
        push_measure(&mut self.svg, "rx", rx, unit);
        self
    }

    /// Sets `ry`, the radius on the y-axis: the number, then `unit`.
    pub fn ry(&mut self, ry: Decimal, unit: &str) -> (r: &mut Self)
        ensures
            r@ == old(self)@.appended(attr_text("ry"@, measure_text(ry@, unit@))),
            *final(self) == *final(r),
    {
        push_measure(&mut self.svg, "ry", ry, unit);
        self
    }

    /// Sets `r`, the radius: the number, then `unit`.
    pub fn r(&mut self, radius: Decimal, unit: &str) -> (r: &mut Self)
        ensures
            r@ == old(self)@.appended(attr_text("r"@, measure_text(radius@, unit@))),
            *final(self) == *final(r),
    {
        push_measure(&mut self.svg, "r", radius, unit);
        self
    }

    /// Sets `cx`, the x-coordinate of the centre: the number, then `unit`.
    pub fn cx(&mut self, cx: Decimal, unit: &str) -> (r: &mut Self)
        ensures
            r@ == old(self)@.appended(attr_text("cx"@, measure_text(cx@, unit@))),
            *final(self) == *final(r),
    {
        push_measure(&mut self.svg, "cx", cx, unit);
        self
    }

    /// Sets `cy`, the y-coordinate of the centre: the number, then `unit`.
    pub fn cy(&mut self, cy: Decimal, unit: &str) -> (r: &mut Self)
        ensures
            r@ == old(self)@.appended(attr_text("cy"@, measure_text(cy@, unit@))),
            *final(self) == *final(r),
    {
        push_measure(&mut self.svg, "cy", cy, unit);
        self
    }

    /// Sets `stroke-width`, the width of the outline: the number, then `unit`.
    pub fn stroke_width(&mut self, width: Decimal, unit: &str) -> (r: &mut Self)
        ensures
            r@ == old(self)@.appended(attr_text("stroke-width"@, measure_text(width@, unit@))),
            *final(self) == *final(r),
    {
        push_measure(&mut self.svg, "stroke-width", width, unit);
        self
    }

    /// Sets `height`, the height: the number, then `unit`.
    pub fn height(&mut self, height: Decimal, unit: &str) -> (r: &mut Self)
        ensures
            r@ == old(self)@.appended(attr_text("height"@, measure_text(height@, unit@))),
            *final(self) == *final(r),
    {
        push_measure(&mut self.svg, "height", height, unit);
        self
    }

    /// Sets `x`, the x-coordinate: the number, then `unit`.
    pub fn x(&mut self, x: Decimal, unit: &str) -> (r: &mut Self)
        ensures
            r@ == old(self)@.appended(attr_text("x"@, measure_text(x@, unit@))),
            *final(self) == *final(r),
    {
        push_measure(&mut self.svg, "x", x, unit);
        self
    }

    /// Sets `y`, the y-coordinate: the number, then `unit`.
    pub fn y(&mut self, y: Decimal, unit: &str) -> (r: &mut Self)
        ensures
            r@ == old(self)@.appended(attr_text("y"@, measure_text(y@, unit@))),
            *final(self) == *final(r),
    {
        push_measure(&mut self.svg, "y", y, unit);
        self
    }

    /// Sets `textLength`, the length the text is fitted to: the number, then `unit`.
    pub(crate) fn text_length(&mut self, length: Decimal, unit: &str) -> (r: &mut Self)
        ensures
            r@ == old(self)@.appended(attr_text("textLength"@, measure_text(length@, unit@))),
            *final(self) == *final(r),
    {
        push_measure(&mut self.svg, "textLength", length, unit);
        self
    }

    /// Sets `stroke-miterlimit`, the limit on the length of miter joins, as a plain number.
    pub fn stroke_miterlimit(&mut self, limit: Decimal) -> (r: &mut Self)
        ensures
            r@ == old(self)@.appended(attr_text("stroke-miterlimit"@, limit@.text())),
            *final(self) == *final(r),
    {
        push_number(&mut self.svg, "stroke-miterlimit", limit);
        self
    }

    /// Writes `data` as it is: text content, or markup the caller vouches for.
    pub fn content(&mut self, data: &str) -> (r: &mut Self)
        ensures
            r@ == old(self)@.appended(data@),
            *final(self) == *final(r),
    {
        self.svg.append(data);
        self
    }

    /// Writes a complete `<style>` element holding the style sheet `css`.
    pub fn css(&mut self, css: &str) -> (r: &mut Self)
        ensures
            r@ == old(self)@.appended("<style type=\"text/css\">"@ + css@ + "</style>"@),
            *final(self) == *final(r),
    {
        self.svg.append("<style type=\"text/css\">");
        self.svg.append(css);
        self.svg.append("</style>");
        proof {
            assert(self.svg@ =~= old(self)@.text + ("<style type=\"text/css\">"@ + css@
                + "</style>"@));
        }
        self
    }

    /// Writes a complete `<b>` element holding `text`.
    pub fn b(&mut self, text: &str) -> (r: &mut Self)
        ensures
            r@ == old(self)@.appended("<b>"@ + text@ + "</b>"@),
            *final(self) == *final(r),
    {
        self.svg.append("<b>");
        self.svg.append(text);
        self.svg.append("</b>");
        proof {
            assert(self.svg@ =~= old(self)@.text + ("<b>"@ + text@ + "</b>"@));
        }
        self
    }

    /// Writes a complete `<title>` element holding `title`.
    pub fn title(&mut self, title: &str) -> (r: &mut Self)
        ensures
            r@ == old(self)@.appended("<title>"@ + title@ + "</title>"@),
            *final(self) == *final(r),
    {
        self.svg.append("<title>");
        self.svg.append(title);
        self.svg.append("</title>");
        proof {
            assert(self.svg@ =~= old(self)@.text + ("<title>"@ + title@ + "</title>"@));
        }
        self
    }

    /// Opens a `<line>` element from (`x1`, `y1`) to (`x2`, `y2`) drawn in
    /// `stroke`; further attributes may follow.
    pub fn line(&mut self, x1: Decimal, y1: Decimal, x2: Decimal, y2: Decimal, stroke: &str) -> (r:
        &mut Self)
        ensures
            r@ == old(self)@.appended(
                "<line "@ + attr_text("x1"@, x1@.text()) + attr_text("y1"@, y1@.text()) + attr_text(
                    "x2"@,
                    x2@.text(),
                ) + attr_text("y2"@, y2@.text()) + attr_text("stroke"@, stroke@),
            ),
            *final(self) == *final(r),
    {
        self.svg.append("<line ");
        push_number(&mut self.svg, "x1", x1);
        push_number(&mut self.svg, "y1", y1);
        push_number(&mut self.svg, "x2", x2);
        push_number(&mut self.svg, "y2", y2);
        push_attr(&mut self.svg, "stroke", stroke);
        proof {
            assert(self.svg@ =~= old(self)@.text + ("<line "@ + attr_text("x1"@, x1@.text())
                + attr_text("y1"@, y1@.text()) + attr_text("x2"@, x2@.text()) + attr_text(
                "y2"@,
                y2@.text(),
            ) + attr_text("stroke"@, stroke@)));
        }
        self
    }

    /// Opens an `<image>` element whose picture is given inline as the
    /// base64 text `data` of an SVG file; further attributes may follow.
    pub fn embedded_image(&mut self, data: &str) -> (r: &mut Self)
        ensures
            r@ == old(self)@.appended(
                "<image xlink:href=\"data:image/svg+xml;base64,"@ + data@ + "\" "@,
            ),
            *final(self) == *final(r),
    {
        self.svg.append("<image xlink:href=\"data:image/svg+xml;base64,");
        self.svg.append(data);
        self.svg.append("\" ");
        proof {
            assert(self.svg@ =~= old(self)@.text + (
            "<image xlink:href=\"data:image/svg+xml;base64,"@ + data@ + "\" "@));
        }
        self
    }
}

} // verus!

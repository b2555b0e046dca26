use vstd::prelude::*;
use crate::laws::{is_plain_number_char, lemma_number_text_plain};
use crate::svg::{attr_text, attrs_text, measure_text, root_attr_text, Attribute, SvgView};

verus! {

/// Whether `s` holds no `<`, so that no tag can begin inside it.
pub open spec fn no_markup(s: Seq<char>) -> bool {
    forall|k: int| 0 <= k < s.len() ==> s[k] != '<'
}

/// The positions of the `<` characters of `s`: where its tags begin.
pub open spec fn tag_starts(s: Seq<char>) -> Seq<int>
    decreases s.len(),
{
    if s.len() == 0 {
        Seq::empty()
    } else if s.last() == '<' {
        tag_starts(s.drop_last()).push(s.len() - 1)
    } else {
        tag_starts(s.drop_last())
    }
}

/// Positions moved right by `by`.
pub open spec fn shifted(p: Seq<int>, by: int) -> Seq<int> {
    p.map_values(|i: int| i + by)
}

/// Whether `s` holds `head` at position `p`.
pub open spec fn has_at(s: Seq<char>, p: int, head: Seq<char>) -> bool {
    0 <= p && p + head.len() <= s.len() && s.subrange(p, p + head.len()) == head
}

/// Attributes as the setters write them, one after the other.
pub open spec fn attr_list_text(attrs: Seq<Attribute>) -> Seq<char>
    decreases attrs.len(),
{
    if attrs.len() == 0 {
        Seq::empty()
    } else {
        attr_list_text(attrs.drop_last()) + attr_text(attrs.last().0, attrs.last().1)
    }
}

/// Whether no name or value of the attributes holds a `<`.
pub open spec fn plain_attrs(attrs: Seq<Attribute>) -> bool {
    forall|k: int| 0 <= k < attrs.len() ==> no_markup(attrs[k].0) && no_markup(attrs[k].1)
}

/// Whether the settings written into the root tag hold no `<`.
pub open spec fn plain_settings(v: SvgView) -> bool {
    &&& no_markup(v.width_unit)
    &&& no_markup(v.height_unit)
    &&& no_markup(v.view_box)
    &&& no_markup(v.id)
}

/// An element as written by an opener, attribute setters and a closer.
pub open spec fn element_text(open: Seq<char>, attrs: Seq<Attribute>, close: Seq<char>) -> Seq<
    char,
> {
    open + attr_list_text(attrs) + close
}

proof fn lemma_tag_starts_concat(a: Seq<char>, b: Seq<char>)
    ensures
        tag_starts(a + b) == tag_starts(a) + shifted(tag_starts(b), a.len() as int),
    decreases b.len(),
{
    if b.len() == 0 {
        assert(a + b =~= a);
        assert(shifted(tag_starts(b), a.len() as int) =~= Seq::<int>::empty());
        assert(tag_starts(a) + Seq::<int>::empty() =~= tag_starts(a));
    } else {
        let c = b.drop_last();
        lemma_tag_starts_concat(a, c);
        assert((a + b).drop_last() =~= a + c);
        assert((a + b).last() == b.last());
        if b.last() == '<' {
            assert(shifted(tag_starts(b), a.len() as int) =~= shifted(tag_starts(c), a.len() as int).push(
                a.len() + b.len() - 1,
            ));
            assert(tag_starts(a + b) =~= tag_starts(a) + shifted(tag_starts(b), a.len() as int));
        }
    }
}

proof fn lemma_no_markup_tags(s: Seq<char>)
    requires
        no_markup(s),
    ensures
        tag_starts(s) == Seq::<int>::empty(),
    decreases s.len(),
{
    if s.len() > 0 {
        lemma_no_markup_tags(s.drop_last());
    }
}

proof fn lemma_one_tag(s: Seq<char>)
    requires
        s.len() > 0,
        s[0] == '<',
        no_markup(s.drop_first()),
    ensures
        tag_starts(s) == seq![0int],
{
    let first = seq![s[0]];
    assert(s =~= first + s.drop_first());
    assert(first.drop_last() =~= Seq::<char>::empty());
    assert(first.last() == '<');
    assert(tag_starts(first.drop_last()) == Seq::<int>::empty());
    assert(tag_starts(first) == tag_starts(first.drop_last()).push(0));
    assert(Seq::<int>::empty().push(0) =~= seq![0int]);
    lemma_no_markup_tags(s.drop_first());
    lemma_tag_starts_concat(first, s.drop_first());
    assert(shifted(Seq::<int>::empty(), 1) =~= Seq::<int>::empty());
    assert(seq![0int] + Seq::<int>::empty() =~= seq![0int]);
}

proof fn lemma_concat_plain(a: Seq<char>, b: Seq<char>)
    requires
        no_markup(a),
        no_markup(b),
    ensures
        no_markup(a + b),
{
    assert forall|k: int| 0 <= k < (a + b).len() implies (a + b)[k] != '<' by {
        if k < a.len() {
            assert((a + b)[k] == a[k]);
        } else {
            assert((a + b)[k] == b[k - a.len()]);
        }
    }
}

proof fn lemma_attr_list_plain(attrs: Seq<Attribute>)
    requires
        plain_attrs(attrs),
    ensures
        no_markup(attr_list_text(attrs)),
    decreases attrs.len(),
{
    if attrs.len() > 0 {
        let rest = attrs.drop_last();
        assert(plain_attrs(rest)) by {
            assert forall|k: int| 0 <= k < rest.len() implies no_markup(rest[k].0) && no_markup(
                rest[k].1,
            ) by {
                assert(rest[k] == attrs[k]);
            }
        }
        lemma_attr_list_plain(rest);
        let a = attrs.last();
        assert(no_markup(a.0) && no_markup(a.1));
        lemma_concat_plain(a.0, seq!['=', '"']);
        lemma_concat_plain(a.0 + seq!['=', '"'], a.1);
        lemma_concat_plain(a.0 + seq!['=', '"'] + a.1, seq!['"', ' ']);
        lemma_concat_plain(attr_list_text(rest), attr_text(a.0, a.1));
    }
}

proof fn lemma_root_attrs_plain(attrs: Seq<Attribute>)
    requires
        plain_attrs(attrs),
    ensures
        no_markup(attrs_text(attrs)),
    decreases attrs.len(),
{
    if attrs.len() > 0 {
        let rest = attrs.drop_last();
        assert(plain_attrs(rest)) by {
            assert forall|k: int| 0 <= k < rest.len() implies no_markup(rest[k].0) && no_markup(
                rest[k].1,
            ) by {
                assert(rest[k] == attrs[k]);
            }
        }
        lemma_root_attrs_plain(rest);
        let a = attrs.last();
        assert(no_markup(a.0) && no_markup(a.1));
        lemma_concat_plain(seq![' '], a.0);
        lemma_concat_plain(seq![' '] + a.0, seq!['=', '"']);
        lemma_concat_plain(seq![' '] + a.0 + seq!['=', '"'], a.1);
        lemma_concat_plain(seq![' '] + a.0 + seq!['=', '"'] + a.1, seq!['"']);
        lemma_concat_plain(attrs_text(rest), root_attr_text(a));
    }
}

proof fn lemma_element_one_tag(open: Seq<char>, attrs: Seq<Attribute>, close: Seq<char>)
    requires
        open.len() > 0,
        open[0] == '<',
        no_markup(open.drop_first()),
        plain_attrs(attrs),
        no_markup(close),
    ensures
        tag_starts(element_text(open, attrs, close)) == seq![0int],
        has_at(element_text(open, attrs, close), 0, open),
{
    let e = element_text(open, attrs, close);
    lemma_attr_list_plain(attrs);
    lemma_concat_plain(open.drop_first(), attr_list_text(attrs));
    lemma_concat_plain(open.drop_first() + attr_list_text(attrs), close);
    assert(e.drop_first() =~= open.drop_first() + attr_list_text(attrs) + close);
    lemma_one_tag(e);
    assert(e.subrange(0, open.len() as int) =~= open);
}

proof fn lemma_has_at_prefix(a: Seq<char>, b: Seq<char>, p: int, head: Seq<char>)
    requires
        has_at(a, p, head),
    ensures
        has_at(a + b, p, head),
{
    assert((a + b).subrange(p, p + head.len()) =~= a.subrange(p, p + head.len()));
}

proof fn lemma_has_at_suffix(a: Seq<char>, b: Seq<char>, p: int, head: Seq<char>)
    requires
        has_at(b, p, head),
    ensures
        has_at(a + b, p + a.len(), head),
{
    assert((a + b).subrange(p + a.len(), p + a.len() + head.len()) =~= b.subrange(
        p,
        p + head.len(),
    ));
}

proof fn lemma_number_plain(n: crate::decimal::DecimalView, unit: Seq<char>)
    requires
        no_markup(unit),
    ensures
        no_markup(measure_text(n, unit)),
{
    lemma_number_text_plain(n);
    assert forall|k: int| 0 <= k < n.text().len() implies n.text()[k] != '<' by {
        assert(is_plain_number_char(n.text()[k]));
    }
    lemma_concat_plain(n.text(), unit);
}

proof fn lemma_start_tags(v: SvgView)
    requires
        plain_settings(v),
    ensures
        tag_starts(v.start_text()) == seq![0int, "<?xml version=\"1.0\"?>\n"@.len() as int],
        has_at(v.start_text(), 0, "<?xml version=\"1.0\"?>\n"@),
        has_at(v.start_text(), "<?xml version=\"1.0\"?>\n"@.len() as int, "<svg"@),
{
    reveal_strlit("<?xml version=\"1.0\"?>\n");
    reveal_strlit("<svg");
    reveal_strlit("xmlns");
    reveal_strlit("http://www.w3.org/2000/svg");
    reveal_strlit("xmlns:xlink");
    reveal_strlit("http://www.w3.org/1999/xlink");
    reveal_strlit("width");
    reveal_strlit("height");
    reveal_strlit("viewBox");
    reveal_strlit("role");
    reveal_strlit("img");
    reveal_strlit("id");
    let decl = "<?xml version=\"1.0\"?>\n"@;
    let attrs = v.root_attributes();
    lemma_number_plain(v.width, v.width_unit);
    lemma_number_plain(v.height, v.height_unit);
    assert(plain_attrs(attrs)) by {
        assert forall|k: int| 0 <= k < attrs.len() implies no_markup(attrs[k].0) && no_markup(
            attrs[k].1,
        ) by {
            if v.view_box.len() == 0 {
                assert(k < 6);
            } else {
                assert(k < 7);
            }
        }
    }
    lemma_root_attrs_plain(attrs);
    let tag = "<svg"@ + attrs_text(attrs) + seq!['>'];
    lemma_concat_plain("<svg"@.drop_first(), attrs_text(attrs));
    lemma_concat_plain("<svg"@.drop_first() + attrs_text(attrs), seq!['>']);
    assert(tag.drop_first() =~= "<svg"@.drop_first() + attrs_text(attrs) + seq!['>']);
    lemma_one_tag(tag);
    assert(decl.drop_first() =~= decl.subrange(1, decl.len() as int));
    lemma_one_tag(decl);
    assert(v.start_text() =~= decl + tag);
    lemma_tag_starts_concat(decl, tag);
    assert(shifted(seq![0int], decl.len() as int) =~= seq![decl.len() as int]);
    assert(seq![0int] + seq![decl.len() as int] =~= seq![0int, decl.len() as int]);
    assert(decl.subrange(0, decl.len() as int) =~= decl);
    lemma_has_at_prefix(decl, tag, 0, decl);
    assert(tag.subrange(0, 4) =~= "<svg"@);
    lemma_has_at_suffix(decl, tag, 0, "<svg"@);
}

proof fn lemma_literal_tags()
    ensures
        tag_starts("</svg>"@) == seq![0int],
        tag_starts("</g>"@) == seq![0int],
        has_at("</svg>"@, 0, "</svg>"@),
        has_at("</g>"@, 0, "</g>"@),
        "<rect "@.len() > 0 && "<rect "@[0] == '<' && no_markup("<rect "@.drop_first()),
        "<circle "@.len() > 0 && "<circle "@[0] == '<' && no_markup("<circle "@.drop_first()),
        "<g "@.len() > 0 && "<g "@[0] == '<' && no_markup("<g "@.drop_first()),
        "<path "@.len() > 0 && "<path "@[0] == '<' && no_markup("<path "@.drop_first()),
        "<use "@.len() > 0 && "<use "@[0] == '<' && no_markup("<use "@.drop_first()),
        no_markup("/>"@),
        no_markup(">"@),
{
    reveal_strlit("</svg>");
    reveal_strlit("</g>");
    reveal_strlit("<rect ");
    reveal_strlit("<circle ");
    reveal_strlit("<g ");
    reveal_strlit("<path ");
    reveal_strlit("<use ");
    reveal_strlit("/>");
    reveal_strlit(">");
    lemma_one_tag("</svg>"@);
    lemma_one_tag("</g>"@);
    assert("</svg>"@.subrange(0, 6) =~= "</svg>"@);
    assert("</g>"@.subrange(0, 4) =~= "</g>"@);
}

/// The text of a document holding one rectangle and then one circle: the
/// root tag, each shape written by its opener, its attribute setters and
/// `close`, and the end tag.
pub open spec fn rect_and_circle_text(
    v: SvgView,
    rect: Seq<Attribute>,
    circle: Seq<Attribute>,
) -> Seq<char> {
    v.start_text() + element_text("<rect "@, rect, "/>"@) + element_text(
        "<circle "@,
        circle,
        "/>"@,
    ) + "</svg>"@
}

/// A document of one self-closed rectangle and then one self-closed circle
/// has exactly five tags: the XML declaration, `<svg`, `<rect`, `<circle`
/// and `</svg>`, in that order, the last one ending the text. This holds
/// for every size, view box, id and attribute list in which no value holds
/// a `<`.
pub proof fn lemma_rect_and_circle_tags(v: SvgView, rect: Seq<Attribute>, circle: Seq<Attribute>)
    requires
        plain_settings(v),
        plain_attrs(rect),
        plain_attrs(circle),
    ensures
        ({
            let t = rect_and_circle_text(v, rect, circle);
            let p = tag_starts(t);
            &&& p.len() == 5
            &&& has_at(t, p[0], "<?xml version=\"1.0\"?>\n"@)
            &&& has_at(t, p[1], "<svg"@)
            &&& has_at(t, p[2], "<rect "@)
            &&& has_at(t, p[3], "<circle "@)
            &&& has_at(t, p[4], "</svg>"@)
            &&& p[4] + "</svg>"@.len() == t.len()
        }),
{
    let decl = "<?xml version=\"1.0\"?>\n"@;
    let s = v.start_text();
    let r = element_text("<rect "@, rect, "/>"@);
    let c = element_text("<circle "@, circle, "/>"@);
    let e = "</svg>"@;
    lemma_literal_tags();
    lemma_start_tags(v);
    lemma_element_one_tag("<rect "@, rect, "/>"@);
    lemma_element_one_tag("<circle "@, circle, "/>"@);
    lemma_tag_starts_concat(s, r);
    lemma_tag_starts_concat(s + r, c);
    lemma_tag_starts_concat(s + r + c, e);
    let t = s + r + c + e;
    assert(tag_starts(t) =~= seq![
        0int,
        decl.len() as int,
        s.len() as int,
        (s.len() + r.len()) as int,
        (s.len() + r.len() + c.len()) as int,
    ]);
    lemma_has_at_prefix(s, r, 0, decl);
    lemma_has_at_prefix(s + r, c, 0, decl);
    lemma_has_at_prefix(s + r + c, e, 0, decl);
    lemma_has_at_prefix(s, r, decl.len() as int, "<svg"@);
    lemma_has_at_prefix(s + r, c, decl.len() as int, "<svg"@);
    lemma_has_at_prefix(s + r + c, e, decl.len() as int, "<svg"@);
    lemma_has_at_suffix(s, r, 0, "<rect "@);
    lemma_has_at_prefix(s + r, c, s.len() as int, "<rect "@);
    lemma_has_at_prefix(s + r + c, e, s.len() as int, "<rect "@);
    lemma_has_at_suffix(s + r, c, 0, "<circle "@);
    lemma_has_at_prefix(s + r + c, e, (s.len() + r.len()) as int, "<circle "@);
    lemma_has_at_suffix(s + r + c, e, 0, e);
}

/// `<use>` elements, each written by `u`, its attribute setters and `close`.
pub open spec fn uses_text(uses: Seq<Seq<Attribute>>) -> Seq<char>
    decreases uses.len(),
{
    if uses.len() == 0 {
        Seq::empty()
    } else {
        uses_text(uses.drop_last()) + element_text("<use "@, uses.last(), "/>"@)
    }
}

proof fn lemma_uses_tags(uses: Seq<Seq<Attribute>>)
    requires
        forall|k: int| 0 <= k < uses.len() ==> plain_attrs(#[trigger] uses[k]),
    ensures
        tag_starts(uses_text(uses)).len() == uses.len(),
        forall|i: int|
            0 <= i < uses.len() ==> has_at(
                uses_text(uses),
                #[trigger] tag_starts(uses_text(uses))[i],
                "<use "@,
            ),
    decreases uses.len(),
{
    if uses.len() == 0 {
        lemma_no_markup_tags(Seq::<char>::empty());
    } else {
        let rest = uses.drop_last();
        assert forall|k: int| 0 <= k < rest.len() implies plain_attrs(#[trigger] rest[k]) by {
            assert(rest[k] == uses[k]);
        }
        lemma_uses_tags(rest);
        lemma_literal_tags();
        let a = uses_text(rest);
        let b = element_text("<use "@, uses.last(), "/>"@);
        lemma_element_one_tag("<use "@, uses.last(), "/>"@);
        lemma_tag_starts_concat(a, b);
        let p = tag_starts(a + b);
        assert(p =~= tag_starts(a).push(a.len() as int));
        assert forall|i: int| 0 <= i < uses.len() implies has_at(a + b, #[trigger] p[i], "<use "@) by {
            if i < rest.len() {
                assert(p[i] == tag_starts(a)[i]);
                lemma_has_at_prefix(a, b, tag_starts(a)[i], "<use "@);
            } else {
                lemma_has_at_suffix(a, b, 0, "<use "@);
            }
        }
    }
}

/// The text of a group holding one self-closed path, followed by `<use>`
/// elements: `g`, its attribute setters and `close_tag`; `path`, its
/// setters and `close`; `close_group`; then each `<use>`.
pub open spec fn group_and_uses_text(
    group: Seq<Attribute>,
    path: Seq<Attribute>,
    uses: Seq<Seq<Attribute>>,
) -> Seq<char> {
    element_text("<g "@, group, ">"@) + element_text("<path "@, path, "/>"@) + "</g>"@ + uses_text(
        uses,
    )
}

/// A group opened around one self-closed path, closed, and followed by `n`
/// `<use>` elements has exactly `3 + n` tags: `<g`, `<path`, `</g>`, then
/// the `<use` tags in call order. This holds for every attribute list in
/// which no value holds a `<`.
pub proof fn lemma_group_and_uses_tags(
    group: Seq<Attribute>,
    path: Seq<Attribute>,
    uses: Seq<Seq<Attribute>>,
)
    requires
        plain_attrs(group),
        plain_attrs(path),
        forall|k: int| 0 <= k < uses.len() ==> plain_attrs(#[trigger] uses[k]),
    ensures
        ({
            let t = group_and_uses_text(group, path, uses);
            let p = tag_starts(t);
            &&& p.len() == 3 + uses.len()
            &&& has_at(t, p[0], "<g "@)
            &&& has_at(t, p[1], "<path "@)
            &&& has_at(t, p[2], "</g>"@)
            &&& forall|i: int| 0 <= i < uses.len() ==> has_at(t, #[trigger] p[3 + i], "<use "@)
        }),
{
    lemma_literal_tags();
    let g = element_text("<g "@, group, ">"@);
    let q = element_text("<path "@, path, "/>"@);
    let e = "</g>"@;
    let u = uses_text(uses);
    lemma_element_one_tag("<g "@, group, ">"@);
    lemma_element_one_tag("<path "@, path, "/>"@);
    lemma_uses_tags(uses);
    lemma_tag_starts_concat(g, q);
    lemma_tag_starts_concat(g + q, e);
    lemma_tag_starts_concat(g + q + e, u);
    let head = g + q + e;
    let t = head + u;
    let p = tag_starts(t);
    assert(tag_starts(head) =~= seq![0int, g.len() as int, (g.len() + q.len()) as int]);
    lemma_has_at_prefix(g, q, 0, "<g "@);
    lemma_has_at_prefix(g + q, e, 0, "<g "@);
    lemma_has_at_prefix(head, u, 0, "<g "@);
    lemma_has_at_suffix(g, q, 0, "<path "@);
    lemma_has_at_prefix(g + q, e, g.len() as int, "<path "@);
    lemma_has_at_prefix(head, u, g.len() as int, "<path "@);
    lemma_has_at_suffix(g + q, e, 0, e);
    lemma_has_at_prefix(head, u, (g.len() + q.len()) as int, e);
    assert forall|i: int| 0 <= i < uses.len() implies has_at(t, #[trigger] p[3 + i], "<use "@) by {
        assert(p[3 + i] == tag_starts(u)[i] + head.len());
        lemma_has_at_suffix(head, u, tag_starts(u)[i], "<use "@);
    }
}

} // verus!

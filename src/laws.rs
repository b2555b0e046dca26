use vstd::prelude::*;
use crate::decimal::{digit_char, digits_of, padded_digits, pow10, DecimalView};
use crate::svg::{attr_text, measure_text, Attribute, SvgView};

verus! {

/// Fragments written one after the other.
pub open spec fn joined(frags: Seq<Seq<char>>) -> Seq<char>
    decreases frags.len(),
{
    if frags.len() == 0 {
        Seq::empty()
    } else {
        joined(frags.drop_last()) + frags.last()
    }
}

/// Where fragment `i` of a run begins, counted from the end of the text the
/// run started on.
pub open spec fn fragment_offset(frags: Seq<Seq<char>>, i: int) -> int {
    joined(frags.take(i)).len() as int
}

proof fn lemma_joined_take_step(frags: Seq<Seq<char>>, k: int)
    requires
        0 <= k < frags.len(),
    ensures
        joined(frags.take(k + 1)) == joined(frags.take(k)) + frags[k],
{
    assert(frags.take(k + 1).drop_last() =~= frags.take(k));
}

proof fn lemma_joined_prefix(frags: Seq<Seq<char>>, j: int, m: int)
    requires
        0 <= j <= m <= frags.len(),
    ensures
        joined(frags.take(j)).len() <= joined(frags.take(m)).len(),
        joined(frags.take(m)).subrange(0, joined(frags.take(j)).len() as int) == joined(
            frags.take(j),
        ),
    decreases m - j,
{
    if j == m {
        assert(joined(frags.take(m)).subrange(0, joined(frags.take(j)).len() as int) =~= joined(
            frags.take(j),
        ));
    } else {
        lemma_joined_prefix(frags, j, m - 1);
        lemma_joined_take_step(frags, m - 1);
        let a = joined(frags.take(j));
        let b = joined(frags.take(m - 1));
        assert((b + frags[m - 1]).subrange(0, a.len() as int) =~= b.subrange(0, a.len() as int));
    }
}

proof fn lemma_run_text(states: Seq<SvgView>, frags: Seq<Seq<char>>, n: int)
    requires
        states.len() == frags.len() + 1,
        forall|k: int|
            0 <= k < frags.len() ==> #[trigger] states[k + 1] == states[k].appended(frags[k]),
        0 <= n <= frags.len(),
    ensures
        states[n].text == states[0].text + joined(frags.take(n)),
    decreases n,
{
    if n == 0 {
        assert(frags.take(0) =~= Seq::<Seq<char>>::empty());
        assert(states[0].text =~= states[0].text + Seq::<char>::empty());
    } else {
        lemma_run_text(states, frags, n - 1);
        lemma_joined_take_step(frags, n - 1);
        assert(states[n] == states[n - 1].appended(frags[n - 1]));
        assert(states[n].text =~= states[0].text + joined(frags.take(n)));
    }
}

/// Output order is call order. Take a run of builder operations, each of
/// which writes its fragment at the end of the text, as every operation's
/// contract states. The final text is the starting text followed by the
/// fragments in call order; each fragment stands whole at its offset; each
/// fragment ends no later than any later one begins, and a non-empty one
/// begins strictly before the next.
pub proof fn lemma_call_order_preserved(states: Seq<SvgView>, frags: Seq<Seq<char>>)
    requires
        states.len() == frags.len() + 1,
        forall|k: int|
            0 <= k < frags.len() ==> #[trigger] states[k + 1] == states[k].appended(frags[k]),
    ensures
        states.last().text == states[0].text + joined(frags),
        forall|i: int|
            0 <= i < frags.len() ==> states.last().text.subrange(
                states[0].text.len() + fragment_offset(frags, i),
                states[0].text.len() + fragment_offset(frags, i) + frags[i].len(),
            ) == frags[i],
        forall|i: int, j: int|
            0 <= i < j < frags.len() ==> fragment_offset(frags, i) + frags[i].len()
                <= fragment_offset(frags, j),
        forall|i: int|
            0 <= i < frags.len() - 1 && frags[i].len() > 0 ==> fragment_offset(frags, i)
                < fragment_offset(frags, i + 1),
{
    let n = frags.len() as int;
    lemma_run_text(states, frags, n);
    assert(frags.take(n) =~= frags);
    let base = states[0].text;
    assert forall|i: int| 0 <= i < frags.len() implies states.last().text.subrange(
        base.len() + fragment_offset(frags, i),
        base.len() + fragment_offset(frags, i) + frags[i].len(),
    ) == frags[i] by {
        lemma_joined_prefix(frags, i + 1, n);
        lemma_joined_take_step(frags, i);
        let whole = joined(frags);
        let upto = joined(frags.take(i + 1));
        let before = joined(frags.take(i));
        assert(whole.subrange(0, upto.len() as int) == upto);
        assert(upto.subrange(before.len() as int, upto.len() as int) =~= frags[i]);
        assert(states.last().text.subrange(
            (base.len() + before.len()) as int,
            (base.len() + before.len() + frags[i].len()) as int,
        ) =~= upto.subrange(before.len() as int, upto.len() as int));
    }
    assert forall|i: int, j: int| 0 <= i < j < frags.len() implies fragment_offset(frags, i)
        + frags[i].len() <= fragment_offset(frags, j) by {
        lemma_joined_take_step(frags, i);
        lemma_joined_prefix(frags, i + 1, j);
    }
    assert forall|i: int| 0 <= i < frags.len() - 1 && frags[i].len() > 0 implies fragment_offset(
        frags,
        i,
    ) < fragment_offset(frags, i + 1) by {
        lemma_joined_take_step(frags, i);
    }
}

/// The characters of `s` up to, not including, its first double quote.
pub open spec fn until_quote(s: Seq<char>) -> Seq<char>
    decreases s.len(),
{
    if s.len() == 0 {
        s
    } else if s[0] == '"' {
        Seq::empty()
    } else {
        seq![s[0]] + until_quote(s.drop_first())
    }
}

proof fn lemma_until_quote(value: Seq<char>, rest: Seq<char>)
    requires
        forall|k: int| 0 <= k < value.len() ==> value[k] != '"',
    ensures
        until_quote(value + seq!['"'] + rest) == value,
    decreases value.len(),
{
    if value.len() == 0 {
        assert((value + seq!['"'] + rest)[0] == '"');
        assert(until_quote(value + seq!['"'] + rest) =~= value);
    } else {
        lemma_until_quote(value.drop_first(), rest);
        assert((value + seq!['"'] + rest).drop_first() =~= value.drop_first() + seq!['"'] + rest);
        assert(value =~= seq![value[0]] + value.drop_first());
    }
}

/// An attribute reads back as it was set. In the fragment of
/// `attr(name, value)`, for a value without a double quote, the name comes
/// first, then `="`; reading from there to the next double quote gives the
/// value back, and the fragment ends with that quote and one space.
pub proof fn lemma_attribute_round_trip(name: Seq<char>, value: Seq<char>)
    requires
        forall|k: int| 0 <= k < value.len() ==> value[k] != '"',
    ensures
        attr_text(name, value).take(name.len() as int) == name,
        attr_text(name, value).skip(name.len() as int).take(2) == seq!['=', '"'],
        until_quote(attr_text(name, value).skip(name.len() as int + 2)) == value,
        attr_text(name, value).skip(name.len() as int + value.len() as int + 2) == seq!['"', ' '],
{
    let f = attr_text(name, value);
    assert(f.take(name.len() as int) =~= name);
    assert(f.skip(name.len() as int).take(2) =~= seq!['=', '"']);
    assert(f.skip(name.len() as int + 2) =~= value + seq!['"'] + seq![' ']);
    lemma_until_quote(value, seq![' ']);
    assert(f.skip(name.len() as int + value.len() as int + 2) =~= seq!['"', ' ']);
}

/// A unit is written inside the quotes, right after the number: the fragment
/// of a numeric setter is the name, then `="`, the number, the unit, and `" `.
pub proof fn lemma_unit_inside_quotes(name: Seq<char>, n: DecimalView, unit: Seq<char>)
    ensures
        attr_text(name, measure_text(n, unit)) == name + seq!['=', '"'] + n.text() + unit + seq![
            '"',
            ' ',
        ],
{
    assert(attr_text(name, measure_text(n, unit)) =~= name + seq!['=', '"'] + n.text() + unit
        + seq!['"', ' ']);
}

/// How many attributes of a list carry the given name.
pub open spec fn count_named(attrs: Seq<Attribute>, name: Seq<char>) -> nat
    decreases attrs.len(),
{
    if attrs.len() == 0 {
        0
    } else {
        count_named(attrs.drop_last(), name) + if attrs.last().0 == name {
            1nat
        } else {
            0nat
        }
    }
}

proof fn lemma_count_named_concat(a: Seq<Attribute>, b: Seq<Attribute>, name: Seq<char>)
    ensures
        count_named(a + b, name) == count_named(a, name) + count_named(b, name),
    decreases b.len(),
{
    if b.len() == 0 {
        assert(a + b =~= a);
    } else {
        lemma_count_named_concat(a, b.drop_last(), name);
        assert((a + b).drop_last() =~= a + b.drop_last());
    }
}

proof fn lemma_count_named_single(a: Attribute, name: Seq<char>)
    ensures
        count_named(seq![a], name) == if a.0 == name {
            1nat
        } else {
            0nat
        },
{
    assert(seq![a].drop_last() =~= Seq::<Attribute>::empty());
    assert(seq![a].last() == a);
    assert(count_named(Seq::<Attribute>::empty(), name) == 0);
}

/// The root tag names a view box exactly when one was given: with an empty
/// view box it has no `viewBox` attribute; otherwise it has exactly one,
/// whose value is the view box as given.
pub proof fn lemma_view_box_written_once(v: SvgView)
    ensures
        count_named(v.root_attributes(), "viewBox"@) == if v.view_box.len() == 0 {
            0nat
        } else {
            1nat
        },
        forall|k: int|
            0 <= k < v.root_attributes().len() && (#[trigger] v.root_attributes()[k]).0
                == "viewBox"@ ==> v.root_attributes()[k].1 == v.view_box,
{
    reveal_strlit("viewBox");
    reveal_strlit("xmlns");
    reveal_strlit("xmlns:xlink");
    reveal_strlit("width");
    reveal_strlit("height");
    reveal_strlit("role");
    reveal_strlit("id");
    let name = "viewBox"@;
    let a0 = ("xmlns"@, "http://www.w3.org/2000/svg"@);
    let a1 = ("xmlns:xlink"@, "http://www.w3.org/1999/xlink"@);
    let a2 = ("width"@, measure_text(v.width, v.width_unit));
    let a3 = ("height"@, measure_text(v.height, v.height_unit));
    let a5 = ("role"@, "img"@);
    let a6 = ("id"@, v.id);
    let middle: Seq<Attribute> = if v.view_box.len() == 0 {
        Seq::empty()
    } else {
        seq![("viewBox"@, v.view_box)]
    };
    assert(name.len() == 7);
    assert(a0.0.len() == 5 && a1.0.len() == 11 && a2.0.len() == 5 && a3.0.len() == 6);
    assert(a5.0.len() == 4 && a6.0.len() == 2);
    let head = seq![a0, a1, a2, a3];
    let tail = seq![a5, a6];
    assert(v.root_attributes() =~= head + middle + tail);
    assert(head =~= seq![a0] + seq![a1] + seq![a2] + seq![a3]);
    assert(tail =~= seq![a5] + seq![a6]);
    lemma_count_named_single(a0, name);
    lemma_count_named_single(a1, name);
    lemma_count_named_single(a2, name);
    lemma_count_named_single(a3, name);
    lemma_count_named_single(a5, name);
    lemma_count_named_single(a6, name);
    lemma_count_named_concat(seq![a0], seq![a1], name);
    lemma_count_named_concat(seq![a0] + seq![a1], seq![a2], name);
    lemma_count_named_concat(seq![a0] + seq![a1] + seq![a2], seq![a3], name);
    lemma_count_named_concat(seq![a5], seq![a6], name);
    lemma_count_named_concat(head, middle, name);
    lemma_count_named_concat(head + middle, tail, name);
    if v.view_box.len() == 0 {
        assert(count_named(middle, name) == 0);
    } else {
        lemma_count_named_single(("viewBox"@, v.view_box), name);
    }
}

/// A character of the plain decimal alphabet: a digit, a minus sign or a dot.
pub open spec fn is_plain_number_char(c: char) -> bool {
    ('0' <= c && c <= '9') || c == '-' || c == '.'
}

proof fn lemma_digits_plain(n: nat)
    ensures
        forall|k: int|
            0 <= k < digits_of(n).len() ==> '0' <= #[trigger] digits_of(n)[k] && digits_of(n)[k]
                <= '9',
    decreases n,
{
    let d = digit_char(n % 10);
    assert('0' <= d && d <= '9');
    if n >= 10 {
        lemma_digits_plain(n / 10);
        let p = digits_of(n / 10);
        assert forall|k: int| 0 <= k < digits_of(n).len() implies '0' <= #[trigger] digits_of(
            n,
        )[k] && digits_of(n)[k] <= '9' by {
            if k < p.len() {
                assert(digits_of(n)[k] == p[k]);
            }
        }
    }
}

proof fn lemma_padded_digits_plain(n: nat, width: nat)
    ensures
        forall|k: int|
            0 <= k < padded_digits(n, width).len() ==> '0' <= #[trigger] padded_digits(
                n,
                width,
            )[k] && padded_digits(n, width)[k] <= '9',
    decreases width,
{
    if width > 0 {
        lemma_padded_digits_plain(n / 10, (width - 1) as nat);
        let d = digit_char(n % 10);
        assert('0' <= d && d <= '9');
        let p = padded_digits(n / 10, (width - 1) as nat);
        assert forall|k: int| 0 <= k < padded_digits(n, width).len() implies '0'
            <= #[trigger] padded_digits(n, width)[k] && padded_digits(n, width)[k] <= '9' by {
            if k < p.len() {
                assert(padded_digits(n, width)[k] == p[k]);
            }
        }
    }
}

/// Numbers are written in plain fixed-point form: only digits, a leading
/// minus sign and a decimal dot, with no exponent and no grouping separator,
/// and never a quote that could end an attribute value early.
pub proof fn lemma_number_text_plain(n: DecimalView)
    ensures
        forall|k: int| 0 <= k < n.text().len() ==> is_plain_number_char(#[trigger] n.text()[k]),
        forall|k: int| 0 <= k < n.text().len() && #[trigger] n.text()[k] == '-' ==> k == 0,
{
    lemma_digits_plain(n.magnitude() / pow10(n.scale));
    lemma_padded_digits_plain(n.magnitude(), n.scale);
    let t = n.text();
    let sign: Seq<char> = if n.mantissa < 0 {
        seq!['-']
    } else {
        Seq::empty()
    };
    let whole = digits_of(n.magnitude() / pow10(n.scale));
    let frac = padded_digits(n.magnitude(), n.scale);
    assert forall|k: int| 0 <= k < t.len() implies is_plain_number_char(#[trigger] t[k]) && (t[k]
        == '-' ==> k == 0) by {
        if k < sign.len() {
        } else if k < sign.len() + whole.len() {
            assert(t[k] == whole[k - sign.len()]);
        } else if n.scale == 0 {
        } else if k == sign.len() + whole.len() {
        } else {
            assert(t[k] == frac[k - sign.len() - whole.len() - 1]);
        }
    }
}

} // verus!

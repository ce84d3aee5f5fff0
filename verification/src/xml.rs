//! The 3MF model XML of a model, as a sequence of XML events.
//!
//! Which elements and attributes are written, in which order and under which
//! namespaces is decided here.  Decimal values are carried as the bit
//! patterns of their `f64` values; turning them into decimal text and the
//! events into bytes is left to the caller.
use crate::model::{
    BaseMaterial, BaseMaterialGroup, Beam, BeamCapMode, BeamSet, BlendMethod, BooleanOpType,
    BooleanRef, BooleanShape, Build, BuildItem, Color, ColorGroup, Component, Composite,
    CompositeMaterials, Disp2DCoord, Disp2DGroup, Extension, FilterMode, Mesh, MetadataEntry,
    Model, Multi, MultiProperties, NormVector, NormVectorGroup, Object, ObjectType,
    ProductionInfo, Resources, Tex2Coord, Texture2D, Texture2DGroup, TileStyle, Triangle, Vertex,
};
use crate::text::{self, decimal, push_decimal, push_text};
use vstd::prelude::*;
use vstd::string::*;

verus! {

/// The value of an attribute: text, or binary64 values (by their bit
/// patterns) written in decimal and separated by spaces.
#[derive(Debug)]
pub enum XmlValue {
    Text(String),
    Numbers(Vec<u64>),
}

/// An XML event: the declaration, a start tag, an empty-element tag, an end
/// tag, or character data.
#[derive(Debug)]
pub enum XmlEvent {
    Decl,
    Start { name: String, attrs: Vec<(String, XmlValue)> },
    Empty { name: String, attrs: Vec<(String, XmlValue)> },
    End { name: String },
    Text(String),
}

/// What an attribute value holds.
pub enum ValueView {
    Text(Seq<char>),
    Numbers(Seq<u64>),
}

/// What an event holds.
pub enum EventView {
    Decl,
    Start(Seq<char>, Seq<(Seq<char>, ValueView)>),
    Empty(Seq<char>, Seq<(Seq<char>, ValueView)>),
    End(Seq<char>),
    Text(Seq<char>),
}

pub open spec fn value_view(v: XmlValue) -> ValueView {
    match v {
        XmlValue::Text(s) => ValueView::Text(s@),
        XmlValue::Numbers(n) => ValueView::Numbers(n@),
    }
}

pub open spec fn attrs_view(a: Seq<(String, XmlValue)>) -> Seq<(Seq<char>, ValueView)> {
    a.map_values(|p: (String, XmlValue)| (p.0@, value_view(p.1)))
}

pub open spec fn event_view(e: XmlEvent) -> EventView {
    match e {
        XmlEvent::Decl => EventView::Decl,
        XmlEvent::Start { name, attrs } => EventView::Start(name@, attrs_view(attrs@)),
        XmlEvent::Empty { name, attrs } => EventView::Empty(name@, attrs_view(attrs@)),
        XmlEvent::End { name } => EventView::End(name@),
        XmlEvent::Text(s) => EventView::Text(s@),
    }
}

pub open spec fn events_view(s: Seq<XmlEvent>) -> Seq<EventView> {
    s.map_values(|e: XmlEvent| event_view(e))
}

/// `s0` followed by what `f` appends for each item of `items`, in order.
pub open spec fn list_onto<A, B>(s0: Seq<B>, items: Seq<A>, f: spec_fn(Seq<B>, A) -> Seq<B>) -> Seq<B>
    decreases items.len(),
{
    if items.len() == 0 {
        s0
    } else {
        f(list_onto(s0, items.drop_last(), f), items.last())
    }
}

/// One more item appends what `f` appends for it.
pub proof fn lemma_list_onto_step<A, B>(
    s0: Seq<B>,
    items: Seq<A>,
    f: spec_fn(Seq<B>, A) -> Seq<B>,
    i: int,
)
    requires
        0 <= i < items.len(),
    ensures
        list_onto(s0, items.take(i + 1), f) == f(list_onto(s0, items.take(i), f), items[i]),
{
    assert(items.take(i + 1).drop_last() =~= items.take(i));
}

/// All the items, taken as a prefix, are the items.
pub proof fn lemma_list_onto_all<A, B>(s0: Seq<B>, items: Seq<A>, f: spec_fn(Seq<B>, A) -> Seq<B>)
    ensures
        list_onto(s0, items.take(items.len() as int), f) == list_onto(s0, items, f),
{
    assert(items.take(items.len() as int) =~= items);
}

fn emit(out: &mut Vec<XmlEvent>, e: XmlEvent)
    ensures
        events_view(final(out)@) == events_view(old(out)@).push(event_view(e)),
{
    let ghost ev = event_view(e);
    out.push(e);
    proof {
        assert(events_view(out@) =~= events_view(old(out)@).push(ev));
    }
}

fn add_attr(attrs: &mut Vec<(String, XmlValue)>, name: &str, value: XmlValue)
    ensures
        attrs_view(final(attrs)@) == attrs_view(old(attrs)@).push((name@, value_view(value))),
{
    let ghost v = value_view(value);
    attrs.push((String::from_str(name), value));
    proof {
        assert(attrs_view(attrs@) =~= attrs_view(old(attrs)@).push((name@, v)));
    }
}

fn text_value(t: &str) -> (v: XmlValue)
    ensures
        value_view(v) == ValueView::Text(t@),
{
    XmlValue::Text(String::from_str(t))
}

fn string_value(t: &String) -> (v: XmlValue)
    ensures
        value_view(v) == ValueView::Text(t@),
{
    XmlValue::Text(t.clone())
}

fn decimal_value(n: usize) -> (v: XmlValue)
    ensures
        value_view(v) == ValueView::Text(decimal(n as nat)),
{
    let mut s = String::new();
    push_decimal(&mut s, n);
    proof {
        assert(s@ =~= decimal(n as nat));
    }
    XmlValue::Text(s)
}

fn number_value(b: u64) -> (v: XmlValue)
    ensures
        value_view(v) == ValueView::Numbers(seq![b]),
{
    let mut n: Vec<u64> = Vec::new();
    n.push(b);
    proof {
        assert(n@ =~= seq![b]);
    }
    XmlValue::Numbers(n)
}

fn numbers_value(bs: &Vec<u64>) -> (v: XmlValue)
    ensures
        value_view(v) == ValueView::Numbers(bs@),
{
    let mut n: Vec<u64> = Vec::new();
    let mut i: usize = 0;
    while i < bs.len()
        invariant
            i <= bs@.len(),
            n@ =~= bs@.take(i as int),
        decreases bs@.len() - i,
    {
        n.push(bs[i]);
        i += 1;
    }
    proof {
        assert(n@ =~= bs@);
    }
    XmlValue::Numbers(n)
}

fn transform_value(t: &[u64; 12]) -> (v: XmlValue)
    ensures
        value_view(v) == ValueView::Numbers(t@),
{
    let mut n: Vec<u64> = Vec::new();
    let mut i: usize = 0;
    while i < 12
        invariant
            i <= 12,
            t@.len() == 12,
            n@ =~= t@.take(i as int),
        decreases 12 - i,
    {
        n.push(t[i]);
        i += 1;
    }
    proof {
        assert(n@ =~= t@);
    }
    XmlValue::Numbers(n)
}

/// `s0` followed by `items` in decimal, separated by spaces.
pub open spec fn decimals_onto(s0: Seq<char>, items: Seq<usize>) -> Seq<char>
    decreases items.len(),
{
    if items.len() == 0 {
        s0
    } else if items.len() == 1 {
        s0 + decimal(items[0] as nat)
    } else {
        decimals_onto(s0, items.drop_last()) + " "@ + decimal(items.last() as nat)
    }
}

/// `items` in decimal, separated by spaces.
pub open spec fn decimals_text(items: Seq<usize>) -> Seq<char> {
    decimals_onto(Seq::empty(), items)
}

fn decimals_value(items: &Vec<usize>) -> (v: XmlValue)
    ensures
        value_view(v) == ValueView::Text(decimals_text(items@)),
{
    let mut s = String::new();
    let mut i: usize = 0;
    while i < items.len()
        invariant
            i <= items@.len(),
            s@ == decimals_onto(Seq::empty(), items@.take(i as int)),
        decreases items@.len() - i,
    {
        let ghost t = items@.take(i + 1);
        proof {
            assert(t.drop_last() =~= items@.take(i as int));
        }
        if i > 0 {
            push_text(&mut s, " ");
        }
        push_decimal(&mut s, items[i]);
        proof {
            if i == 0 {
                assert(s@ =~= Seq::<char>::empty() + decimal(t[0] as nat));
            }
        }
        i += 1;
    }
    proof {
        assert(items@.take(items@.len() as int) =~= items@);
    }
    XmlValue::Text(s)
}

/// The upper-case hexadecimal digit for `d`, below 16.
pub open spec fn upper_hex(d: u8) -> char {
    if d < 10 {
        ((48 + d) as u8) as char
    } else {
        ((55 + d) as u8) as char
    }
}

/// The two upper-case hexadecimal digits of `b`.
pub open spec fn byte_hex(b: u8) -> Seq<char> {
    seq![upper_hex(b / 16), upper_hex(b % 16)]
}

/// `#RRGGBBAA` in upper-case hexadecimal.
pub open spec fn color_text(c: Color) -> Seq<char> {
    "#"@ + byte_hex(c.0) + byte_hex(c.1) + byte_hex(c.2) + byte_hex(c.3)
}

fn push_byte_hex(s: &mut String, b: u8)
    ensures
        final(s)@ == old(s)@ + byte_hex(b),
{
    let hi = b / 16;
    let lo = b % 16;
    let c1 = if hi < 10 {
        (48u8 + hi) as char
    } else {
        (55u8 + hi) as char
    };
    let c2 = if lo < 10 {
        (48u8 + lo) as char
    } else {
        (55u8 + lo) as char
    };
    s.push(c1);
    s.push(c2);
    proof {
        assert(final(s)@ =~= old(s)@ + byte_hex(b));
    }
}

fn color_value(c: Color) -> (v: XmlValue)
    ensures
        value_view(v) == ValueView::Text(color_text(c)),
{
    let mut s = String::new();
    push_text(&mut s, "#");
    push_byte_hex(&mut s, c.0);
    push_byte_hex(&mut s, c.1);
    push_byte_hex(&mut s, c.2);
    push_byte_hex(&mut s, c.3);
    proof {
        assert(s@ =~= color_text(c));
    }
    XmlValue::Text(s)
}


/// An attribute as the contracts see it: its name and its value.
pub type AttrView = (Seq<char>, ValueView);

/// A decimal attribute value from the bit pattern of one binary64 value.
pub open spec fn num(b: u64) -> ValueView {
    ValueView::Numbers(seq![b])
}

/// An integer attribute value in decimal.
pub open spec fn int_text(n: usize) -> ValueView {
    ValueView::Text(decimal(n as nat))
}

/// The attribute `name` in decimal where `o` holds a value, else nothing.
pub open spec fn opt_int_attr(name: Seq<char>, o: Option<usize>) -> Seq<AttrView> {
    match o {
        Some(n) => seq![(name, int_text(n))],
        None => Seq::empty(),
    }
}

/// The attribute `name` with the text `o` holds, else nothing.
pub open spec fn opt_text_attr(name: Seq<char>, o: Option<String>) -> Seq<AttrView> {
    match o {
        Some(t) => seq![(name, ValueView::Text(t@))],
        None => Seq::empty(),
    }
}

/// The attribute `name` with the binary64 value `o` holds, else nothing.
pub open spec fn opt_num_attr(name: Seq<char>, o: Option<u64>) -> Seq<AttrView> {
    match o {
        Some(b) => seq![(name, num(b))],
        None => Seq::empty(),
    }
}

/// The `transform` attribute where `o` holds a transform, else nothing.
pub open spec fn opt_transform_attr(o: Option<[u64; 12]>) -> Seq<AttrView> {
    match o {
        Some(t) => seq![("transform"@, ValueView::Numbers(t@))],
        None => Seq::empty(),
    }
}

fn new_attrs() -> (a: Vec<(String, XmlValue)>)
    ensures
        attrs_view(a@) == Seq::<AttrView>::empty(),
{
    let a: Vec<(String, XmlValue)> = Vec::new();
    proof {
        assert(attrs_view(a@) =~= Seq::<AttrView>::empty());
    }
    a
}

fn add_int(attrs: &mut Vec<(String, XmlValue)>, name: &str, n: usize)
    ensures
        attrs_view(final(attrs)@) == attrs_view(old(attrs)@).push((name@, int_text(n))),
{
    add_attr(attrs, name, decimal_value(n));
}

fn add_num(attrs: &mut Vec<(String, XmlValue)>, name: &str, b: u64)
    ensures
        attrs_view(final(attrs)@) == attrs_view(old(attrs)@).push((name@, num(b))),
{
    add_attr(attrs, name, number_value(b));
}

fn add_opt_int(attrs: &mut Vec<(String, XmlValue)>, name: &str, o: Option<usize>)
    ensures
        attrs_view(final(attrs)@) == attrs_view(old(attrs)@) + opt_int_attr(name@, o),
{
    if let Some(n) = o {
        add_int(attrs, name, n);
    }
    proof {
        assert(attrs_view(final(attrs)@) =~= attrs_view(old(attrs)@) + opt_int_attr(name@, o));
    }
}

fn add_opt_text(attrs: &mut Vec<(String, XmlValue)>, name: &str, o: &Option<String>)
    ensures
        attrs_view(final(attrs)@) == attrs_view(old(attrs)@) + opt_text_attr(name@, *o),
{
    if let Some(t) = o {
        add_attr(attrs, name, string_value(t));
    }
    proof {
        assert(attrs_view(final(attrs)@) =~= attrs_view(old(attrs)@) + opt_text_attr(name@, *o));
    }
}

fn add_opt_num(attrs: &mut Vec<(String, XmlValue)>, name: &str, o: Option<u64>)
    ensures
        attrs_view(final(attrs)@) == attrs_view(old(attrs)@) + opt_num_attr(name@, o),
{
    if let Some(b) = o {
        add_num(attrs, name, b);
    }
    proof {
        assert(attrs_view(final(attrs)@) =~= attrs_view(old(attrs)@) + opt_num_attr(name@, o));
    }
}

fn add_opt_transform(attrs: &mut Vec<(String, XmlValue)>, o: &Option<[u64; 12]>)
    ensures
        attrs_view(final(attrs)@) == attrs_view(old(attrs)@) + opt_transform_attr(*o),
{
    if let Some(t) = o {
        add_attr(attrs, "transform", transform_value(t));
    }
    proof {
        assert(attrs_view(final(attrs)@) =~= attrs_view(old(attrs)@) + opt_transform_attr(*o));
    }
}

fn start(out: &mut Vec<XmlEvent>, name: &str, attrs: Vec<(String, XmlValue)>)
    ensures
        events_view(final(out)@) == events_view(old(out)@).push(
            EventView::Start(name@, attrs_view(attrs@)),
        ),
{
    emit(out, XmlEvent::Start { name: String::from_str(name), attrs });
}

fn empty(out: &mut Vec<XmlEvent>, name: &str, attrs: Vec<(String, XmlValue)>)
    ensures
        events_view(final(out)@) == events_view(old(out)@).push(
            EventView::Empty(name@, attrs_view(attrs@)),
        ),
{
    emit(out, XmlEvent::Empty { name: String::from_str(name), attrs });
}

fn start_bare(out: &mut Vec<XmlEvent>, name: &str)
    ensures
        events_view(final(out)@) == events_view(old(out)@).push(
            EventView::Start(name@, Seq::empty()),
        ),
{
    start(out, name, new_attrs());
}

fn end(out: &mut Vec<XmlEvent>, name: &str)
    ensures
        events_view(final(out)@) == events_view(old(out)@).push(EventView::End(name@)),
{
    emit(out, XmlEvent::End { name: String::from_str(name) });
}


/// Events of one `<metadata>` element after `s`.
pub open spec fn metadata_onto(s: Seq<EventView>, e: MetadataEntry) -> Seq<EventView> {
    let preserve = match e.preserve {
        Some(b) => seq![("preserve"@, ValueView::Text(if b { "1"@ } else { "0"@ }))],
        None => Seq::empty(),
    };
    s.push(EventView::Start("metadata"@, seq![("name"@, ValueView::Text(e.name@))] + preserve))
        .push(EventView::Text(e.value@)).push(EventView::End("metadata"@))
}

pub open spec fn metadata_step() -> spec_fn(Seq<EventView>, MetadataEntry) -> Seq<EventView> {
    |s: Seq<EventView>, e: MetadataEntry| metadata_onto(s, e)
}

fn write_metadata(out: &mut Vec<XmlEvent>, e: &MetadataEntry)
    ensures
        events_view(final(out)@) == metadata_onto(events_view(old(out)@), *e),
{
    let mut attrs = new_attrs();
    add_attr(&mut attrs, "name", string_value(&e.name));
    if let Some(b) = e.preserve {
        if b {
            add_attr(&mut attrs, "preserve", text_value("1"));
        } else {
            add_attr(&mut attrs, "preserve", text_value("0"));
        }
    }
    let ghost a = attrs_view(attrs@);
    start(out, "metadata", attrs);
    emit(out, XmlEvent::Text(e.value.clone()));
    end(out, "metadata");
    proof {
        let preserve = match e.preserve {
            Some(b) => seq![("preserve"@, ValueView::Text(if b { "1"@ } else { "0"@ }))],
            None => Seq::<AttrView>::empty(),
        };
        assert(a =~= seq![("name"@, ValueView::Text(e.name@))] + preserve);
    }
}

/// Events of one `<m:base>` element after `s`.
pub open spec fn base_onto(s: Seq<EventView>, b: BaseMaterial) -> Seq<EventView> {
    s.push(
        EventView::Empty(
            "m:base"@,
            seq![
                ("name"@, ValueView::Text(b.name@)),
                ("displaycolor"@, ValueView::Text(color_text(b.displaycolor))),
            ],
        ),
    )
}

pub open spec fn base_step() -> spec_fn(Seq<EventView>, BaseMaterial) -> Seq<EventView> {
    |s: Seq<EventView>, b: BaseMaterial| base_onto(s, b)
}

fn write_base(out: &mut Vec<XmlEvent>, b: &BaseMaterial)
    ensures
        events_view(final(out)@) == base_onto(events_view(old(out)@), *b),
{
    let mut a = new_attrs();
    add_attr(&mut a, "name", string_value(&b.name));
    add_attr(&mut a, "displaycolor", color_value(b.displaycolor));
    let ghost av = attrs_view(a@);
    empty(out, "m:base", a);
    proof {
        assert(av =~= seq![
            ("name"@, ValueView::Text(b.name@)),
            ("displaycolor"@, ValueView::Text(color_text(b.displaycolor))),
        ]);
    }
}

/// Events of one `<m:basematerials>` group after `s`.
pub open spec fn basematerials_onto(s: Seq<EventView>, g: BaseMaterialGroup) -> Seq<EventView> {
    list_onto(
        s.push(EventView::Start("m:basematerials"@, seq![("id"@, int_text(g.id))])),
        g.materials@,
        base_step(),
    ).push(EventView::End("m:basematerials"@))
}

pub open spec fn basematerials_step() -> spec_fn(Seq<EventView>, BaseMaterialGroup) -> Seq<EventView> {
    |s: Seq<EventView>, g: BaseMaterialGroup| basematerials_onto(s, g)
}

fn write_basematerials(out: &mut Vec<XmlEvent>, g: &BaseMaterialGroup)
    ensures
        events_view(final(out)@) == basematerials_onto(events_view(old(out)@), *g),
{
    let mut attrs = new_attrs();
    add_int(&mut attrs, "id", g.id);
    start(out, "m:basematerials", attrs);
    let ghost s0 = events_view(out@);
    let mut i: usize = 0;
    while i < g.materials.len()
        invariant
            i <= g.materials@.len(),
            events_view(out@) == list_onto(s0, g.materials@.take(i as int), base_step()),
        decreases g.materials@.len() - i,
    {
        proof {
            lemma_list_onto_step(s0, g.materials@, base_step(), i as int);
        }
        write_base(out, &g.materials[i]);
        i += 1;
    }
    proof {
        lemma_list_onto_all(s0, g.materials@, base_step());
    }
    end(out, "m:basematerials");
}

/// The attribute text of a tile style.
pub open spec fn tile_text(t: TileStyle) -> Seq<char> {
    match t {
        TileStyle::Wrap => "wrap"@,
        TileStyle::Mirror => "mirror"@,
        TileStyle::Clamp => "clamp"@,
        TileStyle::NoTile => "none"@,
    }
}

fn tile_value(t: TileStyle) -> (v: XmlValue)
    ensures
        value_view(v) == ValueView::Text(tile_text(t)),
{
    match t {
        TileStyle::Wrap => text_value("wrap"),
        TileStyle::Mirror => text_value("mirror"),
        TileStyle::Clamp => text_value("clamp"),
        TileStyle::NoTile => text_value("none"),
    }
}

/// The attribute text of a filter mode.
pub open spec fn filter_text(f: FilterMode) -> Seq<char> {
    match f {
        FilterMode::Auto => "auto"@,
        FilterMode::Linear => "linear"@,
        FilterMode::Nearest => "nearest"@,
    }
}

/// Events of one `<m:texture2d>` element after `s`.
pub open spec fn texture2d_onto(s: Seq<EventView>, t: Texture2D) -> Seq<EventView> {
    s.push(
        EventView::Empty(
            "m:texture2d"@,
            seq![
                ("id"@, int_text(t.id)),
                ("path"@, ValueView::Text(t.path@)),
                ("contenttype"@, ValueView::Text(t.contenttype@)),
                ("tilestyleu"@, ValueView::Text(tile_text(t.tilestyleu))),
                ("tilestylev"@, ValueView::Text(tile_text(t.tilestylev))),
                ("filter"@, ValueView::Text(filter_text(t.filter))),
            ],
        ),
    )
}

pub open spec fn texture2d_step() -> spec_fn(Seq<EventView>, Texture2D) -> Seq<EventView> {
    |s: Seq<EventView>, t: Texture2D| texture2d_onto(s, t)
}

fn write_texture2d(out: &mut Vec<XmlEvent>, t: &Texture2D)
    ensures
        events_view(final(out)@) == texture2d_onto(events_view(old(out)@), *t),
{
    let mut a = new_attrs();
    add_int(&mut a, "id", t.id);
    add_attr(&mut a, "path", string_value(&t.path));
    add_attr(&mut a, "contenttype", string_value(&t.contenttype));
    add_attr(&mut a, "tilestyleu", tile_value(t.tilestyleu));
    add_attr(&mut a, "tilestylev", tile_value(t.tilestylev));
    let filter = match t.filter {
        FilterMode::Auto => text_value("auto"),
        FilterMode::Linear => text_value("linear"),
        FilterMode::Nearest => text_value("nearest"),
    };
    add_attr(&mut a, "filter", filter);
    let ghost av = attrs_view(a@);
    empty(out, "m:texture2d", a);
    proof {
        assert(av =~= seq![
            ("id"@, int_text(t.id)),
            ("path"@, ValueView::Text(t.path@)),
            ("contenttype"@, ValueView::Text(t.contenttype@)),
            ("tilestyleu"@, ValueView::Text(tile_text(t.tilestyleu))),
            ("tilestylev"@, ValueView::Text(tile_text(t.tilestylev))),
            ("filter"@, ValueView::Text(filter_text(t.filter))),
        ]);
    }
}


/// The attributes of one `<m:tex2coord>` element.
pub open spec fn tex2coord_attrs(x: Tex2Coord) -> Seq<AttrView> {
    seq![("u"@, num(x.u)), ("v"@, num(x.v))]
}

/// Events of one `<m:tex2coord>` element after `s`.
pub open spec fn tex2coord_onto(s: Seq<EventView>, x: Tex2Coord) -> Seq<EventView> {
    s.push(EventView::Empty("m:tex2coord"@, tex2coord_attrs(x)))
}

pub open spec fn tex2coord_step() -> spec_fn(Seq<EventView>, Tex2Coord) -> Seq<EventView> {
    |s: Seq<EventView>, x: Tex2Coord| tex2coord_onto(s, x)
}

fn write_tex2coord(out: &mut Vec<XmlEvent>, x: &Tex2Coord)
    ensures
        events_view(final(out)@) == tex2coord_onto(events_view(old(out)@), *x),
{
    let mut a = new_attrs();
    add_num(&mut a, "u", x.u);
    add_num(&mut a, "v", x.v);
    let ghost av = attrs_view(a@);
    empty(out, "m:tex2coord", a);
    proof {
        assert(av =~= tex2coord_attrs(*x));
    }
}

/// The attributes of one `<m:color>` element.
pub open spec fn color_attrs(x: Color) -> Seq<AttrView> {
    seq![("color"@, ValueView::Text(color_text(x)))]
}

/// Events of one `<m:color>` element after `s`.
pub open spec fn color_onto(s: Seq<EventView>, x: Color) -> Seq<EventView> {
    s.push(EventView::Empty("m:color"@, color_attrs(x)))
}

pub open spec fn color_step() -> spec_fn(Seq<EventView>, Color) -> Seq<EventView> {
    |s: Seq<EventView>, x: Color| color_onto(s, x)
}

fn write_color(out: &mut Vec<XmlEvent>, x: &Color)
    ensures
        events_view(final(out)@) == color_onto(events_view(old(out)@), *x),
{
    let mut a = new_attrs();
    add_attr(&mut a, "color", color_value(*x));
    let ghost av = attrs_view(a@);
    empty(out, "m:color", a);
    proof {
        assert(av =~= color_attrs(*x));
    }
}

/// The attributes of one `<m:composite>` element.
pub open spec fn composite_attrs(x: Composite) -> Seq<AttrView> {
    seq![("values"@, ValueView::Numbers(x.values@))]
}

/// Events of one `<m:composite>` element after `s`.
pub open spec fn composite_onto(s: Seq<EventView>, x: Composite) -> Seq<EventView> {
    s.push(EventView::Empty("m:composite"@, composite_attrs(x)))
}

pub open spec fn composite_step() -> spec_fn(Seq<EventView>, Composite) -> Seq<EventView> {
    |s: Seq<EventView>, x: Composite| composite_onto(s, x)
}

fn write_composite(out: &mut Vec<XmlEvent>, x: &Composite)
    ensures
        events_view(final(out)@) == composite_onto(events_view(old(out)@), *x),
{
    let mut a = new_attrs();
    add_attr(&mut a, "values", numbers_value(&x.values));
    let ghost av = attrs_view(a@);
    empty(out, "m:composite", a);
    proof {
        assert(av =~= composite_attrs(*x));
    }
}

/// The attributes of one `<m:multi>` element.
pub open spec fn multi_attrs(x: Multi) -> Seq<AttrView> {
    seq![("pindices"@, ValueView::Text(decimals_text(x.pindices@)))]
}

/// Events of one `<m:multi>` element after `s`.
pub open spec fn multi_onto(s: Seq<EventView>, x: Multi) -> Seq<EventView> {
    s.push(EventView::Empty("m:multi"@, multi_attrs(x)))
}

pub open spec fn multi_step() -> spec_fn(Seq<EventView>, Multi) -> Seq<EventView> {
    |s: Seq<EventView>, x: Multi| multi_onto(s, x)
}

fn write_multi(out: &mut Vec<XmlEvent>, x: &Multi)
    ensures
        events_view(final(out)@) == multi_onto(events_view(old(out)@), *x),
{
    let mut a = new_attrs();
    add_attr(&mut a, "pindices", decimals_value(&x.pindices));
    let ghost av = attrs_view(a@);
    empty(out, "m:multi", a);
    proof {
        assert(av =~= multi_attrs(*x));
    }
}

/// The attributes of one `<d:normvector>` element.
pub open spec fn normvector_attrs(x: NormVector) -> Seq<AttrView> {
    seq![("x"@, num(x.x)), ("y"@, num(x.y)), ("z"@, num(x.z))]
}

/// Events of one `<d:normvector>` element after `s`.
pub open spec fn normvector_onto(s: Seq<EventView>, x: NormVector) -> Seq<EventView> {
    s.push(EventView::Empty("d:normvector"@, normvector_attrs(x)))
}

pub open spec fn normvector_step() -> spec_fn(Seq<EventView>, NormVector) -> Seq<EventView> {
    |s: Seq<EventView>, x: NormVector| normvector_onto(s, x)
}

fn write_normvector(out: &mut Vec<XmlEvent>, x: &NormVector)
    ensures
        events_view(final(out)@) == normvector_onto(events_view(old(out)@), *x),
{
    let mut a = new_attrs();
    add_num(&mut a, "x", x.x);
    add_num(&mut a, "y", x.y);
    add_num(&mut a, "z", x.z);
    let ghost av = attrs_view(a@);
    empty(out, "d:normvector", a);
    proof {
        assert(av =~= normvector_attrs(*x));
    }
}

/// The attributes of one `<d:disp2d>` element.
pub open spec fn disp2d_attrs(x: Disp2DCoord) -> Seq<AttrView> {
    seq![("u"@, num(x.u)), ("v"@, num(x.v))]
}

/// Events of one `<d:disp2d>` element after `s`.
pub open spec fn disp2d_onto(s: Seq<EventView>, x: Disp2DCoord) -> Seq<EventView> {
    s.push(EventView::Empty("d:disp2d"@, disp2d_attrs(x)))
}

pub open spec fn disp2d_step() -> spec_fn(Seq<EventView>, Disp2DCoord) -> Seq<EventView> {
    |s: Seq<EventView>, x: Disp2DCoord| disp2d_onto(s, x)
}

fn write_disp2d(out: &mut Vec<XmlEvent>, x: &Disp2DCoord)
    ensures
        events_view(final(out)@) == disp2d_onto(events_view(old(out)@), *x),
{
    let mut a = new_attrs();
    add_num(&mut a, "u", x.u);
    add_num(&mut a, "v", x.v);
    let ghost av = attrs_view(a@);
    empty(out, "d:disp2d", a);
    proof {
        assert(av =~= disp2d_attrs(*x));
    }
}

/// The attributes of one `<vertex>` element.
pub open spec fn vertex_attrs(x: Vertex) -> Seq<AttrView> {
    seq![("x"@, num(x.x)), ("y"@, num(x.y)), ("z"@, num(x.z))]
}

/// Events of one `<vertex>` element after `s`.
pub open spec fn vertex_onto(s: Seq<EventView>, x: Vertex) -> Seq<EventView> {
    s.push(EventView::Empty("vertex"@, vertex_attrs(x)))
}

pub open spec fn vertex_step() -> spec_fn(Seq<EventView>, Vertex) -> Seq<EventView> {
    |s: Seq<EventView>, x: Vertex| vertex_onto(s, x)
}

fn write_vertex(out: &mut Vec<XmlEvent>, x: &Vertex)
    ensures
        events_view(final(out)@) == vertex_onto(events_view(old(out)@), *x),
{
    let mut a = new_attrs();
    add_num(&mut a, "x", x.x);
    add_num(&mut a, "y", x.y);
    add_num(&mut a, "z", x.z);
    let ghost av = attrs_view(a@);
    empty(out, "vertex", a);
    proof {
        assert(av =~= vertex_attrs(*x));
    }
}

/// The attributes of one `<triangle>` element.
pub open spec fn triangle_attrs(x: Triangle) -> Seq<AttrView> {
    seq![("v1"@, int_text(x.v1)), ("v2"@, int_text(x.v2)), ("v3"@, int_text(x.v3))] + opt_int_attr("pid"@, x.pid)
        + opt_int_attr("pindex"@, x.pindex) + opt_int_attr("p1"@, x.p1) + opt_int_attr("p2"@, x.p2)
        + opt_int_attr("p3"@, x.p3)
}

/// Events of one `<triangle>` element after `s`.
pub open spec fn triangle_onto(s: Seq<EventView>, x: Triangle) -> Seq<EventView> {
    s.push(EventView::Empty("triangle"@, triangle_attrs(x)))
}

pub open spec fn triangle_step() -> spec_fn(Seq<EventView>, Triangle) -> Seq<EventView> {
    |s: Seq<EventView>, x: Triangle| triangle_onto(s, x)
}

fn write_triangle(out: &mut Vec<XmlEvent>, x: &Triangle)
    ensures
        events_view(final(out)@) == triangle_onto(events_view(old(out)@), *x),
{
    let mut a = new_attrs();
    add_int(&mut a, "v1", x.v1);
    add_int(&mut a, "v2", x.v2);
    add_int(&mut a, "v3", x.v3);
    add_opt_int(&mut a, "pid", x.pid);
    add_opt_int(&mut a, "pindex", x.pindex);
    add_opt_int(&mut a, "p1", x.p1);
    add_opt_int(&mut a, "p2", x.p2);
    add_opt_int(&mut a, "p3", x.p3);
    let ghost av = attrs_view(a@);
    empty(out, "triangle", a);
    proof {
        assert(av =~= triangle_attrs(*x));
    }
}

/// The attributes of one `<b:beam>` element.
pub open spec fn beam_attrs(x: Beam) -> Seq<AttrView> {
    seq![("v1"@, int_text(x.v1)), ("v2"@, int_text(x.v2))] + opt_num_attr("r1"@, x.r1)
        + opt_num_attr("r2"@, x.r2)
}

/// Events of one `<b:beam>` element after `s`.
pub open spec fn beam_onto(s: Seq<EventView>, x: Beam) -> Seq<EventView> {
    s.push(EventView::Empty("b:beam"@, beam_attrs(x)))
}

pub open spec fn beam_step() -> spec_fn(Seq<EventView>, Beam) -> Seq<EventView> {
    |s: Seq<EventView>, x: Beam| beam_onto(s, x)
}

fn write_beam(out: &mut Vec<XmlEvent>, x: &Beam)
    ensures
        events_view(final(out)@) == beam_onto(events_view(old(out)@), *x),
{
    let mut a = new_attrs();
    add_int(&mut a, "v1", x.v1);
    add_int(&mut a, "v2", x.v2);
    add_opt_num(&mut a, "r1", x.r1);
    add_opt_num(&mut a, "r2", x.r2);
    let ghost av = attrs_view(a@);
    empty(out, "b:beam", a);
    proof {
        assert(av =~= beam_attrs(*x));
    }
}

/// The attributes of one `<component>` element.
pub open spec fn component_attrs(x: Component) -> Seq<AttrView> {
    seq![("objectid"@, int_text(x.objectid))] + opt_transform_attr(x.transform)
}

/// Events of one `<component>` element after `s`.
pub open spec fn component_onto(s: Seq<EventView>, x: Component) -> Seq<EventView> {
    s.push(EventView::Empty("component"@, component_attrs(x)))
}

pub open spec fn component_step() -> spec_fn(Seq<EventView>, Component) -> Seq<EventView> {
    |s: Seq<EventView>, x: Component| component_onto(s, x)
}

fn write_component(out: &mut Vec<XmlEvent>, x: &Component)
    ensures
        events_view(final(out)@) == component_onto(events_view(old(out)@), *x),
{
    let mut a = new_attrs();
    add_int(&mut a, "objectid", x.objectid);
    add_opt_transform(&mut a, &x.transform);
    let ghost av = attrs_view(a@);
    empty(out, "component", a);
    proof {
        assert(av =~= component_attrs(*x));
    }
}

/// The attributes of one `<bool:booleanref>` element.
pub open spec fn booleanref_attrs(x: BooleanRef) -> Seq<AttrView> {
    seq![("objectid"@, int_text(x.objectid))] + opt_text_attr("path"@, x.path)
}

/// Events of one `<bool:booleanref>` element after `s`.
pub open spec fn booleanref_onto(s: Seq<EventView>, x: BooleanRef) -> Seq<EventView> {
    s.push(EventView::Empty("bool:booleanref"@, booleanref_attrs(x)))
}

pub open spec fn booleanref_step() -> spec_fn(Seq<EventView>, BooleanRef) -> Seq<EventView> {
    |s: Seq<EventView>, x: BooleanRef| booleanref_onto(s, x)
}

fn write_booleanref(out: &mut Vec<XmlEvent>, x: &BooleanRef)
    ensures
        events_view(final(out)@) == booleanref_onto(events_view(old(out)@), *x),
{
    let mut a = new_attrs();
    add_int(&mut a, "objectid", x.objectid);
    add_opt_text(&mut a, "path", &x.path);
    let ghost av = attrs_view(a@);
    empty(out, "bool:booleanref", a);
    proof {
        assert(av =~= booleanref_attrs(*x));
    }
}

/// The attributes of one `<item>` element.
pub open spec fn item_attrs(x: BuildItem) -> Seq<AttrView> {
    seq![("objectid"@, int_text(x.objectid))] + opt_transform_attr(x.transform)
        + opt_text_attr("p:UUID"@, x.production_uuid)
}

/// Events of one `<item>` element after `s`.
pub open spec fn item_onto(s: Seq<EventView>, x: BuildItem) -> Seq<EventView> {
    s.push(EventView::Empty("item"@, item_attrs(x)))
}

pub open spec fn item_step() -> spec_fn(Seq<EventView>, BuildItem) -> Seq<EventView> {
    |s: Seq<EventView>, x: BuildItem| item_onto(s, x)
}

fn write_item(out: &mut Vec<XmlEvent>, x: &BuildItem)
    ensures
        events_view(final(out)@) == item_onto(events_view(old(out)@), *x),
{
    let mut a = new_attrs();
    add_int(&mut a, "objectid", x.objectid);
    add_opt_transform(&mut a, &x.transform);
    add_opt_text(&mut a, "p:UUID", &x.production_uuid);
    let ghost av = attrs_view(a@);
    empty(out, "item", a);
    proof {
        assert(av =~= item_attrs(*x));
    }
}

/// The attributes of a `<m:texture2dgroup>` element.
pub open spec fn texture2dgroup_attrs(g: Texture2DGroup) -> Seq<AttrView> {
    seq![("id"@, int_text(g.id)), ("texid"@, int_text(g.texid))]
}

/// Events of one `<m:texture2dgroup>` element, with its children, after `s`.
pub open spec fn texture2dgroup_onto(s: Seq<EventView>, g: Texture2DGroup) -> Seq<EventView> {
    list_onto(s.push(EventView::Start("m:texture2dgroup"@, texture2dgroup_attrs(g))), g.tex2coords@, tex2coord_step()).push(
        EventView::End("m:texture2dgroup"@),
    )
}

pub open spec fn texture2dgroup_step() -> spec_fn(Seq<EventView>, Texture2DGroup) -> Seq<EventView> {
    |s: Seq<EventView>, g: Texture2DGroup| texture2dgroup_onto(s, g)
}

fn write_texture2dgroup(out: &mut Vec<XmlEvent>, g: &Texture2DGroup)
    ensures
        events_view(final(out)@) == texture2dgroup_onto(events_view(old(out)@), *g),
{
    let mut a = new_attrs();
    add_int(&mut a, "id", g.id);
    add_int(&mut a, "texid", g.texid);
    proof {
        assert(attrs_view(a@) =~= texture2dgroup_attrs(*g));
    }
    start(out, "m:texture2dgroup", a);
    let ghost s0 = events_view(out@);
    let mut i: usize = 0;
    while i < g.tex2coords.len()
        invariant
            i <= g.tex2coords@.len(),
            events_view(out@) == list_onto(s0, g.tex2coords@.take(i as int), tex2coord_step()),
        decreases g.tex2coords@.len() - i,
    {
        proof {
            lemma_list_onto_step(s0, g.tex2coords@, tex2coord_step(), i as int);
        }
        write_tex2coord(out, &g.tex2coords[i]);
        i += 1;
    }
    proof {
        lemma_list_onto_all(s0, g.tex2coords@, tex2coord_step());
    }
    end(out, "m:texture2dgroup");
}

/// The attributes of a `<m:colorgroup>` element.
pub open spec fn colorgroup_attrs(g: ColorGroup) -> Seq<AttrView> {
    seq![("id"@, int_text(g.id))]
}

/// Events of one `<m:colorgroup>` element, with its children, after `s`.
pub open spec fn colorgroup_onto(s: Seq<EventView>, g: ColorGroup) -> Seq<EventView> {
    list_onto(s.push(EventView::Start("m:colorgroup"@, colorgroup_attrs(g))), g.colors@, color_step()).push(
        EventView::End("m:colorgroup"@),
    )
}

pub open spec fn colorgroup_step() -> spec_fn(Seq<EventView>, ColorGroup) -> Seq<EventView> {
    |s: Seq<EventView>, g: ColorGroup| colorgroup_onto(s, g)
}

fn write_colorgroup(out: &mut Vec<XmlEvent>, g: &ColorGroup)
    ensures
        events_view(final(out)@) == colorgroup_onto(events_view(old(out)@), *g),
{
    let mut a = new_attrs();
    add_int(&mut a, "id", g.id);
    proof {
        assert(attrs_view(a@) =~= colorgroup_attrs(*g));
    }
    start(out, "m:colorgroup", a);
    let ghost s0 = events_view(out@);
    let mut i: usize = 0;
    while i < g.colors.len()
        invariant
            i <= g.colors@.len(),
            events_view(out@) == list_onto(s0, g.colors@.take(i as int), color_step()),
        decreases g.colors@.len() - i,
    {
        proof {
            lemma_list_onto_step(s0, g.colors@, color_step(), i as int);
        }
        write_color(out, &g.colors[i]);
        i += 1;
    }
    proof {
        lemma_list_onto_all(s0, g.colors@, color_step());
    }
    end(out, "m:colorgroup");
}

/// The attributes of a `<m:compositematerials>` element.
pub open spec fn compositematerials_attrs(g: CompositeMaterials) -> Seq<AttrView> {
    seq![
        ("id"@, int_text(g.id)),
        ("matid"@, int_text(g.matid)),
        ("matindices"@, ValueView::Text(decimals_text(g.matindices@))),
    ]
}

/// Events of one `<m:compositematerials>` element, with its children, after `s`.
pub open spec fn compositematerials_onto(s: Seq<EventView>, g: CompositeMaterials) -> Seq<EventView> {
    list_onto(s.push(EventView::Start("m:compositematerials"@, compositematerials_attrs(g))), g.composites@, composite_step()).push(
        EventView::End("m:compositematerials"@),
    )
}

pub open spec fn compositematerials_step() -> spec_fn(Seq<EventView>, CompositeMaterials) -> Seq<EventView> {
    |s: Seq<EventView>, g: CompositeMaterials| compositematerials_onto(s, g)
}

fn write_compositematerials(out: &mut Vec<XmlEvent>, g: &CompositeMaterials)
    ensures
        events_view(final(out)@) == compositematerials_onto(events_view(old(out)@), *g),
{
    let mut a = new_attrs();
    add_int(&mut a, "id", g.id);
    add_int(&mut a, "matid", g.matid);
    add_attr(&mut a, "matindices", decimals_value(&g.matindices));
    proof {
        assert(attrs_view(a@) =~= compositematerials_attrs(*g));
    }
    start(out, "m:compositematerials", a);
    let ghost s0 = events_view(out@);
    let mut i: usize = 0;
    while i < g.composites.len()
        invariant
            i <= g.composites@.len(),
            events_view(out@) == list_onto(s0, g.composites@.take(i as int), composite_step()),
        decreases g.composites@.len() - i,
    {
        proof {
            lemma_list_onto_step(s0, g.composites@, composite_step(), i as int);
        }
        write_composite(out, &g.composites[i]);
        i += 1;
    }
    proof {
        lemma_list_onto_all(s0, g.composites@, composite_step());
    }
    end(out, "m:compositematerials");
}

/// The attributes of a `<m:multiproperties>` element.
pub open spec fn multiproperties_attrs(g: MultiProperties) -> Seq<AttrView> {
    seq![("id"@, int_text(g.id)), ("pids"@, ValueView::Text(decimals_text(g.pids@)))] + (if g.blendmethods@.len()
        == 0 {
        Seq::empty()
    } else {
        seq![("blendmethods"@, ValueView::Text(blends_text(g.blendmethods@)))]
    })
}

/// Events of one `<m:multiproperties>` element, with its children, after `s`.
pub open spec fn multiproperties_onto(s: Seq<EventView>, g: MultiProperties) -> Seq<EventView> {
    list_onto(s.push(EventView::Start("m:multiproperties"@, multiproperties_attrs(g))), g.multis@, multi_step()).push(
        EventView::End("m:multiproperties"@),
    )
}

pub open spec fn multiproperties_step() -> spec_fn(Seq<EventView>, MultiProperties) -> Seq<EventView> {
    |s: Seq<EventView>, g: MultiProperties| multiproperties_onto(s, g)
}

fn write_multiproperties(out: &mut Vec<XmlEvent>, g: &MultiProperties)
    ensures
        events_view(final(out)@) == multiproperties_onto(events_view(old(out)@), *g),
{
    let mut a = new_attrs();
    add_int(&mut a, "id", g.id);
    add_attr(&mut a, "pids", decimals_value(&g.pids));
    if g.blendmethods.len() > 0 {
        add_attr(&mut a, "blendmethods", blends_value(&g.blendmethods));
    }
    proof {
        assert(attrs_view(a@) =~= multiproperties_attrs(*g));
    }
    start(out, "m:multiproperties", a);
    let ghost s0 = events_view(out@);
    let mut i: usize = 0;
    while i < g.multis.len()
        invariant
            i <= g.multis@.len(),
            events_view(out@) == list_onto(s0, g.multis@.take(i as int), multi_step()),
        decreases g.multis@.len() - i,
    {
        proof {
            lemma_list_onto_step(s0, g.multis@, multi_step(), i as int);
        }
        write_multi(out, &g.multis[i]);
        i += 1;
    }
    proof {
        lemma_list_onto_all(s0, g.multis@, multi_step());
    }
    end(out, "m:multiproperties");
}

/// The attributes of a `<d:normvectorgroup>` element.
pub open spec fn normvectorgroup_attrs(g: NormVectorGroup) -> Seq<AttrView> {
    seq![("id"@, int_text(g.id))]
}

/// Events of one `<d:normvectorgroup>` element, with its children, after `s`.
pub open spec fn normvectorgroup_onto(s: Seq<EventView>, g: NormVectorGroup) -> Seq<EventView> {
    list_onto(s.push(EventView::Start("d:normvectorgroup"@, normvectorgroup_attrs(g))), g.vectors@, normvector_step()).push(
        EventView::End("d:normvectorgroup"@),
    )
}

pub open spec fn normvectorgroup_step() -> spec_fn(Seq<EventView>, NormVectorGroup) -> Seq<EventView> {
    |s: Seq<EventView>, g: NormVectorGroup| normvectorgroup_onto(s, g)
}

fn write_normvectorgroup(out: &mut Vec<XmlEvent>, g: &NormVectorGroup)
    ensures
        events_view(final(out)@) == normvectorgroup_onto(events_view(old(out)@), *g),
{
    let mut a = new_attrs();
    add_int(&mut a, "id", g.id);
    proof {
        assert(attrs_view(a@) =~= normvectorgroup_attrs(*g));
    }
    start(out, "d:normvectorgroup", a);
    let ghost s0 = events_view(out@);
    let mut i: usize = 0;
    while i < g.vectors.len()
        invariant
            i <= g.vectors@.len(),
            events_view(out@) == list_onto(s0, g.vectors@.take(i as int), normvector_step()),
        decreases g.vectors@.len() - i,
    {
        proof {
            lemma_list_onto_step(s0, g.vectors@, normvector_step(), i as int);
        }
        write_normvector(out, &g.vectors[i]);
        i += 1;
    }
    proof {
        lemma_list_onto_all(s0, g.vectors@, normvector_step());
    }
    end(out, "d:normvectorgroup");
}

/// The attributes of a `<d:disp2dgroup>` element.
pub open spec fn disp2dgroup_attrs(g: Disp2DGroup) -> Seq<AttrView> {
    seq![
        ("id"@, int_text(g.id)),
        ("dispid"@, int_text(g.dispid)),
        ("nid"@, int_text(g.nid)),
        ("height"@, num(g.height)),
        ("offset"@, num(g.offset)),
    ]
}

/// Events of one `<d:disp2dgroup>` element, with its children, after `s`.
pub open spec fn disp2dgroup_onto(s: Seq<EventView>, g: Disp2DGroup) -> Seq<EventView> {
    list_onto(s.push(EventView::Start("d:disp2dgroup"@, disp2dgroup_attrs(g))), g.coords@, disp2d_step()).push(
        EventView::End("d:disp2dgroup"@),
    )
}

pub open spec fn disp2dgroup_step() -> spec_fn(Seq<EventView>, Disp2DGroup) -> Seq<EventView> {
    |s: Seq<EventView>, g: Disp2DGroup| disp2dgroup_onto(s, g)
}

fn write_disp2dgroup(out: &mut Vec<XmlEvent>, g: &Disp2DGroup)
    ensures
        events_view(final(out)@) == disp2dgroup_onto(events_view(old(out)@), *g),
{
    let mut a = new_attrs();
    add_int(&mut a, "id", g.id);
    add_int(&mut a, "dispid", g.dispid);
    add_int(&mut a, "nid", g.nid);
    add_num(&mut a, "height", g.height);
    add_num(&mut a, "offset", g.offset);
    proof {
        assert(attrs_view(a@) =~= disp2dgroup_attrs(*g));
    }
    start(out, "d:disp2dgroup", a);
    let ghost s0 = events_view(out@);
    let mut i: usize = 0;
    while i < g.coords.len()
        invariant
            i <= g.coords@.len(),
            events_view(out@) == list_onto(s0, g.coords@.take(i as int), disp2d_step()),
        decreases g.coords@.len() - i,
    {
        proof {
            lemma_list_onto_step(s0, g.coords@, disp2d_step(), i as int);
        }
        write_disp2d(out, &g.coords[i]);
        i += 1;
    }
    proof {
        lemma_list_onto_all(s0, g.coords@, disp2d_step());
    }
    end(out, "d:disp2dgroup");
}

/// The attributes of a `<b:beamset>` element.
pub open spec fn beamset_attrs(g: BeamSet) -> Seq<AttrView> {
    seq![
        ("radius"@, num(g.radius)),
        ("minlength"@, num(g.min_length)),
        ("capmode"@, ValueView::Text(cap_text(g.cap_mode))),
    ]
}

/// Events of one `<b:beamset>` element, with its children, after `s`.
pub open spec fn beamset_onto(s: Seq<EventView>, g: BeamSet) -> Seq<EventView> {
    list_onto(s.push(EventView::Start("b:beamset"@, beamset_attrs(g))), g.beams@, beam_step()).push(
        EventView::End("b:beamset"@),
    )
}

pub open spec fn beamset_step() -> spec_fn(Seq<EventView>, BeamSet) -> Seq<EventView> {
    |s: Seq<EventView>, g: BeamSet| beamset_onto(s, g)
}

fn write_beamset(out: &mut Vec<XmlEvent>, g: &BeamSet)
    ensures
        events_view(final(out)@) == beamset_onto(events_view(old(out)@), *g),
{
    let mut a = new_attrs();
    add_num(&mut a, "radius", g.radius);
    add_num(&mut a, "minlength", g.min_length);
    add_attr(&mut a, "capmode", cap_value(g.cap_mode));
    proof {
        assert(attrs_view(a@) =~= beamset_attrs(*g));
    }
    start(out, "b:beamset", a);
    let ghost s0 = events_view(out@);
    let mut i: usize = 0;
    while i < g.beams.len()
        invariant
            i <= g.beams@.len(),
            events_view(out@) == list_onto(s0, g.beams@.take(i as int), beam_step()),
        decreases g.beams@.len() - i,
    {
        proof {
            lemma_list_onto_step(s0, g.beams@, beam_step(), i as int);
        }
        write_beam(out, &g.beams[i]);
        i += 1;
    }
    proof {
        lemma_list_onto_all(s0, g.beams@, beam_step());
    }
    end(out, "b:beamset");
}

/// The attributes of a `<bool:booleanshape>` element.
pub open spec fn booleanshape_attrs(g: BooleanShape) -> Seq<AttrView> {
    seq![("objectid"@, int_text(g.objectid)), ("op"@, ValueView::Text(op_text(g.operation)))]
        + opt_text_attr("path"@, g.path)
}

/// Events of one `<bool:booleanshape>` element, with its children, after `s`.
pub open spec fn booleanshape_onto(s: Seq<EventView>, g: BooleanShape) -> Seq<EventView> {
    list_onto(s.push(EventView::Start("bool:booleanshape"@, booleanshape_attrs(g))), g.operands@, booleanref_step()).push(
        EventView::End("bool:booleanshape"@),
    )
}

pub open spec fn booleanshape_step() -> spec_fn(Seq<EventView>, BooleanShape) -> Seq<EventView> {
    |s: Seq<EventView>, g: BooleanShape| booleanshape_onto(s, g)
}

fn write_booleanshape(out: &mut Vec<XmlEvent>, g: &BooleanShape)
    ensures
        events_view(final(out)@) == booleanshape_onto(events_view(old(out)@), *g),
{
    let mut a = new_attrs();
    add_int(&mut a, "objectid", g.objectid);
    add_attr(&mut a, "op", op_value(g.operation));
    add_opt_text(&mut a, "path", &g.path);
    proof {
        assert(attrs_view(a@) =~= booleanshape_attrs(*g));
    }
    start(out, "bool:booleanshape", a);
    let ghost s0 = events_view(out@);
    let mut i: usize = 0;
    while i < g.operands.len()
        invariant
            i <= g.operands@.len(),
            events_view(out@) == list_onto(s0, g.operands@.take(i as int), booleanref_step()),
        decreases g.operands@.len() - i,
    {
        proof {
            lemma_list_onto_step(s0, g.operands@, booleanref_step(), i as int);
        }
        write_booleanref(out, &g.operands[i]);
        i += 1;
    }
    proof {
        lemma_list_onto_all(s0, g.operands@, booleanref_step());
    }
    end(out, "bool:booleanshape");
}

/// The attributes of a `<build>` element.
pub open spec fn build_attrs(g: Build) -> Seq<AttrView> {
    opt_text_attr("p:UUID"@, g.production_uuid)
}

/// Events of one `<build>` element, with its children, after `s`.
pub open spec fn build_onto(s: Seq<EventView>, g: Build) -> Seq<EventView> {
    list_onto(s.push(EventView::Start("build"@, build_attrs(g))), g.items@, item_step()).push(
        EventView::End("build"@),
    )
}

pub open spec fn build_step() -> spec_fn(Seq<EventView>, Build) -> Seq<EventView> {
    |s: Seq<EventView>, g: Build| build_onto(s, g)
}

fn write_build(out: &mut Vec<XmlEvent>, g: &Build)
    ensures
        events_view(final(out)@) == build_onto(events_view(old(out)@), *g),
{
    let mut a = new_attrs();
    add_opt_text(&mut a, "p:UUID", &g.production_uuid);
    proof {
        assert(attrs_view(a@) =~= build_attrs(*g));
    }
    start(out, "build", a);
    let ghost s0 = events_view(out@);
    let mut i: usize = 0;
    while i < g.items.len()
        invariant
            i <= g.items@.len(),
            events_view(out@) == list_onto(s0, g.items@.take(i as int), item_step()),
        decreases g.items@.len() - i,
    {
        proof {
            lemma_list_onto_step(s0, g.items@, item_step(), i as int);
        }
        write_item(out, &g.items[i]);
        i += 1;
    }
    proof {
        lemma_list_onto_all(s0, g.items@, item_step());
    }
    end(out, "build");
}

/// Events of a `<vertices>` element holding `items`, after `s`.
pub open spec fn vertices_onto(s: Seq<EventView>, items: Seq<Vertex>) -> Seq<EventView> {
    list_onto(s.push(EventView::Start("vertices"@, Seq::empty())), items, vertex_step()).push(
        EventView::End("vertices"@),
    )
}

fn write_vertices(out: &mut Vec<XmlEvent>, items: &Vec<Vertex>)
    ensures
        events_view(final(out)@) == vertices_onto(events_view(old(out)@), items@),
{
    start_bare(out, "vertices");
    let ghost s0 = events_view(out@);
    let mut i: usize = 0;
    while i < items.len()
        invariant
            i <= items@.len(),
            events_view(out@) == list_onto(s0, items@.take(i as int), vertex_step()),
        decreases items@.len() - i,
    {
        proof {
            lemma_list_onto_step(s0, items@, vertex_step(), i as int);
        }
        write_vertex(out, &items[i]);
        i += 1;
    }
    proof {
        lemma_list_onto_all(s0, items@, vertex_step());
    }
    end(out, "vertices");
}

/// Events of a `<triangles>` element holding `items`, after `s`.
pub open spec fn triangles_onto(s: Seq<EventView>, items: Seq<Triangle>) -> Seq<EventView> {
    list_onto(s.push(EventView::Start("triangles"@, Seq::empty())), items, triangle_step()).push(
        EventView::End("triangles"@),
    )
}

fn write_triangles(out: &mut Vec<XmlEvent>, items: &Vec<Triangle>)
    ensures
        events_view(final(out)@) == triangles_onto(events_view(old(out)@), items@),
{
    start_bare(out, "triangles");
    let ghost s0 = events_view(out@);
    let mut i: usize = 0;
    while i < items.len()
        invariant
            i <= items@.len(),
            events_view(out@) == list_onto(s0, items@.take(i as int), triangle_step()),
        decreases items@.len() - i,
    {
        proof {
            lemma_list_onto_step(s0, items@, triangle_step(), i as int);
        }
        write_triangle(out, &items[i]);
        i += 1;
    }
    proof {
        lemma_list_onto_all(s0, items@, triangle_step());
    }
    end(out, "triangles");
}

/// Events of a `<components>` element holding `items`, after `s`.
pub open spec fn components_onto(s: Seq<EventView>, items: Seq<Component>) -> Seq<EventView> {
    list_onto(s.push(EventView::Start("components"@, Seq::empty())), items, component_step()).push(
        EventView::End("components"@),
    )
}

fn write_components(out: &mut Vec<XmlEvent>, items: &Vec<Component>)
    ensures
        events_view(final(out)@) == components_onto(events_view(old(out)@), items@),
{
    start_bare(out, "components");
    let ghost s0 = events_view(out@);
    let mut i: usize = 0;
    while i < items.len()
        invariant
            i <= items@.len(),
            events_view(out@) == list_onto(s0, items@.take(i as int), component_step()),
        decreases items@.len() - i,
    {
        proof {
            lemma_list_onto_step(s0, items@, component_step(), i as int);
        }
        write_component(out, &items[i]);
        i += 1;
    }
    proof {
        lemma_list_onto_all(s0, items@, component_step());
    }
    end(out, "components");
}

fn write_basematerials_list(out: &mut Vec<XmlEvent>, items: &Vec<BaseMaterialGroup>)
    ensures
        events_view(final(out)@) == list_onto(events_view(old(out)@), items@, basematerials_step()),
{
    let ghost s0 = events_view(out@);
    let mut i: usize = 0;
    while i < items.len()
        invariant
            i <= items@.len(),
            events_view(out@) == list_onto(s0, items@.take(i as int), basematerials_step()),
        decreases items@.len() - i,
    {
        proof {
            lemma_list_onto_step(s0, items@, basematerials_step(), i as int);
        }
        write_basematerials(out, &items[i]);
        i += 1;
    }
    proof {
        lemma_list_onto_all(s0, items@, basematerials_step());
    }
}

fn write_texture2d_list(out: &mut Vec<XmlEvent>, items: &Vec<Texture2D>)
    ensures
        events_view(final(out)@) == list_onto(events_view(old(out)@), items@, texture2d_step()),
{
    let ghost s0 = events_view(out@);
    let mut i: usize = 0;
    while i < items.len()
        invariant
            i <= items@.len(),
            events_view(out@) == list_onto(s0, items@.take(i as int), texture2d_step()),
        decreases items@.len() - i,
    {
        proof {
            lemma_list_onto_step(s0, items@, texture2d_step(), i as int);
        }
        write_texture2d(out, &items[i]);
        i += 1;
    }
    proof {
        lemma_list_onto_all(s0, items@, texture2d_step());
    }
}

fn write_texture2dgroup_list(out: &mut Vec<XmlEvent>, items: &Vec<Texture2DGroup>)
    ensures
        events_view(final(out)@) == list_onto(events_view(old(out)@), items@, texture2dgroup_step()),
{
    let ghost s0 = events_view(out@);
    let mut i: usize = 0;
    while i < items.len()
        invariant
            i <= items@.len(),
            events_view(out@) == list_onto(s0, items@.take(i as int), texture2dgroup_step()),
        decreases items@.len() - i,
    {
        proof {
            lemma_list_onto_step(s0, items@, texture2dgroup_step(), i as int);
        }
        write_texture2dgroup(out, &items[i]);
        i += 1;
    }
    proof {
        lemma_list_onto_all(s0, items@, texture2dgroup_step());
    }
}

fn write_colorgroup_list(out: &mut Vec<XmlEvent>, items: &Vec<ColorGroup>)
    ensures
        events_view(final(out)@) == list_onto(events_view(old(out)@), items@, colorgroup_step()),
{
    let ghost s0 = events_view(out@);
    let mut i: usize = 0;
    while i < items.len()
        invariant
            i <= items@.len(),
            events_view(out@) == list_onto(s0, items@.take(i as int), colorgroup_step()),
        decreases items@.len() - i,
    {
        proof {
            lemma_list_onto_step(s0, items@, colorgroup_step(), i as int);
        }
        write_colorgroup(out, &items[i]);
        i += 1;
    }
    proof {
        lemma_list_onto_all(s0, items@, colorgroup_step());
    }
}

fn write_compositematerials_list(out: &mut Vec<XmlEvent>, items: &Vec<CompositeMaterials>)
    ensures
        events_view(final(out)@) == list_onto(events_view(old(out)@), items@, compositematerials_step()),
{
    let ghost s0 = events_view(out@);
    let mut i: usize = 0;
    while i < items.len()
        invariant
            i <= items@.len(),
            events_view(out@) == list_onto(s0, items@.take(i as int), compositematerials_step()),
        decreases items@.len() - i,
    {
        proof {
            lemma_list_onto_step(s0, items@, compositematerials_step(), i as int);
        }
        write_compositematerials(out, &items[i]);
        i += 1;
    }
    proof {
        lemma_list_onto_all(s0, items@, compositematerials_step());
    }
}

fn write_multiproperties_list(out: &mut Vec<XmlEvent>, items: &Vec<MultiProperties>)
    ensures
        events_view(final(out)@) == list_onto(events_view(old(out)@), items@, multiproperties_step()),
{
    let ghost s0 = events_view(out@);
    let mut i: usize = 0;
    while i < items.len()
        invariant
            i <= items@.len(),
            events_view(out@) == list_onto(s0, items@.take(i as int), multiproperties_step()),
        decreases items@.len() - i,
    {
        proof {
            lemma_list_onto_step(s0, items@, multiproperties_step(), i as int);
        }
        write_multiproperties(out, &items[i]);
        i += 1;
    }
    proof {
        lemma_list_onto_all(s0, items@, multiproperties_step());
    }
}

fn write_normvectorgroup_list(out: &mut Vec<XmlEvent>, items: &Vec<NormVectorGroup>)
    ensures
        events_view(final(out)@) == list_onto(events_view(old(out)@), items@, normvectorgroup_step()),
{
    let ghost s0 = events_view(out@);
    let mut i: usize = 0;
    while i < items.len()
        invariant
            i <= items@.len(),
            events_view(out@) == list_onto(s0, items@.take(i as int), normvectorgroup_step()),
        decreases items@.len() - i,
    {
        proof {
            lemma_list_onto_step(s0, items@, normvectorgroup_step(), i as int);
        }
        write_normvectorgroup(out, &items[i]);
        i += 1;
    }
    proof {
        lemma_list_onto_all(s0, items@, normvectorgroup_step());
    }
}

fn write_disp2dgroup_list(out: &mut Vec<XmlEvent>, items: &Vec<Disp2DGroup>)
    ensures
        events_view(final(out)@) == list_onto(events_view(old(out)@), items@, disp2dgroup_step()),
{
    let ghost s0 = events_view(out@);
    let mut i: usize = 0;
    while i < items.len()
        invariant
            i <= items@.len(),
            events_view(out@) == list_onto(s0, items@.take(i as int), disp2dgroup_step()),
        decreases items@.len() - i,
    {
        proof {
            lemma_list_onto_step(s0, items@, disp2dgroup_step(), i as int);
        }
        write_disp2dgroup(out, &items[i]);
        i += 1;
    }
    proof {
        lemma_list_onto_all(s0, items@, disp2dgroup_step());
    }
}

fn write_object_list(out: &mut Vec<XmlEvent>, items: &Vec<Object>)
    ensures
        events_view(final(out)@) == list_onto(events_view(old(out)@), items@, object_step()),
{
    let ghost s0 = events_view(out@);
    let mut i: usize = 0;
    while i < items.len()
        invariant
            i <= items@.len(),
            events_view(out@) == list_onto(s0, items@.take(i as int), object_step()),
        decreases items@.len() - i,
    {
        proof {
            lemma_list_onto_step(s0, items@, object_step(), i as int);
        }
        write_object(out, &items[i]);
        i += 1;
    }
    proof {
        lemma_list_onto_all(s0, items@, object_step());
    }
}

fn write_metadata_list(out: &mut Vec<XmlEvent>, items: &Vec<MetadataEntry>)
    ensures
        events_view(final(out)@) == list_onto(events_view(old(out)@), items@, metadata_step()),
{
    let ghost s0 = events_view(out@);
    let mut i: usize = 0;
    while i < items.len()
        invariant
            i <= items@.len(),
            events_view(out@) == list_onto(s0, items@.take(i as int), metadata_step()),
        decreases items@.len() - i,
    {
        proof {
            lemma_list_onto_step(s0, items@, metadata_step(), i as int);
        }
        write_metadata(out, &items[i]);
        i += 1;
    }
    proof {
        lemma_list_onto_all(s0, items@, metadata_step());
    }
}

/// `s0` followed by the names of `items`, separated by spaces.
pub open spec fn blends_onto(s0: Seq<char>, items: Seq<BlendMethod>) -> Seq<char>
    decreases items.len(),
{
    if items.len() == 0 {
        s0
    } else if items.len() == 1 {
        s0 + blend_text(items[0])
    } else {
        blends_onto(s0, items.drop_last()) + " "@ + blend_text(items.last())
    }
}

/// The attribute text of a blend method.
pub open spec fn blend_text(b: BlendMethod) -> Seq<char> {
    match b {
        BlendMethod::Mix => "mix"@,
        BlendMethod::Multiply => "multiply"@,
    }
}

/// The names of `items`, separated by spaces.
pub open spec fn blends_text(items: Seq<BlendMethod>) -> Seq<char> {
    blends_onto(Seq::empty(), items)
}

fn blends_value(items: &Vec<BlendMethod>) -> (v: XmlValue)
    ensures
        value_view(v) == ValueView::Text(blends_text(items@)),
{
    let mut s = String::new();
    let mut i: usize = 0;
    while i < items.len()
        invariant
            i <= items@.len(),
            s@ == blends_onto(Seq::empty(), items@.take(i as int)),
        decreases items@.len() - i,
    {
        let ghost t = items@.take(i + 1);
        proof {
            assert(t.drop_last() =~= items@.take(i as int));
        }
        if i > 0 {
            push_text(&mut s, " ");
        }
        match items[i] {
            BlendMethod::Mix => push_text(&mut s, "mix"),
            BlendMethod::Multiply => push_text(&mut s, "multiply"),
        }
        proof {
            if i == 0 {
                assert(s@ =~= Seq::<char>::empty() + blend_text(t[0]));
            }
        }
        i += 1;
    }
    proof {
        assert(items@.take(items@.len() as int) =~= items@);
    }
    XmlValue::Text(s)
}

/// The attribute text of a cap mode.
pub open spec fn cap_text(c: BeamCapMode) -> Seq<char> {
    match c {
        BeamCapMode::Sphere => "sphere"@,
        BeamCapMode::Hemisphere => "hemisphere"@,
        BeamCapMode::Butt => "butt"@,
    }
}

fn cap_value(c: BeamCapMode) -> (v: XmlValue)
    ensures
        value_view(v) == ValueView::Text(cap_text(c)),
{
    match c {
        BeamCapMode::Sphere => text_value("sphere"),
        BeamCapMode::Hemisphere => text_value("hemisphere"),
        BeamCapMode::Butt => text_value("butt"),
    }
}

/// The attribute text of a boolean operation.
pub open spec fn op_text(o: BooleanOpType) -> Seq<char> {
    match o {
        BooleanOpType::Union => "union"@,
        BooleanOpType::Intersection => "intersection"@,
        BooleanOpType::Difference => "difference"@,
    }
}

fn op_value(o: BooleanOpType) -> (v: XmlValue)
    ensures
        value_view(v) == ValueView::Text(op_text(o)),
{
    match o {
        BooleanOpType::Union => text_value("union"),
        BooleanOpType::Intersection => text_value("intersection"),
        BooleanOpType::Difference => text_value("difference"),
    }
}


/// Events of a `<mesh>` element after `s`: its vertices, its triangles and
/// its beam lattice, if it has one.
pub open spec fn mesh_onto(s: Seq<EventView>, m: Mesh) -> Seq<EventView> {
    let s1 = triangles_onto(
        vertices_onto(s.push(EventView::Start("mesh"@, Seq::empty())), m.vertices@),
        m.triangles@,
    );
    let s2 = match m.beamset {
        Some(b) => beamset_onto(s1, b),
        None => s1,
    };
    s2.push(EventView::End("mesh"@))
}

fn write_mesh(out: &mut Vec<XmlEvent>, m: &Mesh)
    ensures
        events_view(final(out)@) == mesh_onto(events_view(old(out)@), *m),
{
    start_bare(out, "mesh");
    write_vertices(out, &m.vertices);
    write_triangles(out, &m.triangles);
    if let Some(b) = &m.beamset {
        write_beamset(out, b);
    }
    end(out, "mesh");
}

/// The attribute text of an object type.
pub open spec fn object_type_attr(t: ObjectType) -> Seq<char> {
    match t {
        ObjectType::Model => "model"@,
        ObjectType::Support => "support"@,
        ObjectType::SolidSupport => "solidsupport"@,
        ObjectType::Surface => "surface"@,
        ObjectType::Other => "other"@,
    }
}

fn object_type_value(t: ObjectType) -> (v: XmlValue)
    ensures
        value_view(v) == ValueView::Text(object_type_attr(t)),
{
    match t {
        ObjectType::Model => text_value("model"),
        ObjectType::Support => text_value("support"),
        ObjectType::SolidSupport => text_value("solidsupport"),
        ObjectType::Surface => text_value("surface"),
        ObjectType::Other => text_value("other"),
    }
}

/// The production extension attributes of an object.
pub open spec fn production_attrs(p: Option<ProductionInfo>) -> Seq<AttrView> {
    match p {
        Some(i) => opt_text_attr("p:UUID"@, i.uuid) + opt_text_attr("p:path"@, i.path),
        None => Seq::empty(),
    }
}

/// The attributes of an `<object>` element.
pub open spec fn object_attrs(o: Object) -> Seq<AttrView> {
    seq![("id"@, int_text(o.id)), ("type"@, ValueView::Text(object_type_attr(o.object_type)))]
        + opt_text_attr("name"@, o.name) + opt_int_attr("pid"@, o.pid) + opt_int_attr(
        "pindex"@,
        o.pindex,
    ) + production_attrs(o.production)
}

/// Events of an `<object>` element after `s`: its mesh, its components (where
/// it has any) and its boolean shape, each where present.
pub open spec fn object_onto(s: Seq<EventView>, o: Object) -> Seq<EventView> {
    let s1 = s.push(EventView::Start("object"@, object_attrs(o)));
    let s2 = match o.mesh {
        Some(m) => mesh_onto(s1, m),
        None => s1,
    };
    let s3 = if o.components@.len() == 0 {
        s2
    } else {
        components_onto(s2, o.components@)
    };
    let s4 = match o.boolean_shape {
        Some(b) => booleanshape_onto(s3, b),
        None => s3,
    };
    s4.push(EventView::End("object"@))
}

pub open spec fn object_step() -> spec_fn(Seq<EventView>, Object) -> Seq<EventView> {
    |s: Seq<EventView>, o: Object| object_onto(s, o)
}

fn write_object(out: &mut Vec<XmlEvent>, o: &Object)
    ensures
        events_view(final(out)@) == object_onto(events_view(old(out)@), *o),
{
    let mut a = new_attrs();
    add_int(&mut a, "id", o.id);
    add_attr(&mut a, "type", object_type_value(o.object_type));
    add_opt_text(&mut a, "name", &o.name);
    add_opt_int(&mut a, "pid", o.pid);
    add_opt_int(&mut a, "pindex", o.pindex);
    let ghost a0 = attrs_view(a@);
    if let Some(p) = &o.production {
        add_opt_text(&mut a, "p:UUID", &p.uuid);
        add_opt_text(&mut a, "p:path", &p.path);
    }
    proof {
        assert(attrs_view(a@) =~= a0 + production_attrs(o.production));
        assert(attrs_view(a@) =~= object_attrs(*o));
    }
    start(out, "object", a);
    if let Some(m) = &o.mesh {
        write_mesh(out, m);
    }
    if o.components.len() > 0 {
        write_components(out, &o.components);
    }
    if let Some(b) = &o.boolean_shape {
        write_booleanshape(out, b);
    }
    end(out, "object");
}

/// Events of the `<resources>` element after `s`: the property groups by
/// kind, then the objects, each in the order the model holds them.
pub open spec fn resources_onto(s: Seq<EventView>, r: Resources) -> Seq<EventView> {
    let s1 = list_onto(
        s.push(EventView::Start("resources"@, Seq::empty())),
        r.base_material_groups@,
        basematerials_step(),
    );
    let s2 = list_onto(s1, r.texture2d_resources@, texture2d_step());
    let s3 = list_onto(s2, r.texture2d_groups@, texture2dgroup_step());
    let s4 = list_onto(s3, r.color_groups@, colorgroup_step());
    let s5 = list_onto(s4, r.composite_materials@, compositematerials_step());
    let s6 = list_onto(s5, r.multi_properties@, multiproperties_step());
    let s7 = list_onto(s6, r.norm_vector_groups@, normvectorgroup_step());
    let s8 = list_onto(s7, r.disp2d_groups@, disp2dgroup_step());
    let s9 = list_onto(s8, r.objects@, object_step());
    s9.push(EventView::End("resources"@))
}

fn write_resources(out: &mut Vec<XmlEvent>, r: &Resources)
    ensures
        events_view(final(out)@) == resources_onto(events_view(old(out)@), *r),
{
    start_bare(out, "resources");
    write_basematerials_list(out, &r.base_material_groups);
    write_texture2d_list(out, &r.texture2d_resources);
    write_texture2dgroup_list(out, &r.texture2d_groups);
    write_colorgroup_list(out, &r.color_groups);
    write_compositematerials_list(out, &r.composite_materials);
    write_multiproperties_list(out, &r.multi_properties);
    write_normvectorgroup_list(out, &r.norm_vector_groups);
    write_disp2dgroup_list(out, &r.disp2d_groups);
    write_object_list(out, &r.objects);
    end(out, "resources");
}


/// The namespace prefix of an extension; the core has none.
pub open spec fn ext_prefix(e: Extension) -> Seq<char> {
    match e {
        Extension::Core => Seq::empty(),
        Extension::Material => "m"@,
        Extension::Production => "p"@,
        Extension::Slice => "s"@,
        Extension::BeamLattice => "b"@,
        Extension::SecureContent => "sc"@,
        Extension::BooleanOperations => "bool"@,
        Extension::Displacement => "d"@,
        Extension::Volumetric => "v"@,
    }
}

/// The namespace of an extension.
pub open spec fn ext_namespace(e: Extension) -> Seq<char> {
    match e {
        Extension::Core => "http://schemas.microsoft.com/3dmanufacturing/core/2015/02"@,
        Extension::Material => "http://schemas.microsoft.com/3dmanufacturing/material/2015/02"@,
        Extension::Production => "http://schemas.microsoft.com/3dmanufacturing/production/2015/06"@,
        Extension::Slice => "http://schemas.microsoft.com/3dmanufacturing/slice/2015/07"@,
        Extension::BeamLattice => "http://schemas.microsoft.com/3dmanufacturing/beamlattice/2017/02"@,
        Extension::SecureContent => "http://schemas.microsoft.com/3dmanufacturing/securecontent/2019/04"@,
        Extension::BooleanOperations => "http://schemas.3mf.io/3dmanufacturing/booleanoperations/2023/07"@,
        Extension::Displacement => "http://schemas.microsoft.com/3dmanufacturing/displacement/2022/07"@,
        Extension::Volumetric => "http://schemas.3mf.io/volumetric/2023/02"@,
    }
}

fn ext_prefix_str(e: Extension) -> (r: &'static str)
    ensures
        r@ == ext_prefix(e),
        e != Extension::Core ==> r@.len() > 0,
{
    proof {
        reveal_strlit("m");
        reveal_strlit("p");
        reveal_strlit("s");
        reveal_strlit("b");
        reveal_strlit("sc");
        reveal_strlit("bool");
        reveal_strlit("d");
        reveal_strlit("v");
        reveal_strlit("");
    }
    match e {
        Extension::Core => "",
        Extension::Material => "m",
        Extension::Production => "p",
        Extension::Slice => "s",
        Extension::BeamLattice => "b",
        Extension::SecureContent => "sc",
        Extension::BooleanOperations => "bool",
        Extension::Displacement => "d",
        Extension::Volumetric => "v",
    }
}

fn ext_namespace_str(e: Extension) -> (r: &'static str)
    ensures
        r@ == ext_namespace(e),
{
    match e {
        Extension::Core => "http://schemas.microsoft.com/3dmanufacturing/core/2015/02",
        Extension::Material => "http://schemas.microsoft.com/3dmanufacturing/material/2015/02",
        Extension::Production => "http://schemas.microsoft.com/3dmanufacturing/production/2015/06",
        Extension::Slice => "http://schemas.microsoft.com/3dmanufacturing/slice/2015/07",
        Extension::BeamLattice => "http://schemas.microsoft.com/3dmanufacturing/beamlattice/2017/02",
        Extension::SecureContent => "http://schemas.microsoft.com/3dmanufacturing/securecontent/2019/04",
        Extension::BooleanOperations => "http://schemas.3mf.io/3dmanufacturing/booleanoperations/2023/07",
        Extension::Displacement => "http://schemas.microsoft.com/3dmanufacturing/displacement/2022/07",
        Extension::Volumetric => "http://schemas.3mf.io/volumetric/2023/02",
    }
}

/// One `xmlns:<prefix>` attribute per extension other than the core.
pub open spec fn namespace_step() -> spec_fn(Seq<AttrView>, Extension) -> Seq<AttrView> {
    |a: Seq<AttrView>, e: Extension|
        if e == Extension::Core {
            a
        } else {
            a.push(("xmlns:"@ + ext_prefix(e), ValueView::Text(ext_namespace(e))))
        }
}

/// The prefixes of the extensions other than the core, separated by spaces.
pub open spec fn prefix_step() -> spec_fn(Seq<char>, Extension) -> Seq<char> {
    |t: Seq<char>, e: Extension|
        if e == Extension::Core {
            t
        } else if t.len() == 0 {
            ext_prefix(e)
        } else {
            t + " "@ + ext_prefix(e)
        }
}

/// The `requiredextensions` attribute, where an extension other than the
/// core is required.
pub open spec fn required_attr(exts: Seq<Extension>) -> Seq<AttrView> {
    let names = list_onto(Seq::<char>::empty(), exts, prefix_step());
    if names.len() == 0 {
        Seq::empty()
    } else {
        seq![("requiredextensions"@, ValueView::Text(names))]
    }
}

/// The attributes of the `<model>` element.
pub open spec fn model_attrs(m: Model) -> Seq<AttrView> {
    let a0 = seq![
        ("unit"@, ValueView::Text(m.unit@)),
        ("xml:lang"@, ValueView::Text("en-US"@)),
        ("xmlns"@, ValueView::Text(m.xmlns@)),
    ];
    list_onto(a0, m.required_extensions@, namespace_step()) + required_attr(
        m.required_extensions@,
    )
}

fn add_owned(attrs: &mut Vec<(String, XmlValue)>, name: String, value: XmlValue)
    ensures
        attrs_view(final(attrs)@) == attrs_view(old(attrs)@).push((name@, value_view(value))),
{
    let ghost v = value_view(value);
    let ghost n = name@;
    attrs.push((name, value));
    proof {
        assert(attrs_view(attrs@) =~= attrs_view(old(attrs)@).push((n, v)));
    }
}

fn model_attr_list(m: &Model) -> (a: Vec<(String, XmlValue)>)
    ensures
        attrs_view(a@) == model_attrs(*m),
{
    let mut a = new_attrs();
    add_attr(&mut a, "unit", string_value(&m.unit));
    add_attr(&mut a, "xml:lang", text_value("en-US"));
    add_attr(&mut a, "xmlns", string_value(&m.xmlns));
    let ghost a0 = attrs_view(a@);
    proof {
        assert(a0 =~= seq![
            ("unit"@, ValueView::Text(m.unit@)),
            ("xml:lang"@, ValueView::Text("en-US"@)),
            ("xmlns"@, ValueView::Text(m.xmlns@)),
        ]);
    }
    let exts = &m.required_extensions;
    let mut names = String::new();
    let mut any = false;
    let mut i: usize = 0;
    while i < exts.len()
        invariant
            i <= exts@.len(),
            attrs_view(a@) == list_onto(a0, exts@.take(i as int), namespace_step()),
            names@ == list_onto(Seq::<char>::empty(), exts@.take(i as int), prefix_step()),
            any <==> names@.len() > 0,
        decreases exts@.len() - i,
    {
        proof {
            lemma_list_onto_step(a0, exts@, namespace_step(), i as int);
            lemma_list_onto_step(Seq::<char>::empty(), exts@, prefix_step(), i as int);
        }
        let e = exts[i];
        match e {
            Extension::Core => {},
            _ => {
                let prefix = ext_prefix_str(e);
                let mut n = String::from_str("xmlns:");
                push_text(&mut n, prefix);
                add_owned(&mut a, n, text_value(ext_namespace_str(e)));
                if any {
                    push_text(&mut names, " ");
                }
                push_text(&mut names, prefix);
                any = true;
            },
        }
        i += 1;
    }
    proof {
        lemma_list_onto_all(a0, exts@, namespace_step());
        lemma_list_onto_all(Seq::<char>::empty(), exts@, prefix_step());
    }
    let ghost a1 = attrs_view(a@);
    if any {
        add_attr(&mut a, "requiredextensions", XmlValue::Text(names));
    }
    proof {
        assert(attrs_view(a@) =~= a1 + required_attr(m.required_extensions@));
    }
    a
}

/// Events of a whole model document after `s`: the XML declaration, then the
/// `<model>` element with its metadata, resources and build.
pub open spec fn model_onto(s: Seq<EventView>, m: Model) -> Seq<EventView> {
    let s1 = list_onto(
        s.push(EventView::Decl).push(EventView::Start("model"@, model_attrs(m))),
        m.metadata@,
        metadata_step(),
    );
    build_onto(resources_onto(s1, m.resources), m.build).push(EventView::End("model"@))
}

/// The events of the model XML (`3dmodel.model`) of a model.
pub open spec fn model_events(m: Model) -> Seq<EventView> {
    model_onto(Seq::empty(), m)
}

/// The model as 3MF model XML, as a sequence of XML events.
pub fn model_xml_events(model: &Model) -> (events: Vec<XmlEvent>)
    ensures
        events_view(events@) == model_events(*model),
{
    let mut out: Vec<XmlEvent> = Vec::new();
    proof {
        assert(events_view(out@) =~= Seq::<EventView>::empty());
    }
    emit(&mut out, XmlEvent::Decl);
    start(&mut out, "model", model_attr_list(model));
    write_metadata_list(&mut out, &model.metadata);
    write_resources(&mut out, &model.resources);
    write_build(&mut out, &model.build);
    end(&mut out, "model");
    out
}


// ---------------------------------------------------------------------------
// Nesting of the events
// ---------------------------------------------------------------------------

/// The open elements after `open`, then the event `e`.
pub open spec fn close_step(open: Option<Seq<Seq<char>>>, e: EventView) -> Option<Seq<Seq<char>>> {
    match open {
        None => None,
        Some(st) => match e {
            EventView::Start(n, _) => Some(st.push(n)),
            EventView::End(n) => if st.len() > 0 && st.last() == n {
                Some(st.drop_last())
            } else {
                None
            },
            _ => Some(st),
        },
    }
}

/// The names of the elements that `s` leaves open, innermost last; `None`
/// where an end tag does not close the innermost open element.
pub open spec fn open_elements(s: Seq<EventView>) -> Option<Seq<Seq<char>>>
    decreases s.len(),
{
    if s.len() == 0 {
        Some(Seq::empty())
    } else {
        close_step(open_elements(s.drop_last()), s.last())
    }
}

/// One more event changes the open elements as `close_step` says.
pub broadcast proof fn lemma_open_elements_push(s: Seq<EventView>, e: EventView)
    ensures
        #[trigger] open_elements(s.push(e)) == close_step(open_elements(s), e),
{
    assert(s.push(e).drop_last() =~= s);
}

proof fn lemma_pop(st: Seq<Seq<char>>, n: Seq<char>)
    ensures
        st.push(n).drop_last() == st,
        st.push(n).last() == n,
{
    assert(st.push(n).drop_last() =~= st);
}

/// `f` leaves the open elements as they were, after any events that are well
/// nested so far.
pub open spec fn keeps_nesting<A>(f: spec_fn(Seq<EventView>, A) -> Seq<EventView>) -> bool {
    forall|s: Seq<EventView>, x: A|
        open_elements(s) is Some ==> #[trigger] open_elements(f(s, x)) == open_elements(s)
}

proof fn lemma_list_keeps<A>(s: Seq<EventView>, items: Seq<A>, f: spec_fn(Seq<EventView>, A) -> Seq<EventView>)
    requires
        keeps_nesting(f),
        open_elements(s) is Some,
    ensures
        open_elements(list_onto(s, items, f)) == open_elements(s),
    decreases items.len(),
{
    if items.len() > 0 {
        lemma_list_keeps(s, items.drop_last(), f);
    }
}

proof fn lemma_base_keeps()
    ensures
        keeps_nesting(base_step()),
{
    broadcast use lemma_open_elements_push;

    assert forall|s: Seq<EventView>, x: BaseMaterial| open_elements(s) is Some implies #[trigger] open_elements(
        base_step()(s, x),
    ) == open_elements(s) by {}
}

proof fn lemma_texture2d_keeps()
    ensures
        keeps_nesting(texture2d_step()),
{
    broadcast use lemma_open_elements_push;

    assert forall|s: Seq<EventView>, x: Texture2D| open_elements(s) is Some implies #[trigger] open_elements(
        texture2d_step()(s, x),
    ) == open_elements(s) by {}
}

proof fn lemma_tex2coord_keeps()
    ensures
        keeps_nesting(tex2coord_step()),
{
    broadcast use lemma_open_elements_push;

    assert forall|s: Seq<EventView>, x: Tex2Coord| open_elements(s) is Some implies #[trigger] open_elements(
        tex2coord_step()(s, x),
    ) == open_elements(s) by {}
}

proof fn lemma_color_keeps()
    ensures
        keeps_nesting(color_step()),
{
    broadcast use lemma_open_elements_push;

    assert forall|s: Seq<EventView>, x: Color| open_elements(s) is Some implies #[trigger] open_elements(
        color_step()(s, x),
    ) == open_elements(s) by {}
}

proof fn lemma_composite_keeps()
    ensures
        keeps_nesting(composite_step()),
{
    broadcast use lemma_open_elements_push;

    assert forall|s: Seq<EventView>, x: Composite| open_elements(s) is Some implies #[trigger] open_elements(
        composite_step()(s, x),
    ) == open_elements(s) by {}
}

proof fn lemma_multi_keeps()
    ensures
        keeps_nesting(multi_step()),
{
    broadcast use lemma_open_elements_push;

    assert forall|s: Seq<EventView>, x: Multi| open_elements(s) is Some implies #[trigger] open_elements(
        multi_step()(s, x),
    ) == open_elements(s) by {}
}

proof fn lemma_normvector_keeps()
    ensures
        keeps_nesting(normvector_step()),
{
    broadcast use lemma_open_elements_push;

    assert forall|s: Seq<EventView>, x: NormVector| open_elements(s) is Some implies #[trigger] open_elements(
        normvector_step()(s, x),
    ) == open_elements(s) by {}
}

proof fn lemma_disp2d_keeps()
    ensures
        keeps_nesting(disp2d_step()),
{
    broadcast use lemma_open_elements_push;

    assert forall|s: Seq<EventView>, x: Disp2DCoord| open_elements(s) is Some implies #[trigger] open_elements(
        disp2d_step()(s, x),
    ) == open_elements(s) by {}
}

proof fn lemma_vertex_keeps()
    ensures
        keeps_nesting(vertex_step()),
{
    broadcast use lemma_open_elements_push;

    assert forall|s: Seq<EventView>, x: Vertex| open_elements(s) is Some implies #[trigger] open_elements(
        vertex_step()(s, x),
    ) == open_elements(s) by {}
}

proof fn lemma_triangle_keeps()
    ensures
        keeps_nesting(triangle_step()),
{
    broadcast use lemma_open_elements_push;

    assert forall|s: Seq<EventView>, x: Triangle| open_elements(s) is Some implies #[trigger] open_elements(
        triangle_step()(s, x),
    ) == open_elements(s) by {}
}

proof fn lemma_beam_keeps()
    ensures
        keeps_nesting(beam_step()),
{
    broadcast use lemma_open_elements_push;

    assert forall|s: Seq<EventView>, x: Beam| open_elements(s) is Some implies #[trigger] open_elements(
        beam_step()(s, x),
    ) == open_elements(s) by {}
}

proof fn lemma_component_keeps()
    ensures
        keeps_nesting(component_step()),
{
    broadcast use lemma_open_elements_push;

    assert forall|s: Seq<EventView>, x: Component| open_elements(s) is Some implies #[trigger] open_elements(
        component_step()(s, x),
    ) == open_elements(s) by {}
}

proof fn lemma_booleanref_keeps()
    ensures
        keeps_nesting(booleanref_step()),
{
    broadcast use lemma_open_elements_push;

    assert forall|s: Seq<EventView>, x: BooleanRef| open_elements(s) is Some implies #[trigger] open_elements(
        booleanref_step()(s, x),
    ) == open_elements(s) by {}
}

proof fn lemma_item_keeps()
    ensures
        keeps_nesting(item_step()),
{
    broadcast use lemma_open_elements_push;

    assert forall|s: Seq<EventView>, x: BuildItem| open_elements(s) is Some implies #[trigger] open_elements(
        item_step()(s, x),
    ) == open_elements(s) by {}
}

proof fn lemma_basematerials_keeps()
    ensures
        keeps_nesting(basematerials_step()),
{
    broadcast use lemma_open_elements_push;

    lemma_base_keeps();
    assert forall|s: Seq<EventView>, g: BaseMaterialGroup| open_elements(s) is Some implies #[trigger] open_elements(
        basematerials_step()(s, g),
    ) == open_elements(s) by {
        let st = open_elements(s)->0;
        let s1 = s.push(EventView::Start("m:basematerials"@, seq![("id"@, int_text(g.id))]));
        lemma_list_keeps(s1, g.materials@, base_step());
        lemma_pop(st, "m:basematerials"@);
    }
}

proof fn lemma_texture2dgroup_keeps()
    ensures
        keeps_nesting(texture2dgroup_step()),
{
    broadcast use lemma_open_elements_push;

    lemma_tex2coord_keeps();
    assert forall|s: Seq<EventView>, g: Texture2DGroup| open_elements(s) is Some implies #[trigger] open_elements(
        texture2dgroup_step()(s, g),
    ) == open_elements(s) by {
        let st = open_elements(s)->0;
        let s1 = s.push(EventView::Start("m:texture2dgroup"@, texture2dgroup_attrs(g)));
        lemma_list_keeps(s1, g.tex2coords@, tex2coord_step());
        lemma_pop(st, "m:texture2dgroup"@);
    }
}

proof fn lemma_colorgroup_keeps()
    ensures
        keeps_nesting(colorgroup_step()),
{
    broadcast use lemma_open_elements_push;

    lemma_color_keeps();
    assert forall|s: Seq<EventView>, g: ColorGroup| open_elements(s) is Some implies #[trigger] open_elements(
        colorgroup_step()(s, g),
    ) == open_elements(s) by {
        let st = open_elements(s)->0;
        let s1 = s.push(EventView::Start("m:colorgroup"@, colorgroup_attrs(g)));
        lemma_list_keeps(s1, g.colors@, color_step());
        lemma_pop(st, "m:colorgroup"@);
    }
}

proof fn lemma_compositematerials_keeps()
    ensures
        keeps_nesting(compositematerials_step()),
{
    broadcast use lemma_open_elements_push;

    lemma_composite_keeps();
    assert forall|s: Seq<EventView>, g: CompositeMaterials| open_elements(s) is Some implies #[trigger] open_elements(
        compositematerials_step()(s, g),
    ) == open_elements(s) by {
        let st = open_elements(s)->0;
        let s1 = s.push(EventView::Start("m:compositematerials"@, compositematerials_attrs(g)));
        lemma_list_keeps(s1, g.composites@, composite_step());
        lemma_pop(st, "m:compositematerials"@);
    }
}

proof fn lemma_multiproperties_keeps()
    ensures
        keeps_nesting(multiproperties_step()),
{
    broadcast use lemma_open_elements_push;

    lemma_multi_keeps();
    assert forall|s: Seq<EventView>, g: MultiProperties| open_elements(s) is Some implies #[trigger] open_elements(
        multiproperties_step()(s, g),
    ) == open_elements(s) by {
        let st = open_elements(s)->0;
        let s1 = s.push(EventView::Start("m:multiproperties"@, multiproperties_attrs(g)));
        lemma_list_keeps(s1, g.multis@, multi_step());
        lemma_pop(st, "m:multiproperties"@);
    }
}

proof fn lemma_normvectorgroup_keeps()
    ensures
        keeps_nesting(normvectorgroup_step()),
{
    broadcast use lemma_open_elements_push;

    lemma_normvector_keeps();
    assert forall|s: Seq<EventView>, g: NormVectorGroup| open_elements(s) is Some implies #[trigger] open_elements(
        normvectorgroup_step()(s, g),
    ) == open_elements(s) by {
        let st = open_elements(s)->0;
        let s1 = s.push(EventView::Start("d:normvectorgroup"@, normvectorgroup_attrs(g)));
        lemma_list_keeps(s1, g.vectors@, normvector_step());
        lemma_pop(st, "d:normvectorgroup"@);
    }
}

proof fn lemma_disp2dgroup_keeps()
    ensures
        keeps_nesting(disp2dgroup_step()),
{
    broadcast use lemma_open_elements_push;

    lemma_disp2d_keeps();
    assert forall|s: Seq<EventView>, g: Disp2DGroup| open_elements(s) is Some implies #[trigger] open_elements(
        disp2dgroup_step()(s, g),
    ) == open_elements(s) by {
        let st = open_elements(s)->0;
        let s1 = s.push(EventView::Start("d:disp2dgroup"@, disp2dgroup_attrs(g)));
        lemma_list_keeps(s1, g.coords@, disp2d_step());
        lemma_pop(st, "d:disp2dgroup"@);
    }
}

proof fn lemma_beamset_keeps()
    ensures
        keeps_nesting(beamset_step()),
{
    broadcast use lemma_open_elements_push;

    lemma_beam_keeps();
    assert forall|s: Seq<EventView>, g: BeamSet| open_elements(s) is Some implies #[trigger] open_elements(
        beamset_step()(s, g),
    ) == open_elements(s) by {
        let st = open_elements(s)->0;
        let s1 = s.push(EventView::Start("b:beamset"@, beamset_attrs(g)));
        lemma_list_keeps(s1, g.beams@, beam_step());
        lemma_pop(st, "b:beamset"@);
    }
}

proof fn lemma_booleanshape_keeps()
    ensures
        keeps_nesting(booleanshape_step()),
{
    broadcast use lemma_open_elements_push;

    lemma_booleanref_keeps();
    assert forall|s: Seq<EventView>, g: BooleanShape| open_elements(s) is Some implies #[trigger] open_elements(
        booleanshape_step()(s, g),
    ) == open_elements(s) by {
        let st = open_elements(s)->0;
        let s1 = s.push(EventView::Start("bool:booleanshape"@, booleanshape_attrs(g)));
        lemma_list_keeps(s1, g.operands@, booleanref_step());
        lemma_pop(st, "bool:booleanshape"@);
    }
}

proof fn lemma_build_keeps()
    ensures
        keeps_nesting(build_step()),
{
    broadcast use lemma_open_elements_push;

    lemma_item_keeps();
    assert forall|s: Seq<EventView>, g: Build| open_elements(s) is Some implies #[trigger] open_elements(
        build_step()(s, g),
    ) == open_elements(s) by {
        let st = open_elements(s)->0;
        let s1 = s.push(EventView::Start("build"@, build_attrs(g)));
        lemma_list_keeps(s1, g.items@, item_step());
        lemma_pop(st, "build"@);
    }
}

proof fn lemma_metadata_keeps()
    ensures
        keeps_nesting(metadata_step()),
{
    broadcast use lemma_open_elements_push;

    assert forall|s: Seq<EventView>, e: MetadataEntry| open_elements(s) is Some implies #[trigger] open_elements(
        metadata_step()(s, e),
    ) == open_elements(s) by {
        lemma_pop(open_elements(s)->0, "metadata"@);
    }
}

proof fn lemma_bare_list_keeps<A>(
    s: Seq<EventView>,
    name: Seq<char>,
    items: Seq<A>,
    f: spec_fn(Seq<EventView>, A) -> Seq<EventView>,
)
    requires
        keeps_nesting(f),
        open_elements(s) is Some,
    ensures
        open_elements(
            list_onto(s.push(EventView::Start(name, Seq::empty())), items, f).push(EventView::End(name)),
        ) == open_elements(s),
{
    broadcast use lemma_open_elements_push;

    lemma_list_keeps(s.push(EventView::Start(name, Seq::empty())), items, f);
    lemma_pop(open_elements(s)->0, name);
}

proof fn lemma_mesh_keeps(s: Seq<EventView>, m: Mesh)
    requires
        open_elements(s) is Some,
    ensures
        open_elements(mesh_onto(s, m)) == open_elements(s),
{
    broadcast use lemma_open_elements_push;

    lemma_vertex_keeps();
    lemma_triangle_keeps();
    lemma_beamset_keeps();
    let st = open_elements(s)->0;
    let s0 = s.push(EventView::Start("mesh"@, Seq::empty()));
    let s1 = vertices_onto(s0, m.vertices@);
    assert(open_elements(s0) == Some(st.push("mesh"@)));
    lemma_bare_list_keeps(s0, "vertices"@, m.vertices@, vertex_step());
    lemma_bare_list_keeps(s1, "triangles"@, m.triangles@, triangle_step());
    let s2 = triangles_onto(s1, m.triangles@);
    if let Some(b) = m.beamset {
        assert(open_elements(beamset_step()(s2, b)) == open_elements(s2));
    }
    lemma_pop(st, "mesh"@);
}

proof fn lemma_object_keeps()
    ensures
        keeps_nesting(object_step()),
{
    broadcast use lemma_open_elements_push;

    lemma_component_keeps();
    lemma_booleanshape_keeps();
    assert forall|s: Seq<EventView>, o: Object| open_elements(s) is Some implies #[trigger] open_elements(
        object_step()(s, o),
    ) == open_elements(s) by {
        let st = open_elements(s)->0;
        let s1 = s.push(EventView::Start("object"@, object_attrs(o)));
        if let Some(m) = o.mesh {
            lemma_mesh_keeps(s1, m);
        }
        let s2 = match o.mesh {
            Some(m) => mesh_onto(s1, m),
            None => s1,
        };
        if o.components@.len() > 0 {
            lemma_bare_list_keeps(s2, "components"@, o.components@, component_step());
        }
        let s3 = if o.components@.len() == 0 {
            s2
        } else {
            components_onto(s2, o.components@)
        };
        if let Some(b) = o.boolean_shape {
            assert(open_elements(booleanshape_step()(s3, b)) == open_elements(s3));
        }
        lemma_pop(st, "object"@);
    }
}

proof fn lemma_resources_keeps(s: Seq<EventView>, r: Resources)
    requires
        open_elements(s) is Some,
    ensures
        open_elements(resources_onto(s, r)) == open_elements(s),
{
    broadcast use lemma_open_elements_push;

    lemma_basematerials_keeps();
    lemma_texture2d_keeps();
    lemma_texture2dgroup_keeps();
    lemma_colorgroup_keeps();
    lemma_compositematerials_keeps();
    lemma_multiproperties_keeps();
    lemma_normvectorgroup_keeps();
    lemma_disp2dgroup_keeps();
    lemma_object_keeps();
    let st = open_elements(s)->0;
    let s0 = s.push(EventView::Start("resources"@, Seq::empty()));
    let s1 = list_onto(s0, r.base_material_groups@, basematerials_step());
    let s2 = list_onto(s1, r.texture2d_resources@, texture2d_step());
    let s3 = list_onto(s2, r.texture2d_groups@, texture2dgroup_step());
    let s4 = list_onto(s3, r.color_groups@, colorgroup_step());
    let s5 = list_onto(s4, r.composite_materials@, compositematerials_step());
    let s6 = list_onto(s5, r.multi_properties@, multiproperties_step());
    let s7 = list_onto(s6, r.norm_vector_groups@, normvectorgroup_step());
    let s8 = list_onto(s7, r.disp2d_groups@, disp2dgroup_step());
    lemma_list_keeps(s0, r.base_material_groups@, basematerials_step());
    lemma_list_keeps(s1, r.texture2d_resources@, texture2d_step());
    lemma_list_keeps(s2, r.texture2d_groups@, texture2dgroup_step());
    lemma_list_keeps(s3, r.color_groups@, colorgroup_step());
    lemma_list_keeps(s4, r.composite_materials@, compositematerials_step());
    lemma_list_keeps(s5, r.multi_properties@, multiproperties_step());
    lemma_list_keeps(s6, r.norm_vector_groups@, normvectorgroup_step());
    lemma_list_keeps(s7, r.disp2d_groups@, disp2dgroup_step());
    lemma_list_keeps(s8, r.objects@, object_step());
    lemma_pop(st, "resources"@);
}

/// The model XML events are well nested: each end tag closes the innermost
/// open element, and every element the events open is closed.
pub proof fn lemma_model_events_well_nested(m: Model)
    ensures
        open_elements(model_events(m)) == Some(Seq::<Seq<char>>::empty()),
{
    broadcast use lemma_open_elements_push;

    lemma_metadata_keeps();
    lemma_build_keeps();
    let e = Seq::<EventView>::empty();
    let s0 = e.push(EventView::Decl).push(EventView::Start("model"@, model_attrs(m)));
    assert(open_elements(e.push(EventView::Decl)) == Some(Seq::<Seq<char>>::empty()));
    let s1 = list_onto(s0, m.metadata@, metadata_step());
    lemma_list_keeps(s0, m.metadata@, metadata_step());
    lemma_resources_keeps(s1, m.resources);
    let s2 = resources_onto(s1, m.resources);
    assert(open_elements(build_step()(s2, m.build)) == open_elements(s2));
    lemma_pop(Seq::<Seq<char>>::empty(), "model"@);
}


// ---------------------------------------------------------------------------
// Reading the vertices back
// ---------------------------------------------------------------------------

/// The value of the first attribute named `name` in `a`.
pub open spec fn attr_value(a: Seq<AttrView>, name: Seq<char>) -> Option<ValueView>
    decreases a.len(),
{
    if a.len() == 0 {
        None
    } else if a[0].0 == name {
        Some(a[0].1)
    } else {
        attr_value(a.drop_first(), name)
    }
}

/// The one binary64 value of the attribute `name` of `a`, where it has one.
pub open spec fn attr_number(a: Seq<AttrView>, name: Seq<char>) -> Option<u64> {
    match attr_value(a, name) {
        Some(ValueView::Numbers(ns)) => if ns.len() == 1 {
            Some(ns[0])
        } else {
            None
        },
        _ => None,
    }
}

/// The coordinates (x, y, z) that a `<vertex>` element gives, read back from
/// its attributes by name.
pub open spec fn read_vertex(e: EventView) -> Option<(u64, u64, u64)> {
    match e {
        EventView::Empty(name, a) => if name == "vertex"@ {
            match (attr_number(a, "x"@), attr_number(a, "y"@), attr_number(a, "z"@)) {
                (Some(x), Some(y), Some(z)) => Some((x, y, z)),
                _ => None,
            }
        } else {
            None
        },
        _ => None,
    }
}

/// `u` is a prefix of `t`.
pub open spec fn prefix_of(u: Seq<EventView>, t: Seq<EventView>) -> bool {
    u.len() <= t.len() && forall|i: int| 0 <= i < u.len() ==> #[trigger] t[i] == u[i]
}

/// Some event of `t` satisfies `p`.
pub open spec fn has_event(t: Seq<EventView>, p: spec_fn(EventView) -> bool) -> bool {
    exists|k: int| 0 <= k < t.len() && p(#[trigger] t[k])
}

/// A `<vertex>` element that reads back as `xyz`.
pub open spec fn vertex_is(xyz: (u64, u64, u64)) -> spec_fn(EventView) -> bool {
    |e: EventView| read_vertex(e) == Some(xyz)
}

/// Some event of `t` is a vertex element that reads back as `xyz`.
pub open spec fn has_vertex(t: Seq<EventView>, xyz: (u64, u64, u64)) -> bool {
    has_event(t, vertex_is(xyz))
}

/// The text of the attribute `name` of `a`, where it is text.
pub open spec fn attr_text(a: Seq<AttrView>, name: Seq<char>) -> Option<Seq<char>> {
    match attr_value(a, name) {
        Some(ValueView::Text(t)) => Some(t),
        _ => None,
    }
}

/// The vertex indices that a `<triangle>` element gives, read back as the
/// text of its `v1`, `v2` and `v3` attributes.
pub open spec fn read_triangle(e: EventView) -> Option<(Seq<char>, Seq<char>, Seq<char>)> {
    match e {
        EventView::Empty(name, a) => if name == "triangle"@ {
            match (attr_text(a, "v1"@), attr_text(a, "v2"@), attr_text(a, "v3"@)) {
                (Some(x), Some(y), Some(z)) => Some((x, y, z)),
                _ => None,
            }
        } else {
            None
        },
        _ => None,
    }
}

/// A `<triangle>` element whose vertex indices read back, in decimal, as
/// `v1`, `v2` and `v3`.
pub open spec fn triangle_is(v1: usize, v2: usize, v3: usize) -> spec_fn(EventView) -> bool {
    |e: EventView| read_triangle(e) == Some((decimal(v1 as nat), decimal(v2 as nat), decimal(v3 as nat)))
}

/// `f` only appends to the events it is given.
pub open spec fn extends_all<A>(f: spec_fn(Seq<EventView>, A) -> Seq<EventView>) -> bool {
    forall|s: Seq<EventView>, x: A| #[trigger] prefix_of(s, f(s, x))
}

proof fn lemma_prefix_trans(a: Seq<EventView>, b: Seq<EventView>, c: Seq<EventView>)
    requires
        prefix_of(a, b),
        prefix_of(b, c),
    ensures
        prefix_of(a, c),
{
    assert forall|i: int| 0 <= i < a.len() implies #[trigger] c[i] == a[i] by {
        assert(c[i] == b[i]);
    }
}

proof fn lemma_prefix_push(s: Seq<EventView>, e: EventView)
    ensures
        prefix_of(s, s.push(e)),
{
    assert forall|i: int| 0 <= i < s.len() implies #[trigger] s.push(e)[i] == s[i] by {}
}

proof fn lemma_prefix_has_event(u: Seq<EventView>, t: Seq<EventView>, p: spec_fn(EventView) -> bool)
    requires
        prefix_of(u, t),
        has_event(u, p),
    ensures
        has_event(t, p),
{
    let k = choose|k: int| 0 <= k < u.len() && p(#[trigger] u[k]);
    assert(t[k] == u[k]);
}

proof fn lemma_list_prefix_take<A>(
    s: Seq<EventView>,
    items: Seq<A>,
    f: spec_fn(Seq<EventView>, A) -> Seq<EventView>,
    j: int,
    n: int,
)
    requires
        extends_all(f),
        0 <= j <= n <= items.len(),
    ensures
        prefix_of(list_onto(s, items.take(j), f), list_onto(s, items.take(n), f)),
    decreases n - j,
{
    let a = list_onto(s, items.take(j), f);
    if j == n {
        assert forall|i: int| 0 <= i < a.len() implies #[trigger] a[i] == a[i] by {}
    } else {
        lemma_list_prefix_take(s, items, f, j, n - 1);
        lemma_list_onto_step(s, items, f, n - 1);
        let b = list_onto(s, items.take(n - 1), f);
        assert(prefix_of(b, f(b, items[n - 1])));
        lemma_prefix_trans(a, b, list_onto(s, items.take(n), f));
    }
}

proof fn lemma_list_extends<A>(s: Seq<EventView>, items: Seq<A>, f: spec_fn(Seq<EventView>, A) -> Seq<EventView>)
    requires
        extends_all(f),
    ensures
        prefix_of(s, list_onto(s, items, f)),
{
    lemma_list_prefix_take(s, items, f, 0, items.len() as int);
    lemma_list_onto_all(s, items, f);
    assert(items.take(0).len() == 0);
}

proof fn lemma_list_item<A>(
    s: Seq<EventView>,
    items: Seq<A>,
    f: spec_fn(Seq<EventView>, A) -> Seq<EventView>,
    j: int,
)
    requires
        extends_all(f),
        0 <= j < items.len(),
    ensures
        prefix_of(f(list_onto(s, items.take(j), f), items[j]), list_onto(s, items, f)),
{
    lemma_list_onto_step(s, items, f, j);
    lemma_list_prefix_take(s, items, f, j + 1, items.len() as int);
    lemma_list_onto_all(s, items, f);
}

proof fn lemma_wrapped_extends<A>(
    s: Seq<EventView>,
    a: EventView,
    items: Seq<A>,
    f: spec_fn(Seq<EventView>, A) -> Seq<EventView>,
    b: EventView,
)
    requires
        extends_all(f),
    ensures
        prefix_of(s, list_onto(s.push(a), items, f).push(b)),
{
    lemma_prefix_push(s, a);
    lemma_list_extends(s.push(a), items, f);
    lemma_prefix_trans(s, s.push(a), list_onto(s.push(a), items, f));
    lemma_prefix_push(list_onto(s.push(a), items, f), b);
    lemma_prefix_trans(s, list_onto(s.push(a), items, f), list_onto(s.push(a), items, f).push(b));
}

proof fn lemma_empty_step_extends<A>(f: spec_fn(Seq<EventView>, A) -> Seq<EventView>)
    requires
        forall|s: Seq<EventView>, x: A| #[trigger] f(s, x) == s.push(f(s, x).last()) && f(s, x).len()
            == s.len() + 1,
    ensures
        extends_all(f),
{
    assert forall|s: Seq<EventView>, x: A| #[trigger] prefix_of(s, f(s, x)) by {
        lemma_prefix_push(s, f(s, x).last());
    }
}

proof fn lemma_item_steps_extend()
    ensures
        extends_all(vertex_step()),
        extends_all(triangle_step()),
        extends_all(beam_step()),
        extends_all(component_step()),
        extends_all(booleanref_step()),
        extends_all(item_step()),
{
    assert forall|s: Seq<EventView>, x: Vertex| #[trigger] prefix_of(s, vertex_step()(s, x)) by {
        lemma_prefix_push(s, EventView::Empty("vertex"@, vertex_attrs(x)));
    }
    assert forall|s: Seq<EventView>, x: Triangle| #[trigger] prefix_of(s, triangle_step()(s, x)) by {
        lemma_prefix_push(s, EventView::Empty("triangle"@, triangle_attrs(x)));
    }
    assert forall|s: Seq<EventView>, x: Beam| #[trigger] prefix_of(s, beam_step()(s, x)) by {
        lemma_prefix_push(s, EventView::Empty("b:beam"@, beam_attrs(x)));
    }
    assert forall|s: Seq<EventView>, x: Component| #[trigger] prefix_of(s, component_step()(s, x)) by {
        lemma_prefix_push(s, EventView::Empty("component"@, component_attrs(x)));
    }
    assert forall|s: Seq<EventView>, x: BooleanRef| #[trigger] prefix_of(s, booleanref_step()(s, x)) by {
        lemma_prefix_push(s, EventView::Empty("bool:booleanref"@, booleanref_attrs(x)));
    }
    assert forall|s: Seq<EventView>, x: BuildItem| #[trigger] prefix_of(s, item_step()(s, x)) by {
        lemma_prefix_push(s, EventView::Empty("item"@, item_attrs(x)));
    }
}

proof fn lemma_mesh_extends(s: Seq<EventView>, m: Mesh)
    ensures
        prefix_of(s, mesh_onto(s, m)),
{
    lemma_item_steps_extend();
    let s0 = s.push(EventView::Start("mesh"@, Seq::empty()));
    lemma_prefix_push(s, EventView::Start("mesh"@, Seq::empty()));
    let v = vertices_onto(s0, m.vertices@);
    lemma_wrapped_extends(s0, EventView::Start("vertices"@, Seq::empty()), m.vertices@, vertex_step(), EventView::End("vertices"@));
    lemma_prefix_trans(s, s0, v);
    let t = triangles_onto(v, m.triangles@);
    lemma_wrapped_extends(v, EventView::Start("triangles"@, Seq::empty()), m.triangles@, triangle_step(), EventView::End("triangles"@));
    lemma_prefix_trans(s, v, t);
    let s2 = match m.beamset {
        Some(b) => beamset_onto(t, b),
        None => t,
    };
    if let Some(b) = m.beamset {
        lemma_wrapped_extends(t, EventView::Start("b:beamset"@, beamset_attrs(b)), b.beams@, beam_step(), EventView::End("b:beamset"@));
        lemma_prefix_trans(s, t, s2);
    }
    lemma_prefix_push(s2, EventView::End("mesh"@));
    lemma_prefix_trans(s, s2, mesh_onto(s, m));
}

/// The events of a mesh hold each of its vertices, reading back as its
/// coordinates.
proof fn lemma_mesh_has_vertex(s: Seq<EventView>, m: Mesh, j: int)
    requires
        0 <= j < m.vertices@.len(),
    ensures
        has_vertex(mesh_onto(s, m), (m.vertices@[j].x, m.vertices@[j].y, m.vertices@[j].z)),
{
    reveal_strlit("vertex");
    reveal_strlit("x");
    reveal_strlit("y");
    reveal_strlit("z");
    lemma_item_steps_extend();
    let v = m.vertices@[j];
    let xyz = (v.x, v.y, v.z);
    let p = vertex_is(xyz);
    let s0 = s.push(EventView::Start("mesh"@, Seq::empty()));
    let v0 = s0.push(EventView::Start("vertices"@, Seq::empty()));
    let before = list_onto(v0, m.vertices@.take(j), vertex_step());
    let u = vertex_step()(before, v);
    assert(u[u.len() - 1] == EventView::Empty("vertex"@, vertex_attrs(v)));
    let a = vertex_attrs(v);
    assert("x"@[0] == 'x' && "y"@[0] == 'y' && "z"@[0] == 'z');
    assert("x"@ != "y"@ && "x"@ != "z"@ && "y"@ != "z"@);
    assert(attr_value(a, "x"@) == Some(num(v.x)));
    assert(a.drop_first()[0].0 == "y"@);
    assert(attr_value(a.drop_first(), "y"@) == Some(num(v.y)));
    assert(a.drop_first().drop_first()[0].0 == "z"@);
    assert(attr_value(a.drop_first().drop_first(), "z"@) == Some(num(v.z)));
    assert(attr_value(a, "y"@) == Some(num(v.y)));
    assert(attr_value(a.drop_first(), "z"@) == Some(num(v.z)));
    assert(attr_value(a, "z"@) == Some(num(v.z)));
    assert(read_vertex(u[u.len() - 1]) == Some(xyz));
    assert(p(u[u.len() - 1]));
    assert(has_event(u, p));
    lemma_list_item(v0, m.vertices@, vertex_step(), j);
    let l = list_onto(v0, m.vertices@, vertex_step());
    lemma_prefix_has_event(u, l, p);
    let vs = vertices_onto(s0, m.vertices@);
    lemma_prefix_push(l, EventView::End("vertices"@));
    lemma_prefix_has_event(l, vs, p);
    let t = triangles_onto(vs, m.triangles@);
    lemma_wrapped_extends(vs, EventView::Start("triangles"@, Seq::empty()), m.triangles@, triangle_step(), EventView::End("triangles"@));
    lemma_prefix_has_event(vs, t, p);
    let s2 = match m.beamset {
        Some(b) => beamset_onto(t, b),
        None => t,
    };
    if let Some(b) = m.beamset {
        lemma_wrapped_extends(t, EventView::Start("b:beamset"@, beamset_attrs(b)), b.beams@, beam_step(), EventView::End("b:beamset"@));
        lemma_prefix_has_event(t, s2, p);
    }
    lemma_prefix_push(s2, EventView::End("mesh"@));
    lemma_prefix_has_event(s2, mesh_onto(s, m), p);
}

/// The events of a mesh hold each of its triangles, reading back as its
/// vertex indices.
proof fn lemma_mesh_has_triangle(s: Seq<EventView>, m: Mesh, j: int)
    requires
        0 <= j < m.triangles@.len(),
    ensures
        has_event(
            mesh_onto(s, m),
            triangle_is(m.triangles@[j].v1, m.triangles@[j].v2, m.triangles@[j].v3),
        ),
{
    reveal_strlit("triangle");
    reveal_strlit("v1");
    reveal_strlit("v2");
    reveal_strlit("v3");
    lemma_item_steps_extend();
    let t = m.triangles@[j];
    let p = triangle_is(t.v1, t.v2, t.v3);
    let s0 = s.push(EventView::Start("mesh"@, Seq::empty()));
    let vs = vertices_onto(s0, m.vertices@);
    let t0 = vs.push(EventView::Start("triangles"@, Seq::empty()));
    let before = list_onto(t0, m.triangles@.take(j), triangle_step());
    let u = triangle_step()(before, t);
    let a = triangle_attrs(t);
    assert("v1"@[1] == '1' && "v2"@[1] == '2' && "v3"@[1] == '3');
    assert("v1"@ != "v2"@ && "v1"@ != "v3"@ && "v2"@ != "v3"@);
    assert(a[0] == ("v1"@, int_text(t.v1)));
    assert(a[1] == ("v2"@, int_text(t.v2)));
    assert(a[2] == ("v3"@, int_text(t.v3)));
    assert(attr_value(a, "v1"@) == Some(int_text(t.v1)));
    assert(a.drop_first()[0] == a[1]);
    assert(attr_value(a.drop_first(), "v2"@) == Some(int_text(t.v2)));
    assert(attr_value(a, "v2"@) == Some(int_text(t.v2)));
    assert(a.drop_first().drop_first()[0] == a[2]);
    assert(attr_value(a.drop_first().drop_first(), "v3"@) == Some(int_text(t.v3)));
    assert(attr_value(a.drop_first(), "v3"@) == Some(int_text(t.v3)));
    assert(attr_value(a, "v3"@) == Some(int_text(t.v3)));
    assert(p(u[u.len() - 1]));
    assert(has_event(u, p));
    lemma_list_item(t0, m.triangles@, triangle_step(), j);
    let l = list_onto(t0, m.triangles@, triangle_step());
    lemma_prefix_has_event(u, l, p);
    let ts = triangles_onto(vs, m.triangles@);
    lemma_prefix_push(l, EventView::End("triangles"@));
    lemma_prefix_has_event(l, ts, p);
    let s2 = match m.beamset {
        Some(b) => beamset_onto(ts, b),
        None => ts,
    };
    if let Some(b) = m.beamset {
        lemma_wrapped_extends(ts, EventView::Start("b:beamset"@, beamset_attrs(b)), b.beams@, beam_step(), EventView::End("b:beamset"@));
        lemma_prefix_has_event(ts, s2, p);
    }
    lemma_prefix_push(s2, EventView::End("mesh"@));
    lemma_prefix_has_event(s2, mesh_onto(s, m), p);
}

proof fn lemma_object_parts(s: Seq<EventView>, o: Object)
    ensures
        prefix_of(s, object_onto(s, o)),
        o.mesh is Some ==> prefix_of(
            mesh_onto(s.push(EventView::Start("object"@, object_attrs(o))), o.mesh->0),
            object_onto(s, o),
        ),
{
    lemma_item_steps_extend();
    let s1 = s.push(EventView::Start("object"@, object_attrs(o)));
    lemma_prefix_push(s, EventView::Start("object"@, object_attrs(o)));
    let s2 = match o.mesh {
        Some(m) => mesh_onto(s1, m),
        None => s1,
    };
    if let Some(m) = o.mesh {
        lemma_mesh_extends(s1, m);
    }
    lemma_prefix_trans(s, s1, s2);
    let s3 = if o.components@.len() == 0 {
        s2
    } else {
        components_onto(s2, o.components@)
    };
    if o.components@.len() > 0 {
        lemma_wrapped_extends(s2, EventView::Start("components"@, Seq::empty()), o.components@, component_step(), EventView::End("components"@));
    } else {
        lemma_prefix_push(s2, EventView::Start("x"@, Seq::empty()));
        assert(prefix_of(s2, s3));
    }
    let s4 = match o.boolean_shape {
        Some(b) => booleanshape_onto(s3, b),
        None => s3,
    };
    if let Some(b) = o.boolean_shape {
        lemma_wrapped_extends(s3, EventView::Start("bool:booleanshape"@, booleanshape_attrs(b)), b.operands@, booleanref_step(), EventView::End("bool:booleanshape"@));
    } else {
        assert(prefix_of(s3, s4)) by {
            lemma_prefix_push(s3, EventView::Decl);
        }
    }
    lemma_prefix_push(s4, EventView::End("object"@));
    lemma_prefix_trans(s2, s3, s4);
    lemma_prefix_trans(s2, s4, object_onto(s, o));
    lemma_prefix_trans(s, s2, object_onto(s, o));
}

proof fn lemma_object_rest_extends(s: Seq<EventView>, o: Object)
    requires
        o.mesh is None,
    ensures
        prefix_of(s.push(EventView::Start("object"@, object_attrs(o))), object_onto(s, o)),
{
    lemma_item_steps_extend();
    let s1 = s.push(EventView::Start("object"@, object_attrs(o)));
    let s3 = if o.components@.len() == 0 {
        s1
    } else {
        components_onto(s1, o.components@)
    };
    if o.components@.len() > 0 {
        lemma_wrapped_extends(s1, EventView::Start("components"@, Seq::empty()), o.components@, component_step(), EventView::End("components"@));
    } else {
        lemma_prefix_push(s1, EventView::Decl);
        assert(prefix_of(s1, s3));
    }
    let s4 = match o.boolean_shape {
        Some(b) => booleanshape_onto(s3, b),
        None => s3,
    };
    if let Some(b) = o.boolean_shape {
        lemma_wrapped_extends(s3, EventView::Start("bool:booleanshape"@, booleanshape_attrs(b)), b.operands@, booleanref_step(), EventView::End("bool:booleanshape"@));
    } else {
        lemma_prefix_push(s3, EventView::Decl);
        assert(prefix_of(s3, s4));
    }
    lemma_prefix_push(s4, EventView::End("object"@));
    lemma_prefix_trans(s3, s4, object_onto(s, o));
    lemma_prefix_trans(s1, s3, object_onto(s, o));
}

proof fn lemma_object_step_extends()
    ensures
        extends_all(object_step()),
{
    assert forall|s: Seq<EventView>, o: Object| #[trigger] prefix_of(s, object_step()(s, o)) by {
        lemma_object_parts(s, o);
    }
}

/// Where every events of the mesh of object `i` hold an event satisfying
/// `p`, wherever they are written, the model XML holds one too.
proof fn lemma_model_holds_mesh_event(m: Model, i: int, p: spec_fn(EventView) -> bool)
    requires
        0 <= i < m.resources.objects@.len(),
        m.resources.objects@[i].mesh is Some,
        forall|s: Seq<EventView>| #[trigger] has_event(mesh_onto(s, m.resources.objects@[i].mesh->0), p),
    ensures
        has_event(model_events(m), p),
{
    let r = m.resources;
    let e = Seq::<EventView>::empty();
    let s0 = e.push(EventView::Decl).push(EventView::Start("model"@, model_attrs(m)));
    let s1 = list_onto(s0, m.metadata@, metadata_step());
    let s8 = list_onto(
        list_onto(
            list_onto(
                list_onto(
                    list_onto(
                        list_onto(
                            list_onto(
                                list_onto(
                                    s1.push(EventView::Start("resources"@, Seq::empty())),
                                    r.base_material_groups@,
                                    basematerials_step(),
                                ),
                                r.texture2d_resources@,
                                texture2d_step(),
                            ),
                            r.texture2d_groups@,
                            texture2dgroup_step(),
                        ),
                        r.color_groups@,
                        colorgroup_step(),
                    ),
                    r.composite_materials@,
                    compositematerials_step(),
                ),
                r.multi_properties@,
                multiproperties_step(),
            ),
            r.norm_vector_groups@,
            normvectorgroup_step(),
        ),
        r.disp2d_groups@,
        disp2dgroup_step(),
    );
    let objs = list_onto(s8, r.objects@, object_step());
    let res = resources_onto(s1, r);
    assert(res == objs.push(EventView::End("resources"@)));
    lemma_object_step_extends();
    lemma_item_steps_extend();
    let o = r.objects@[i];
    let mesh = o.mesh->0;
    let before = list_onto(s8, r.objects@.take(i), object_step());
    let s1o = before.push(EventView::Start("object"@, object_attrs(o)));
    assert(has_event(mesh_onto(s1o, mesh), p));
    lemma_object_parts(before, o);
    lemma_prefix_has_event(mesh_onto(s1o, mesh), object_onto(before, o), p);
    lemma_list_item(s8, r.objects@, object_step(), i);
    lemma_prefix_has_event(object_step()(before, o), objs, p);
    lemma_prefix_push(objs, EventView::End("resources"@));
    lemma_prefix_has_event(objs, res, p);
    let b = build_onto(res, m.build);
    lemma_wrapped_extends(res, EventView::Start("build"@, build_attrs(m.build)), m.build.items@, item_step(), EventView::End("build"@));
    lemma_prefix_has_event(res, b, p);
    lemma_prefix_push(b, EventView::End("model"@));
    lemma_prefix_has_event(b, model_events(m), p);
}

/// Every vertex of every object's mesh is written: some event of the model
/// XML is a `<vertex>` element whose `x`, `y` and `z` attributes read back
/// as that vertex's coordinates.
pub proof fn lemma_model_events_hold_vertices(m: Model)
    ensures
        forall|i: int, j: int|
            #![trigger m.resources.objects@[i].mesh->0.vertices@[j]]
            0 <= i < m.resources.objects@.len() && m.resources.objects@[i].mesh is Some && 0 <= j
                < m.resources.objects@[i].mesh->0.vertices@.len() ==> {
                let v = m.resources.objects@[i].mesh->0.vertices@[j];
                has_vertex(model_events(m), (v.x, v.y, v.z))
            },
{
    assert forall|i: int, j: int|
        #![trigger m.resources.objects@[i].mesh->0.vertices@[j]]
        0 <= i < m.resources.objects@.len() && m.resources.objects@[i].mesh is Some && 0 <= j
            < m.resources.objects@[i].mesh->0.vertices@.len() implies {
        let v = m.resources.objects@[i].mesh->0.vertices@[j];
        has_vertex(model_events(m), (v.x, v.y, v.z))
    } by {
        let mesh = m.resources.objects@[i].mesh->0;
        let v = mesh.vertices@[j];
        assert forall|s: Seq<EventView>| #[trigger] has_event(mesh_onto(s, mesh), vertex_is((v.x, v.y, v.z))) by {
            lemma_mesh_has_vertex(s, mesh, j);
        }
        lemma_model_holds_mesh_event(m, i, vertex_is((v.x, v.y, v.z)));
    }
}

/// Every triangle of every object's mesh is written: some event of the model
/// XML is a `<triangle>` element whose `v1`, `v2` and `v3` attributes read
/// back as that triangle's vertex indices in decimal.
pub proof fn lemma_model_events_hold_triangles(m: Model)
    ensures
        forall|i: int, j: int|
            #![trigger m.resources.objects@[i].mesh->0.triangles@[j]]
            0 <= i < m.resources.objects@.len() && m.resources.objects@[i].mesh is Some && 0 <= j
                < m.resources.objects@[i].mesh->0.triangles@.len() ==> {
                let t = m.resources.objects@[i].mesh->0.triangles@[j];
                has_event(model_events(m), triangle_is(t.v1, t.v2, t.v3))
            },
{
    assert forall|i: int, j: int|
        #![trigger m.resources.objects@[i].mesh->0.triangles@[j]]
        0 <= i < m.resources.objects@.len() && m.resources.objects@[i].mesh is Some && 0 <= j
            < m.resources.objects@[i].mesh->0.triangles@.len() implies {
        let t = m.resources.objects@[i].mesh->0.triangles@[j];
        has_event(model_events(m), triangle_is(t.v1, t.v2, t.v3))
    } by {
        let mesh = m.resources.objects@[i].mesh->0;
        let t = mesh.triangles@[j];
        assert forall|s: Seq<EventView>| #[trigger] has_event(mesh_onto(s, mesh), triangle_is(t.v1, t.v2, t.v3)) by {
            lemma_mesh_has_triangle(s, mesh, j);
        }
        lemma_model_holds_mesh_event(m, i, triangle_is(t.v1, t.v2, t.v3));
    }
}


proof fn lemma_resource_steps_extend()
    ensures
        extends_all(basematerials_step()),
        extends_all(texture2d_step()),
        extends_all(texture2dgroup_step()),
        extends_all(colorgroup_step()),
        extends_all(compositematerials_step()),
        extends_all(multiproperties_step()),
        extends_all(normvectorgroup_step()),
        extends_all(disp2dgroup_step()),
        extends_all(metadata_step()),
{
    assert forall|s: Seq<EventView>, x: BaseMaterial| #[trigger] prefix_of(s, base_step()(s, x)) by {
        lemma_prefix_push(s, base_step()(s, x).last());
        assert(base_step()(s, x) == s.push(base_step()(s, x).last()));
    }
    assert forall|s: Seq<EventView>, x: Texture2D| #[trigger] prefix_of(s, texture2d_step()(s, x)) by {
        lemma_prefix_push(s, texture2d_step()(s, x).last());
        assert(texture2d_step()(s, x) == s.push(texture2d_step()(s, x).last()));
    }
    assert forall|s: Seq<EventView>, x: Tex2Coord| #[trigger] prefix_of(s, tex2coord_step()(s, x)) by {
        lemma_prefix_push(s, tex2coord_step()(s, x).last());
        assert(tex2coord_step()(s, x) == s.push(tex2coord_step()(s, x).last()));
    }
    assert forall|s: Seq<EventView>, x: Color| #[trigger] prefix_of(s, color_step()(s, x)) by {
        lemma_prefix_push(s, color_step()(s, x).last());
        assert(color_step()(s, x) == s.push(color_step()(s, x).last()));
    }
    assert forall|s: Seq<EventView>, x: Composite| #[trigger] prefix_of(s, composite_step()(s, x)) by {
        lemma_prefix_push(s, composite_step()(s, x).last());
        assert(composite_step()(s, x) == s.push(composite_step()(s, x).last()));
    }
    assert forall|s: Seq<EventView>, x: Multi| #[trigger] prefix_of(s, multi_step()(s, x)) by {
        lemma_prefix_push(s, multi_step()(s, x).last());
        assert(multi_step()(s, x) == s.push(multi_step()(s, x).last()));
    }
    assert forall|s: Seq<EventView>, x: NormVector| #[trigger] prefix_of(s, normvector_step()(s, x)) by {
        lemma_prefix_push(s, normvector_step()(s, x).last());
        assert(normvector_step()(s, x) == s.push(normvector_step()(s, x).last()));
    }
    assert forall|s: Seq<EventView>, x: Disp2DCoord| #[trigger] prefix_of(s, disp2d_step()(s, x)) by {
        lemma_prefix_push(s, disp2d_step()(s, x).last());
        assert(disp2d_step()(s, x) == s.push(disp2d_step()(s, x).last()));
    }
    assert forall|s: Seq<EventView>, g: BaseMaterialGroup| #[trigger] prefix_of(s, basematerials_step()(s, g)) by {
        lemma_wrapped_extends(s, EventView::Start("m:basematerials"@, seq![("id"@, int_text(g.id))]), g.materials@, base_step(), EventView::End("m:basematerials"@));
    }
    assert forall|s: Seq<EventView>, g: Texture2DGroup| #[trigger] prefix_of(s, texture2dgroup_step()(s, g)) by {
        lemma_wrapped_extends(s, EventView::Start("m:texture2dgroup"@, texture2dgroup_attrs(g)), g.tex2coords@, tex2coord_step(), EventView::End("m:texture2dgroup"@));
    }
    assert forall|s: Seq<EventView>, g: ColorGroup| #[trigger] prefix_of(s, colorgroup_step()(s, g)) by {
        lemma_wrapped_extends(s, EventView::Start("m:colorgroup"@, colorgroup_attrs(g)), g.colors@, color_step(), EventView::End("m:colorgroup"@));
    }
    assert forall|s: Seq<EventView>, g: CompositeMaterials| #[trigger] prefix_of(s, compositematerials_step()(s, g)) by {
        lemma_wrapped_extends(s, EventView::Start("m:compositematerials"@, compositematerials_attrs(g)), g.composites@, composite_step(), EventView::End("m:compositematerials"@));
    }
    assert forall|s: Seq<EventView>, g: MultiProperties| #[trigger] prefix_of(s, multiproperties_step()(s, g)) by {
        lemma_wrapped_extends(s, EventView::Start("m:multiproperties"@, multiproperties_attrs(g)), g.multis@, multi_step(), EventView::End("m:multiproperties"@));
    }
    assert forall|s: Seq<EventView>, g: NormVectorGroup| #[trigger] prefix_of(s, normvectorgroup_step()(s, g)) by {
        lemma_wrapped_extends(s, EventView::Start("d:normvectorgroup"@, normvectorgroup_attrs(g)), g.vectors@, normvector_step(), EventView::End("d:normvectorgroup"@));
    }
    assert forall|s: Seq<EventView>, g: Disp2DGroup| #[trigger] prefix_of(s, disp2dgroup_step()(s, g)) by {
        lemma_wrapped_extends(s, EventView::Start("d:disp2dgroup"@, disp2dgroup_attrs(g)), g.coords@, disp2d_step(), EventView::End("d:disp2dgroup"@));
    }
    assert forall|s: Seq<EventView>, e: MetadataEntry| #[trigger] prefix_of(s, metadata_step()(s, e)) by {
        let a = s.push(metadata_step()(s, e)[s.len() as int]);
        let b = a.push(metadata_step()(s, e)[s.len() + 1int]);
        lemma_prefix_push(s, metadata_step()(s, e)[s.len() as int]);
        lemma_prefix_push(a, metadata_step()(s, e)[s.len() + 1int]);
        lemma_prefix_push(b, EventView::End("metadata"@));
        assert(metadata_step()(s, e) == b.push(EventView::End("metadata"@)));
        lemma_prefix_trans(s, a, b);
        lemma_prefix_trans(s, b, metadata_step()(s, e));
    }
}

proof fn lemma_resources_extends(s: Seq<EventView>, r: Resources)
    ensures
        prefix_of(s, resources_onto(s, r)),
{
    lemma_resource_steps_extend();
    lemma_object_step_extends();
    let s0 = s.push(EventView::Start("resources"@, Seq::empty()));
    lemma_prefix_push(s, EventView::Start("resources"@, Seq::empty()));
    let s1 = list_onto(s0, r.base_material_groups@, basematerials_step());
    let s2 = list_onto(s1, r.texture2d_resources@, texture2d_step());
    let s3 = list_onto(s2, r.texture2d_groups@, texture2dgroup_step());
    let s4 = list_onto(s3, r.color_groups@, colorgroup_step());
    let s5 = list_onto(s4, r.composite_materials@, compositematerials_step());
    let s6 = list_onto(s5, r.multi_properties@, multiproperties_step());
    let s7 = list_onto(s6, r.norm_vector_groups@, normvectorgroup_step());
    let s8 = list_onto(s7, r.disp2d_groups@, disp2dgroup_step());
    let s9 = list_onto(s8, r.objects@, object_step());
    lemma_list_extends(s0, r.base_material_groups@, basematerials_step());
    lemma_list_extends(s1, r.texture2d_resources@, texture2d_step());
    lemma_list_extends(s2, r.texture2d_groups@, texture2dgroup_step());
    lemma_list_extends(s3, r.color_groups@, colorgroup_step());
    lemma_list_extends(s4, r.composite_materials@, compositematerials_step());
    lemma_list_extends(s5, r.multi_properties@, multiproperties_step());
    lemma_list_extends(s6, r.norm_vector_groups@, normvectorgroup_step());
    lemma_list_extends(s7, r.disp2d_groups@, disp2dgroup_step());
    lemma_list_extends(s8, r.objects@, object_step());
    lemma_prefix_trans(s, s0, s1);
    lemma_prefix_trans(s, s1, s2);
    lemma_prefix_trans(s, s2, s3);
    lemma_prefix_trans(s, s3, s4);
    lemma_prefix_trans(s, s4, s5);
    lemma_prefix_trans(s, s5, s6);
    lemma_prefix_trans(s, s6, s7);
    lemma_prefix_trans(s, s7, s8);
    lemma_prefix_trans(s, s8, s9);
    lemma_prefix_push(s9, EventView::End("resources"@));
    lemma_prefix_trans(s, s9, resources_onto(s, r));
}

/// A `<metadata>` start tag whose `name` attribute reads back as `name`,
/// followed by the text `value`.
pub open spec fn metadata_at(t: Seq<EventView>, k: int, name: Seq<char>, value: Seq<char>) -> bool {
    &&& 0 <= k && k + 1 < t.len()
    &&& t[k] matches EventView::Start(n, a) && n == "metadata"@ && attr_text(a, "name"@) == Some(name)
    &&& t[k + 1] == EventView::Text(value)
}

/// Every metadata entry is written: the model XML has a `<metadata>` element
/// whose `name` attribute reads back as the entry's name and whose text is
/// its value.
pub proof fn lemma_model_events_hold_metadata(m: Model)
    ensures
        forall|j: int|
            0 <= j < m.metadata@.len() ==> exists|k: int|
                metadata_at(
                    model_events(m),
                    k,
                    (#[trigger] m.metadata@[j]).name@,
                    m.metadata@[j].value@,
                ),
{
    reveal_strlit("name");
    lemma_resource_steps_extend();
    lemma_item_steps_extend();
    let e = Seq::<EventView>::empty();
    let s0 = e.push(EventView::Decl).push(EventView::Start("model"@, model_attrs(m)));
    let s1 = list_onto(s0, m.metadata@, metadata_step());
    let res = resources_onto(s1, m.resources);
    let b = build_onto(res, m.build);
    let t = model_events(m);
    lemma_resources_extends(s1, m.resources);
    lemma_wrapped_extends(res, EventView::Start("build"@, build_attrs(m.build)), m.build.items@, item_step(), EventView::End("build"@));
    lemma_prefix_push(b, EventView::End("model"@));
    lemma_prefix_trans(s1, res, b);
    lemma_prefix_trans(s1, b, t);
    assert forall|j: int| 0 <= j < m.metadata@.len() implies exists|k: int|
        metadata_at(t, k, (#[trigger] m.metadata@[j]).name@, m.metadata@[j].value@) by {
        let en = m.metadata@[j];
        let before = list_onto(s0, m.metadata@.take(j), metadata_step());
        let u = metadata_step()(before, en);
        lemma_list_item(s0, m.metadata@, metadata_step(), j);
        lemma_prefix_trans(u, s1, t);
        let k = before.len() as int;
        let preserve = match en.preserve {
            Some(bb) => seq![("preserve"@, ValueView::Text(if bb { "1"@ } else { "0"@ }))],
            None => Seq::<AttrView>::empty(),
        };
        let a = seq![("name"@, ValueView::Text(en.name@))] + preserve;
        assert(u[k] == EventView::Start("metadata"@, a));
        assert(a[0] == ("name"@, ValueView::Text(en.name@)));
        assert(attr_text(a, "name"@) == Some(en.name@));
        assert(t[k] == u[k] && t[k + 1] == u[k + 1]);
        assert(metadata_at(t, k, en.name@, en.value@));
    }
}

/// An `<object>` start tag whose `id` attribute reads back as `id` in
/// decimal.
pub open spec fn object_is(id: usize) -> spec_fn(EventView) -> bool {
    |e: EventView|
        e matches EventView::Start(n, a) && n == "object"@ && attr_text(a, "id"@) == Some(
            decimal(id as nat),
        )
}

/// An `<item>` element that reads back as build item `it`: its `objectid`
/// is the item's object id in decimal, its `transform` holds the item's
/// transform values exactly where the item has a transform, and its `p:UUID`
/// is the item's UUID exactly where it has one.
pub open spec fn item_is(it: BuildItem) -> spec_fn(EventView) -> bool {
    |e: EventView|
        e matches EventView::Empty(n, a) && n == "item"@ && attr_text(a, "objectid"@) == Some(
            decimal(it.objectid as nat),
        ) && attr_value(a, "transform"@) == match it.transform {
            Some(t) => Some(ValueView::Numbers(t@)),
            None => None,
        } && attr_text(a, "p:UUID"@) == match it.production_uuid {
            Some(u) => Some(u@),
            None => None,
        }
}

proof fn lemma_attr_value_cons(x: AttrView, rest: Seq<AttrView>, name: Seq<char>)
    ensures
        attr_value(seq![x] + rest, name) == if x.0 == name {
            Some(x.1)
        } else {
            attr_value(rest, name)
        },
{
    assert((seq![x] + rest).drop_first() =~= rest);
}

proof fn lemma_item_reads_back(it: BuildItem)
    ensures
        item_is(it)(EventView::Empty("item"@, item_attrs(it))),
{
    reveal_strlit("objectid");
    reveal_strlit("transform");
    reveal_strlit("p:UUID");
    assert("objectid"@[0] == 'o' && "transform"@[0] == 't' && "p:UUID"@[0] == 'p');
    let a = item_attrs(it);
    let tr = opt_transform_attr(it.transform);
    let uu = opt_text_attr("p:UUID"@, it.production_uuid);
    assert(a == seq![("objectid"@, int_text(it.objectid))] + (tr + uu)) by {
        assert(a =~= seq![("objectid"@, int_text(it.objectid))] + (tr + uu));
    }
    lemma_attr_value_cons(("objectid"@, int_text(it.objectid)), tr + uu, "objectid"@);
    lemma_attr_value_cons(("objectid"@, int_text(it.objectid)), tr + uu, "transform"@);
    lemma_attr_value_cons(("objectid"@, int_text(it.objectid)), tr + uu, "p:UUID"@);
    match it.transform {
        Some(t) => {
            let x = ("transform"@, ValueView::Numbers(t@));
            assert(tr + uu =~= seq![x] + uu);
            lemma_attr_value_cons(x, uu, "transform"@);
            lemma_attr_value_cons(x, uu, "p:UUID"@);
        },
        None => {
            assert(tr + uu =~= uu);
        },
    }
    match it.production_uuid {
        Some(u) => {
            let y = ("p:UUID"@, ValueView::Text(u@));
            assert(uu =~= seq![y] + Seq::<AttrView>::empty());
            lemma_attr_value_cons(y, Seq::empty(), "p:UUID"@);
            lemma_attr_value_cons(y, Seq::empty(), "transform"@);
        },
        None => {},
    }
}

/// Every object and every build item is written: the model XML has an
/// `<object>` start tag whose `id` reads back as the object's id, and an
/// `<item>` element that reads back as the item (see `item_is`).
pub proof fn lemma_model_events_hold_objects_and_items(m: Model)
    ensures
        forall|i: int|
            0 <= i < m.resources.objects@.len() ==> has_event(
                model_events(m),
                object_is((#[trigger] m.resources.objects@[i]).id),
            ),
        forall|k: int|
            0 <= k < m.build.items@.len() ==> has_event(
                model_events(m),
                item_is(#[trigger] m.build.items@[k]),
            ),
{
    reveal_strlit("id");
    reveal_strlit("objectid");
    lemma_resource_steps_extend();
    lemma_item_steps_extend();
    lemma_object_step_extends();
    let r = m.resources;
    let e = Seq::<EventView>::empty();
    let s0 = e.push(EventView::Decl).push(EventView::Start("model"@, model_attrs(m)));
    let s1 = list_onto(s0, m.metadata@, metadata_step());
    let s8 = list_onto(
        list_onto(
            list_onto(
                list_onto(
                    list_onto(
                        list_onto(
                            list_onto(
                                list_onto(
                                    s1.push(EventView::Start("resources"@, Seq::empty())),
                                    r.base_material_groups@,
                                    basematerials_step(),
                                ),
                                r.texture2d_resources@,
                                texture2d_step(),
                            ),
                            r.texture2d_groups@,
                            texture2dgroup_step(),
                        ),
                        r.color_groups@,
                        colorgroup_step(),
                    ),
                    r.composite_materials@,
                    compositematerials_step(),
                ),
                r.multi_properties@,
                multiproperties_step(),
            ),
            r.norm_vector_groups@,
            normvectorgroup_step(),
        ),
        r.disp2d_groups@,
        disp2dgroup_step(),
    );
    let objs = list_onto(s8, r.objects@, object_step());
    let res = resources_onto(s1, r);
    assert(res == objs.push(EventView::End("resources"@)));
    let b0 = res.push(EventView::Start("build"@, build_attrs(m.build)));
    let bl = list_onto(b0, m.build.items@, item_step());
    let b = build_onto(res, m.build);
    let t = model_events(m);
    lemma_prefix_push(b, EventView::End("model"@));
    lemma_prefix_push(bl, EventView::End("build"@));
    lemma_prefix_trans(bl, b, t);
    lemma_wrapped_extends(res, EventView::Start("build"@, build_attrs(m.build)), m.build.items@, item_step(), EventView::End("build"@));
    lemma_prefix_trans(res, b, t);
    lemma_prefix_push(objs, EventView::End("resources"@));
    lemma_prefix_trans(objs, res, t);
    assert forall|i: int| 0 <= i < r.objects@.len() implies has_event(
        t,
        object_is((#[trigger] m.resources.objects@[i]).id),
    ) by {
        let o = r.objects@[i];
        let before = list_onto(s8, r.objects@.take(i), object_step());
        let u = object_step()(before, o);
        lemma_list_item(s8, r.objects@, object_step(), i);
        lemma_prefix_trans(u, objs, t);
        lemma_object_parts(before, o);
        let s1o = before.push(EventView::Start("object"@, object_attrs(o)));
        lemma_prefix_push(before, EventView::Start("object"@, object_attrs(o)));
        assert(prefix_of(s1o, u)) by {
            if let Some(mesh) = o.mesh {
                lemma_mesh_extends(s1o, mesh);
                lemma_prefix_trans(s1o, mesh_onto(s1o, mesh), u);
            } else {
                lemma_object_rest_extends(before, o);
            }
        }
        let a = object_attrs(o);
        assert(a[0] == ("id"@, int_text(o.id)));
        assert(attr_text(a, "id"@) == Some(decimal(o.id as nat)));
        assert(object_is(o.id)(s1o[before.len() as int]));
        assert(u[before.len() as int] == s1o[before.len() as int]);
        assert(t[before.len() as int] == u[before.len() as int]);
    }
    assert forall|k: int| 0 <= k < m.build.items@.len() implies has_event(
        t,
        item_is(#[trigger] m.build.items@[k]),
    ) by {
        let it = m.build.items@[k];
        let before = list_onto(b0, m.build.items@.take(k), item_step());
        let u = item_step()(before, it);
        lemma_list_item(b0, m.build.items@, item_step(), k);
        lemma_prefix_trans(u, bl, t);
        lemma_item_reads_back(it);
        assert(item_is(it)(u[before.len() as int]));
        assert(t[before.len() as int] == u[before.len() as int]);
    }
}

} // verus!

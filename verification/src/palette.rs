//! The palette: an insertion-ordered mapping from color names to colors,
//! kept in a `linked_hash_map::LinkedHashMap` so that rendering walks the
//! entries in the order the document declared them.

pub mod rgb_color;

use linked_hash_map::LinkedHashMap;
use rgb_color::spec_render_rgb;
use vstd::prelude::*;

pub use rgb_color::RgbColor;
pub use rgb_color::RgbParsingError;

verus! {

#[verifier::external_type_specification]
#[verifier::external_body]
#[verifier::reject_recursive_types(K)]
#[verifier::reject_recursive_types(V)]
#[verifier::reject_recursive_types(S)]
pub struct ExLinkedHashMap<K, V, S>(LinkedHashMap<K, V, S>);

/// What a color map holds: its (name, color) entries, in the order the
/// map iterates over them.
pub uninterp spec fn color_map_entries(m: LinkedHashMap<String, RgbColor>) -> Seq<
    (Seq<char>, RgbColor),
>;

/// Relies on `LinkedHashMap::new`: the new map has no entry.
#[verifier::external_body]
fn lhm_new() -> (m: LinkedHashMap<String, RgbColor>)
    ensures
        color_map_entries(m) == Seq::<(Seq<char>, RgbColor)>::empty(),
{
    LinkedHashMap::new()
}

/// Whether some entry carries this name.
pub open spec fn spec_palette_has(
    entries: Seq<(Seq<char>, RgbColor)>,
    name: Seq<char>,
) -> bool {
    exists|i: int| 0 <= i < entries.len() && (#[trigger] entries[i]).0 == name
}

/// Whether some entry pairs this name with this color.
pub open spec fn spec_palette_entry(
    entries: Seq<(Seq<char>, RgbColor)>,
    name: Seq<char>,
    color: RgbColor,
) -> bool {
    exists|i: int| 0 <= i < entries.len() && #[trigger] entries[i] == (name, color)
}

/// Relies on `LinkedHashMap::contains_key`: true exactly when an entry
/// with this key is in the map.
#[verifier::external_body]
fn lhm_contains_key(m: &LinkedHashMap<String, RgbColor>, k: &str) -> (r: bool)
    ensures
        r == spec_palette_has(color_map_entries(*m), k@),
{
    m.contains_key(k)
}

/// Relies on `LinkedHashMap::get`: the value stored under the key, or
/// nothing when no entry has this key.
#[verifier::external_body]
fn lhm_get(m: &LinkedHashMap<String, RgbColor>, k: &str) -> (r: Option<RgbColor>)
    ensures
        r is Some <==> spec_palette_has(color_map_entries(*m), k@),
        r is Some ==> spec_palette_entry(color_map_entries(*m), k@, r->0),
{
    m.get(k).copied()
}

/// Relies on `LinkedHashMap::insert`: a key that is not yet in the map
/// is appended at the back of the iteration order, which the crate keeps
/// as the insertion order.
#[verifier::external_body]
fn lhm_insert(m: &mut LinkedHashMap<String, RgbColor>, k: String, v: RgbColor)
    requires
        !spec_palette_has(color_map_entries(*old(m)), k@),
    ensures
        color_map_entries(*final(m)) == color_map_entries(*old(m)).push((k@, v)),
{
    m.insert(k, v);
}

/// Relies on `LinkedHashMap::iter`: it visits the entries in insertion
/// order.
#[verifier::external_body]
fn lhm_entries_vec(m: &LinkedHashMap<String, RgbColor>) -> (r: Vec<(String, RgbColor)>)
    ensures
        r@.len() == color_map_entries(*m).len(),
        forall|i: int|
            0 <= i < r@.len() ==> (#[trigger] r@[i]).0@ == color_map_entries(*m)[i].0
                && r@[i].1 == color_map_entries(*m)[i].1,
{
    m.iter().map(|(k, v)| (k.clone(), *v)).collect()
}

/// The named colors of a theme, iterated in declaration order.
pub struct Palette(pub LinkedHashMap<String, RgbColor>);

impl View for Palette {
    type V = Seq<(Seq<char>, RgbColor)>;

    open spec fn view(&self) -> Seq<(Seq<char>, RgbColor)> {
        color_map_entries(self.0)
    }
}

/// The palette lines: one `\n{indent}{name} = "#rrggbb",` per entry, in
/// entry order.
pub open spec fn spec_palette_lines(
    entries: Seq<(Seq<char>, RgbColor)>,
    indent: Seq<char>,
) -> Seq<char>
    decreases entries.len(),
{
    if entries.len() == 0 {
        Seq::<char>::empty()
    } else {
        spec_palette_lines(entries.drop_last(), indent) + "\n"@ + indent + entries.last().0
            + " = \""@ + spec_render_rgb(entries.last().1) + "\","@
    }
}

/// The body of a palette table: its lines and the closing brace.
pub open spec fn spec_render_palette_inner(
    entries: Seq<(Seq<char>, RgbColor)>,
    indent: Seq<char>,
) -> Seq<char> {
    spec_palette_lines(entries, indent) + "\n}"@
}

/// A whole palette file: the table assigned to `colors` and returned.
pub open spec fn spec_render_palette(entries: Seq<(Seq<char>, RgbColor)>) -> Seq<char> {
    "local colors = {"@ + spec_render_palette_inner(entries, "  "@) + "\n\nreturn colors"@
}

/// A borrowed view of a color map together with the indent its lines
/// are rendered with.
pub struct InnerPalette<'a> {
    pub colors: &'a LinkedHashMap<String, RgbColor>,
    pub indent: &'a str,
}

impl InnerPalette<'_> {
    /// Renders the entry lines and the closing brace, one line per
    /// color, in declaration order.
    pub fn render(&self) -> (r: String)
        ensures
            r@ == spec_render_palette_inner(color_map_entries(*self.colors), self.indent@),
    {
        render_color_map_inner(self.colors, self.indent)
    }
}

/// Renders the entry lines of a color map and the closing brace.
#[verifier::loop_isolation(false)]
fn render_color_map_inner(colors: &LinkedHashMap<String, RgbColor>, indent: &str) -> (r: String)
    ensures
        r@ == spec_render_palette_inner(color_map_entries(*colors), indent@),
{
    let ghost entries = color_map_entries(*colors);
    let list = lhm_entries_vec(colors);
    let mut out = String::new();
    proof {
        assert(entries.take(0) =~= Seq::<(Seq<char>, RgbColor)>::empty());
    }
    let mut i: usize = 0;
    while i < list.len()
        invariant
            0 <= i <= list.len(),
            out@ == spec_palette_lines(entries.take(i as int), indent@),
        decreases list.len() - i,
    {
        let entry = &list[i];
        out.append("\n");
        out.append(indent);
        out.append(entry.0.as_str());
        out.append(" = \"");
        out.append(entry.1.render().as_str());
        out.append("\",");
        proof {
            assert(entries.take(i + 1).drop_last() =~= entries.take(i as int));
            assert(entries.take(i + 1).last() == entries[i as int]);
        }
        i += 1;
    }
    proof {
        assert(entries.take(list@.len() as int) =~= entries);
    }
    out.append("\n}");
    out
}

impl Palette {
    /// The empty palette.
    pub fn new() -> (p: Palette)
        ensures
            p@ == Seq::<(Seq<char>, RgbColor)>::empty(),
    {
        Palette(lhm_new())
    }

    /// Adds a color under a new name at the end of the order; a name
    /// already present leaves the palette unchanged and returns false.
    pub fn insert(&mut self, name: String, color: RgbColor) -> (fresh: bool)
        ensures
            fresh == !spec_palette_has(old(self)@, name@),
            fresh ==> final(self)@ == old(self)@.push((name@, color)),
            !fresh ==> final(self)@ == old(self)@,
    {
        if lhm_contains_key(&self.0, name.as_str()) {
            false
        } else {
            lhm_insert(&mut self.0, name, color);
            true
        }
    }

    /// The color stored under a name, or nothing: absence is the signal
    /// the validator reports on.
    pub fn resolve(&self, name: &str) -> (r: Option<RgbColor>)
        ensures
            r is Some <==> spec_palette_has(self@, name@),
            r is Some ==> spec_palette_entry(self@, name@, r->0),
    {
        lhm_get(&self.0, name)
    }

    /// The entries in declaration order.
    pub fn entries(&self) -> (r: Vec<(String, RgbColor)>)
        ensures
            r@.len() == self@.len(),
            forall|i: int|
                0 <= i < r@.len() ==> (#[trigger] r@[i]).0@ == self@[i].0 && r@[i].1
                    == self@[i].1,
    {
        lhm_entries_vec(&self.0)
    }

    /// Renders the entry lines and the closing brace, one line per
    /// color, in declaration order.
    pub fn render_inner(&self, indent: &str) -> (r: String)
        ensures
            r@ == spec_render_palette_inner(self@, indent@),
    {
        render_color_map_inner(&self.0, indent)
    }

    /// Renders the whole palette file: the `colors` table and its
    /// return.
    pub fn render(&self) -> (r: String)
        ensures
            r@ == spec_render_palette(self@),
    {
        let mut out = String::from_str("local colors = {");
        out.append(self.render_inner("  ").as_str());
        out.append("\n\nreturn colors");
        out
    }
}

} // verus!

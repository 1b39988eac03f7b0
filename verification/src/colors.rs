//! Color tables: the named CSS colors with their hex values, and the CSS
//! system color keywords.

use vstd::prelude::*;

use crate::strings::{lower_seq, seq_in_list, str_eq, str_in_list, to_lower};

verus! {

/// Part a of the named-color table.
pub open spec fn spec_color_chunk_a() -> Seq<(Seq<char>, Seq<char>)> {
    seq![
        ("aliceblue"@, "#f0f8ff"@),
        ("antiquewhite"@, "#faebd7"@),
        ("aqua"@, "#00ffff"@),
        ("aquamarine"@, "#7fffd4"@),
        ("azure"@, "#f0ffff"@),
        ("beige"@, "#f5f5dc"@),
        ("bisque"@, "#ffe4c4"@),
        ("black"@, "#000000"@),
        ("blanchedalmond"@, "#ffebcd"@),
        ("blue"@, "#0000ff"@),
        ("blueviolet"@, "#8a2be2"@),
        ("brown"@, "#a52a2a"@),
        ("burlywood"@, "#deb887"@),
        ("cadetblue"@, "#5f9ea0"@),
        ("chartreuse"@, "#7fff00"@),
        ("chocolate"@, "#d2691e"@),
        ("coral"@, "#ff7f50"@),
        ("cornflowerblue"@, "#6495ed"@),
        ("cornsilk"@, "#fff8dc"@),
        ("crimson"@, "#dc143c"@),
        ("cyan"@, "#00ffff"@),
        ("darkblue"@, "#00008b"@),
        ("darkcyan"@, "#008b8b"@),
        ("darkgoldenrod"@, "#b8860b"@),
        ("darkgray"@, "#a9a9a9"@),
        ("darkgreen"@, "#006400"@),
        ("darkgrey"@, "#a9a9a9"@),
        ("darkkhaki"@, "#bdb76b"@),
        ("darkmagenta"@, "#8b008b"@),
        ("darkolivegreen"@, "#556b2f"@),
        ("darkorange"@, "#ff8c00"@),
        ("darkorchid"@, "#9932cc"@),
        ("darkred"@, "#8b0000"@),
        ("darksalmon"@, "#e9967a"@),
        ("darkseagreen"@, "#8fbc8f"@),
        ("darkslateblue"@, "#483d8b"@),
        ("darkslategray"@, "#2f4f4f"@),
        ("darkslategrey"@, "#2f4f4f"@),
        ("darkturquoise"@, "#00ced1"@),
        ("darkviolet"@, "#9400d3"@),
        ("deeppink"@, "#ff1493"@),
        ("deepskyblue"@, "#00bfff"@),
        ("dimgray"@, "#696969"@),
        ("dimgrey"@, "#696969"@),
        ("dodgerblue"@, "#1e90ff"@),
        ("firebrick"@, "#b22222"@),
        ("floralwhite"@, "#fffaf0"@),
        ("forestgreen"@, "#228b22"@),
        ("fuchsia"@, "#ff00ff"@),
        ("gainsboro"@, "#dcdcdc"@)
    ]
}

/// Part b of the named-color table.
pub open spec fn spec_color_chunk_b() -> Seq<(Seq<char>, Seq<char>)> {
    seq![
        ("ghostwhite"@, "#f8f8ff"@),
        ("gold"@, "#ffd700"@),
        ("goldenrod"@, "#daa520"@),
        ("gray"@, "#808080"@),
        ("green"@, "#008000"@),
        ("greenyellow"@, "#adff2f"@),
        ("grey"@, "#808080"@),
        ("honeydew"@, "#f0fff0"@),
        ("hotpink"@, "#ff69b4"@),
        ("indianred"@, "#cd5c5c"@),
        ("indigo"@, "#4b0082"@),
        ("ivory"@, "#fffff0"@),
        ("khaki"@, "#f0e68c"@),
        ("lavender"@, "#e6e6fa"@),
        ("lavenderblush"@, "#fff0f5"@),
        ("lawngreen"@, "#7cfc00"@),
        ("lemonchiffon"@, "#fffacd"@),
        ("lightblue"@, "#add8e6"@),
        ("lightcoral"@, "#f08080"@),
        ("lightcyan"@, "#e0ffff"@),
        ("lightgoldenrodyellow"@, "#fafad2"@),
        ("lightgray"@, "#d3d3d3"@),
        ("lightgreen"@, "#90ee90"@),
        ("lightgrey"@, "#d3d3d3"@),
        ("lightpink"@, "#ffb6c1"@),
        ("lightsalmon"@, "#ffa07a"@),
        ("lightseagreen"@, "#20b2aa"@),
        ("lightskyblue"@, "#87cefa"@),
        ("lightslategray"@, "#778899"@),
        ("lightslategrey"@, "#778899"@),
        ("lightsteelblue"@, "#b0c4de"@),
        ("lightyellow"@, "#ffffe0"@),
        ("lime"@, "#00ff00"@),
        ("limegreen"@, "#32cd32"@),
        ("linen"@, "#faf0e6"@),
        ("magenta"@, "#ff00ff"@),
        ("maroon"@, "#800000"@),
        ("mediumaquamarine"@, "#66cdaa"@),
        ("mediumblue"@, "#0000cd"@),
        ("mediumorchid"@, "#ba55d3"@),
        ("mediumpurple"@, "#9370db"@),
        ("mediumseagreen"@, "#3cb371"@),
        ("mediumslateblue"@, "#7b68ee"@),
        ("mediumspringgreen"@, "#00fa9a"@),
        ("mediumturquoise"@, "#48d1cc"@),
        ("mediumvioletred"@, "#c71585"@),
        ("midnightblue"@, "#191970"@),
        ("mintcream"@, "#f5fffa"@),
        ("mistyrose"@, "#ffe4e1"@),
        ("moccasin"@, "#ffe4b5"@)
    ]
}

/// Part c of the named-color table.
pub open spec fn spec_color_chunk_c() -> Seq<(Seq<char>, Seq<char>)> {
    seq![
        ("navajowhite"@, "#ffdead"@),
        ("navy"@, "#000080"@),
        ("oldlace"@, "#fdf5e6"@),
        ("olive"@, "#808000"@),
        ("olivedrab"@, "#6b8e23"@),
        ("orange"@, "#ffa500"@),
        ("orangered"@, "#ff4500"@),
        ("orchid"@, "#da70d6"@),
        ("palegoldenrod"@, "#eee8aa"@),
        ("palegreen"@, "#98fb98"@),
        ("paleturquoise"@, "#afeeee"@),
        ("palevioletred"@, "#db7093"@),
        ("papayawhip"@, "#ffefd5"@),
        ("peachpuff"@, "#ffdab9"@),
        ("peru"@, "#cd853f"@),
        ("pink"@, "#ffc0cb"@),
        ("plum"@, "#dda0dd"@),
        ("powderblue"@, "#b0e0e6"@),
        ("purple"@, "#800080"@),
        ("red"@, "#ff0000"@),
        ("rosybrown"@, "#bc8f8f"@),
        ("royalblue"@, "#4169e1"@),
        ("saddlebrown"@, "#8b4513"@),
        ("salmon"@, "#fa8072"@),
        ("sandybrown"@, "#f4a460"@),
        ("seagreen"@, "#2e8b57"@),
        ("seashell"@, "#fff5ee"@),
        ("sienna"@, "#a0522d"@),
        ("silver"@, "#c0c0c0"@),
        ("skyblue"@, "#87ceeb"@),
        ("slateblue"@, "#6a5acd"@),
        ("slategray"@, "#708090"@),
        ("slategrey"@, "#708090"@),
        ("snow"@, "#fffafa"@),
        ("springgreen"@, "#00ff7f"@),
        ("steelblue"@, "#4682b4"@),
        ("tan"@, "#d2b48c"@),
        ("teal"@, "#008080"@),
        ("thistle"@, "#d8bfd8"@),
        ("tomato"@, "#ff6347"@),
        ("turquoise"@, "#40e0d0"@),
        ("violet"@, "#ee82ee"@),
        ("wheat"@, "#f5deb3"@),
        ("white"@, "#ffffff"@),
        ("whitesmoke"@, "#f5f5f5"@),
        ("yellow"@, "#ffff00"@),
        ("yellowgreen"@, "#9acd32"@)
    ]
}

/// The named colors and their hex values, in table order.
pub open spec fn spec_color_table() -> Seq<(Seq<char>, Seq<char>)> {
    spec_color_chunk_a() + spec_color_chunk_b() + spec_color_chunk_c()
}

/// Part a of the named-color table.
#[verifier::rlimit(60)]
fn color_chunk_a() -> (r: Vec<(String, String)>)
    ensures
        r.deep_view() == spec_color_chunk_a(),
{
    let mut v: Vec<(String, String)> = Vec::new();
    v.push(("aliceblue".to_owned(), "#f0f8ff".to_owned()));
    v.push(("antiquewhite".to_owned(), "#faebd7".to_owned()));
    v.push(("aqua".to_owned(), "#00ffff".to_owned()));
    v.push(("aquamarine".to_owned(), "#7fffd4".to_owned()));
    v.push(("azure".to_owned(), "#f0ffff".to_owned()));
    v.push(("beige".to_owned(), "#f5f5dc".to_owned()));
    v.push(("bisque".to_owned(), "#ffe4c4".to_owned()));
    v.push(("black".to_owned(), "#000000".to_owned()));
    v.push(("blanchedalmond".to_owned(), "#ffebcd".to_owned()));
    v.push(("blue".to_owned(), "#0000ff".to_owned()));
    v.push(("blueviolet".to_owned(), "#8a2be2".to_owned()));
    v.push(("brown".to_owned(), "#a52a2a".to_owned()));
    v.push(("burlywood".to_owned(), "#deb887".to_owned()));
    v.push(("cadetblue".to_owned(), "#5f9ea0".to_owned()));
    v.push(("chartreuse".to_owned(), "#7fff00".to_owned()));
    v.push(("chocolate".to_owned(), "#d2691e".to_owned()));
    v.push(("coral".to_owned(), "#ff7f50".to_owned()));
    v.push(("cornflowerblue".to_owned(), "#6495ed".to_owned()));
    v.push(("cornsilk".to_owned(), "#fff8dc".to_owned()));
    v.push(("crimson".to_owned(), "#dc143c".to_owned()));
    v.push(("cyan".to_owned(), "#00ffff".to_owned()));
    v.push(("darkblue".to_owned(), "#00008b".to_owned()));
    v.push(("darkcyan".to_owned(), "#008b8b".to_owned()));
    v.push(("darkgoldenrod".to_owned(), "#b8860b".to_owned()));
    v.push(("darkgray".to_owned(), "#a9a9a9".to_owned()));
    v.push(("darkgreen".to_owned(), "#006400".to_owned()));
    v.push(("darkgrey".to_owned(), "#a9a9a9".to_owned()));
    v.push(("darkkhaki".to_owned(), "#bdb76b".to_owned()));
    v.push(("darkmagenta".to_owned(), "#8b008b".to_owned()));
    v.push(("darkolivegreen".to_owned(), "#556b2f".to_owned()));
    v.push(("darkorange".to_owned(), "#ff8c00".to_owned()));
    v.push(("darkorchid".to_owned(), "#9932cc".to_owned()));
    v.push(("darkred".to_owned(), "#8b0000".to_owned()));
    v.push(("darksalmon".to_owned(), "#e9967a".to_owned()));
    v.push(("darkseagreen".to_owned(), "#8fbc8f".to_owned()));
    v.push(("darkslateblue".to_owned(), "#483d8b".to_owned()));
    v.push(("darkslategray".to_owned(), "#2f4f4f".to_owned()));
    v.push(("darkslategrey".to_owned(), "#2f4f4f".to_owned()));
    v.push(("darkturquoise".to_owned(), "#00ced1".to_owned()));
    v.push(("darkviolet".to_owned(), "#9400d3".to_owned()));
    v.push(("deeppink".to_owned(), "#ff1493".to_owned()));
    v.push(("deepskyblue".to_owned(), "#00bfff".to_owned()));
    v.push(("dimgray".to_owned(), "#696969".to_owned()));
    v.push(("dimgrey".to_owned(), "#696969".to_owned()));
    v.push(("dodgerblue".to_owned(), "#1e90ff".to_owned()));
    v.push(("firebrick".to_owned(), "#b22222".to_owned()));
    v.push(("floralwhite".to_owned(), "#fffaf0".to_owned()));
    v.push(("forestgreen".to_owned(), "#228b22".to_owned()));
    v.push(("fuchsia".to_owned(), "#ff00ff".to_owned()));
    v.push(("gainsboro".to_owned(), "#dcdcdc".to_owned()));
    proof {
        assert(v.deep_view() =~~= spec_color_chunk_a());
    }
    v
}

/// Part b of the named-color table.
#[verifier::rlimit(60)]
fn color_chunk_b() -> (r: Vec<(String, String)>)
    ensures
        r.deep_view() == spec_color_chunk_b(),
{
    let mut v: Vec<(String, String)> = Vec::new();
    v.push(("ghostwhite".to_owned(), "#f8f8ff".to_owned()));
    v.push(("gold".to_owned(), "#ffd700".to_owned()));
    v.push(("goldenrod".to_owned(), "#daa520".to_owned()));
    v.push(("gray".to_owned(), "#808080".to_owned()));
    v.push(("green".to_owned(), "#008000".to_owned()));
    v.push(("greenyellow".to_owned(), "#adff2f".to_owned()));
    v.push(("grey".to_owned(), "#808080".to_owned()));
    v.push(("honeydew".to_owned(), "#f0fff0".to_owned()));
    v.push(("hotpink".to_owned(), "#ff69b4".to_owned()));
    v.push(("indianred".to_owned(), "#cd5c5c".to_owned()));
    v.push(("indigo".to_owned(), "#4b0082".to_owned()));
    v.push(("ivory".to_owned(), "#fffff0".to_owned()));
    v.push(("khaki".to_owned(), "#f0e68c".to_owned()));
    v.push(("lavender".to_owned(), "#e6e6fa".to_owned()));
    v.push(("lavenderblush".to_owned(), "#fff0f5".to_owned()));
    v.push(("lawngreen".to_owned(), "#7cfc00".to_owned()));
    v.push(("lemonchiffon".to_owned(), "#fffacd".to_owned()));
    v.push(("lightblue".to_owned(), "#add8e6".to_owned()));
    v.push(("lightcoral".to_owned(), "#f08080".to_owned()));
    v.push(("lightcyan".to_owned(), "#e0ffff".to_owned()));
    v.push(("lightgoldenrodyellow".to_owned(), "#fafad2".to_owned()));
    v.push(("lightgray".to_owned(), "#d3d3d3".to_owned()));
    v.push(("lightgreen".to_owned(), "#90ee90".to_owned()));
    v.push(("lightgrey".to_owned(), "#d3d3d3".to_owned()));
    v.push(("lightpink".to_owned(), "#ffb6c1".to_owned()));
    v.push(("lightsalmon".to_owned(), "#ffa07a".to_owned()));
    v.push(("lightseagreen".to_owned(), "#20b2aa".to_owned()));
    v.push(("lightskyblue".to_owned(), "#87cefa".to_owned()));
    v.push(("lightslategray".to_owned(), "#778899".to_owned()));
    v.push(("lightslategrey".to_owned(), "#778899".to_owned()));
    v.push(("lightsteelblue".to_owned(), "#b0c4de".to_owned()));
    v.push(("lightyellow".to_owned(), "#ffffe0".to_owned()));
    v.push(("lime".to_owned(), "#00ff00".to_owned()));
    v.push(("limegreen".to_owned(), "#32cd32".to_owned()));
    v.push(("linen".to_owned(), "#faf0e6".to_owned()));
    v.push(("magenta".to_owned(), "#ff00ff".to_owned()));
    v.push(("maroon".to_owned(), "#800000".to_owned()));
    v.push(("mediumaquamarine".to_owned(), "#66cdaa".to_owned()));
    v.push(("mediumblue".to_owned(), "#0000cd".to_owned()));
    v.push(("mediumorchid".to_owned(), "#ba55d3".to_owned()));
    v.push(("mediumpurple".to_owned(), "#9370db".to_owned()));
    v.push(("mediumseagreen".to_owned(), "#3cb371".to_owned()));
    v.push(("mediumslateblue".to_owned(), "#7b68ee".to_owned()));
    v.push(("mediumspringgreen".to_owned(), "#00fa9a".to_owned()));
    v.push(("mediumturquoise".to_owned(), "#48d1cc".to_owned()));
    v.push(("mediumvioletred".to_owned(), "#c71585".to_owned()));
    v.push(("midnightblue".to_owned(), "#191970".to_owned()));
    v.push(("mintcream".to_owned(), "#f5fffa".to_owned()));
    v.push(("mistyrose".to_owned(), "#ffe4e1".to_owned()));
    v.push(("moccasin".to_owned(), "#ffe4b5".to_owned()));
    proof {
        assert(v.deep_view() =~~= spec_color_chunk_b());
    }
    v
}

/// Part c of the named-color table.
#[verifier::rlimit(60)]
fn color_chunk_c() -> (r: Vec<(String, String)>)
    ensures
        r.deep_view() == spec_color_chunk_c(),
{
    let mut v: Vec<(String, String)> = Vec::new();
    v.push(("navajowhite".to_owned(), "#ffdead".to_owned()));
    v.push(("navy".to_owned(), "#000080".to_owned()));
    v.push(("oldlace".to_owned(), "#fdf5e6".to_owned()));
    v.push(("olive".to_owned(), "#808000".to_owned()));
    v.push(("olivedrab".to_owned(), "#6b8e23".to_owned()));
    v.push(("orange".to_owned(), "#ffa500".to_owned()));
    v.push(("orangered".to_owned(), "#ff4500".to_owned()));
    v.push(("orchid".to_owned(), "#da70d6".to_owned()));
    v.push(("palegoldenrod".to_owned(), "#eee8aa".to_owned()));
    v.push(("palegreen".to_owned(), "#98fb98".to_owned()));
    v.push(("paleturquoise".to_owned(), "#afeeee".to_owned()));
    v.push(("palevioletred".to_owned(), "#db7093".to_owned()));
    v.push(("papayawhip".to_owned(), "#ffefd5".to_owned()));
    v.push(("peachpuff".to_owned(), "#ffdab9".to_owned()));
    v.push(("peru".to_owned(), "#cd853f".to_owned()));
    v.push(("pink".to_owned(), "#ffc0cb".to_owned()));
    v.push(("plum".to_owned(), "#dda0dd".to_owned()));
    v.push(("powderblue".to_owned(), "#b0e0e6".to_owned()));
    v.push(("purple".to_owned(), "#800080".to_owned()));
    v.push(("red".to_owned(), "#ff0000".to_owned()));
    v.push(("rosybrown".to_owned(), "#bc8f8f".to_owned()));
    v.push(("royalblue".to_owned(), "#4169e1".to_owned()));
    v.push(("saddlebrown".to_owned(), "#8b4513".to_owned()));
    v.push(("salmon".to_owned(), "#fa8072".to_owned()));
    v.push(("sandybrown".to_owned(), "#f4a460".to_owned()));
    v.push(("seagreen".to_owned(), "#2e8b57".to_owned()));
    v.push(("seashell".to_owned(), "#fff5ee".to_owned()));
    v.push(("sienna".to_owned(), "#a0522d".to_owned()));
    v.push(("silver".to_owned(), "#c0c0c0".to_owned()));
    v.push(("skyblue".to_owned(), "#87ceeb".to_owned()));
    v.push(("slateblue".to_owned(), "#6a5acd".to_owned()));
    v.push(("slategray".to_owned(), "#708090".to_owned()));
    v.push(("slategrey".to_owned(), "#708090".to_owned()));
    v.push(("snow".to_owned(), "#fffafa".to_owned()));
    v.push(("springgreen".to_owned(), "#00ff7f".to_owned()));
    v.push(("steelblue".to_owned(), "#4682b4".to_owned()));
    v.push(("tan".to_owned(), "#d2b48c".to_owned()));
    v.push(("teal".to_owned(), "#008080".to_owned()));
    v.push(("thistle".to_owned(), "#d8bfd8".to_owned()));
    v.push(("tomato".to_owned(), "#ff6347".to_owned()));
    v.push(("turquoise".to_owned(), "#40e0d0".to_owned()));
    v.push(("violet".to_owned(), "#ee82ee".to_owned()));
    v.push(("wheat".to_owned(), "#f5deb3".to_owned()));
    v.push(("white".to_owned(), "#ffffff".to_owned()));
    v.push(("whitesmoke".to_owned(), "#f5f5f5".to_owned()));
    v.push(("yellow".to_owned(), "#ffff00".to_owned()));
    v.push(("yellowgreen".to_owned(), "#9acd32".to_owned()));
    proof {
        assert(v.deep_view() =~~= spec_color_chunk_c());
    }
    v
}

/// The named-color table: name to hex value.
pub fn color_table() -> (r: Vec<(String, String)>)
    ensures
        r.deep_view() == spec_color_table(),
{
    let mut v = color_chunk_a();
    let mut b = color_chunk_b();
    let mut c = color_chunk_c();
    v.append(&mut b);
    v.append(&mut c);
    proof {
        assert(v.deep_view() =~= spec_color_table());
    }
    v
}

/// The CSS system color keywords, lower-cased.
pub open spec fn spec_system_colors() -> Seq<Seq<char>> {
    seq!["accentcolor"@, "accentcolortext"@, "activetext"@, "buttonborder"@, "buttonface"@, "buttontext"@, "canvas"@, "canvastext"@, "field"@, "fieldtext"@, "graytext"@, "highlight"@, "highlighttext"@, "linktext"@, "mark"@, "marktext"@, "selecteditem"@, "selecteditemtext"@, "visitedtext"@]
}

/// The CSS system color keywords.
pub fn system_colors() -> (r: Vec<String>)
    ensures
        r.deep_view() == spec_system_colors(),
{
    let mut v: Vec<String> = Vec::new();
    v.push("accentcolor".to_owned());
    v.push("accentcolortext".to_owned());
    v.push("activetext".to_owned());
    v.push("buttonborder".to_owned());
    v.push("buttonface".to_owned());
    v.push("buttontext".to_owned());
    v.push("canvas".to_owned());
    v.push("canvastext".to_owned());
    v.push("field".to_owned());
    v.push("fieldtext".to_owned());
    v.push("graytext".to_owned());
    v.push("highlight".to_owned());
    v.push("highlighttext".to_owned());
    v.push("linktext".to_owned());
    v.push("mark".to_owned());
    v.push("marktext".to_owned());
    v.push("selecteditem".to_owned());
    v.push("selecteditemtext".to_owned());
    v.push("visitedtext".to_owned());
    proof {
        assert(v.deep_view() =~= spec_system_colors());
    }
    v
}

/// Whether the lower-cased name has an entry in the named-color table.
pub open spec fn spec_is_named_color(name: Seq<char>) -> bool {
    exists|i: int|
        0 <= i < spec_color_table().len() && spec_color_table()[i].0 == lower_seq(name)
}

/// The hex value of a named color, looked up case-insensitively; `None` when
/// the name is not a color name.
pub fn get_color_value(color_name: &str) -> (r: Option<String>)
    ensures
        r is Some <==> spec_is_named_color(color_name@),
        match r {
            Some(v) => exists|i: int|
                0 <= i < spec_color_table().len() && spec_color_table()[i].0 == lower_seq(
                    color_name@,
                ) && spec_color_table()[i].1 == v@,
            None => true,
        },
{
    let name = to_lower(color_name);
    let table = color_table();
    let mut i: usize = 0;
    while i < table.len()
        invariant
            name@ == lower_seq(color_name@),
            table.deep_view() == spec_color_table(),
            table@.len() == spec_color_table().len(),
            i <= table@.len(),
            forall|j: int| 0 <= j < i ==> spec_color_table()[j].0 != name@,
            forall|j: int|
                0 <= j < table@.len() ==> #[trigger] spec_color_table()[j] == (
                table@[j].0@,
                table@[j].1@,
            ),
        decreases table@.len() - i,
    {
        if str_eq(table[i].0.as_str(), name.as_str()) {
            proof {
                assert(spec_color_table()[i as int].0 == lower_seq(color_name@));
            }
            return Some(table[i].1.clone());
        }
        i = i + 1;
    }
    None
}

/// Whether the string names a CSS color, case-insensitively.
pub fn is_named_color(name: &str) -> (r: bool)
    ensures
        r == spec_is_named_color(name@),
{
    get_color_value(name).is_some()
}

/// Whether the lower-cased name is a CSS system color keyword.
pub open spec fn spec_is_system_color(name: Seq<char>) -> bool {
    seq_in_list(lower_seq(name), spec_system_colors())
}

/// Whether the string names a CSS system color, case-insensitively.
pub fn is_system_color(name: &str) -> (r: bool)
    ensures
        r == spec_is_system_color(name@),
{
    let lowered = to_lower(name);
    str_in_list(lowered.as_str(), &system_colors())
}

} // verus!

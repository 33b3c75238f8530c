use vstd::prelude::*;

verus! {

use crate::value::{
    EdgeKind, EdgeKindWithIxs, NodeKind, NodeKindView, class_color, class_shape, spec_edge_label,
};

/// The single decimal digit as text.
pub open spec fn digit_str(d: nat) -> Seq<char> {
    if d == 0 {
        "0"@
    } else if d == 1 {
        "1"@
    } else if d == 2 {
        "2"@
    } else if d == 3 {
        "3"@
    } else if d == 4 {
        "4"@
    } else if d == 5 {
        "5"@
    } else if d == 6 {
        "6"@
    } else if d == 7 {
        "7"@
    } else if d == 8 {
        "8"@
    } else {
        "9"@
    }
}

/// The decimal notation of a number, most significant digit first.
pub open spec fn dec_str(n: nat) -> Seq<char>
    decreases n,
{
    if n < 10 {
        digit_str(n)
    } else {
        dec_str(n / 10) + digit_str(n % 10)
    }
}

fn digit(d: u32) -> (r: &'static str)
    requires
        d < 10,
    ensures
        r@ == digit_str(d as nat),
{
    match d {
        0 => "0",
        1 => "1",
        2 => "2",
        3 => "3",
        4 => "4",
        5 => "5",
        6 => "6",
        7 => "7",
        8 => "8",
        _ => "9",
    }
}

/// Writes a number in decimal.
pub fn u32_string(n: u32) -> (r: String)
    ensures
        r@ == dec_str(n as nat),
    decreases n,
{
    if n < 10 {
        digit(n).to_owned()
    } else {
        let mut s = u32_string(n / 10);
        s.append(digit(n % 10));
        s
    }
}

/// Four spaces of indentation per nesting level.
pub open spec fn spaces(d: nat) -> Seq<char>
    decreases d,
{
    if d == 0 {
        Seq::empty()
    } else {
        spaces((d - 1) as nat) + "    "@
    }
}

fn push_indent(out: &mut String, d: usize)
    ensures
        final(out)@ == old(out)@ + spaces(d as nat),
{
    let mut j: usize = 0;
    while j < d
        invariant
            j <= d,
            out@ == old(out)@ + spaces(j as nat),
        decreases d - j,
    {
        out.append("    ");
        j = j + 1;
    }
}

/// Whether the character is an ASCII lowercase letter.
pub open spec fn spec_is_lower(c: char) -> bool {
    97 <= c as u32 <= 122
}

fn is_lower(c: char) -> (r: bool)
    ensures
        r == spec_is_lower(c),
{
    let cu = c as u32;
    97 <= cu && cu <= 122
}

/// The character as text, ASCII lowercase letters capitalized.
pub open spec fn upper_seq(c: char) -> Seq<char> {
    if c == 'a' {
        "A"@
    } else if c == 'b' {
        "B"@
    } else if c == 'c' {
        "C"@
    } else if c == 'd' {
        "D"@
    } else if c == 'e' {
        "E"@
    } else if c == 'f' {
        "F"@
    } else if c == 'g' {
        "G"@
    } else if c == 'h' {
        "H"@
    } else if c == 'i' {
        "I"@
    } else if c == 'j' {
        "J"@
    } else if c == 'k' {
        "K"@
    } else if c == 'l' {
        "L"@
    } else if c == 'm' {
        "M"@
    } else if c == 'n' {
        "N"@
    } else if c == 'o' {
        "O"@
    } else if c == 'p' {
        "P"@
    } else if c == 'q' {
        "Q"@
    } else if c == 'r' {
        "R"@
    } else if c == 's' {
        "S"@
    } else if c == 't' {
        "T"@
    } else if c == 'u' {
        "U"@
    } else if c == 'v' {
        "V"@
    } else if c == 'w' {
        "W"@
    } else if c == 'x' {
        "X"@
    } else if c == 'y' {
        "Y"@
    } else if c == 'z' {
        "Z"@
    } else {
        seq![c]
    }
}

fn upper_str(c: char) -> (r: &'static str)
    requires
        spec_is_lower(c),
    ensures
        r@ == upper_seq(c),
{
    match c {
        'a' => "A",
        'b' => "B",
        'c' => "C",
        'd' => "D",
        'e' => "E",
        'f' => "F",
        'g' => "G",
        'h' => "H",
        'i' => "I",
        'j' => "J",
        'k' => "K",
        'l' => "L",
        'm' => "M",
        'n' => "N",
        'o' => "O",
        'p' => "P",
        'q' => "Q",
        'r' => "R",
        's' => "S",
        't' => "T",
        'u' => "U",
        'v' => "V",
        'w' => "W",
        'x' => "X",
        'y' => "Y",
        _ => {
            proof {
                assert(c == 'z');
            }
            "Z"
        },
    }
}

/// The display text from position `i` on: underscores become spaces, and a
/// lowercase letter opening a word is capitalized.
pub open spec fn display_rec(s: Seq<char>, i: int) -> Seq<char>
    decreases s.len() - i,
{
    if i < 0 || i >= s.len() {
        Seq::empty()
    } else {
        let piece = if s[i] == '_' {
            " "@
        } else if i == 0 || s[i - 1] == '_' || s[i - 1] == ' ' {
            upper_seq(s[i])
        } else {
            seq![s[i]]
        };
        piece + display_rec(s, i + 1)
    }
}

/// The display name of a cluster: words separated by underscores or spaces,
/// each word's first letter capitalized.
pub open spec fn spec_display_name(s: Seq<char>) -> Seq<char> {
    display_rec(s, 0)
}

/// Renders a cluster name for display.
pub fn display_name(s: &str) -> (r: String)
    ensures
        r@ == spec_display_name(s@),
{
    let n = s.unicode_len();
    let mut out = String::new();
    let mut i: usize = 0;
    let mut word_start = true;
    while i < n
        invariant
            i <= n,
            n == s@.len(),
            out@ + display_rec(s@, i as int) == spec_display_name(s@),
            word_start == (i == 0 || s@[i - 1] == '_' || s@[i - 1] == ' '),
        decreases n - i,
    {
        let c = s.get_char(i);
        if c == '_' {
            out.append(" ");
        } else if word_start && is_lower(c) {
            out.append(upper_str(c));
        } else {
            let piece = s.substring_char(i, i + 1);
            proof {
                assert(piece@ =~= seq![s@[i as int]]);
                if i == 0 || s@[i - 1] == '_' || s@[i - 1] == ' ' {
                    assert(!spec_is_lower(s@[i as int]));
                    assert(upper_seq(s@[i as int]) == seq![s@[i as int]]);
                }
            }
            out.append(piece);
        }
        word_start = c == '_' || c == ' ';
        i = i + 1;
    }
    proof {
        assert(display_rec(s@, n as int) =~= Seq::<char>::empty());
        assert(out@ =~= out@ + display_rec(s@, n as int));
    }
    out
}

/// The name stored for a slot key, later entries winning; empty when the
/// key has no entry.
pub open spec fn slot_lookup(slots: Seq<(Seq<char>, u32)>, key: u32) -> Seq<char>
    decreases slots.len(),
{
    if slots.len() == 0 {
        Seq::empty()
    } else if slots.last().1 == key {
        slots.last().0
    } else {
        slot_lookup(slots.drop_last(), key)
    }
}

/// Looks a slot name up by its peer id.
pub fn slot_name(slots: &Vec<(String, u32)>, key: u32) -> (r: String)
    ensures
        r@ == slot_lookup(slots.deep_view(), key),
{
    let ghost dv = slots.deep_view();
    let mut i: usize = slots.len();
    proof {
        assert(dv.take(i as int) =~= dv);
    }
    while i > 0
        invariant
            i <= slots.len(),
            dv == slots.deep_view(),
            slot_lookup(dv, key) == slot_lookup(dv.take(i as int), key),
        decreases i,
    {
        proof {
            assert(dv.take(i as int).last() == dv[i - 1]);
            assert(dv.take(i as int).drop_last() =~= dv.take(i - 1));
            assert(dv[i - 1] == (slots@[i - 1].0@, slots@[i - 1].1));
        }
        if slots[i - 1].1 == key {
            return slots[i - 1].0.clone();
        }
        i = i - 1;
    }
    proof {
        assert(dv.take(0) =~= Seq::<(Seq<char>, u32)>::empty());
    }
    String::new()
}

/// The slot name an arc's label interpolates: an Argument arc reads the
/// target function's parameter table keyed by the source id; a Property arc
/// reads the source record's field table keyed by the target id; all other
/// arcs interpolate nothing.
pub open spec fn spec_arc_meta(vs: Seq<NodeKindView>, a: EdgeKindWithIxs<u32>) -> Seq<char> {
    if a.kind is Argument && a.to_ix < vs.len() && (vs[a.to_ix as int].class is Function
        || vs[a.to_ix as int].class is AsyncFunction) {
        slot_lookup(vs[a.to_ix as int].slots, a.from)
    } else if a.kind is Property && a.from_ix < vs.len() && (vs[a.from_ix as int].class is Variant
        || vs[a.from_ix as int].class is Struct) {
        slot_lookup(vs[a.from_ix as int].slots, a.to)
    } else {
        Seq::empty()
    }
}

/// Resolves the label text an arc interpolates.
pub fn arc_meta(vertices: &Vec<NodeKind>, a: &EdgeKindWithIxs<u32>) -> (r: String)
    ensures
        r@ == spec_arc_meta(vertices.deep_view(), *a),
{
    let ghost vs = vertices.deep_view();
    match a.kind {
        EdgeKind::Argument => {
            let ix = a.to_ix as usize;
            if ix < vertices.len() {
                proof {
                    assert(vs[ix as int] == vertices@[ix as int]@);
                }
                match &vertices[ix] {
                    NodeKind::Function(_, _, v) => slot_name(v, a.from),
                    NodeKind::AsyncFunction(_, _, v) => slot_name(v, a.from),
                    _ => String::new(),
                }
            } else {
                String::new()
            }
        },
        EdgeKind::Property => {
            let ix = a.from_ix as usize;
            if ix < vertices.len() {
                proof {
                    assert(vs[ix as int] == vertices@[ix as int]@);
                }
                match &vertices[ix] {
                    NodeKind::Variant(_, _, v) => slot_name(v, a.to),
                    NodeKind::Struct(_, _, v) => slot_name(v, a.to),
                    _ => String::new(),
                }
            } else {
                String::new()
            }
        },
        _ => String::new(),
    }
}

/// One vertex line: position, label, shape and colours, all styled by the
/// vertex class.
pub open spec fn spec_vertex_line(v: NodeKindView, ix: int) -> Seq<char> {
    dec_str(ix as nat) + " [ label = \""@ + v.label + "\" shape = \""@ + class_shape(
        v.class,
    ) + "\" style = \"filled\" fillcolor = \""@ + class_color(v.class) + "26\" fontcolor = \""@
        + class_color(v.class) + "\" color = \""@ + class_color(v.class) + "\" ]\n"@
}

/// Emits one vertex line.
pub fn push_vertex_line(out: &mut String, v: &NodeKind, ix: usize)
    requires
        ix <= u32::MAX,
    ensures
        final(out)@ == old(out)@ + spec_vertex_line(v@, ix as int),
{
    let num = u32_string(ix as u32);
    out.append(num.as_str());
    out.append(" [ label = \"");
    out.append(v.label());
    out.append("\" shape = \"");
    out.append(v.shape());
    out.append("\" style = \"filled\" fillcolor = \"");
    out.append(v.color());
    out.append("26\" fontcolor = \"");
    out.append(v.color());
    out.append("\" color = \"");
    out.append(v.color());
    out.append("\" ]\n");
    proof {
        assert(out@ =~= old(out)@ + spec_vertex_line(v@, ix as int));
    }
}

/// Emits one more indentation level than the given one.
fn push_indent1(out: &mut String, d: usize)
    ensures
        final(out)@ == old(out)@ + spaces(d as nat + 1),
{
    push_indent(out, d);
    out.append("    ");
}

/// One arc line: endpoint positions, label, arrowhead, weights and colours,
/// all styled by the arc kind.
pub open spec fn spec_arc_line(vs: Seq<NodeKindView>, a: EdgeKindWithIxs<u32>) -> Seq<char> {
    spaces(1) + dec_str(a.from_ix as nat) + " -> "@ + dec_str(a.to_ix as nat) + " [ label = \""@
        + spec_edge_label(a.kind, spec_arc_meta(vs, a)) + "\" arrowhead = \""@
        + a.kind.spec_arrowhead() + "\" weight = "@ + dec_str(1) + " penwidth = "@ + dec_str(1)
        + " color = \""@ + a.kind.spec_color() + "bf\" fontcolor = \""@ + a.kind.spec_color()
        + "b3\" ]\n"@
}

/// Emits one arc line.
pub fn push_arc_line(out: &mut String, vertices: &Vec<NodeKind>, a: &EdgeKindWithIxs<u32>)
    ensures
        final(out)@ == old(out)@ + spec_arc_line(vertices.deep_view(), *a),
{
    push_indent(out, 1);
    let from_num = u32_string(a.from_ix);
    out.append(from_num.as_str());
    out.append(" -> ");
    let to_num = u32_string(a.to_ix);
    out.append(to_num.as_str());
    out.append(" [ label = \"");
    let meta = arc_meta(vertices, a);
    let label = a.label(meta.as_str());
    out.append(label.as_str());
    out.append("\" arrowhead = \"");
    out.append(a.kind.arrowhead());
    out.append("\" weight = ");
    let w = a.kind.weight();
    let weight_num = u32_string(w as u32);
    out.append(weight_num.as_str());
    out.append(" penwidth = ");
    let p = a.kind.penwidth();
    let pen_num = u32_string(p as u32);
    out.append(pen_num.as_str());
    out.append(" color = \"");
    out.append(a.kind.color());
    out.append("bf\" fontcolor = \"");
    out.append(a.kind.color());
    out.append("b3\" ]\n");
    proof {
        assert(out@ =~= old(out)@ + spec_arc_line(vertices.deep_view(), *a));
    }
}

/// Whether a vertex path lies strictly below the given prefix.
pub open spec fn extends_path(p: Seq<Seq<char>>, prefix: Seq<Seq<char>>) -> bool {
    p.len() > prefix.len() && forall|k: int| 0 <= k < prefix.len() ==> p[k] == prefix[k]
}

fn path_extends(p: &Vec<String>, prefix: &Vec<String>) -> (r: bool)
    ensures
        r == extends_path(p.deep_view(), prefix.deep_view()),
{
    if p.len() <= prefix.len() {
        return false;
    }
    let mut k: usize = 0;
    while k < prefix.len()
        invariant
            k <= prefix.len(),
            p@.len() > prefix@.len(),
            forall|j: int| 0 <= j < k ==> p.deep_view()[j] == prefix.deep_view()[j],
        decreases prefix.len() - k,
    {
        if !(p[k] == prefix[k]) {
            proof {
                assert(p.deep_view()[k as int] != prefix.deep_view()[k as int]);
            }
            return false;
        }
        proof {
            assert(p.deep_view()[k as int] == prefix.deep_view()[k as int]);
        }
        k = k + 1;
    }
    true
}

fn paths_equal(p: &Vec<String>, q: &Vec<String>) -> (r: bool)
    ensures
        r == (p.deep_view() == q.deep_view()),
{
    if p.len() != q.len() {
        proof {
            assert(p.deep_view().len() != q.deep_view().len());
        }
        return false;
    }
    let mut k: usize = 0;
    while k < p.len()
        invariant
            k <= p.len(),
            p@.len() == q@.len(),
            forall|j: int| 0 <= j < k ==> p.deep_view()[j] == q.deep_view()[j],
        decreases p.len() - k,
    {
        if !(p[k] == q[k]) {
            proof {
                assert(p.deep_view()[k as int] != q.deep_view()[k as int]);
            }
            return false;
        }
        proof {
            assert(p.deep_view()[k as int] == q.deep_view()[k as int]);
        }
        k = k + 1;
    }
    proof {
        assert(p.deep_view() =~= q.deep_view());
    }
    true
}

fn segs_contain(v: &Vec<String>, s: &String) -> (r: bool)
    ensures
        r == v.deep_view().contains(s@),
{
    let mut k: usize = 0;
    while k < v.len()
        invariant
            k <= v.len(),
            forall|j: int| 0 <= j < k ==> v.deep_view()[j] != s@,
        decreases v.len() - k,
    {
        if v[k] == *s {
            proof {
                assert(v.deep_view()[k as int] == s@);
            }
            return true;
        }
        proof {
            assert(v.deep_view()[k as int] != s@);
        }
        k = k + 1;
    }
    false
}

/// The namespace segments directly below a prefix, in order of the first
/// vertex that uses each one.
pub open spec fn child_segs(vs: Seq<NodeKindView>, prefix: Seq<Seq<char>>) -> Seq<Seq<char>>
    decreases vs.len(),
{
    if vs.len() == 0 {
        Seq::empty()
    } else {
        let pre = child_segs(vs.drop_last(), prefix);
        let v = vs.last();
        if extends_path(v.cluster, prefix) && !pre.contains(v.cluster[prefix.len() as int]) {
            pre.push(v.cluster[prefix.len() as int])
        } else {
            pre
        }
    }
}

/// Collects the namespace segments directly below a prefix.
fn collect_child_segs(vertices: &Vec<NodeKind>, prefix: &Vec<String>) -> (r: Vec<String>)
    ensures
        r.deep_view() == child_segs(vertices.deep_view(), prefix.deep_view()),
{
    let ghost vs = vertices.deep_view();
    let ghost pfx = prefix.deep_view();
    let mut segs: Vec<String> = Vec::new();
    proof {
        assert(vs.take(0) =~= Seq::<NodeKindView>::empty());
        assert(segs.deep_view() =~= child_segs(vs.take(0), pfx));
    }
    let mut i: usize = 0;
    while i < vertices.len()
        invariant
            i <= vertices.len(),
            vs == vertices.deep_view(),
            pfx == prefix.deep_view(),
            segs.deep_view() == child_segs(vs.take(i as int), pfx),
        decreases vertices.len() - i,
    {
        proof {
            assert(vs.take(i + 1).drop_last() =~= vs.take(i as int));
            assert(vs.take(i + 1).last() == vs[i as int]);
            assert(vs[i as int] == vertices@[i as int]@);
        }
        let p = vertices[i].cluster();
        proof {
            assert(p.deep_view() == vs[i as int].cluster);
        }
        if path_extends(p, prefix) {
            let seg = &p[prefix.len()];
            proof {
                assert(seg@ == vs[i as int].cluster[pfx.len() as int]);
            }
            if !segs_contain(&segs, seg) {
                let ghost pre = segs.deep_view();
                segs.push(seg.clone());
                proof {
                    assert(segs.deep_view() =~= pre.push(vs[i as int].cluster[pfx.len() as int]));
                }
            }
        }
        i = i + 1;
    }
    proof {
        assert(vs.take(vs.len() as int) =~= vs);
    }
    segs
}

/// The vertex lines of the top-level block: every vertex with an empty
/// namespace path, in vertex order.
pub open spec fn spec_main_lines(vs: Seq<NodeKindView>) -> Seq<char>
    decreases vs.len(),
{
    if vs.len() == 0 {
        Seq::empty()
    } else {
        spec_main_lines(vs.drop_last()) + (if vs.last().cluster.len() == 0 {
            spaces(2) + spec_vertex_line(vs.last(), vs.len() - 1)
        } else {
            Seq::empty()
        })
    }
}

/// The vertex lines a cluster block owns directly: every vertex whose path
/// equals the block's path, in vertex order.
pub open spec fn spec_own_lines(vs: Seq<NodeKindView>, path: Seq<Seq<char>>) -> Seq<char>
    decreases vs.len(),
{
    if vs.len() == 0 {
        Seq::empty()
    } else {
        spec_own_lines(vs.drop_last(), path) + (if vs.last().cluster == path {
            spaces(path.len() + 1) + spec_vertex_line(vs.last(), vs.len() - 1)
        } else {
            Seq::empty()
        })
    }
}

/// The arc lines, in arc order.
pub open spec fn spec_arc_lines(vs: Seq<NodeKindView>, arcs: Seq<EdgeKindWithIxs<u32>>) -> Seq<
    char,
>
    decreases arcs.len(),
{
    if arcs.len() == 0 {
        Seq::empty()
    } else {
        spec_arc_lines(vs, arcs.drop_last()) + spec_arc_line(vs, arcs.last())
    }
}

/// The longest namespace path any vertex uses.
pub open spec fn max_path_len(vs: Seq<NodeKindView>) -> nat
    decreases vs.len(),
{
    if vs.len() == 0 {
        0
    } else {
        let rest = max_path_len(vs.drop_last());
        if vs.last().cluster.len() > rest {
            vs.last().cluster.len()
        } else {
            rest
        }
    }
}

proof fn lemma_child_segs_depth(vs: Seq<NodeKindView>, prefix: Seq<Seq<char>>)
    requires
        child_segs(vs, prefix).len() > 0,
    ensures
        max_path_len(vs) > prefix.len(),
    decreases vs.len(),
{
    if vs.len() > 0 {
        let pre = child_segs(vs.drop_last(), prefix);
        if extends_path(vs.last().cluster, prefix) && !pre.contains(
            vs.last().cluster[prefix.len() as int],
        ) {
            assert(vs.last().cluster.len() > prefix.len());
        } else {
            lemma_child_segs_depth(vs.drop_last(), prefix);
        }
    }
}

/// The opening lines of one cluster block: its name, display label, style
/// and the background shade, which alternates with the nesting depth.
pub open spec fn spec_block_header(path: Seq<Seq<char>>) -> Seq<char> {
    let d = path.len() as nat;
    spaces(d) + "subgraph cluster_"@ + path.last() + " {\n"@ + spaces(d + 1) + "label = \""@
        + spec_display_name(path.last()) + "\"\n"@ + spaces(d + 1) + "style = \"filled\"\n"@
        + spaces(d + 1) + "color = \"#a9b1d6\"\n"@ + spaces(d + 1) + "fillcolor = \""@ + (if d % 2
        == 0 {
        "#1a1b26"@
    } else {
        "#24283b"@
    }) + "\"\n"@
}

/// One cluster block: header lines, its own vertices, then its child
/// blocks, nested one level deeper.
pub open spec fn spec_block(vs: Seq<NodeKindView>, path: Seq<Seq<char>>, fuel: nat) -> Seq<char>
    decreases fuel, 0nat,
{
    if fuel == 0 || path.len() == 0 {
        Seq::empty()
    } else {
        let d = path.len() as nat;
        spec_block_header(path) + spec_own_lines(vs, path) + spec_blocks(
            vs,
            path,
            child_segs(vs, path),
            (fuel - 1) as nat,
        ) + spaces(d) + "}\n"@
    }
}

/// The blocks of the given child segments, in segment order.
pub open spec fn spec_blocks(
    vs: Seq<NodeKindView>,
    prefix: Seq<Seq<char>>,
    segs: Seq<Seq<char>>,
    fuel: nat,
) -> Seq<char>
    decreases fuel, segs.len() + 1,
{
    if segs.len() == 0 {
        Seq::empty()
    } else {
        spec_block(vs, prefix.push(segs[0]), fuel) + spec_blocks(
            vs,
            prefix,
            segs.drop_first(),
            fuel,
        )
    }
}

/// Emits the opening lines of one cluster block.
fn push_block_header(out: &mut String, path: &Vec<String>)
    requires
        path@.len() >= 1,
    ensures
        final(out)@ == old(out)@ + spec_block_header(path.deep_view()),
{
    let ghost pv = path.deep_view();
    let d = path.len();
    push_indent(out, d);
    out.append("subgraph cluster_");
    out.append(path[d - 1].as_str());
    proof {
        assert(path@[d - 1]@ == pv.last());
    }
    out.append(" {\n");
    push_indent1(out, d);
    out.append("label = \"");
    let disp = display_name(path[d - 1].as_str());
    out.append(disp.as_str());
    out.append("\"\n");
    push_indent1(out, d);
    out.append("style = \"filled\"\n");
    push_indent1(out, d);
    out.append("color = \"#a9b1d6\"\n");
    push_indent1(out, d);
    out.append("fillcolor = \"");
    if d % 2 == 0 {
        out.append("#1a1b26");
    } else {
        out.append("#24283b");
    }
    out.append("\"\n");
    proof {
        assert(out@ =~= old(out)@ + spec_block_header(pv));
    }
}

/// Emits one cluster block and, recursively, its children.
#[verifier::rlimit(60)]
fn render_block(
    out: &mut String,
    vertices: &Vec<NodeKind>,
    path: &Vec<String>,
    Ghost(fuel): Ghost<nat>,
)
    requires
        path@.len() >= 1,
        fuel >= 1,
        fuel + path.deep_view().len() > max_path_len(vertices.deep_view()),
        vertices@.len() <= u32::MAX,
    ensures
        final(out)@ == old(out)@ + spec_block(
            vertices.deep_view(),
            path.deep_view(),
            fuel,
        ),
    decreases fuel,
{
    let ghost vs = vertices.deep_view();
    let ghost pv = path.deep_view();
    let d = path.len();
    push_block_header(out, path);
    let ghost own_base = out@;
    proof {
        assert(vs.take(0) =~= Seq::<NodeKindView>::empty());
        assert(out@ =~= own_base + spec_own_lines(vs.take(0), pv));
    }
    let mut i: usize = 0;
    while i < vertices.len()
        invariant
            i <= vertices.len(),
            vs == vertices.deep_view(),
            pv == path.deep_view(),
            d == path@.len(),
            vertices@.len() <= u32::MAX,
            out@ == own_base + spec_own_lines(vs.take(i as int), pv),
        decreases vertices.len() - i,
    {
        proof {
            assert(vs.take(i + 1).drop_last() =~= vs.take(i as int));
            assert(vs.take(i + 1).last() == vs[i as int]);
            assert(vs[i as int] == vertices@[i as int]@);
        }
        if paths_equal(vertices[i].cluster(), path) {
            push_indent1(out, d);
            push_vertex_line(out, &vertices[i], i);
            proof {
                assert(out@ =~= own_base + spec_own_lines(vs.take(i + 1), pv));
            }
        }
        i = i + 1;
    }
    proof {
        assert(vs.take(vs.len() as int) =~= vs);
    }
    let segs = collect_child_segs(vertices, path);
    let ghost segs_v = segs.deep_view();
    let ghost blocks_base = out@;
    let mut j: usize = 0;
    proof {
        assert(segs_v.skip(0) =~= segs_v);
    }
    while j < segs.len()
        invariant
            j <= segs.len(),
            vs == vertices.deep_view(),
            pv == path.deep_view(),
            d == path@.len(),
            1 <= d,
            fuel >= 1,
            fuel + pv.len() > max_path_len(vs),
            vertices@.len() <= u32::MAX,
            segs_v == segs.deep_view(),
            segs_v == child_segs(vs, pv),
            out@ + spec_blocks(vs, pv, segs_v.skip(j as int), (fuel - 1) as nat) == blocks_base
                + spec_blocks(vs, pv, segs_v, (fuel - 1) as nat),
        decreases segs.len() - j,
    {
        let ghost tail = segs_v.skip(j as int);
        proof {
            assert(tail[0] == segs_v[j as int]);
            assert(tail.drop_first() =~= segs_v.skip(j as int + 1));
            assert(segs_v[j as int] == segs@[j as int]@);
            lemma_child_segs_depth(vs, pv);
        }
        let mut child = crate::graph::clone_strings(path);
        child.push(segs[j].clone());
        proof {
            assert(child.deep_view() =~= pv.push(segs_v[j as int]));
        }
        render_block(out, vertices, &child, Ghost((fuel - 1) as nat));
        j = j + 1;
    }
    proof {
        assert(segs_v.skip(segs_v.len() as int) =~= Seq::<Seq<char>>::empty());
    }
    push_indent(out, d);
    out.append("}\n");
    proof {
        assert(out@ =~= old(out)@ + spec_block(vs, pv, fuel));
    }
}

/// The whole rendered text: a fixed header, the top-level block of
/// un-clustered vertices, every cluster block, then the flat arc list.
pub open spec fn spec_render(vs: Seq<NodeKindView>, arcs: Seq<EdgeKindWithIxs<u32>>) -> Seq<char> {
    "digraph {\n"@ + spaces(1) + "fontcolor = \"#a9b1d6\"\n"@ + spaces(1)
        + "bgcolor = \"#1a1b26\"\n"@ + spaces(1) + "fontname = \"NewCenturySchlbk-Bold\"\n"@
        + spaces(1) + "subgraph main {\n"@ + spec_main_lines(vs) + spaces(1) + "}\n"@
        + spec_blocks(vs, Seq::empty(), child_segs(vs, Seq::empty()), max_path_len(vs) + 1)
        + spec_arc_lines(vs, arcs) + "}\n"@
}

/// Renders the value graph as a clustered directed-graph text. Given a
/// fixed vertex and arc order the output is fixed byte for byte: the text
/// is exactly `spec_render` of the graph's contents.
pub fn render_graph(vg: &crate::value::ValueGraph) -> (r: String)
    requires
        vg.vertices@.len() <= u32::MAX,
    ensures
        r@ == spec_render(vg.vertices.deep_view(), vg.arcs@),
{
    let ghost vs = vg.vertices.deep_view();
    let ghost arcs_v = vg.arcs@;
    let mut out = String::new();
    out.append("digraph {\n");
    push_indent(&mut out, 1);
    out.append("fontcolor = \"#a9b1d6\"\n");
    push_indent(&mut out, 1);
    out.append("bgcolor = \"#1a1b26\"\n");
    push_indent(&mut out, 1);
    out.append("fontname = \"NewCenturySchlbk-Bold\"\n");
    push_indent(&mut out, 1);
    out.append("subgraph main {\n");
    let ghost main_base = out@;
    proof {
        assert(vs.take(0) =~= Seq::<NodeKindView>::empty());
        assert(out@ =~= main_base + spec_main_lines(vs.take(0)));
    }
    let mut i: usize = 0;
    while i < vg.vertices.len()
        invariant
            i <= vg.vertices.len(),
            vs == vg.vertices.deep_view(),
            vg.vertices@.len() <= u32::MAX,
            out@ == main_base + spec_main_lines(vs.take(i as int)),
        decreases vg.vertices.len() - i,
    {
        proof {
            assert(vs.take(i + 1).drop_last() =~= vs.take(i as int));
            assert(vs.take(i + 1).last() == vs[i as int]);
            assert(vs[i as int] == vg.vertices@[i as int]@);
        }
        if vg.vertices[i].cluster().len() == 0 {
            proof {
                assert(vs[i as int].cluster.len() == 0);
            }
            push_indent(&mut out, 2);
            push_vertex_line(&mut out, &vg.vertices[i], i);
            proof {
                assert(out@ =~= main_base + spec_main_lines(vs.take(i + 1)));
            }
        } else {
            proof {
                assert(vs[i as int].cluster.len() != 0);
            }
        }
        i = i + 1;
    }
    proof {
        assert(vs.take(vs.len() as int) =~= vs);
    }
    push_indent(&mut out, 1);
    out.append("}\n");
    let empty_prefix: Vec<String> = Vec::new();
    proof {
        assert(empty_prefix.deep_view() =~= Seq::<Seq<char>>::empty());
    }
    let segs = collect_child_segs(&vg.vertices, &empty_prefix);
    let ghost segs_v = segs.deep_view();
    let ghost m = max_path_len(vs);
    let ghost blocks_base = out@;
    let mut j: usize = 0;
    proof {
        assert(segs_v.skip(0) =~= segs_v);
    }
    while j < segs.len()
        invariant
            j <= segs.len(),
            vs == vg.vertices.deep_view(),
            vg.vertices@.len() <= u32::MAX,
            m == max_path_len(vs),
            segs_v == segs.deep_view(),
            segs_v == child_segs(vs, Seq::<Seq<char>>::empty()),
            out@ + spec_blocks(vs, Seq::empty(), segs_v.skip(j as int), m + 1) == blocks_base
                + spec_blocks(vs, Seq::empty(), segs_v, m + 1),
        decreases segs.len() - j,
    {
        let ghost tail = segs_v.skip(j as int);
        proof {
            assert(tail[0] == segs_v[j as int]);
            assert(tail.drop_first() =~= segs_v.skip(j as int + 1));
            assert(segs_v[j as int] == segs@[j as int]@);
            lemma_child_segs_depth(vs, Seq::<Seq<char>>::empty());
        }
        let mut child: Vec<String> = Vec::new();
        child.push(segs[j].clone());
        proof {
            assert(child.deep_view() =~= Seq::<Seq<char>>::empty().push(segs_v[j as int]));
        }
        render_block(&mut out, &vg.vertices, &child, Ghost(m + 1));
        j = j + 1;
    }
    proof {
        assert(segs_v.skip(segs_v.len() as int) =~= Seq::<Seq<char>>::empty());
    }
    let ghost arcs_base = out@;
    proof {
        assert(arcs_v.take(0) =~= Seq::<EdgeKindWithIxs<u32>>::empty());
        assert(out@ =~= arcs_base + spec_arc_lines(vs, arcs_v.take(0)));
    }
    let mut k: usize = 0;
    while k < vg.arcs.len()
        invariant
            k <= vg.arcs.len(),
            vs == vg.vertices.deep_view(),
            arcs_v == vg.arcs@,
            out@ == arcs_base + spec_arc_lines(vs, arcs_v.take(k as int)),
        decreases vg.arcs.len() - k,
    {
        proof {
            assert(arcs_v.take(k + 1).drop_last() =~= arcs_v.take(k as int));
            assert(arcs_v.take(k + 1).last() == arcs_v[k as int]);
        }
        push_arc_line(&mut out, &vg.vertices, &vg.arcs[k]);
        k = k + 1;
    }
    proof {
        assert(arcs_v.take(arcs_v.len() as int) =~= arcs_v);
    }
    out.append("}\n");
    proof {
        assert(out@ =~= spec_render(vs, arcs_v));
    }
    out
}

/// Anything that can draw itself as a directed-graph text.
pub trait Graphviz {
    fn render(&self) -> String;
}

impl Graphviz for crate::value::ValueGraph {
    /// The clustered text of this value graph. Vertex positions are
    /// 32-bit; a graph too large for them renders as empty text.
    fn render(&self) -> String {
        if self.vertices.len() <= u32::MAX as usize {
            render_graph(self)
        } else {
            String::new()
        }
    }
}

/// Rendering is a pure function of the vertex and arc lists: with a fixed
/// order, repeated renders are byte-identical.
pub proof fn lemma_render_deterministic(
    vs: Seq<NodeKindView>,
    arcs: Seq<EdgeKindWithIxs<u32>>,
    r1: Seq<char>,
    r2: Seq<char>,
)
    requires
        r1 == spec_render(vs, arcs),
        r2 == spec_render(vs, arcs),
    ensures
        r1 == r2,
{
}

} // verus!

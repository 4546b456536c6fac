//! Cables: paths of nodes that are written as text, and the tubes that are drawn along them.

use crate::bits::{F32_HALF, F32_ONE};
use crate::entity::Entity;
use crate::text::{chars_of, split, string_of, trim};
use vstd::prelude::*;

verus! {

/// The material of every cable.
pub const CABLE_MATERIAL_PATH: &'static str = "materials/cable/csgo_placeholder_cable.vmat";

/// The sides of a tube.
pub const SIDES: u32 = 4;

/// The vertices of a ring of a tube: the first stands twice, where the texture begins and ends.
pub const RING_VERTICES: u32 = 5;

/// How far a text of nested lists was read.
pub struct ScanView {
    /// How many brackets are open.
    pub depth: int,
    /// What stands in the second level that is open, so far.
    pub group: Seq<char>,
    /// What stood in the second levels that were closed.
    pub groups: Seq<Seq<char>>,
}

/// What a character does.
pub open spec fn scan_step(s: ScanView, c: char) -> ScanView {
    if c == '[' {
        ScanView {
            depth: s.depth + 1,
            group: if s.depth + 1 == 2 {
                Seq::empty()
            } else {
                s.group
            },
            groups: s.groups,
        }
    } else if c == ']' {
        ScanView {
            depth: s.depth - 1,
            group: s.group,
            groups: if s.depth == 2 {
                s.groups.push(s.group)
            } else {
                s.groups
            },
        }
    } else if s.depth == 2 {
        ScanView { group: s.group.push(c), ..s }
    } else {
        s
    }
}

/// A text of nested lists, read to its end.
pub open spec fn scanned(s: Seq<char>) -> ScanView
    decreases s.len(),
{
    if s.len() == 0 {
        ScanView { depth: 0, group: Seq::empty(), groups: Seq::empty() }
    } else {
        scan_step(scanned(s.drop_last()), s.last())
    }
}

/// Parts of a text, without the space around each.
pub open spec fn trimmed_parts(s: Seq<char>) -> Seq<Seq<char>> {
    let p = crate::text::pieces(s, ',');
    Seq::new(p.len(), |i: int| crate::text::trimmed(p[i]))
}

/// The parts of a text between commas, without the space around each.
fn write_parts(s: &str) -> (r: Vec<String>)
    ensures
        crate::text::texts(r@) == trimmed_parts(s@),
{
    let p: Vec<String> = split(s, ',');
    let ghost all = trimmed_parts(s@);
    let mut out: Vec<String> = Vec::new();
    let mut i: usize = 0;
    while i < p.len()
        invariant
            i <= p@.len(),
            crate::text::texts(p@) == crate::text::pieces(s@, ','),
            all == trimmed_parts(s@),
            crate::text::texts(out@) =~= all.take(i as int),
        decreases p@.len() - i,
    {
        assert(crate::text::texts(p@)[i as int] == p@[i as int]@);
        let t: String = trim(p[i].as_str());
        proof {
            crate::text::lemma_texts_push(out@, t);
            assert(all.take(i + 1) =~= all.take(i as int).push(t@));
        }
        out.push(t);
        i += 1;
    }
    assert(all.take(i as int) =~= all);
    out
}

/// The parts of each group.
pub open spec fn groups_of(s: Seq<char>) -> Seq<Seq<Seq<char>>> {
    let g = scanned(s).groups;
    Seq::new(g.len(), |i: int| trimmed_parts(g[i]))
}

/// The views of lists of texts.
pub open spec fn text_lists(v: Seq<Vec<String>>) -> Seq<Seq<Seq<char>>> {
    Seq::new(v.len(), |i: int| crate::text::texts(v[i]@))
}

/// The groups of a text of nested lists: what stands in each list of the second level, between its
/// commas.
pub fn path_node_groups(s: &str) -> (r: Vec<Vec<String>>)
    ensures
        text_lists(r@) == groups_of(s@),
{
    let chars: Vec<char> = chars_of(s);
    let ghost empty = ScanView { depth: 0, group: Seq::empty(), groups: Seq::empty() };
    let mut depth: i128 = 0;
    let mut group: Vec<char> = Vec::new();
    let mut out: Vec<Vec<String>> = Vec::new();
    let mut i: usize = 0;
    assert(chars@.take(0).len() == 0);
    while i < chars.len()
        invariant
            i <= chars@.len(),
            chars@ == s@,
            scanned(chars@.take(i as int)).depth == depth,
            scanned(chars@.take(i as int)).group == group@,
            text_lists(out@).len() == scanned(chars@.take(i as int)).groups.len(),
            forall|k: int|
                0 <= k < out@.len() ==> #[trigger] text_lists(out@)[k] == trimmed_parts(
                    scanned(chars@.take(i as int)).groups[k],
                ),
            -(i as int) <= depth <= i,
        decreases chars@.len() - i,
    {
        let ghost before = scanned(chars@.take(i as int));
        proof {
            assert(chars@.take(i + 1).drop_last() =~= chars@.take(i as int));
            assert(chars@.take(i + 1).last() == chars@[i as int]);
        }
        let c: char = chars[i];
        if c == '[' {
            depth = depth + 1;
            if depth == 2 {
                group = Vec::new();
            }
        } else if c == ']' {
            if depth == 2 {
                let t: String = string_of(&group, 0, group.len());
                assert(t@ =~= group@);
                let parts: Vec<String> = write_parts(t.as_str());
                let ghost lists = out@;
                out.push(parts);
                proof {
                    assert forall|k: int| 0 <= k < out@.len() implies #[trigger] text_lists(
                        out@,
                    )[k] == trimmed_parts(scan_step(before, c).groups[k]) by {
                        if k < lists.len() {
                            assert(text_lists(lists)[k] == trimmed_parts(before.groups[k]));
                        }
                    }
                }
            }
            depth = depth - 1;
        } else if depth == 2 {
            group.push(c);
        }
        i += 1;
    }
    assert(chars@.take(i as int) =~= chars@);
    assert(text_lists(out@) =~= groups_of(s@));
    out
}

/// A text without the brackets at its start.
pub open spec fn after_open(s: Seq<char>) -> Seq<char>
    decreases s.len(),
{
    if s.len() > 0 && s[0] == '[' {
        after_open(s.skip(1))
    } else {
        s
    }
}

/// A text without the brackets at its end.
pub open spec fn before_close(s: Seq<char>) -> Seq<char>
    decreases s.len(),
{
    if s.len() > 0 && s.last() == ']' {
        before_close(s.drop_last())
    } else {
        s
    }
}

/// The parts of a list that is written as text: between its commas, without the brackets around it.
pub fn flat_number_tokens(s: &str) -> (r: Vec<String>)
    ensures
        crate::text::texts(r@) == trimmed_parts(
            before_close(after_open(crate::text::trimmed(s@))),
        ),
{
    let t: String = trim(s);
    let chars: Vec<char> = chars_of(t.as_str());
    let ghost all = chars@;
    let mut from: usize = 0;
    assert(all.skip(0) =~= all);
    while from < chars.len() && chars[from] == '['
        invariant
            from <= chars@.len(),
            all == chars@,
            after_open(all) == after_open(all.skip(from as int)),
        decreases chars@.len() - from,
    {
        assert(all.skip(from as int).skip(1) =~= all.skip(from + 1));
        from += 1;
    }
    let ghost opened = all.skip(from as int);
    let mut to: usize = chars.len();
    assert(all.subrange(from as int, to as int) =~= opened);
    while to > from && chars[to - 1] == ']'
        invariant
            from <= to <= chars@.len(),
            all == chars@,
            before_close(opened) == before_close(all.subrange(from as int, to as int)),
        decreases to,
    {
        let ghost now = all.subrange(from as int, to as int);
        assert(now.drop_last() =~= all.subrange(from as int, to - 1));
        to -= 1;
    }
    let inner: String = string_of(&chars, from, to);
    write_parts(inner.as_str())
}

/// A node of a path, in the axes of its entity: as the bits of singles.
#[derive(Debug, Clone, Copy)]
pub struct PathNode {
    pub pos: (u32, u32, u32),
    pub in_tangent: (u32, u32, u32),
    pub out_tangent: (u32, u32, u32),
}

/// The numbers among parts.
pub open spec fn numbers_in(v: Seq<Option<u32>>) -> Seq<u32>
    decreases v.len(),
{
    if v.len() == 0 {
        Seq::empty()
    } else {
        match v.last() {
            Some(n) => numbers_in(v.drop_last()).push(n),
            None => numbers_in(v.drop_last()),
        }
    }
}

/// The numbers among parts.
pub fn present_numbers(v: &Vec<Option<u32>>) -> (r: Vec<u32>)
    ensures
        r@ == numbers_in(v@),
{
    let mut out: Vec<u32> = Vec::new();
    assert(out@ =~= numbers_in(v@.take(0)));
    let mut i: usize = 0;
    while i < v.len()
        invariant
            i <= v@.len(),
            out@ == numbers_in(v@.take(i as int)),
        decreases v@.len() - i,
    {
        proof {
            assert(v@.take(i + 1).drop_last() =~= v@.take(i as int));
            assert(v@.take(i + 1).last() == v@[i as int]);
        }
        match v[i] {
            Some(n) => {
                out.push(n);
            },
            None => {},
        }
        i += 1;
    }
    assert(v@.take(i as int) =~= v@);
    out
}

/// The node of a group: one that does not have nine numbers is none.
pub open spec fn node_of(numbers: Seq<u32>) -> Option<PathNode> {
    if numbers.len() == 9 {
        Some(
            PathNode {
                pos: (numbers[0], numbers[1], numbers[2]),
                in_tangent: (numbers[3], numbers[4], numbers[5]),
                out_tangent: (numbers[6], numbers[7], numbers[8]),
            },
        )
    } else {
        None
    }
}

/// The nodes of groups.
pub open spec fn nodes_of(groups: Seq<Seq<Option<u32>>>) -> Seq<PathNode>
    decreases groups.len(),
{
    if groups.len() == 0 {
        Seq::empty()
    } else {
        match node_of(numbers_in(groups.last())) {
            Some(n) => nodes_of(groups.drop_last()).push(n),
            None => nodes_of(groups.drop_last()),
        }
    }
}

/// The sequences behind lists of parts.
pub open spec fn part_lists(v: Seq<Vec<Option<u32>>>) -> Seq<Seq<Option<u32>>> {
    Seq::new(v.len(), |i: int| v[i]@)
}

/// The nodes of a path: each group holds what its parts read as, as numbers.
pub fn parse_path_nodes(groups: &Vec<Vec<Option<u32>>>) -> (r: Vec<PathNode>)
    ensures
        r@ == nodes_of(part_lists(groups@)),
{
    let ghost all = part_lists(groups@);
    let mut out: Vec<PathNode> = Vec::new();
    assert(out@ =~= nodes_of(all.take(0)));
    let mut i: usize = 0;
    while i < groups.len()
        invariant
            i <= groups@.len(),
            all == part_lists(groups@),
            out@ == nodes_of(all.take(i as int)),
        decreases groups@.len() - i,
    {
        proof {
            assert(all.take(i + 1).drop_last() =~= all.take(i as int));
            assert(all.take(i + 1).last() == groups@[i as int]@);
        }
        let n: Vec<u32> = present_numbers(&groups[i]);
        if n.len() == 9 {
            out.push(
                PathNode {
                    pos: (n[0], n[1], n[2]),
                    in_tangent: (n[3], n[4], n[5]),
                    out_tangent: (n[6], n[7], n[8]),
                },
            );
        }
        i += 1;
    }
    assert(all.take(i as int) =~= all);
    out
}

/// A cable: numbers are the bits of singles.
#[derive(Debug)]
pub struct ParsedCable {
    pub nodes: Vec<PathNode>,
    pub radius: u32,
    /// How far the rings of the tube are to stand from each other.
    pub spacing: u32,
    /// What the radius is multiplied by at the two ends.
    pub radius_scale_start: u32,
    pub radius_scale_end: u32,
    /// From 0 to 255; white where it is missing.
    pub tint: Option<[u32; 3]>,
    pub origin: [u32; 3],
    pub angles: [u32; 3],
    pub scales: [u32; 3],
}

/// The bits of the single 60.
pub const F32_SIXTY: u32 = 0x4270_0000;

/// The cable of an entity whose path has these nodes and whose radius these multipliers; a path of
/// fewer than two nodes is none.
pub fn parse_cable(e: &Entity, nodes: Vec<PathNode>, radius_scales: &Vec<u32>) -> (r: Option<
    ParsedCable,
>)
    ensures
        r is Some == (crate::entity::text_of(*e, "pathnodes"@) is Some && nodes@.len() >= 2),
        r matches Some(c) ==> {
            &&& c.nodes@ == nodes@
            &&& c.radius == crate::environment::num_of(*e, "radius"@, F32_HALF)
            &&& c.spacing == crate::environment::num_of(*e, "particle_spacing"@, F32_SIXTY)
            &&& c.radius_scale_start == (if radius_scales@.len() > 0 {
                radius_scales@[0]
            } else {
                F32_ONE
            })
            &&& c.radius_scale_end == (if radius_scales@.len() > 0 {
                radius_scales@.last()
            } else {
                F32_ONE
            })
            &&& c.tint == crate::entity::vector_of(*e, "color_tint"@)
            &&& c.origin == e.origin
            &&& c.angles == e.angles
            &&& c.scales == e.scales
        },
{
    if e.get_str("pathnodes").is_none() || nodes.len() < 2 {
        return None;
    }
    let radius_scale_start: u32 = if radius_scales.len() > 0 {
        radius_scales[0]
    } else {
        F32_ONE
    };
    let radius_scale_end: u32 = if radius_scales.len() > 0 {
        radius_scales[radius_scales.len() - 1]
    } else {
        F32_ONE
    };
    Some(
        ParsedCable {
            nodes,
            radius: crate::environment::num(e, "radius", F32_HALF),
            spacing: crate::environment::num(e, "particle_spacing", F32_SIXTY),
            radius_scale_start,
            radius_scale_end,
            tint: e.get_vec3("color_tint"),
            origin: e.origin,
            angles: e.angles,
            scales: e.scales,
        },
    )
}

/// How many rings a segment of a tube has, where it asks for so many: at least four.
pub fn segment_rings(wanted: usize) -> (r: usize)
    ensures
        r == (if wanted < 4 {
            4
        } else {
            wanted
        }),
{
    if wanted < 4 {
        4
    } else {
        wanted
    }
}

/// The two triangles of one side of one piece of a tube: `i` is the ring at its start, `j` the side.
pub open spec fn side_triangles(i: int, j: int) -> Seq<u32> {
    let a = i * RING_VERTICES;
    let b = (i + 1) * RING_VERTICES;
    Seq::<u32>::empty().push((a + j) as u32).push((a + j + 1) as u32).push(
        (b + j + 1) as u32,
    ).push((a + j) as u32).push((b + j + 1) as u32).push((b + j) as u32)
}

/// The triangles of the first `n` sides of a tube, side by side and piece by piece.
pub open spec fn tube_triangles(n: int) -> Seq<u32>
    decreases n,
{
    if n <= 0 {
        Seq::empty()
    } else {
        tube_triangles(n - 1) + side_triangles((n - 1) / (SIDES as int), (n - 1) % (SIDES as int))
    }
}

/// The triangles of a tube of so many rings.
pub fn tube_indices(rings: u32) -> (r: Vec<u32>)
    requires
        rings >= 1,
        rings * RING_VERTICES <= u32::MAX,
    ensures
        r@ == tube_triangles((rings - 1) * SIDES),
{
    let mut out: Vec<u32> = Vec::new();
    let mut i: u32 = 0;
    while i < rings - 1
        invariant
            rings >= 1,
            i <= rings - 1,
            rings * RING_VERTICES <= u32::MAX,
            out@ == tube_triangles(i * SIDES),
        decreases rings - i,
    {
        let a: u32 = i * RING_VERTICES;
        let b: u32 = (i + 1) * RING_VERTICES;
        let mut j: u32 = 0;
        while j < SIDES
            invariant
                i < rings - 1,
                rings * RING_VERTICES <= u32::MAX,
                a == i * RING_VERTICES,
                b == (i + 1) * RING_VERTICES,
                j <= SIDES,
                out@ == tube_triangles(i * SIDES + j),
            decreases SIDES - j,
        {
            let ghost before = out@;
            out.push(a + j);
            out.push(a + j + 1);
            out.push(b + j + 1);
            out.push(a + j);
            out.push(b + j + 1);
            out.push(b + j);
            proof {
                let n = i * SIDES + j + 1;
                assert((n - 1) / (SIDES as int) == i && (n - 1) % (SIDES as int) == j);
                assert(out@ =~= before + side_triangles(i as int, j as int));
            }
            j += 1;
        }
        i += 1;
    }
    out
}

/// The triangles of a tube stay within its rings, and there are two for each side of each piece.
pub proof fn a_tube_stays_within_its_rings(rings: int, n: int)
    requires
        1 <= rings,
        rings * RING_VERTICES <= u32::MAX,
        0 <= n <= (rings - 1) * SIDES,
    ensures
        tube_triangles(n).len() == 6 * n,
        forall|i: int|
            0 <= i < tube_triangles(n).len() ==> (#[trigger] tube_triangles(n)[i]) < rings
                * RING_VERTICES,
    decreases n,
{
    if n > 0 {
        a_tube_stays_within_its_rings(rings, n - 1);
        let before = tube_triangles(n - 1);
        let now = tube_triangles(n);
        let side = side_triangles((n - 1) / (SIDES as int), (n - 1) % (SIDES as int));
        assert(0 <= (n - 1) / (SIDES as int) < rings - 1);
        assert forall|i: int| 0 <= i < now.len() implies (#[trigger] now[i]) < rings
            * RING_VERTICES by {
            if i < before.len() {
                assert(now[i] == before[i]);
            } else {
                assert(now[i] == side[i - before.len()]);
            }
        }
    }
}

} // verus!

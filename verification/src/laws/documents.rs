//! What the written document holds: where the bytes of its streams lie, what its accessors, its
//! meshes and its nodes say, and where its nodes put their points.

use crate::gltf::{Accessor, Bounds, BufferView, BuilderView, Shape, Stream};
use crate::json::JsonView;
use vstd::prelude::*;

verus! {

/// Whether a document holds a value under a key.
pub open spec fn says(j: JsonView, key: Seq<char>, value: JsonView) -> bool {
    j matches JsonView::Object(m) && m.contains((key, value))
}

/// Whether a document holds a whole number under a key.
pub open spec fn counts(j: JsonView, key: Seq<char>, n: int) -> bool {
    exists|v: JsonView| #[trigger] says(j, key, v) && (v matches JsonView::UInt(u) && u == n)
}

/// How many members a document has.
pub open spec fn size(j: JsonView) -> int {
    match j {
        JsonView::Object(m) => m.len() as int,
        _ => 0,
    }
}

/// A document says what each of its members says.
pub proof fn lemma_says(m: Seq<(Seq<char>, JsonView)>, i: int)
    requires
        0 <= i < m.len(),
    ensures
        says(JsonView::Object(m), m[i].0, m[i].1),
        m[i].1 matches JsonView::UInt(u) ==> counts(JsonView::Object(m), m[i].0, u as int),
{
    assert(m[i] == (m[i].0, m[i].1));
    assert(m.contains((m[i].0, m[i].1)));
}

/// The sixteen numbers of a node are the columns of its transform, one after the other, each with
/// the number of the fourth row behind it: 0, 0, 0 and 1.
pub proof fn a_matrix_is_written_by_columns(t: Seq<u32>, i: int, j: int)
    requires
        t.len() == 12,
        0 <= i < 3,
        0 <= j < 4,
    ensures
        ({
            let m = crate::gltf::matrix_of(t);
            &&& m.len() == 16
            &&& m[4 * j + i] == t[4 * i + j]
            &&& m[3] == 0 && m[7] == 0 && m[11] == 0 && m[15] == 0x3F80_0000
        }),
{
    assert((4 * j + i) % 4 == i && (4 * j + i) / 4 == j);
}

/// The numbers of a node move a point as its transform does, whatever the bits stand for, as long as
/// those of nought and of one stand for these: read by columns and applied to a point with a fourth
/// coordinate of 1, they give what the three rows give, and a fourth coordinate of 1.
pub proof fn a_node_moves_points_as_its_transform_does(
    t: Seq<u32>,
    value: spec_fn(u32) -> int,
    x: int,
    y: int,
    z: int,
    i: int,
)
    requires
        t.len() == 12,
        value(0) == 0,
        value(0x3F80_0000) == 1,
        0 <= i < 3,
    ensures
        ({
            let m = crate::gltf::matrix_of(t);
            &&& value(m[i]) * x + value(m[4 + i]) * y + value(m[8 + i]) * z + value(m[12 + i])
                == value(t[4 * i]) * x + value(t[4 * i + 1]) * y + value(t[4 * i + 2]) * z + value(
                t[4 * i + 3],
            )
            &&& value(m[3]) * x + value(m[7]) * y + value(m[11]) * z + value(m[15]) == 1
        }),
{
    a_matrix_is_written_by_columns(t, i, 0);
    a_matrix_is_written_by_columns(t, i, 1);
    a_matrix_is_written_by_columns(t, i, 2);
    a_matrix_is_written_by_columns(t, i, 3);
    assert(value(0) * x == 0 && value(0) * y == 0 && value(0) * z == 0) by (nonlinear_arith)
        requires
            value(0) == 0,
    ;
}

/// A transform moves nothing if its rows are those of the identity; nought may have either sign.
pub proof fn the_identity_has_its_rows(t: Seq<u32>)
    requires
        t.len() == 12,
    ensures
        crate::export::is_identity(t) == (forall|i: int, j: int|
            #![trigger t[4 * i + j]]
            0 <= i < 3 && 0 <= j < 4 ==> if i == j {
                t[4 * i + j] == 0x3F80_0000
            } else {
                t[4 * i + j] == 0 || t[4 * i + j] == 0x8000_0000
            }),
{
    if crate::export::is_identity(t) {
        assert forall|i: int, j: int|
            #![trigger t[4 * i + j]]
            0 <= i < 3 && 0 <= j < 4 implies if i == j {
            t[4 * i + j] == 0x3F80_0000
        } else {
            t[4 * i + j] == 0 || t[4 * i + j] == 0x8000_0000
        } by {
            assert(crate::export::is_number(
                t[4 * i + j],
                crate::world::IDENTITY_TRANSFORM@[4 * i + j],
            ));
            crate::laws::worlds::the_identity_moves_nothing(i, j);
        }
    } else {
        let k = choose|k: int|
            0 <= k < 12 && !crate::export::is_number(
                #[trigger] t[k],
                crate::world::IDENTITY_TRANSFORM@[k],
            );
        let i = k / 4;
        let j = k % 4;
        assert(k == 4 * i + j);
        crate::laws::worlds::the_identity_moves_nothing(i, j);
        assert(t[4 * i + j] == t[k]);
    }
}

/// A node says which mesh it draws, and where: the numbers of its transform by columns, unless the
/// transform moves nothing. It has a name, an order and a handshake where these are given.
pub proof fn a_node_says_what_it_draws_and_where(
    name: Option<Seq<char>>,
    mesh: u32,
    t: Seq<u32>,
    order: Option<i64>,
    handshake: i64,
)
    requires
        t.len() == 12,
    ensures
        ({
            let j = crate::export::instance_json(name, mesh, t, order, handshake);
            let named = name is Some;
            let moved = !crate::export::is_identity(t);
            let more = order is Some || handshake != 0;
            &&& counts(j, "mesh"@, mesh as int)
            &&& name matches Some(n) ==> says(j, "name"@, JsonView::Str(n))
            &&& moved ==> exists|m: Seq<JsonView>| #[trigger]
                says(j, "matrix"@, JsonView::Array(m)) && m.len() == 16 && are_columns(m, t)
            &&& more ==> exists|e: JsonView| #[trigger]
                says(j, "extras"@, e) && is_extras(e, order, handshake)
            &&& size(j) == 1 + (if named {
                1int
            } else {
                0
            }) + (if moved {
                1int
            } else {
                0
            }) + (if more {
                1int
            } else {
                0
            })
        }),
{
    let j = crate::export::instance_json(name, mesh, t, order, handshake);
    let m = j->Object_0;
    let numbers = crate::json::floats(crate::gltf::matrix_of(t));
    let named = if name is Some {
        1int
    } else {
        0
    };
    let moved = if !crate::export::is_identity(t) {
        1int
    } else {
        0
    };
    if name is Some {
        lemma_says(m, 0);
    }
    lemma_says(m, named);
    if moved == 1 {
        lemma_says(m, named + 1);
        assert(are_columns(numbers, t)) by {
            assert forall|i: int, k: int|
                #![trigger t[4 * i + k]]
                0 <= i < 3 && 0 <= k < 4 implies numbers[4 * k + i] == JsonView::Single(
                t[4 * i + k],
            ) by {
                a_matrix_is_written_by_columns(t, i, k);
            }
        }
        assert(says(j, "matrix"@, JsonView::Array(numbers)));
    }
    if order is Some || handshake != 0 {
        lemma_says(m, named + moved + 1);
        let e = m[named + moved + 1].1;
        let x = e->Object_0;
        lemma_says(x, 0);
        lemma_says(x, x.len() - 1);
        assert(says(j, "extras"@, e) && is_extras(e, order, handshake));
    }
}

/// Whether numbers are the columns of a transform, each with its number of the fourth row.
pub open spec fn are_columns(m: Seq<JsonView>, t: Seq<u32>) -> bool {
    &&& forall|i: int, k: int|
        #![trigger t[4 * i + k]]
        0 <= i < 3 && 0 <= k < 4 ==> m[4 * k + i] == JsonView::Single(t[4 * i + k])
    &&& m[3] == JsonView::Single(0)
    &&& m[7] == JsonView::Single(0)
    &&& m[11] == JsonView::Single(0)
    &&& m[15] == JsonView::Single(0x3F80_0000)
}

/// Whether extras hold an order and a handshake where these are given.
pub open spec fn is_extras(e: JsonView, order: Option<i64>, handshake: i64) -> bool {
    &&& order matches Some(o) ==> says(e, "overlayOrder"@, JsonView::Int(o))
    &&& handshake != 0 ==> says(e, "lightProbeHandshake"@, JsonView::Int(handshake))
    &&& size(e) == (if order is Some {
        1int
    } else {
        0
    }) + (if handshake != 0 {
        1int
    } else {
        0
    })
}

/// A group says its name and its nodes, in order.
pub proof fn a_group_says_its_nodes(name: Seq<char>, children: Seq<u32>)
    ensures
        ({
            let j = crate::export::group_json(name, children);
            &&& says(j, "name"@, JsonView::Str(name))
            &&& exists|c: Seq<JsonView>| #[trigger]
                says(j, "children"@, JsonView::Array(c)) && are_numbers(c, children)
            &&& size(j) == 2
        }),
{
    let m = crate::export::group_json(name, children)->Object_0;
    lemma_says(m, 0);
    lemma_says(m, 1);
    assert(are_numbers(crate::gltf::indices_json(children), children));
}

/// Whether a list of a document holds numbers, in order.
pub open spec fn are_numbers(list: Seq<JsonView>, numbers: Seq<u32>) -> bool {
    &&& list.len() == numbers.len()
    &&& forall|i: int|
        0 <= i < list.len() ==> #[trigger] list[i] == JsonView::UInt(numbers[i] as u64)
}

/// Whether extensions say how a stream was compressed and where it lies in the first buffer.
pub open spec fn is_compression(e: JsonView, s: Stream) -> bool {
    exists|c: JsonView| #[trigger]
        says(e, "KHR_meshopt_compression"@, c) && {
            &&& counts(c, "buffer"@, 0)
            &&& counts(c, "byteOffset"@, s.offset as int)
            &&& counts(c, "byteLength"@, s.length as int)
            &&& counts(c, "byteStride"@, s.element as int)
            &&& counts(c, "count"@, s.count as int)
            &&& says(
                c,
                "mode"@,
                JsonView::Str(
                    if s.triangles {
                        "TRIANGLES"@
                    } else {
                        "ATTRIBUTES"@
                    },
                ),
            )
            &&& size(c) == 6
        }
}

/// A stream says how it was compressed and where it lies.
proof fn lemma_compression(s: Stream)
    ensures
        is_compression(crate::gltf::stream_json(s), s),
        size(crate::gltf::stream_json(s)) == 1,
{
    let m = crate::gltf::stream_json(s)->Object_0;
    lemma_says(m, 0);
    let c = m[0].1->Object_0;
    lemma_says(c, 0);
    lemma_says(c, 1);
    lemma_says(c, 2);
    lemma_says(c, 3);
    lemma_says(c, 4);
    lemma_says(c, 5);
}

/// A buffer view says where its bytes lie: in the first buffer, or, where they are a compressed
/// stream, in the second, with the place of the stream in the first.
pub proof fn a_view_says_where_its_bytes_lie(v: BufferView)
    ensures
        ({
            let j = crate::gltf::view_json(v);
            &&& counts(
                j,
                "buffer"@,
                if v.stream is Some {
                    1
                } else {
                    0
                },
            )
            &&& counts(j, "byteOffset"@, v.offset as int)
            &&& counts(j, "byteLength"@, v.length as int)
            &&& v.stride matches Some(n) ==> counts(j, "byteStride"@, n as int)
            &&& v.target matches Some(n) ==> counts(j, "target"@, n as int)
            &&& v.stream matches Some(s) ==> exists|e: JsonView| #[trigger]
                says(j, "extensions"@, e) && is_compression(e, s)
            &&& size(j) == 3 + (if v.stride is Some {
                1int
            } else {
                0
            }) + (if v.target is Some {
                1int
            } else {
                0
            }) + (if v.stream is Some {
                1int
            } else {
                0
            })
        }),
{
    let m = crate::gltf::view_json(v)->Object_0;
    let stride = if v.stride is Some {
        1int
    } else {
        0
    };
    let target = if v.target is Some {
        1int
    } else {
        0
    };
    lemma_says(m, 0);
    lemma_says(m, 1);
    lemma_says(m, 2);
    if v.stride is Some {
        lemma_says(m, 3);
    }
    if v.target is Some {
        lemma_says(m, 3 + stride);
    }
    if v.stream is Some {
        lemma_says(m, 3 + stride + target);
        lemma_compression(v.stream->Some_0);
    }
}

/// The name of a shape.
pub open spec fn is_shape(j: JsonView, s: Shape) -> bool {
    says(
        j,
        "type"@,
        JsonView::Str(
            match s {
                Shape::Scalar => "SCALAR"@,
                Shape::Vec2 => "VEC2"@,
                Shape::Vec3 => "VEC3"@,
                Shape::Vec4 => "VEC4"@,
            },
        ),
    )
}

/// Whether a document holds three values under a key, in order.
pub open spec fn three(j: JsonView, key: Seq<char>, a: JsonView, b: JsonView, c: JsonView) -> bool {
    exists|l: Seq<JsonView>| #[trigger]
        says(j, key, JsonView::Array(l)) && l.len() == 3 && l[0] == a && l[1] == b && l[2] == c
}

/// An accessor says which view it reads, as what, and how much of it; and its bounds, where it has
/// them.
pub proof fn an_accessor_says_what_it_reads(a: Accessor)
    ensures
        ({
            let j = crate::gltf::accessor_json(a);
            &&& counts(j, "bufferView"@, a.view as int)
            &&& counts(j, "componentType"@, a.component_type as int)
            &&& counts(j, "count"@, a.count as int)
            &&& is_shape(j, a.shape)
            &&& a.normalized ==> says(j, "normalized"@, JsonView::Bool(true))
            &&& match a.bounds {
                Some(Bounds::Shorts { min, max }) => {
                    &&& three(
                        j,
                        "min"@,
                        JsonView::Int(min.0 as i64),
                        JsonView::Int(min.1 as i64),
                        JsonView::Int(min.2 as i64),
                    )
                    &&& three(
                        j,
                        "max"@,
                        JsonView::Int(max.0 as i64),
                        JsonView::Int(max.1 as i64),
                        JsonView::Int(max.2 as i64),
                    )
                },
                Some(Bounds::Singles { min, max }) => {
                    &&& three(
                        j,
                        "min"@,
                        JsonView::Single(min.0),
                        JsonView::Single(min.1),
                        JsonView::Single(min.2),
                    )
                    &&& three(
                        j,
                        "max"@,
                        JsonView::Single(max.0),
                        JsonView::Single(max.1),
                        JsonView::Single(max.2),
                    )
                },
                None => true,
            }
            &&& size(j) == 4 + (if a.normalized {
                1int
            } else {
                0
            }) + (if a.bounds is Some {
                2int
            } else {
                0
            })
        }),
{
    let m = crate::gltf::accessor_json(a)->Object_0;
    let n = if a.normalized {
        5int
    } else {
        4
    };
    lemma_says(m, 0);
    lemma_says(m, 1);
    lemma_says(m, 2);
    lemma_says(m, 3);
    if a.normalized {
        lemma_says(m, 4);
    }
    if a.bounds is Some {
        lemma_says(m, n);
        lemma_says(m, n + 1);
        let j = crate::gltf::accessor_json(a);
        assert(says(j, "min"@, JsonView::Array(m[n].1->Array_0)));
        assert(says(j, "max"@, JsonView::Array(m[n + 1].1->Array_0)));
    }
}

/// Whether a list of a document holds texts, in order.
pub open spec fn are_texts(list: Seq<JsonView>, texts: Seq<Seq<char>>) -> bool {
    &&& list.len() == texts.len()
    &&& forall|i: int| 0 <= i < list.len() ==> #[trigger] list[i] == JsonView::Str(texts[i])
}

/// Whether a list of a document describes the images: for each its buffer view and its type.
pub open spec fn are_images(list: Seq<JsonView>, images: Seq<(u32, Seq<char>)>) -> bool {
    &&& list.len() == images.len()
    &&& forall|i: int|
        0 <= i < list.len() ==> {
            &&& counts(#[trigger] list[i], "bufferView"@, images[i].0 as int)
            &&& says(list[i], "mimeType"@, JsonView::Str(images[i].1))
            &&& size(list[i]) == 2
        }
}

/// Whether a list of a document describes the textures: for each its image, and the one sampler.
pub open spec fn are_textures(list: Seq<JsonView>, textures: Seq<u32>) -> bool {
    &&& list.len() == textures.len()
    &&& forall|i: int|
        0 <= i < list.len() ==> {
            &&& counts(#[trigger] list[i], "source"@, textures[i] as int)
            &&& counts(list[i], "sampler"@, 0)
            &&& size(list[i]) == 2
        }
}

/// Images and textures are described one by one.
pub proof fn images_and_textures_are_described(images: Seq<(u32, Seq<char>)>, textures: Seq<u32>)
    ensures
        are_images(crate::gltf::images_json(images), images),
        are_textures(crate::gltf::textures_json(textures), textures),
{
    let l = crate::gltf::images_json(images);
    assert forall|i: int| 0 <= i < l.len() implies {
        &&& counts(#[trigger] l[i], "bufferView"@, images[i].0 as int)
        &&& says(l[i], "mimeType"@, JsonView::Str(images[i].1))
        &&& size(l[i]) == 2
    } by {
        lemma_says(l[i]->Object_0, 0);
        lemma_says(l[i]->Object_0, 1);
    }
    let l = crate::gltf::textures_json(textures);
    assert forall|i: int| 0 <= i < l.len() implies {
        &&& counts(#[trigger] l[i], "source"@, textures[i] as int)
        &&& counts(l[i], "sampler"@, 0)
        &&& size(l[i]) == 2
    } by {
        lemma_says(l[i]->Object_0, 0);
        lemma_says(l[i]->Object_0, 1);
    }
}

/// The one sampler: linear between the texels and between the sizes, and repeated both ways.
pub proof fn the_sampler_repeats_and_interpolates()
    ensures
        counts(crate::gltf::sampler_json(), "magFilter"@, 9729),
        counts(crate::gltf::sampler_json(), "minFilter"@, 9987),
        counts(crate::gltf::sampler_json(), "wrapS"@, 10497),
        counts(crate::gltf::sampler_json(), "wrapT"@, 10497),
        size(crate::gltf::sampler_json()) == 4,
{
    let m = crate::gltf::sampler_json()->Object_0;
    lemma_says(m, 0);
    lemma_says(m, 1);
    lemma_says(m, 2);
    lemma_says(m, 3);
}

/// The buffers are as long as what they hold: the first is the binary chunk; the second, where
/// anything was compressed, is as long as all that is decompressed.
pub proof fn buffers_are_as_long_as_what_they_hold(b: BuilderView)
    requires
        b.bin.len() <= u64::MAX,
        0 <= b.fallback_bytes <= u64::MAX,
    ensures
        ({
            let l = crate::gltf::buffers_json(b);
            &&& l.len() == if b.fallback_bytes > 0 {
                2int
            } else {
                1
            }
            &&& counts(l[0], "byteLength"@, b.bin.len() as int)
            &&& size(l[0]) == 1
            &&& b.fallback_bytes > 0 ==> counts(l[1], "byteLength"@, b.fallback_bytes) && size(l[1])
                == 1
        }),
{
    let l = crate::gltf::buffers_json(b);
    lemma_says(l[0]->Object_0, 0);
    if b.fallback_bytes > 0 {
        lemma_says(l[1]->Object_0, 0);
    }
}

/// Whether a list of a document holds one document for each of some things.
pub open spec fn each<T>(
    list: Seq<JsonView>,
    things: Seq<T>,
    as_document: spec_fn(T) -> JsonView,
) -> bool {
    &&& list.len() == things.len()
    &&& forall|i: int| 0 <= i < list.len() ==> #[trigger] list[i] == as_document(things[i])
}

/// The document holds what the builder gathered, each list under its key and in order; a list of
/// which the format wants at least one item is left out where it is empty.
pub proof fn the_document_holds_what_was_gathered(
    b: BuilderView,
    roots: Seq<u32>,
    extensions: Seq<Seq<char>>,
    extras: JsonView,
)
    ensures
        ({
            let j = crate::gltf::root_json(b, roots, extensions, extras);
            let required = crate::gltf::required_names(b);
            &&& says(j, "nodes"@, JsonView::Array(b.nodes))
            &&& says(j, "meshes"@, JsonView::Array(b.meshes))
            &&& b.materials.len() > 0 ==> says(j, "materials"@, JsonView::Array(b.materials))
            &&& b.textures.len() > 0 ==> {
                &&& exists|l: Seq<JsonView>| #[trigger]
                    says(j, "textures"@, JsonView::Array(l)) && are_textures(l, b.textures)
                &&& exists|l: Seq<JsonView>| #[trigger]
                    says(j, "images"@, JsonView::Array(l)) && are_images(l, b.images)
                &&& exists|l: Seq<JsonView>| #[trigger]
                    says(j, "samplers"@, JsonView::Array(l)) && l.len() == 1 && l[0]
                        == crate::gltf::sampler_json()
            }
            &&& exists|l: Seq<JsonView>| #[trigger]
                says(j, "accessors"@, JsonView::Array(l)) && each(
                    l,
                    b.accessors,
                    |a: Accessor| crate::gltf::accessor_json(a),
                )
            &&& exists|l: Seq<JsonView>| #[trigger]
                says(j, "bufferViews"@, JsonView::Array(l)) && each(
                    l,
                    b.buffer_views,
                    |v: BufferView| crate::gltf::view_json(v),
                )
            &&& says(j, "buffers"@, JsonView::Array(crate::gltf::buffers_json(b)))
            &&& says(j, "extras"@, extras)
            &&& counts(j, "scene"@, 0)
            &&& exists|l: Seq<JsonView>| #[trigger]
                says(j, "scenes"@, JsonView::Array(l)) && l.len() == 1 && exists|n: Seq<JsonView>|
                    #[trigger]
                    says(l[0], "nodes"@, JsonView::Array(n)) && are_numbers(n, roots)
            &&& required.len() > 0 ==> exists|l: Seq<JsonView>| #[trigger]
                says(j, "extensionsRequired"@, JsonView::Array(l)) && are_texts(l, required)
            &&& required.len() + extensions.len() > 0 ==> exists|l: Seq<JsonView>| #[trigger]
                says(j, "extensionsUsed"@, JsonView::Array(l)) && are_texts(
                    l,
                    required + extensions,
                )
        }),
{
    let j = crate::gltf::root_json(b, roots, extensions, extras);
    let m = j->Object_0;
    let required = crate::gltf::required_names(b);
    let u = if required.len() + extensions.len() > 0 {
        2int
    } else {
        1
    };
    let r = if required.len() > 0 {
        u + 1
    } else {
        u
    };
    let t = if b.materials.len() > 0 {
        r + 5
    } else {
        r + 4
    };
    let a = if b.textures.len() > 0 {
        t + 3
    } else {
        t
    };
    if required.len() + extensions.len() > 0 {
        lemma_says(m, 1);
        assert(says(
            j,
            "extensionsUsed"@,
            JsonView::Array(crate::json::strs(required + extensions)),
        ));
    }
    if required.len() > 0 {
        lemma_says(m, u);
        assert(says(j, "extensionsRequired"@, JsonView::Array(crate::json::strs(required))));
    }
    lemma_says(m, r);
    lemma_says(m, r + 1);
    let scenes = m[r + 1].1->Array_0;
    assert(says(j, "scenes"@, JsonView::Array(scenes)));
    lemma_says(scenes[0]->Object_0, 0);
    assert(says(scenes[0], "nodes"@, JsonView::Array(crate::gltf::indices_json(roots))));
    assert(are_numbers(crate::gltf::indices_json(roots), roots));
    lemma_says(m, r + 2);
    lemma_says(m, r + 3);
    if b.materials.len() > 0 {
        lemma_says(m, r + 4);
    }
    if b.textures.len() > 0 {
        images_and_textures_are_described(b.images, b.textures);
        lemma_says(m, t);
        lemma_says(m, t + 1);
        lemma_says(m, t + 2);
        assert(says(j, "samplers"@, JsonView::Array(m[t + 2].1->Array_0)));
    }
    lemma_says(m, a);
    lemma_says(m, a + 1);
    assert(says(j, "accessors"@, JsonView::Array(crate::gltf::accessors_json(b.accessors))));
    assert(says(j, "bufferViews"@, JsonView::Array(crate::gltf::views_json(b.buffer_views))));
    lemma_says(m, a + 2);
    lemma_says(m, a + 3);
}

/// The extensions that a reader must know are those that were used.
pub proof fn what_was_used_is_required(b: BuilderView)
    ensures
        crate::gltf::required_names(b).contains("KHR_mesh_quantization"@) || !b.used_quantization,
        crate::gltf::required_names(b).contains("KHR_meshopt_compression"@) || !b.used_meshopt,
        crate::gltf::required_names(b).len() == (if b.used_quantization {
            1int
        } else {
            0
        }) + (if b.used_meshopt {
            1int
        } else {
            0
        }),
{
    let l = crate::gltf::required_names(b);
    if b.used_quantization {
        assert(l[0] == "KHR_mesh_quantization"@);
    }
    if b.used_meshopt {
        assert(l[l.len() - 1] == "KHR_meshopt_compression"@);
    }
}

/// A mesh names the accessor of each attribute under the attribute's name, those of its indices and
/// its material, and how it is lit.
pub proof fn a_mesh_names_its_accessors(
    g: crate::geometry::BuiltGeometry,
    lpv: Option<u32>,
    material: u32,
    lighting: crate::report::LightingClass,
)
    ensures
        ({
            let j = crate::geometry::mesh_json(g, lpv, material, lighting);
            exists|l: Seq<JsonView>| #[trigger]
                says(j, "primitives"@, JsonView::Array(l)) && l.len() == 1 && is_primitive(
                    l[0],
                    g,
                    lpv,
                    material,
                    lighting,
                )
        }),
        size(crate::geometry::mesh_json(g, lpv, material, lighting)) == 1,
{
    let j = crate::geometry::mesh_json(g, lpv, material, lighting);
    lemma_says(j->Object_0, 0);
    let l = j->Object_0[0].1->Array_0;
    let p = l[0]->Object_0;
    lemma_says(p, 0);
    lemma_says(p, 1);
    lemma_says(p, 2);
    lemma_says(p, 3);
    lemma_says(p[3].1->Object_0, 0);
    let a = p[0].1->Object_0;
    lemma_says(a, 0);
    lemma_says(a, 1);
    lemma_says(a, 2);
    let uv1 = if g.uv1 is Some {
        4int
    } else {
        3
    };
    let blend = if g.blend is Some {
        uv1 + 1
    } else {
        uv1
    };
    if g.uv1 is Some {
        lemma_says(a, 3);
    }
    if g.blend is Some {
        lemma_says(a, uv1);
    }
    if lpv is Some {
        lemma_says(a, blend);
    }
    assert(are_attributes(p[0].1, g, lpv));
    assert(says(l[0], "attributes"@, p[0].1));
    assert(says(l[0], "extras"@, p[3].1));
    assert(says(j, "primitives"@, JsonView::Array(l)));
}

/// Whether the attributes of a primitive are those of a geometry, and the light of an instance.
pub open spec fn are_attributes(
    a: JsonView,
    g: crate::geometry::BuiltGeometry,
    lpv: Option<u32>,
) -> bool {
    &&& counts(a, "POSITION"@, g.position as int)
    &&& counts(a, "NORMAL"@, g.normal as int)
    &&& counts(a, "TEXCOORD_0"@, g.uv0 as int)
    &&& g.uv1 matches Some(n) ==> counts(a, "TEXCOORD_1"@, n as int)
    &&& g.blend matches Some(n) ==> counts(a, "_BLEND"@, n as int)
    &&& lpv matches Some(n) ==> counts(a, "_LPV"@, n as int)
    &&& size(a) == 3 + (if g.uv1 is Some {
        1int
    } else {
        0
    }) + (if g.blend is Some {
        1int
    } else {
        0
    }) + (if lpv is Some {
        1int
    } else {
        0
    })
}

/// Whether a primitive is drawn from a geometry with a material.
pub open spec fn is_primitive(
    p: JsonView,
    g: crate::geometry::BuiltGeometry,
    lpv: Option<u32>,
    material: u32,
    lighting: crate::report::LightingClass,
) -> bool {
    &&& exists|a: JsonView| #[trigger] says(p, "attributes"@, a) && are_attributes(a, g, lpv)
    &&& counts(p, "indices"@, g.indices as int)
    &&& counts(p, "material"@, material as int)
    &&& exists|e: JsonView| #[trigger]
        says(p, "extras"@, e) && size(e) == 1 && says(
            e,
            "lighting"@,
            JsonView::Str(
                match lighting {
                    crate::report::LightingClass::Lightmap => "lightmap"@,
                    crate::report::LightingClass::Probe => "probe"@,
                    crate::report::LightingClass::Unlit => "unlit"@,
                },
            ),
        )
    &&& size(p) == 4
}

} // verus!

//! What texts, lists of names and lists of files come to when they are cut, compared, put in order
//! and searched.

use crate::order::RankView;
use crate::source::ArchiveEntry;
use vstd::prelude::*;

verus! {

/// A text without a prefix is what stands behind it; without an ending, what stands before that.
pub proof fn a_text_is_its_parts(s: Seq<char>, part: Seq<char>, rest: Seq<char>)
    ensures
        (crate::text::prefix_stripped(s, part) == Some(rest)) == (s == part + rest),
        (crate::text::suffix_stripped(s, part) == Some(rest)) == (s == rest + part),
        s == rest + part ==> crate::text::without_suffix(s, part) == rest,
        crate::text::suffix_stripped(s, part) is None ==> crate::text::without_suffix(s, part) == s,
{
    if crate::text::prefix_stripped(s, part) == Some(rest) {
        assert(s =~= part + rest);
    }
    if s == part + rest {
        assert(part =~= s.subrange(0, part.len() as int));
        assert(rest =~= s.subrange(part.len() as int, s.len() as int));
    }
    if crate::text::suffix_stripped(s, part) == Some(rest) {
        assert(s =~= rest + part);
    }
    if s == rest + part {
        assert(part =~= s.subrange(s.len() - part.len(), s.len() as int));
        assert(rest =~= s.subrange(0, s.len() - part.len()));
    }
}

/// Whether two letters are the same but for their case, which only those of ASCII have.
pub open spec fn same_letter(a: char, b: char) -> bool {
    ||| a == b
    ||| 0x41 <= a as int <= 0x5A && b as int == a as int + 0x20
    ||| 0x41 <= b as int <= 0x5A && a as int == b as int + 0x20
}

/// What a letter becomes.
proof fn lemma_letter(a: char, b: char)
    ensures
        (crate::text::ascii_lower(a) == crate::text::ascii_lower(b)) == same_letter(a, b),
        same_letter(a, crate::text::ascii_lower(a)),
        same_letter(a, crate::text::ascii_upper(a)),
        !(0x41 <= crate::text::ascii_lower(a) as int <= 0x5A),
        !(0x61 <= crate::text::ascii_upper(a) as int <= 0x7A),
{
}

/// Two texts are the same but for their case if their letters are, one by one.
pub proof fn case_is_ignored_letter_by_letter(a: Seq<char>, b: Seq<char>)
    ensures
        crate::text::same_ignoring_case(a, b) == (a.len() == b.len() && forall|i: int|
            0 <= i < a.len() ==> #[trigger] same_letter(a[i], b[i])),
{
    let x = crate::text::ascii_lowered(a);
    let y = crate::text::ascii_lowered(b);
    if crate::text::same_ignoring_case(a, b) {
        assert(x.len() == y.len());
        assert forall|i: int| 0 <= i < a.len() implies #[trigger] same_letter(a[i], b[i]) by {
            assert(x[i] == y[i]);
            lemma_letter(a[i], b[i]);
        }
    }
    if a.len() == b.len() && forall|i: int| 0 <= i < a.len() ==> #[trigger] same_letter(a[i], b[i]) {
        assert forall|i: int| 0 <= i < a.len() implies x[i] == y[i] by {
            assert(same_letter(a[i], b[i]));
            lemma_letter(a[i], b[i]);
        }
        assert(x =~= y);
    }
}

/// A text in small letters is the same but for its case, and has no capital; one in capitals is the
/// same and has no small letter.
pub proof fn letters_change_their_case_only(s: Seq<char>, i: int)
    requires
        0 <= i < s.len(),
    ensures
        crate::text::ascii_lowered(s).len() == s.len(),
        same_letter(s[i], crate::text::ascii_lowered(s)[i]),
        !(0x41 <= crate::text::ascii_lowered(s)[i] as int <= 0x5A),
        crate::text::ascii_uppered(s).len() == s.len(),
        same_letter(s[i], crate::text::ascii_uppered(s)[i]),
        !(0x61 <= crate::text::ascii_uppered(s)[i] as int <= 0x7A),
{
    lemma_letter(s[i], s[i]);
}

/// Whether a text is made of spaces only.
pub open spec fn only_spaces(s: Seq<char>) -> bool {
    forall|i: int| 0 <= i < s.len() ==> crate::text::is_space(#[trigger] s[i])
}

/// Trimming takes the spaces at both ends away, all of them and nothing else.
pub proof fn trimming_takes_the_outer_spaces(a: Seq<char>, s: Seq<char>, b: Seq<char>)
    requires
        only_spaces(a),
        only_spaces(b),
        s.len() > 0 ==> !crate::text::is_space(s[0]) && !crate::text::is_space(s.last()),
    ensures
        crate::text::trimmed(a + s + b) == s,
    decreases a.len() + b.len(),
{
    if a.len() > 0 {
        assert((a + s + b).drop_first() =~= a.drop_first() + s + b);
        assert((a + s + b)[0] == a[0]);
        assert forall|i: int| 0 <= i < a.drop_first().len() implies crate::text::is_space(
            #[trigger] a.drop_first()[i],
        ) by {
            assert(a.drop_first()[i] == a[i + 1]);
        }
        trimming_takes_the_outer_spaces(a.drop_first(), s, b);
    } else if s.len() == 0 {
        assert(a + s + b =~= b);
        lemma_all_trimmed(b);
        assert(s =~= Seq::<char>::empty());
    } else {
        assert(a + s + b =~= s + b);
        assert((s + b)[0] == s[0]);
        lemma_end_trimmed(s, b);
    }
}

/// Nothing is left of spaces.
proof fn lemma_all_trimmed(b: Seq<char>)
    requires
        only_spaces(b),
    ensures
        crate::text::trimmed(b) == Seq::<char>::empty(),
    decreases b.len(),
{
    if b.len() > 0 {
        assert forall|i: int| 0 <= i < b.drop_first().len() implies crate::text::is_space(
            #[trigger] b.drop_first()[i],
        ) by {
            assert(b.drop_first()[i] == b[i + 1]);
        }
        lemma_all_trimmed(b.drop_first());
    } else {
        assert(b =~= Seq::<char>::empty());
    }
}

/// Spaces behind a text are taken away.
proof fn lemma_end_trimmed(s: Seq<char>, b: Seq<char>)
    requires
        only_spaces(b),
        s.len() > 0,
        !crate::text::is_space(s.last()),
    ensures
        crate::text::end_trimmed(s + b) == s,
    decreases b.len(),
{
    if b.len() > 0 {
        assert((s + b).drop_last() =~= s + b.drop_last());
        assert((s + b).last() == b[b.len() - 1]);
        assert forall|i: int| 0 <= i < b.drop_last().len() implies crate::text::is_space(
            #[trigger] b.drop_last()[i],
        ) by {
            assert(b.drop_last()[i] == b[i]);
        }
        lemma_end_trimmed(s, b.drop_last());
    } else {
        assert(s + b =~= s);
    }
}

/// The pieces of a text, put together again.
pub open spec fn joined(pieces: Seq<Seq<char>>, sep: char) -> Seq<char>
    decreases pieces.len(),
{
    if pieces.len() == 0 {
        Seq::empty()
    } else if pieces.len() == 1 {
        pieces[0]
    } else {
        joined(pieces.drop_last(), sep) + seq![sep] + pieces.last()
    }
}

/// The pieces of a text make it up, with the sign between them, and none holds the sign.
pub proof fn pieces_make_up_the_text(s: Seq<char>, sep: char)
    ensures
        crate::text::pieces(s, sep).len() > 0,
        joined(crate::text::pieces(s, sep), sep) == s,
        forall|i: int|
            0 <= i < crate::text::pieces(s, sep).len() ==> !(#[trigger] crate::text::pieces(
                s,
                sep,
            )[i]).contains(sep),
    decreases s.len(),
{
    let p = crate::text::pieces(s, sep);
    if s.len() == 0 {
        assert(joined(p, sep) =~= s);
    } else {
        let q = crate::text::pieces(s.drop_last(), sep);
        pieces_make_up_the_text(s.drop_last(), sep);
        if s.last() == sep {
            assert(p.drop_last() =~= q);
            assert(joined(p, sep) =~= s);
        } else {
            let t = q.last().push(s.last());
            assert(p.drop_last() =~= q.drop_last());
            assert(p.last() == t);
            assert(!q[q.len() - 1].contains(sep));
            assert(!t.contains(sep)) by {
                if t.contains(sep) {
                    let k = t.index_of(sep);
                    assert(t[k] == sep);
                    assert(q.last()[k] == sep);
                    assert(q.last().contains(sep));
                }
            }
            assert forall|i: int| 0 <= i < p.len() implies !(#[trigger] p[i]).contains(sep) by {
                if i < q.len() - 1 {
                    assert(p[i] == q[i]);
                } else {
                    assert(p[i] == t);
                }
            }
            assert(s =~= s.drop_last().push(s.last()));
            if q.len() == 1 {
                assert(joined(p, sep) == p[0]);
                assert(p[0] == t);
                assert(joined(q, sep) == q[0]);
            } else {
                assert(joined(p, sep) == joined(p.drop_last(), sep) + seq![sep] + t);
                assert(joined(q, sep) == joined(q.drop_last(), sep) + seq![sep] + q.last());
                assert(joined(q.drop_last(), sep) + seq![sep] + t =~= (joined(q.drop_last(), sep)
                    + seq![sep] + q.last()).push(s.last()));
            }
        }
    }
}

/// The last part of a path is what stands behind its last slash.
pub proof fn the_last_part_stands_behind_the_last_slash(head: Seq<char>, name: Seq<char>)
    requires
        !name.contains('/'),
        head.len() == 0 || head.last() == '/',
    ensures
        crate::text::last_segment(head + name) == name,
    decreases name.len(),
{
    if name.len() == 0 {
        assert(head + name =~= head);
        assert(crate::text::last_segment(head) =~= name);
    } else {
        let front = name.drop_last();
        assert((head + name).drop_last() =~= head + front);
        assert(name[name.len() - 1] != '/') by {
            assert(name.contains(name[name.len() - 1]));
        }
        assert(!front.contains('/')) by {
            if front.contains('/') {
                let k = front.index_of('/');
                assert(name[k] == '/');
            }
        }
        the_last_part_stands_behind_the_last_slash(head, front);
        assert(crate::text::last_segment(head + name) =~= name);
    }
}

/// Backward slashes are turned; nothing else changes.
pub proof fn only_backward_slashes_are_turned(s: Seq<char>, i: int)
    requires
        0 <= i < s.len(),
    ensures
        crate::text::forward_slashed(s).len() == s.len(),
        s[i] == '\\' ==> crate::text::forward_slashed(s)[i] == '/',
        s[i] != '\\' ==> crate::text::forward_slashed(s)[i] == s[i],
{
}

/// The number that decimal digits stand for.
pub open spec fn number_of(s: Seq<char>) -> int
    decreases s.len(),
{
    if s.len() == 0 {
        0
    } else {
        10 * number_of(s.drop_last()) + (s.last() as int - 0x30)
    }
}

/// The digits of a number stand for it, each is one, and none is wasted.
pub proof fn digits_stand_for_their_number(n: nat)
    ensures
        number_of(crate::text::decimal_digits(n)) == n,
        crate::text::decimal_digits(n).len() > 0,
        forall|i: int|
            0 <= i < crate::text::decimal_digits(n).len() ==> 0x30 <= (
            #[trigger] crate::text::decimal_digits(n)[i]) as int <= 0x39,
        n > 0 ==> crate::text::decimal_digits(n)[0] != '0',
        n == 0 ==> crate::text::decimal_digits(n).len() == 1,
    decreases n,
{
    let s = crate::text::decimal_digits(n);
    if n < 10 {
        assert(s.drop_last() =~= Seq::<char>::empty());
        assert(number_of(s.drop_last()) == 0);
    } else {
        digits_stand_for_their_number(n / 10);
        assert(s.drop_last() =~= crate::text::decimal_digits(n / 10));
        assert(s[0] == crate::text::decimal_digits(n / 10)[0]);
    }
}

/// A number less than nought is written as its size behind a minus.
pub proof fn a_minus_stands_before_what_is_less_than_nought(n: int)
    ensures
        n >= 0 ==> number_of(crate::text::decimal_text(n)) == n,
        n < 0 ==> crate::text::decimal_text(n)[0] == '-' && number_of(
            crate::text::decimal_text(n).skip(1),
        ) == -n,
{
    if n >= 0 {
        digits_stand_for_their_number(n as nat);
    } else {
        digits_stand_for_their_number((-n) as nat);
        assert(crate::text::decimal_text(n).skip(1) =~= crate::text::decimal_digits((-n) as nat));
    }
}

/// What a hexadecimal digit stands for.
pub open spec fn hex_value(c: char) -> int {
    if 0x30 <= c as int <= 0x39 {
        c as int - 0x30
    } else if 0x61 <= c as int <= 0x66 {
        c as int - 0x57
    } else {
        -1
    }
}

/// A byte is written as two digits, the high one first.
pub proof fn two_digits_stand_for_a_byte(bytes: Seq<u8>, i: int)
    requires
        0 <= i < bytes.len(),
    ensures
        ({
            let t = crate::text::hex_text(bytes);
            &&& t.len() == 2 * bytes.len()
            &&& hex_value(t[2 * i]) >= 0 && hex_value(t[2 * i + 1]) >= 0
            &&& 16 * hex_value(t[2 * i]) + hex_value(t[2 * i + 1]) == bytes[i]
        }),
{
    assert((2 * i) / 2 == i && (2 * i) % 2 == 0 && (2 * i + 1) / 2 == i && (2 * i + 1) % 2 == 1);
}

/// A name has what its last entry says, and nothing without an entry.
pub proof fn the_last_entry_counts<T>(entries: Seq<(String, T)>, name: Seq<char>, i: int)
    ensures
        0 <= i < entries.len() && entries[i].0@ == name && (forall|j: int|
            i < j < entries.len() ==> (#[trigger] entries[j]).0@ != name) ==> crate::table::named(
            crate::table::by_name(entries),
            name,
        ) == Some(entries[i].1),
        (forall|j: int| 0 <= j < entries.len() ==> (#[trigger] entries[j]).0@ != name)
            ==> crate::table::named(crate::table::by_name(entries), name) is None,
    decreases entries.len(),
{
    if entries.len() > 0 {
        let front = entries.drop_last();
        the_last_entry_counts(front, name, i);
        let last = entries.len() - 1;
        if 0 <= i < last && (forall|j: int|
            i < j < entries.len() ==> (#[trigger] entries[j]).0@ != name) {
            assert(entries[last].0@ != name);
            assert forall|j: int| i < j < front.len() implies (#[trigger] front[j]).0@ != name by {
                assert(front[j] == entries[j]);
            }
        }
        if forall|j: int| 0 <= j < entries.len() ==> (#[trigger] entries[j]).0@ != name {
            assert(entries[last].0@ != name);
            assert forall|j: int| 0 <= j < front.len() implies (#[trigger] front[j]).0@ != name by {
                assert(front[j] == entries[j]);
            }
        }
    }
}

/// Texts are in the order of the first letter in which they differ, and one that ends comes first.
pub proof fn texts_are_ordered_by_the_first_difference(
    common: Seq<char>,
    a: Seq<char>,
    b: Seq<char>,
)
    requires
        a.len() > 0 && b.len() > 0 ==> a[0] != b[0],
    ensures
        crate::order::text_before(common + a, common + b) == (b.len() > 0 && (a.len() == 0 || (
        a[0] as int) < (b[0] as int))),
    decreases common.len(),
{
    if common.len() == 0 {
        assert(common + a =~= a);
        assert(common + b =~= b);
    } else {
        assert((common + a).skip(1) =~= common.skip(1) + a);
        assert((common + b).skip(1) =~= common.skip(1) + b);
        assert((common + a)[0] == common[0] && (common + b)[0] == common[0]);
        texts_are_ordered_by_the_first_difference(common.skip(1), a, b);
    }
}

/// What counts more goes first; what counts the same goes by its name.
pub proof fn what_counts_more_goes_first(a: RankView, b: RankView)
    ensures
        a.count > b.count ==> crate::order::goes_before(a, b),
        a.count < b.count ==> !crate::order::goes_before(a, b),
        a.count == b.count ==> crate::order::goes_before(a, b) == crate::order::text_before(
            a.name,
            b.name,
        ),
{
}

/// A text in a slot ends at the first nought.
pub proof fn a_slot_ends_at_its_first_nought(text: Seq<u8>, rest: Seq<u8>)
    requires
        !text.contains(0),
        rest.len() == 0 || rest[0] == 0,
    ensures
        crate::reader::until_nul(text + rest) == text,
    decreases text.len(),
{
    if text.len() == 0 {
        assert(text + rest =~= rest);
        assert(crate::reader::until_nul(rest) =~= text);
    } else {
        assert((text + rest)[0] == text[0]);
        assert(text[0] != 0) by {
            assert(text.contains(text[0]));
        }
        assert((text + rest).drop_first() =~= text.drop_first() + rest);
        assert(!text.drop_first().contains(0)) by {
            if text.drop_first().contains(0) {
                let k = text.drop_first().index_of(0);
                assert(text[k + 1] == 0);
            }
        }
        a_slot_ends_at_its_first_nought(text.drop_first(), rest);
        assert(crate::reader::until_nul(text + rest) =~= text);
    }
}

/// An opaque picture has the colours that it had.
pub proof fn only_opacity_changes(rgba: Seq<u8>, i: int)
    requires
        0 <= i < rgba.len(),
    ensures
        crate::texture::opaque(rgba).len() == rgba.len(),
        i % 4 == 3 ==> crate::texture::opaque(rgba)[i] == 255,
        i % 4 != 3 ==> crate::texture::opaque(rgba)[i] == rgba[i],
{
}

/// The name of a compiled file ends as such files do, once.
pub proof fn a_compiled_file_ends_once(path: Seq<char>)
    ensures
        crate::source::compiled(path + "_c"@) == path + "_c"@,
        !("_c"@.is_suffix_of(path)) ==> crate::source::compiled(path) == path + "_c"@,
        "_c"@.is_suffix_of(path) ==> crate::source::compiled(path) == path,
{
    a_text_is_its_parts(path + "_c"@, "_c"@, path);
    if "_c"@.is_suffix_of(path) {
        let rest = path.subrange(0, path.len() - "_c"@.len());
        assert(path =~= rest + "_c"@);
    }
}

/// The search for a file gives the first of the first archive that has one.
pub proof fn the_first_archive_with_a_file_gives_it(
    v: Seq<Vec<ArchiveEntry>>,
    suffix: Seq<char>,
    from: int,
)
    requires
        0 <= from <= v.len(),
    ensures
        match crate::source::ending_in(v, suffix, from) {
            Some(f) => {
                &&& from <= f.0 < v.len()
                &&& 0 <= f.1 < v[f.0]@.len()
                &&& suffix.is_suffix_of(crate::text::ascii_lowered(v[f.0]@[f.1].path@))
                &&& forall|k: int|
                    0 <= k < f.1 ==> !suffix.is_suffix_of(
                        crate::text::ascii_lowered((#[trigger] v[f.0]@[k]).path@),
                    )
                &&& forall|a: int, k: int|
                    from <= a < f.0 && 0 <= k < v[a]@.len() ==> !suffix.is_suffix_of(
                        crate::text::ascii_lowered((#[trigger] v[a]@[k]).path@),
                    )
            },
            None => forall|a: int, k: int|
                from <= a < v.len() && 0 <= k < v[a]@.len() ==> !suffix.is_suffix_of(
                    crate::text::ascii_lowered((#[trigger] v[a]@[k]).path@),
                ),
        },
    decreases v.len() - from,
{
    if from < v.len() {
        lemma_ending_from(v[from]@, suffix, 0);
        if crate::source::ending_from(v[from]@, suffix, 0) is None {
            the_first_archive_with_a_file_gives_it(v, suffix, from + 1);
            assert forall|k: int| 0 <= k < v[from]@.len() implies !suffix.is_suffix_of(
                crate::text::ascii_lowered((#[trigger] v[from]@[k]).path@),
            ) by {
                assert(!crate::source::ends_lower(v[from]@[k], suffix));
            }
        } else {
            let i = crate::source::ending_from(v[from]@, suffix, 0)->Some_0;
            assert(crate::source::ends_lower(v[from]@[i], suffix));
            assert forall|k: int| 0 <= k < i implies !suffix.is_suffix_of(
                crate::text::ascii_lowered((#[trigger] v[from]@[k]).path@),
            ) by {
                assert(!crate::source::ends_lower(v[from]@[k], suffix));
            }
        }
    }
}

/// Where the search through one archive ends.
proof fn lemma_ending_from(v: Seq<ArchiveEntry>, suffix: Seq<char>, from: int)
    requires
        0 <= from <= v.len(),
    ensures
        match crate::source::ending_from(v, suffix, from) {
            Some(i) => {
                &&& from <= i < v.len()
                &&& crate::source::ends_lower(v[i], suffix)
                &&& forall|k: int|
                    from <= k < i ==> !crate::source::ends_lower(#[trigger] v[k], suffix)
            },
            None => forall|k: int|
                from <= k < v.len() ==> !crate::source::ends_lower(#[trigger] v[k], suffix),
        },
    decreases v.len() - from,
{
    if from < v.len() && !crate::source::ends_lower(v[from], suffix) {
        lemma_ending_from(v, suffix, from + 1);
    }
}

/// The files of a kind are listed in order, whatever the case of their ending.
pub proof fn files_are_listed_in_order(a: Seq<ArchiveEntry>, b: Seq<ArchiveEntry>, ext: Seq<char>)
    ensures
        crate::source::paths_with(a + b, ext) == crate::source::paths_with(a, ext)
            + crate::source::paths_with(b, ext),
        a.len() == 1 ==> crate::source::paths_with(a, ext) == if crate::text::same_ignoring_case(
            a[0].extension@,
            ext,
        ) {
            seq![a[0].path@]
        } else {
            Seq::empty()
        },
    decreases b.len(),
{
    if b.len() == 0 {
        assert(a + b =~= a);
        assert(crate::source::paths_with(a, ext) =~= crate::source::paths_with(a, ext)
            + crate::source::paths_with(b, ext));
    } else {
        files_are_listed_in_order(a, b.drop_last(), ext);
        assert((a + b).drop_last() =~= a + b.drop_last());
        assert(crate::source::paths_with(a + b, ext) =~= crate::source::paths_with(a, ext)
            + crate::source::paths_with(b, ext));
    }
    if a.len() == 1 {
        assert(crate::source::paths_with(a.drop_last(), ext) =~= Seq::<Seq<char>>::empty());
        assert(Seq::<Seq<char>>::empty().push(a[0].path@) =~= seq![a[0].path@]);
    }
}

/// The first archive that has a file is the one that gives it.
pub proof fn the_first_that_has_it_gives_it(v: Seq<bool>, from: int)
    requires
        0 <= from <= v.len(),
    ensures
        match crate::source::first_true(v, from) {
            Some(i) => from <= i < v.len() && v[i] && forall|k: int| from <= k < i ==> !#[trigger] v[k],
            None => forall|k: int| from <= k < v.len() ==> !#[trigger] v[k],
        },
    decreases v.len() - from,
{
    if from < v.len() && !v[from] {
        the_first_that_has_it_gives_it(v, from + 1);
    }
}

/// Spaces are the space itself, what breaks lines and moves along them, and the spaces of other widths;
/// letters, digits and signs are none.
pub proof fn spaces_are_these_and_no_others(c: char)
    ensures
        crate::text::is_space(c) == seq![
            0x09int, 0x0A, 0x0B, 0x0C, 0x0D, 0x20, 0x85, 0xA0, 0x1680, 0x2000, 0x2001, 0x2002,
            0x2003, 0x2004, 0x2005, 0x2006, 0x2007, 0x2008, 0x2009, 0x200A, 0x2028, 0x2029, 0x202F,
            0x205F, 0x3000,
        ].contains(c as int),
        0x21 <= c as int <= 0x7E ==> !crate::text::is_space(c),
{
    let all = seq![
        0x09int, 0x0A, 0x0B, 0x0C, 0x0D, 0x20, 0x85, 0xA0, 0x1680, 0x2000, 0x2001, 0x2002, 0x2003,
        0x2004, 0x2005, 0x2006, 0x2007, 0x2008, 0x2009, 0x200A, 0x2028, 0x2029, 0x202F, 0x205F,
        0x3000,
    ];
    let u = c as int;
    if crate::text::is_space(c) {
        if 0x09 <= u <= 0x0D {
            assert(all[u - 0x09] == u);
        } else if 0x2000 <= u <= 0x200A {
            assert(all[u - 0x2000 + 9] == u);
        } else {
            assert(all[5] == 0x20 && all[6] == 0x85 && all[7] == 0xA0 && all[8] == 0x1680);
            assert(all[20] == 0x2028 && all[21] == 0x2029 && all[22] == 0x202F && all[23] == 0x205F
                && all[24] == 0x3000);
        }
    }
    if all.contains(u) {
        let k = all.index_of(u);
        assert(all[k] == u);
    }
}

} // verus!

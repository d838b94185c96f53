//! Directory listings: which entries count as image files, and the sorted
//! photo list built from them.
//!
//! A path is handled as its bytes.  An entry is kept when the part of its
//! file name after the last `.` is `jpg`, `jpeg` or `png`, and the kept
//! entries are returned sorted lexicographically by their bytes.  Reading
//! the directory itself is the caller's affair: this module only decides and
//! orders.

use vstd::prelude::*;
use vstd::relations::sorted_by;
use vstd::relations::total_ordering;
use vstd::seq_lib::lemma_sorted_unique;

verus! {

/// Lexicographic order on byte strings: `a` comes no later than `b`.
pub open spec fn lex_le(a: Seq<u8>, b: Seq<u8>) -> bool
    decreases a.len(),
{
    if a.len() == 0 {
        true
    } else if b.len() == 0 {
        false
    } else if a[0] < b[0] {
        true
    } else if a[0] > b[0] {
        false
    } else {
        lex_le(a.drop_first(), b.drop_first())
    }
}

/// `lex_le` as a value, for `sort_by` and the ordering lemmas.
pub open spec fn lex_leq() -> spec_fn(Seq<u8>, Seq<u8>) -> bool {
    |a: Seq<u8>, b: Seq<u8>| lex_le(a, b)
}

proof fn lemma_lex_le_refl(a: Seq<u8>)
    ensures
        lex_le(a, a),
    decreases a.len(),
{
    if a.len() > 0 {
        lemma_lex_le_refl(a.drop_first());
    }
}

proof fn lemma_lex_le_antisym(a: Seq<u8>, b: Seq<u8>)
    requires
        lex_le(a, b),
        lex_le(b, a),
    ensures
        a == b,
    decreases a.len(),
{
    if a.len() == 0 {
        assert(b.len() == 0);
        assert(a =~= b);
    } else {
        assert(b.len() > 0);
        assert(a[0] == b[0]);
        lemma_lex_le_antisym(a.drop_first(), b.drop_first());
        assert(a.drop_first().len() == b.drop_first().len());
        assert(a.len() == b.len());
        assert forall|i: int| 0 <= i < a.len() implies a[i] == b[i] by {
            if i > 0 {
                assert(a[i] == a.drop_first()[i - 1]);
                assert(b[i] == b.drop_first()[i - 1]);
            }
        }
        assert(a =~= b);
    }
}

proof fn lemma_lex_le_trans(a: Seq<u8>, b: Seq<u8>, c: Seq<u8>)
    requires
        lex_le(a, b),
        lex_le(b, c),
    ensures
        lex_le(a, c),
    decreases a.len(),
{
    if a.len() > 0 && a[0] == b[0] && b[0] == c[0] {
        lemma_lex_le_trans(a.drop_first(), b.drop_first(), c.drop_first());
    }
}

proof fn lemma_lex_le_connected(a: Seq<u8>, b: Seq<u8>)
    ensures
        lex_le(a, b) || lex_le(b, a),
    decreases a.len(),
{
    if a.len() > 0 && b.len() > 0 && a[0] == b[0] {
        lemma_lex_le_connected(a.drop_first(), b.drop_first());
    }
}

/// Law: `lex_le` is a total order on byte strings, so a sorted listing is
/// unique.
pub proof fn lemma_lex_le_total_ordering()
    ensures
        total_ordering(lex_leq()),
{
    let leq = lex_leq();
    assert forall|a: Seq<u8>| #[trigger] leq(a, a) by {
        lemma_lex_le_refl(a);
    }
    assert forall|a: Seq<u8>, b: Seq<u8>| #[trigger] leq(a, b) && #[trigger] leq(b, a) implies a
        == b by {
        lemma_lex_le_antisym(a, b);
    }
    assert forall|a: Seq<u8>, b: Seq<u8>, c: Seq<u8>|
        #[trigger] leq(a, b) && #[trigger] leq(b, c) implies leq(a, c) by {
        lemma_lex_le_trans(a, b, c);
    }
    assert forall|a: Seq<u8>, b: Seq<u8>| !(#[trigger] leq(a, b)) implies leq(b, a) by {
        lemma_lex_le_connected(a, b);
    }
}

/// Compare two paths: does `a` sort no later than `b`?
fn le_bytes(a: &Vec<u8>, b: &Vec<u8>) -> (r: bool)
    ensures
        r == lex_le(a@, b@),
{
    let mut i: usize = 0;
    proof {
        assert(a@.skip(0) =~= a@);
        assert(b@.skip(0) =~= b@);
    }
    loop
        invariant
            i <= a.len(),
            i <= b.len(),
            lex_le(a@, b@) == lex_le(a@.skip(i as int), b@.skip(i as int)),
        decreases a.len() - i,
    {
        if i == a.len() {
            return true;
        }
        if i == b.len() {
            return false;
        }
        let ca = a[i];
        let cb = b[i];
        proof {
            assert(a@.skip(i as int)[0] == a@[i as int]);
            assert(b@.skip(i as int)[0] == b@[i as int]);
        }
        if ca < cb {
            return true;
        }
        if ca > cb {
            return false;
        }
        proof {
            assert(a@.skip(i as int).drop_first() =~= a@.skip(i as int + 1));
            assert(b@.skip(i as int).drop_first() =~= b@.skip(i as int + 1));
        }
        i = i + 1;
    }
}

/// The extension of a path: the bytes after the last `.` of the file name,
/// unless that `.` starts the file name; `None` when the file name has no
/// `.` at all.  This is `std::path::Path::extension` for every path whose
/// last byte is not `/` — a directory listing yields no other — while on a
/// trailing `/` std would look past it and this function answers `None`.
/// 47 and 46 are the bytes of `/` and `.`.
pub open spec fn ext_of(name: Seq<u8>) -> Option<Seq<u8>>
    decreases name.len(),
{
    if name.len() == 0 {
        None
    } else {
        let c = name[name.len() - 1];
        if c == 47 {
            None
        } else if c == 46 {
            if name.len() == 1 || name[name.len() - 2] == 47 {
                None
            } else {
                Some(Seq::empty())
            }
        } else {
            match ext_of(name.drop_last()) {
                None => None,
                Some(e) => Some(e.push(c)),
            }
        }
    }
}

/// Where the extension starts, scanning the name from its end.
fn extension_start(name: &Vec<u8>) -> (r: Option<usize>)
    ensures
        match r {
            Some(j) => 0 < j <= name.len() && ext_of(name@) == Some(name@.skip(j as int)),
            None => ext_of(name@) is None,
        },
{
    let mut i: usize = name.len();
    proof {
        assert(name@.take(i as int) =~= name@);
        if ext_of(name@) is Some {
            assert(ext_of(name@).unwrap() + name@.skip(i as int) =~= ext_of(name@).unwrap());
        }
    }
    loop
        invariant
            i <= name.len(),
            (match ext_of(name@.take(i as int)) {
                Some(e) => ext_of(name@) == Some(e + name@.skip(i as int)),
                None => ext_of(name@) is None,
            }),
        decreases i,
    {
        if i == 0 {
            return None;
        }
        let c = name[i - 1];
        proof {
            assert(name@.take(i as int).len() == i);
            assert(name@.take(i as int)[i - 1] == name@[i - 1]);
        }
        if c == 47 {
            return None;
        }
        if c == 46 {
            if i == 1 || name[i - 2] == 47 {
                return None;
            }
            proof {
                assert(name@.take(i as int)[i - 2] == name@[i - 2]);
                assert(ext_of(name@.take(i as int)) == Some(Seq::<u8>::empty()));
                assert(Seq::<u8>::empty() + name@.skip(i as int) =~= name@.skip(i as int));
            }
            return Some(i);
        }
        proof {
            assert(name@.take(i as int).drop_last() =~= name@.take(i as int - 1));
            match ext_of(name@.take(i as int - 1)) {
                None => {
                    assert(ext_of(name@.take(i as int)) is None);
                },
                Some(e) => {
                    assert(ext_of(name@.take(i as int)) == Some(e.push(c)));
                    assert(e.push(c) + name@.skip(i as int) =~= e + name@.skip(i as int - 1));
                },
            }
        }
        i = i - 1;
    }
}

/// The bytes of `jpg`.
pub open spec fn jpg_ext() -> Seq<u8> {
    seq![106u8, 112u8, 103u8]
}

/// The bytes of `jpeg`.
pub open spec fn jpeg_ext() -> Seq<u8> {
    seq![106u8, 112u8, 101u8, 103u8]
}

/// The bytes of `png`.
pub open spec fn png_ext() -> Seq<u8> {
    seq![112u8, 110u8, 103u8]
}

/// Whether a directory entry belongs in the photo list: its extension is on
/// the allow-list `jpg`, `jpeg`, `png`.
pub open spec fn is_image_name(name: Seq<u8>) -> bool {
    ||| ext_of(name) == Some(jpg_ext())
    ||| ext_of(name) == Some(jpeg_ext())
    ||| ext_of(name) == Some(png_ext())
}

/// Decide `is_image_name` for a path.
pub fn is_image(name: &Vec<u8>) -> (r: bool)
    ensures
        r == is_image_name(name@),
{
    match extension_start(name) {
        None => false,
        Some(j) => {
            let k = name.len() - j;
            if k == 3 {
                let e0 = name[j];
                let e1 = name[j + 1];
                let e2 = name[j + 2];
                if e0 == 106 && e1 == 112 && e2 == 103 {
                    proof {
                        assert(name@.skip(j as int) =~= jpg_ext());
                    }
                    true
                } else if e0 == 112 && e1 == 110 && e2 == 103 {
                    proof {
                        assert(name@.skip(j as int) =~= png_ext());
                    }
                    true
                } else {
                    proof {
                        assert(name@.skip(j as int).len() == 3);
                        assert(name@.skip(j as int)[0] == name@[j as int]);
                        assert(name@.skip(j as int)[1] == name@[j as int + 1]);
                        assert(name@.skip(j as int)[2] == name@[j as int + 2]);
                        assert(jpg_ext()[0] == 106u8 && jpg_ext()[1] == 112u8 && jpg_ext()[2]
                            == 103u8);
                        assert(png_ext()[0] == 112u8 && png_ext()[1] == 110u8 && png_ext()[2]
                            == 103u8);
                        assert(jpeg_ext().len() == 4);
                    }
                    false
                }
            } else if k == 4 {
                let e0 = name[j];
                let e1 = name[j + 1];
                let e2 = name[j + 2];
                let e3 = name[j + 3];
                if e0 == 106 && e1 == 112 && e2 == 101 && e3 == 103 {
                    proof {
                        assert(name@.skip(j as int) =~= jpeg_ext());
                    }
                    true
                } else {
                    proof {
                        assert(name@.skip(j as int).len() == 4);
                        assert(name@.skip(j as int)[0] == name@[j as int]);
                        assert(name@.skip(j as int)[1] == name@[j as int + 1]);
                        assert(name@.skip(j as int)[2] == name@[j as int + 2]);
                        assert(name@.skip(j as int)[3] == name@[j as int + 3]);
                        assert(jpeg_ext()[0] == 106u8 && jpeg_ext()[1] == 112u8 && jpeg_ext()[2]
                            == 101u8 && jpeg_ext()[3] == 103u8);
                        assert(jpg_ext().len() == 3);
                        assert(png_ext().len() == 3);
                    }
                    false
                }
            } else {
                proof {
                    assert(name@.skip(j as int).len() == name@.len() - j);
                    assert(jpg_ext().len() == 3);
                    assert(jpeg_ext().len() == 4);
                    assert(png_ext().len() == 3);
                }
                false
            }
        },
    }
}

/// The views of a sequence of owned paths.
pub open spec fn views(s: Seq<Vec<u8>>) -> Seq<Seq<u8>> {
    s.map_values(|v: Vec<u8>| v@)
}

/// The entries that belong in the photo list, in directory order.
pub open spec fn image_entries(s: Seq<Seq<u8>>) -> Seq<Seq<u8>> {
    s.filter(|p: Seq<u8>| is_image_name(p))
}

/// The photo list a directory scan yields: its image entries, sorted.
pub open spec fn image_listing(s: Seq<Seq<u8>>) -> Seq<Seq<u8>> {
    image_entries(s).sort_by(lex_leq())
}

/// Keep the image entries of a listing, in their given order.
fn filter_images(entries: Vec<Vec<u8>>) -> (r: Vec<Vec<u8>>)
    ensures
        views(r@) == image_entries(views(entries@)),
{
    let ghost orig: Seq<Seq<u8>> = views(entries@);
    let mut rest = entries;
    let mut kept: Vec<Vec<u8>> = Vec::new();
    let ghost g: int = 0;
    proof {
        assert(views(rest@) =~= orig.skip(0));
        assert(views(kept@) =~= image_entries(orig.take(0)));
    }
    while rest.len() > 0
        invariant
            0 <= g <= orig.len(),
            views(rest@) == orig.skip(g),
            views(kept@) == image_entries(orig.take(g)),
        decreases orig.len() - g,
    {
        proof {
            assert(views(rest@).len() == rest@.len());
            assert(orig.skip(g).len() == orig.len() - g);
            assert(g < orig.len());
        }
        let ghost entry_rest: Seq<Vec<u8>> = rest@;
        let ghost entry_kept: Seq<Seq<u8>> = views(kept@);
        let x = rest.remove(0);
        let keep_it = is_image(&x);
        proof {
            assert(orig.skip(g)[0] == orig[g]);
            assert(views(entry_rest)[0] == entry_rest[0]@);
            assert(x@ == orig[g]);
            assert forall|k: int| 0 <= k < views(rest@).len() implies views(rest@)[k] == orig.skip(
                g + 1,
            )[k] by {
                assert(rest@[k] == entry_rest[k + 1]);
                assert(views(entry_rest)[k + 1] == entry_rest[k + 1]@);
                assert(orig.skip(g)[k + 1] == orig[g + 1 + k]);
                assert(orig.skip(g + 1)[k] == orig[g + 1 + k]);
            }
            assert(views(rest@) =~= orig.skip(g + 1));
            assert(orig.take(g + 1).drop_last() =~= orig.take(g));
            assert(orig.take(g + 1).last() == orig[g]);
            reveal_with_fuel(Seq::<_>::filter, 2);
        }
        if keep_it {
            let ghost entry_kept_vec: Seq<Vec<u8>> = kept@;
            kept.push(x);
            proof {
                assert forall|k: int| 0 <= k < views(kept@).len() implies views(kept@)[k]
                    == entry_kept.push(orig[g])[k] by {
                    assert(views(kept@)[k] == kept@[k]@);
                    if k < entry_kept.len() {
                        assert(kept@[k] == entry_kept_vec[k]);
                        assert(views(entry_kept_vec)[k] == entry_kept_vec[k]@);
                    } else {
                        assert(kept@[k] == x);
                    }
                }
                assert(views(kept@) =~= entry_kept.push(orig[g]));
                assert(image_entries(orig.take(g + 1)) == image_entries(orig.take(g)).push(
                    orig[g],
                ));
            }
        } else {
            proof {
                assert(image_entries(orig.take(g + 1)) == image_entries(orig.take(g)));
            }
        }
        proof {
            g = g + 1;
        }
    }
    proof {
        assert(views(rest@).len() == rest@.len());
        assert(orig.skip(g).len() == 0);
        assert(orig.take(g) =~= orig);
    }
    kept
}

/// Sort the photo list lexicographically by insertion.
fn sort_paths(entries: Vec<Vec<u8>>) -> (r: Vec<Vec<u8>>)
    ensures
        sorted_by(views(r@), lex_leq()),
        views(r@).to_multiset() == views(entries@).to_multiset(),
{
    let ghost orig: Seq<Seq<u8>> = views(entries@);
    let ghost leq = lex_leq();
    let mut rest = entries;
    let mut out: Vec<Vec<u8>> = Vec::new();
    let ghost g: int = 0;
    proof {
        assert(views(rest@) =~= orig.skip(0));
        assert(views(out@) =~= Seq::<Seq<u8>>::empty());
        assert(views(out@).to_multiset() =~= orig.take(0).to_multiset()) by {
            assert(orig.take(0) =~= Seq::<Seq<u8>>::empty());
        }
    }
    while rest.len() > 0
        invariant
            0 <= g <= orig.len(),
            views(rest@) == orig.skip(g),
            sorted_by(views(out@), leq),
            views(out@).to_multiset() == orig.take(g).to_multiset(),
            leq == lex_leq(),
        decreases orig.len() - g,
    {
        proof {
            assert(views(rest@).len() == rest@.len());
            assert(orig.skip(g).len() == orig.len() - g);
            assert(g < orig.len());
        }
        let ghost entry_rest: Seq<Vec<u8>> = rest@;
        let x = rest.remove(0);
        proof {
            assert(orig.skip(g)[0] == orig[g]);
            assert(views(entry_rest)[0] == entry_rest[0]@);
            assert(x@ == orig[g]);
            assert forall|k: int| 0 <= k < views(rest@).len() implies views(rest@)[k] == orig.skip(
                g + 1,
            )[k] by {
                assert(rest@[k] == entry_rest[k + 1]);
                assert(views(entry_rest)[k + 1] == entry_rest[k + 1]@);
                assert(orig.skip(g)[k + 1] == orig[g + 1 + k]);
                assert(orig.skip(g + 1)[k] == orig[g + 1 + k]);
            }
            assert(views(rest@) =~= orig.skip(g + 1));
        }
        let mut j: usize = 0;
        while j < out.len() && le_bytes(&out[j], &x)
            invariant
                j <= out.len(),
                forall|k: int| 0 <= k < j ==> lex_le(views(out@)[k], x@),
            decreases out.len() - j,
        {
            j = j + 1;
        }
        proof {
            if j < out.len() {
                lemma_lex_le_connected(views(out@)[j as int], x@);
            }
        }
        let ghost before: Seq<Seq<u8>> = views(out@);
        let ghost before_vec: Seq<Vec<u8>> = out@;
        out.insert(j, x);
        proof {
            assert forall|k: int| 0 <= k < views(out@).len() implies views(out@)[k]
                == before.insert(j as int, orig[g])[k] by {
                assert(views(out@)[k] == out@[k]@);
                if k < j as int {
                    assert(out@[k] == before_vec[k]);
                    assert(views(before_vec)[k] == before_vec[k]@);
                } else if k == j as int {
                    assert(out@[k] == x);
                } else {
                    assert(out@[k] == before_vec[k - 1]);
                    assert(views(before_vec)[k - 1] == before_vec[k - 1]@);
                }
            }
            assert(views(out@) =~= before.insert(j as int, orig[g]));
            assert forall|p: int, q: int|
                0 <= p < q < views(out@).len() implies leq(
                views(out@)[p],
                views(out@)[q],
            ) by {
                let s = views(out@);
                let ji = j as int;
                if q < ji {
                    assert(s[p] == before[p] && s[q] == before[q]);
                } else if p > ji {
                    assert(s[p] == before[p - 1] && s[q] == before[q - 1]);
                } else if p < ji && q == ji {
                    assert(s[p] == before[p] && s[q] == orig[g]);
                } else if p == ji && q > ji {
                    assert(s[p] == orig[g] && s[q] == before[q - 1]);
                    if ji < before.len() {
                        assert(lex_le(x@, before[ji]));
                        if q - 1 > ji {
                            assert(leq(before[ji], before[q - 1]));
                            assert(lex_le(before[ji], before[q - 1]));
                        } else {
                            lemma_lex_le_refl(before[ji]);
                        }
                        lemma_lex_le_trans(orig[g], before[ji], before[q - 1]);
                    }
                } else if p < ji && q > ji {
                    assert(s[p] == before[p] && s[q] == before[q - 1]);
                }
            }
            assert(j <= before.len());
            vstd::seq_lib::to_multiset_insert(before, j as int, orig[g]);
            assert(orig.take(g + 1) =~= orig.take(g).push(orig[g]));
            vstd::seq_lib::to_multiset_build(orig.take(g), orig[g]);
            g = g + 1;
        }
    }
    proof {
        assert(views(rest@).len() == rest@.len());
        assert(orig.skip(g).len() == 0);
        assert(orig.take(g) =~= orig);
    }
    out
}

/// Build the photo list of a directory scan: keep the entries whose
/// extension is `jpg`, `jpeg` or `png`, sorted lexicographically by their
/// bytes.  The result is exactly `image_listing` of the entries' views.
pub fn list_images(entries: Vec<Vec<u8>>) -> (r: Vec<Vec<u8>>)
    ensures
        views(r@) == image_listing(views(entries@)),
        sorted_by(views(r@), lex_leq()),
{
    let ghost orig: Seq<Seq<u8>> = views(entries@);
    let kept = filter_images(entries);
    let out = sort_paths(kept);
    proof {
        lemma_lex_le_total_ordering();
        image_entries(orig).lemma_sort_by_ensures(lex_leq());
        lemma_sorted_unique(views(out@), image_entries(orig).sort_by(lex_leq()), lex_leq());
    }
    out
}

} // verus!

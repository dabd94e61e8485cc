//! Buffer-format bookkeeping for dmabuf feedback: the scan-out format
//! tranche advertised for a surface is limited to formats the renderer
//! can also handle, so a fallback render path always exists for any
//! buffer a client supplies.
//!
//! A format is a (fourcc code, modifier) pair of plain integers. The
//! ordered de-duplicating set that collects them is indexmap's
//! `IndexSet`, used through trusted wrappers.

use vstd::prelude::*;

verus! {

#[verifier::external_type_specification]
#[verifier::external_body]
#[verifier::reject_recursive_types(T)]
#[verifier::reject_recursive_types(S)]
pub struct ExIndexSet<T, S>(indexmap::IndexSet<T, S>);

/// What an `IndexSet` of formats holds, in insertion order.
pub uninterp spec fn format_set_seq(s: indexmap::IndexSet<(u64, u64)>) -> Seq<(u64, u64)>;

/// Relies on indexmap's IndexSet::new: creates an empty set.
#[verifier::external_body]
fn format_set_new() -> (s: indexmap::IndexSet<(u64, u64)>)
    ensures
        format_set_seq(s) == Seq::<(u64, u64)>::empty(),
{
    indexmap::IndexSet::new()
}

/// Relies on indexmap's IndexSet::insert: appends the value unless an
/// equal one is already present, keeping insertion order, and returns
/// whether it was newly inserted.
#[verifier::external_body]
fn format_set_insert(s: &mut indexmap::IndexSet<(u64, u64)>, x: (u64, u64)) -> (r: bool)
    ensures
        format_set_seq(*final(s)) == (if format_set_seq(*old(s)).contains(x) {
            format_set_seq(*old(s))
        } else {
            format_set_seq(*old(s)).push(x)
        }),
        r == !format_set_seq(*old(s)).contains(x),
{
    s.insert(x)
}

/// Relies on indexmap's IndexSet::contains: whether an equal value is
/// in the set.
#[verifier::external_body]
fn format_set_contains(s: &indexmap::IndexSet<(u64, u64)>, x: (u64, u64)) -> (r: bool)
    ensures
        r == format_set_seq(*s).contains(x),
{
    s.contains(&x)
}

/// Relies on indexmap's IndexSet::iter: yields the values in insertion
/// order.
#[verifier::external_body]
fn format_set_to_vec(s: &indexmap::IndexSet<(u64, u64)>) -> (r: Vec<(u64, u64)>)
    ensures
        r@ == format_set_seq(*s),
{
    s.iter().copied().collect()
}

/// Whether a format can be rendered from: it is among the primary
/// gpu's formats or the surface's render-node formats.
pub open spec fn renderable(
    f: (u64, u64),
    primary_formats: Seq<(u64, u64)>,
    render_formats: Seq<(u64, u64)>,
) -> bool {
    primary_formats.contains(f) || render_formats.contains(f)
}

/// The scan-out format tranche for a surface: every plane format that
/// is also renderable, each exactly once. Limiting scan-out to
/// renderable formats keeps a fallback render path available when a
/// client buffer cannot be scanned out directly.
pub fn scanout_tranche_formats(
    primary_formats: &Vec<(u64, u64)>,
    render_formats: &Vec<(u64, u64)>,
    plane_formats: &Vec<(u64, u64)>,
) -> (r: Vec<(u64, u64)>)
    ensures
        forall|f: (u64, u64)|
            r@.contains(f) <==> (plane_formats@.contains(f) && renderable(
                f,
                primary_formats@,
                render_formats@,
            )),
        forall|i: int, j: int| 0 <= i < j < r@.len() ==> r@[i] != r@[j],
{
    let mut all_render = format_set_new();
    let mut i: usize = 0;
    while i < primary_formats.len()
        invariant
            i <= primary_formats@.len(),
            forall|f: (u64, u64)|
                format_set_seq(all_render).contains(f) <==> primary_formats@.take(
                    i as int,
                ).contains(f),
        decreases primary_formats@.len() - i,
    {
        let ghost pre = format_set_seq(all_render);
        let x = primary_formats[i];
        format_set_insert(&mut all_render, x);
        proof {
            lemma_member_after_push(pre, format_set_seq(all_render), x);
            assert forall|f: (u64, u64)|
                format_set_seq(all_render).contains(f) <==> primary_formats@.take(
                    i + 1,
                ).contains(f) by {
                lemma_take_one_more(primary_formats@, i as int, f);
            }
        }
        i = i + 1;
    }
    proof {
        assert(primary_formats@.take(primary_formats@.len() as int) =~= primary_formats@);
    }
    let mut j: usize = 0;
    while j < render_formats.len()
        invariant
            j <= render_formats@.len(),
            forall|f: (u64, u64)|
                format_set_seq(all_render).contains(f) <==> (primary_formats@.contains(f)
                    || render_formats@.take(j as int).contains(f)),
        decreases render_formats@.len() - j,
    {
        let ghost pre = format_set_seq(all_render);
        let x = render_formats[j];
        format_set_insert(&mut all_render, x);
        proof {
            lemma_member_after_push(pre, format_set_seq(all_render), x);
            assert forall|f: (u64, u64)|
                format_set_seq(all_render).contains(f) <==> (primary_formats@.contains(f)
                    || render_formats@.take(j + 1).contains(f)) by {
                lemma_take_one_more(render_formats@, j as int, f);
            }
        }
        j = j + 1;
    }
    proof {
        assert(render_formats@.take(render_formats@.len() as int) =~= render_formats@);
    }

    let mut out = format_set_new();
    let mut k: usize = 0;
    while k < plane_formats.len()
        invariant
            k <= plane_formats@.len(),
            forall|f: (u64, u64)|
                format_set_seq(all_render).contains(f) <==> renderable(
                    f,
                    primary_formats@,
                    render_formats@,
                ),
            forall|f: (u64, u64)|
                format_set_seq(out).contains(f) <==> (plane_formats@.take(k as int).contains(f)
                    && renderable(f, primary_formats@, render_formats@)),
            forall|i2: int, j2: int|
                0 <= i2 < j2 < format_set_seq(out).len() ==> format_set_seq(out)[i2]
                    != format_set_seq(out)[j2],
        decreases plane_formats@.len() - k,
    {
        let ghost pre = format_set_seq(out);
        let x = plane_formats[k];
        if format_set_contains(&all_render, x) {
            format_set_insert(&mut out, x);
            proof {
                lemma_member_after_push(pre, format_set_seq(out), x);
                if !pre.contains(x) {
                    assert forall|i2: int, j2: int|
                        0 <= i2 < j2 < format_set_seq(out).len() implies format_set_seq(out)[i2]
                            != format_set_seq(out)[j2] by {
                        if j2 == format_set_seq(out).len() - 1 {
                            assert(format_set_seq(out)[j2] == x);
                            assert(format_set_seq(out)[i2] == pre[i2]);
                            assert(pre.contains(pre[i2]));
                        } else {
                            assert(format_set_seq(out)[i2] == pre[i2]);
                            assert(format_set_seq(out)[j2] == pre[j2]);
                        }
                    }
                }
            }
        }
        proof {
            assert forall|f: (u64, u64)|
                format_set_seq(out).contains(f) <==> (plane_formats@.take(k + 1).contains(f)
                    && renderable(f, primary_formats@, render_formats@)) by {
                lemma_take_one_more(plane_formats@, k as int, f);
            }
        }
        k = k + 1;
    }
    proof {
        assert(plane_formats@.take(plane_formats@.len() as int) =~= plane_formats@);
    }
    format_set_to_vec(&out)
}

/// Membership after a de-duplicating push: the new sequence holds `x`
/// and exactly the old members.
proof fn lemma_member_after_push(pre: Seq<(u64, u64)>, post: Seq<(u64, u64)>, x: (u64, u64))
    requires
        post == (if pre.contains(x) {
            pre
        } else {
            pre.push(x)
        }),
    ensures
        forall|f: (u64, u64)| #[trigger] post.contains(f) <==> (pre.contains(f) || f == x),
{
    if !pre.contains(x) {
        assert forall|f: (u64, u64)| #[trigger] post.contains(f) implies (pre.contains(f) || f
            == x) by {
            let w = choose|w: int| 0 <= w < post.len() && post[w] == f;
            if w < pre.len() {
                assert(pre[w] == f);
            }
        }
        assert forall|f: (u64, u64)| (pre.contains(f) || f == x) implies #[trigger] post.contains(
            f,
        ) by {
            if pre.contains(f) {
                let w = choose|w: int| 0 <= w < pre.len() && pre[w] == f;
                assert(post[w] == f);
            } else {
                assert(post[pre.len() as int] == x);
            }
        }
    }
}

/// Membership in one-longer prefixes of a sequence.
proof fn lemma_take_one_more(s: Seq<(u64, u64)>, i: int, f: (u64, u64))
    requires
        0 <= i < s.len(),
    ensures
        s.take(i + 1).contains(f) <==> (s.take(i).contains(f) || f == s[i]),
{
    if s.take(i + 1).contains(f) {
        let w = choose|w: int| 0 <= w < s.take(i + 1).len() && (#[trigger] s.take(i + 1)[w]) == f;
        if w < i {
            assert(s.take(i)[w] == f);
        } else {
            assert(s[i] == f);
        }
    }
    if s.take(i).contains(f) {
        let w = choose|w: int| 0 <= w < s.take(i).len() && (#[trigger] s.take(i)[w]) == f;
        assert(s.take(i + 1)[w] == f);
    }
    if f == s[i] {
        assert(s.take(i + 1)[i] == f);
    }
}

} // verus!

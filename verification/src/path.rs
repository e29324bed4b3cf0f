//! Paths as text, with `/` between segments: joining, lexical
//! normalisation, the parent, and a file name with an extension.

use crate::text::{chars_of, concat, find_last, last_index, lemma_last_index, push_all, slice_of, text_of};
use vstd::prelude::*;

verus! {

/// A path is absolute where it begins with `/`.
pub open spec fn is_absolute(p: Seq<char>) -> bool {
    p.len() > 0 && p[0] == '/'
}

/// The segments after `seg` has ended: an empty segment and `.` leave them
/// as they are, `..` takes the last one away (at the top there is none to
/// take), any other segment is added.
pub open spec fn settle(stack: Seq<Seq<char>>, seg: Seq<char>) -> Seq<Seq<char>> {
    if seg.len() == 0 || seg == seq!['.'] {
        stack
    } else if seg == seq!['.', '.'] {
        if stack.len() > 0 {
            stack.drop_last()
        } else {
            stack
        }
    } else {
        stack.push(seg)
    }
}

/// Reads `p` from index `i` on, with the segments settled so far and the
/// characters of the segment that is being read.
pub open spec fn walk(p: Seq<char>, i: int, stack: Seq<Seq<char>>, seg: Seq<char>) -> Seq<
    Seq<char>,
>
    decreases p.len() - i,
{
    if i < 0 || i >= p.len() {
        settle(stack, seg)
    } else if p[i] == '/' {
        walk(p, i + 1, settle(stack, seg), Seq::empty())
    } else {
        walk(p, i + 1, stack, seg.push(p[i]))
    }
}

/// The segments that remain of `p` once `.` and `..` have had their effect.
pub open spec fn segments(p: Seq<char>) -> Seq<Seq<char>> {
    walk(p, 0, Seq::empty(), Seq::empty())
}

/// Every segment with a `/` before it.
pub open spec fn slashed(stack: Seq<Seq<char>>) -> Seq<char>
    decreases stack.len(),
{
    if stack.len() == 0 {
        Seq::empty()
    } else {
        slashed(stack.drop_last()) + seq!['/'] + stack.last()
    }
}

/// The path with these segments.
pub open spec fn render(absolute: bool, stack: Seq<Seq<char>>) -> Seq<char> {
    if absolute {
        if stack.len() == 0 {
            seq!['/']
        } else {
            slashed(stack)
        }
    } else {
        if stack.len() == 0 {
            Seq::empty()
        } else {
            slashed(stack).subrange(1, slashed(stack).len() as int)
        }
    }
}

/// The lexically normal form of `p`.
pub open spec fn normalize(p: Seq<char>) -> Seq<char> {
    render(is_absolute(p), segments(p))
}

/// `target` seen from `base`: an absolute target stands for itself, any
/// other is read below `base`. The result is normalised.
pub open spec fn join_spec(base: Seq<char>, target: Seq<char>) -> Seq<char> {
    if is_absolute(target) || base.len() == 0 {
        normalize(target)
    } else {
        normalize(base + seq!['/'] + target)
    }
}

/// The directory that holds `p`: what stands before the last `/`. The root
/// has none, nor has a path without `/`.
pub open spec fn parent_of(p: Seq<char>) -> Option<Seq<char>> {
    let k = last_index(p, '/', p.len() as int);
    if k < 0 {
        None
    } else if k == 0 {
        if p.len() == 1 {
            None
        } else {
            Some(seq!['/'])
        }
    } else {
        Some(p.subrange(0, k))
    }
}

/// The suffix that a stored extension stands for. Extensions are stored
/// without their dot; the empty extension stands for no suffix at all.
pub open spec fn extension_suffix(ext: Seq<char>) -> Seq<char> {
    if ext.len() == 0 {
        Seq::empty()
    } else {
        seq!['.'] + ext
    }
}

/// The path that is probed for `p` with the stored extension `ext`: `p`
/// followed by the suffix of `ext`, in normal form.
pub open spec fn with_extension(p: Seq<char>, ext: Seq<char>) -> Seq<char> {
    normalize(p + extension_suffix(ext))
}

/// A segment of a normal path: not empty, neither `.` nor `..`, without `/`.
pub open spec fn is_plain_segment(seg: Seq<char>) -> bool {
    &&& seg.len() > 0
    &&& seg != seq!['.']
    &&& seg != seq!['.', '.']
    &&& forall|j: int| 0 <= j < seg.len() ==> seg[j] != '/'
}

/// Every segment is a segment of a normal path.
pub open spec fn all_plain(stack: Seq<Seq<char>>) -> bool {
    forall|k: int| 0 <= k < stack.len() ==> is_plain_segment(#[trigger] stack[k])
}

proof fn lemma_walk_plain(p: Seq<char>, i: int, stack: Seq<Seq<char>>, seg: Seq<char>)
    requires
        0 <= i <= p.len(),
        all_plain(stack),
        forall|j: int| 0 <= j < seg.len() ==> seg[j] != '/',
    ensures
        all_plain(walk(p, i, stack, seg)),
    decreases p.len() - i,
{
    if i < p.len() {
        if p[i] == '/' {
            lemma_walk_plain(p, i + 1, settle(stack, seg), Seq::empty());
        } else {
            lemma_walk_plain(p, i + 1, stack, seg.push(p[i]));
        }
    }
}

/// No segment of a normalised path is empty, `.` or `..`.
pub proof fn lemma_segments_plain(p: Seq<char>)
    ensures
        all_plain(segments(p)),
        normalize(p) == render(is_absolute(p), segments(p)),
{
    lemma_walk_plain(p, 0, Seq::empty(), Seq::empty());
}

proof fn lemma_slashed_head(stack: Seq<Seq<char>>)
    requires
        stack.len() > 0,
    ensures
        slashed(stack).len() > 0,
        slashed(stack)[0] == '/',
    decreases stack.len(),
{
    if stack.len() > 1 {
        lemma_slashed_head(stack.drop_last());
    } else {
        assert(slashed(stack.drop_last()).len() == 0);
    }
}

/// A parent is shorter than its child, and the parent of an absolute path is
/// absolute.
pub proof fn lemma_parent(p: Seq<char>)
    ensures
        match parent_of(p) {
            Some(q) => q.len() < p.len() && (is_absolute(p) ==> is_absolute(q)),
            None => true,
        },
{
    lemma_last_index(p, '/', p.len() as int);
}

/// Where reading `p` from index `i` on has got to at the end of `p`: the
/// segments settled, and the segment that is being read.
pub open spec fn scan(p: Seq<char>, i: int, stack: Seq<Seq<char>>, seg: Seq<char>) -> (
    Seq<Seq<char>>,
    Seq<char>,
)
    decreases p.len() - i,
{
    if i < 0 || i >= p.len() {
        (stack, seg)
    } else if p[i] == '/' {
        scan(p, i + 1, settle(stack, seg), Seq::empty())
    } else {
        scan(p, i + 1, stack, seg.push(p[i]))
    }
}

proof fn lemma_walk_is_scan(p: Seq<char>, i: int, stack: Seq<Seq<char>>, seg: Seq<char>)
    ensures
        walk(p, i, stack, seg) == settle(scan(p, i, stack, seg).0, scan(p, i, stack, seg).1),
    decreases p.len() - i,
{
    if 0 <= i < p.len() {
        if p[i] == '/' {
            lemma_walk_is_scan(p, i + 1, settle(stack, seg), Seq::empty());
        } else {
            lemma_walk_is_scan(p, i + 1, stack, seg.push(p[i]));
        }
    }
}

proof fn lemma_scan_shift(a: Seq<char>, b: Seq<char>, j: int, stack: Seq<Seq<char>>, seg: Seq<char>)
    requires
        0 <= j <= b.len(),
    ensures
        scan(a + b, a.len() + j, stack, seg) == scan(b, j, stack, seg),
    decreases b.len() - j,
{
    if j < b.len() {
        assert((a + b)[a.len() + j] == b[j]);
        if b[j] == '/' {
            lemma_scan_shift(a, b, j + 1, settle(stack, seg), Seq::empty());
        } else {
            lemma_scan_shift(a, b, j + 1, stack, seg.push(b[j]));
        }
    }
}

proof fn lemma_scan_append(a: Seq<char>, b: Seq<char>, i: int, stack: Seq<Seq<char>>, seg: Seq<char>)
    requires
        0 <= i <= a.len(),
    ensures
        scan(a + b, i, stack, seg) == scan(
            b,
            0,
            scan(a, i, stack, seg).0,
            scan(a, i, stack, seg).1,
        ),
    decreases a.len() - i,
{
    if i < a.len() {
        assert((a + b)[i] == a[i]);
        if a[i] == '/' {
            lemma_scan_append(a, b, i + 1, settle(stack, seg), Seq::empty());
        } else {
            lemma_scan_append(a, b, i + 1, stack, seg.push(a[i]));
        }
    } else {
        lemma_scan_shift(a, b, 0, stack, seg);
    }
}

proof fn lemma_scan_run(s: Seq<char>, j: int, stack: Seq<Seq<char>>, seg: Seq<char>)
    requires
        0 <= j <= s.len(),
        forall|k: int| 0 <= k < s.len() ==> s[k] != '/',
    ensures
        scan(s, j, stack, seg) == (stack, seg + s.subrange(j, s.len() as int)),
    decreases s.len() - j,
{
    if j < s.len() {
        lemma_scan_run(s, j + 1, stack, seg.push(s[j]));
        assert(seg.push(s[j]) + s.subrange(j + 1, s.len() as int) =~= seg + s.subrange(
            j,
            s.len() as int,
        ));
    } else {
        assert(seg + s.subrange(j, s.len() as int) =~= seg);
    }
}

proof fn lemma_scan_slashed(segs: Seq<Seq<char>>)
    requires
        all_plain(segs),
        segs.len() > 0,
    ensures
        scan(slashed(segs), 0, Seq::empty(), Seq::empty()) == (segs.drop_last(), segs.last()),
    decreases segs.len(),
{
    let init = segs.drop_last();
    let last = segs.last();
    let none = Seq::<Seq<char>>::empty();
    let blank = Seq::<char>::empty();
    let head = slashed(init) + seq!['/'];
    assert(slashed(segs) == head + last);
    assert(is_plain_segment(last));
    lemma_scan_append(head, last, 0, none, blank);
    lemma_scan_append(slashed(init), seq!['/'], 0, none, blank);
    let before = scan(slashed(init), 0, none, blank);
    if init.len() == 0 {
        assert(slashed(init) =~= blank);
        assert(before == (none, blank));
        assert(settle(none, blank) == none);
        assert(init =~= none);
    } else {
        assert(all_plain(init)) by {
            assert forall|k: int| 0 <= k < init.len() implies is_plain_segment(
                #[trigger] init[k],
            ) by {
                assert(init[k] == segs[k]);
            }
        }
        lemma_scan_slashed(init);
        assert(is_plain_segment(init.last())) by {
            assert(init.last() == segs[init.len() - 1]);
        }
        assert(settle(init.drop_last(), init.last()) =~= init);
    }
    assert(scan(seq!['/'], 0, before.0, before.1) == (init, blank)) by {
        reveal_with_fuel(scan, 2);
    }
    lemma_scan_run(last, 0, init, blank);
    assert(blank + last.subrange(0, last.len() as int) =~= last);
}

proof fn lemma_slashed_second(segs: Seq<Seq<char>>)
    requires
        all_plain(segs),
        segs.len() > 0,
    ensures
        slashed(segs).len() >= 2,
        slashed(segs)[0] == '/',
        slashed(segs)[1] != '/',
    decreases segs.len(),
{
    let init = segs.drop_last();
    assert(is_plain_segment(segs.last())) by {
        assert(segs.last() == segs[segs.len() - 1]);
    }
    if init.len() == 0 {
        assert(slashed(init) =~= Seq::<char>::empty());
        assert(slashed(segs)[1] == segs.last()[0]);
    } else {
        assert(all_plain(init)) by {
            assert forall|k: int| 0 <= k < init.len() implies is_plain_segment(
                #[trigger] init[k],
            ) by {
                assert(init[k] == segs[k]);
            }
        }
        lemma_slashed_second(init);
        assert(slashed(segs)[0] == slashed(init)[0]);
        assert(slashed(segs)[1] == slashed(init)[1]);
    }
}

/// The path of plain segments reads back as these segments, and is its own
/// normal form.
pub proof fn lemma_render_reads_back(absolute: bool, segs: Seq<Seq<char>>)
    requires
        all_plain(segs),
    ensures
        is_absolute(render(absolute, segs)) == absolute,
        segments(render(absolute, segs)) == segs,
        normalize(render(absolute, segs)) == render(absolute, segs),
{
    let none = Seq::<Seq<char>>::empty();
    let blank = Seq::<char>::empty();
    if segs.len() == 0 {
        if absolute {
            assert(segments(seq!['/']) == none) by {
                reveal_with_fuel(walk, 3);
            }
        }
        assert(segs =~= none);
    } else {
        lemma_slashed_second(segs);
        lemma_scan_slashed(segs);
        assert(is_plain_segment(segs.last())) by {
            assert(segs.last() == segs[segs.len() - 1]);
        }
        assert(settle(segs.drop_last(), segs.last()) =~= segs);
        if absolute {
            lemma_walk_is_scan(slashed(segs), 0, none, blank);
        } else {
            let whole = slashed(segs);
            let rest = whole.subrange(1, whole.len() as int);
            assert(whole =~= seq!['/'] + rest);
            lemma_scan_append(seq!['/'], rest, 0, none, blank);
            assert(scan(seq!['/'], 0, none, blank) == (none, blank)) by {
                reveal_with_fuel(scan, 2);
            }
            lemma_walk_is_scan(rest, 0, none, blank);
            assert(rest[0] == whole[1]);
        }
    }
}

/// A path is normal where it is its own normal form: no segment of it is
/// empty, `.` or `..`.
pub open spec fn is_normal(p: Seq<char>) -> bool {
    normalize(p) == p
}

/// A normal path is the path of its segments, none of which is empty, `.`
/// or `..`.
pub proof fn lemma_normal_form(p: Seq<char>)
    requires
        is_normal(p),
    ensures
        p == render(is_absolute(p), segments(p)),
        all_plain(segments(p)),
{
    lemma_segments_plain(p);
}

/// A normal form is normal: normalising again changes nothing. And it is
/// absolute exactly where the path is.
pub proof fn lemma_normalize_normal(p: Seq<char>)
    ensures
        is_normal(normalize(p)),
        is_absolute(normalize(p)) == is_absolute(p),
        all_plain(segments(normalize(p))),
{
    lemma_segments_plain(p);
    lemma_render_reads_back(is_absolute(p), segments(p));
}

/// What is joined is normal, and absolute where the base is.
pub proof fn lemma_join_normal(base: Seq<char>, target: Seq<char>)
    ensures
        is_normal(join_spec(base, target)),
        is_absolute(base) ==> is_absolute(join_spec(base, target)),
{
    lemma_normalize_normal(target);
    lemma_normalize_normal(base + seq!['/'] + target);
}

/// The path probed for `p` with an extension is normal, and absolute where
/// `p` is.
pub proof fn lemma_extension_normal(p: Seq<char>, ext: Seq<char>)
    ensures
        is_normal(with_extension(p, ext)),
        is_absolute(p) ==> is_absolute(with_extension(p, ext)),
{
    lemma_normalize_normal(p + extension_suffix(ext));
}

/// Where the stored extension is empty, or holds no `/` and is not a single
/// dot, the path probed for a normal `p` is `p` followed by the suffix as it
/// is written.
pub proof fn lemma_extension_verbatim(p: Seq<char>, ext: Seq<char>)
    requires
        is_normal(p),
        is_absolute(p),
        ext != seq!['.'],
        forall|k: int| 0 <= k < ext.len() ==> ext[k] != '/',
    ensures
        with_extension(p, ext) == p + extension_suffix(ext),
{
    if ext.len() == 0 {
        assert(p + extension_suffix(ext) =~= p);
    } else {
        lemma_segments_plain(p);
        let segs = segments(p);
        let tail = seq!['.'] + ext;
        if segs.len() == 0 {
            let named = seq![tail];
            assert(is_plain_segment(tail)) by {
                if tail == seq!['.', '.'] {
                    assert(ext =~= seq!['.']) by {
                        assert(tail.len() == 2);
                        assert(ext[0] == tail[1]);
                    }
                }
                assert(tail[0] == '.');
            }
            assert(all_plain(named));
            assert(named.drop_last() =~= Seq::<Seq<char>>::empty());
            assert(slashed(named.drop_last()) =~= Seq::<char>::empty());
            assert(slashed(named) =~= seq!['/'] + tail);
            assert(p + tail =~= render(true, named));
            lemma_render_reads_back(true, named);
        } else {
            let last = segs.last() + tail;
            let named = segs.drop_last().push(last);
            assert(is_plain_segment(segs.last())) by {
                assert(segs.last() == segs[segs.len() - 1]);
            }
            assert(is_plain_segment(last)) by {
                assert(last.len() >= 2);
                if last == seq!['.', '.'] {
                    assert(segs.last().len() == 1);
                    assert(segs.last()[0] == last[0]);
                    assert(segs.last() =~= seq!['.']);
                }
                assert forall|j: int| 0 <= j < last.len() implies last[j] != '/' by {
                    if j < segs.last().len() {
                        assert(last[j] == segs.last()[j]);
                    } else if j > segs.last().len() {
                        assert(last[j] == ext[j - segs.last().len() - 1]);
                    }
                }
            }
            assert(all_plain(named)) by {
                assert forall|k: int| 0 <= k < named.len() implies is_plain_segment(
                    #[trigger] named[k],
                ) by {
                    if k < segs.len() - 1 {
                        assert(named[k] == segs[k]);
                    }
                }
            }
            assert(named.drop_last() =~= segs.drop_last());
            assert(slashed(named) =~= slashed(segs) + tail);
            assert(p + tail =~= render(true, named));
            lemma_render_reads_back(true, named);
        }
    }
}

/// The parent of a normal path is normal.
pub proof fn lemma_parent_normal(p: Seq<char>)
    requires
        is_normal(p),
    ensures
        match parent_of(p) {
            Some(q) => is_normal(q),
            None => true,
        },
{
    lemma_segments_plain(p);
    let absolute = is_absolute(p);
    let segs = segments(p);
    lemma_last_index(p, '/', p.len() as int);
    if segs.len() > 0 {
        let init = segs.drop_last();
        let last = segs.last();
        let whole = slashed(segs);
        let cut = slashed(init).len() as int;
        let off: int = if absolute {
            0
        } else {
            1
        };
        assert(is_plain_segment(last)) by {
            assert(last == segs[segs.len() - 1]);
        }
        assert(all_plain(init)) by {
            assert forall|k: int| 0 <= k < init.len() implies is_plain_segment(
                #[trigger] init[k],
            ) by {
                assert(init[k] == segs[k]);
            }
        }
        lemma_slashed_second(segs);
        assert(whole == slashed(init) + seq!['/'] + last);
        assert(p =~= whole.subrange(off, whole.len() as int));
        if init.len() > 0 {
            lemma_slashed_second(init);
        } else {
            assert(slashed(init) =~= Seq::<char>::empty());
        }
        if absolute || init.len() > 0 {
            assert(p[cut - off] == '/') by {
                assert(whole[cut] == '/');
            }
            assert forall|j: int| cut - off < j < p.len() implies p[j] != '/' by {
                assert(p[j] == last[j + off - cut - 1]);
            }
            let k = last_index(p, '/', p.len() as int);
            assert(k == cut - off);
            lemma_render_reads_back(absolute, init);
            if init.len() > 0 {
                assert(p.subrange(0, cut - off) =~= render(absolute, init));
            }
        } else {
            assert forall|j: int| 0 <= j < p.len() implies p[j] != '/' by {
                assert(p[j] == last[j]);
            }
        }
    }
}

/// The rows of a stack of segments, as text.
pub open spec fn rows(stack: Seq<Vec<char>>) -> Seq<Seq<char>> {
    Seq::new(stack.len(), |k: int| stack[k]@)
}

fn is_dot(seg: &Vec<char>) -> (r: bool)
    ensures
        r == (seg@ == seq!['.']),
{
    let r = seg.len() == 1 && seg[0] == '.';
    proof {
        if r {
            assert(seg@ =~= seq!['.']);
        }
    }
    r
}

fn is_dot_dot(seg: &Vec<char>) -> (r: bool)
    ensures
        r == (seg@ == seq!['.', '.']),
{
    let r = seg.len() == 2 && seg[0] == '.' && seg[1] == '.';
    proof {
        if r {
            assert(seg@ =~= seq!['.', '.']);
        }
    }
    r
}

fn settle_segment(stack: &mut Vec<Vec<char>>, seg: Vec<char>)
    ensures
        rows(final(stack)@) == settle(rows(old(stack)@), seg@),
{
    if seg.len() == 0 || is_dot(&seg) {
    } else if is_dot_dot(&seg) {
        if stack.len() > 0 {
            stack.pop();
            proof {
                assert(rows(stack@) =~= rows(old(stack)@).drop_last());
            }
        }
    } else {
        stack.push(seg);
        proof {
            assert(rows(stack@) =~= rows(old(stack)@).push(seg@));
        }
    }
}

fn render_segments(absolute: bool, stack: &Vec<Vec<char>>) -> (r: Vec<char>)
    ensures
        r@ == render(absolute, rows(stack@)),
{
    let mut out: Vec<char> = Vec::new();
    if stack.len() == 0 {
        if absolute {
            out.push('/');
            proof {
                assert(out@ =~= seq!['/']);
            }
        }
        return out;
    }
    let mut k: usize = 0;
    while k < stack.len()
        invariant
            k <= stack.len(),
            out@ == slashed(rows(stack@).subrange(0, k as int)),
        decreases stack.len() - k,
    {
        proof {
            let next = rows(stack@).subrange(0, k + 1);
            assert(next.drop_last() =~= rows(stack@).subrange(0, k as int));
            assert(next.last() == stack@[k as int]@);
        }
        out.push('/');
        push_all(&mut out, &stack[k]);
        proof {
            assert(out@ =~= slashed(rows(stack@).subrange(0, k as int)) + seq!['/']
                + stack@[k as int]@);
        }
        k += 1;
    }
    proof {
        assert(rows(stack@).subrange(0, stack.len() as int) =~= rows(stack@));
        lemma_slashed_head(rows(stack@));
    }
    if absolute {
        out
    } else {
        slice_of(&out, 1, out.len())
    }
}

/// The lexically normal form of a path.
pub fn normalize_chars(p: &Vec<char>) -> (r: Vec<char>)
    ensures
        r@ == normalize(p@),
{
    let mut stack: Vec<Vec<char>> = Vec::new();
    let mut seg: Vec<char> = Vec::new();
    let mut i: usize = 0;
    proof {
        assert(rows(stack@) =~= Seq::<Seq<char>>::empty());
    }
    while i < p.len()
        invariant
            i <= p.len(),
            segments(p@) == walk(p@, i as int, rows(stack@), seg@),
        decreases p.len() - i,
    {
        if p[i] == '/' {
            settle_segment(&mut stack, seg);
            seg = Vec::new();
        } else {
            seg.push(p[i]);
        }
        i += 1;
    }
    settle_segment(&mut stack, seg);
    let absolute = p.len() > 0 && p[0] == '/';
    render_segments(absolute, &stack)
}

/// `target` seen from `base`, normalised.
pub fn join_chars(base: &Vec<char>, target: &Vec<char>) -> (r: Vec<char>)
    ensures
        r@ == join_spec(base@, target@),
{
    if (target.len() > 0 && target[0] == '/') || base.len() == 0 {
        normalize_chars(target)
    } else {
        let mut whole: Vec<char> = Vec::new();
        push_all(&mut whole, base);
        whole.push('/');
        push_all(&mut whole, target);
        proof {
            assert(whole@ =~= base@ + seq!['/'] + target@);
        }
        normalize_chars(&whole)
    }
}

/// The lexically normal form of a path.
pub fn normalize_path(p: &str) -> (r: String)
    ensures
        r@ == normalize(p@),
{
    let chars = chars_of(p);
    text_of(&normalize_chars(&chars))
}

/// `target` seen from `base`, normalised.
pub fn join_path(base: &str, target: &str) -> (r: String)
    ensures
        r@ == join_spec(base@, target@),
{
    let b = chars_of(base);
    let t = chars_of(target);
    text_of(&join_chars(&b, &t))
}

/// The directory that holds `p`, if it has one.
pub fn parent(p: &str) -> (r: Option<String>)
    ensures
        match r {
            Some(q) => parent_of(p@) == Some(q@),
            None => parent_of(p@) is None,
        },
{
    let chars = chars_of(p);
    match find_last(&chars, '/', chars.len()) {
        None => None,
        Some(k) => {
            if k == 0 {
                if chars.len() == 1 {
                    None
                } else {
                    let root: Vec<char> = vec!['/'];
                    Some(text_of(&root))
                }
            } else {
                Some(text_of(&slice_of(&chars, 0, k)))
            }
        },
    }
}

/// `path` followed by `ext`, as it is written.
pub fn append_ext(path: &str, ext: &str) -> (r: String)
    ensures
        r@ == path@ + ext@,
{
    let mut whole = chars_of(path);
    push_all(&mut whole, &chars_of(ext));
    text_of(&whole)
}

/// The suffix that a stored extension stands for.
pub fn suffix_of(ext: &str) -> (r: String)
    ensures
        r@ == extension_suffix(ext@),
{
    let e = chars_of(ext);
    if e.len() == 0 {
        text_of(&e)
    } else {
        let mut suffix: Vec<char> = vec!['.'];
        push_all(&mut suffix, &e);
        text_of(&suffix)
    }
}

/// The path that is probed for `path` with the stored extension `ext`.
pub fn with_ext(path: &str, ext: &str) -> (r: String)
    ensures
        r@ == with_extension(path@, ext@),
{
    let suffix = suffix_of(ext);
    normalize_path(append_ext(path, suffix.as_str()).as_str())
}

} // verus!

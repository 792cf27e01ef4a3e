//! Unix path text: the components, file name, stem and extension of a path,
//! following the rules of `std::path::Path` (repeated and trailing `/` are
//! ignored, `.` components are dropped, the stem/extension split is at the last
//! `.` unless that dot leads the name).
use vstd::prelude::*;
use crate::text::{rfind_char, rfind_char_vec, slice_of, views};

verus! {

/// Length of the run of non-`/` characters at the front of `s`.
pub open spec fn seg_len(s: Seq<char>) -> nat
    decreases s.len(),
{
    if s.len() == 0 || s[0] == '/' {
        0
    } else {
        1 + seg_len(s.drop_first())
    }
}

/// `s` without its leading `/` characters.
pub open spec fn skip_slashes(s: Seq<char>) -> Seq<char>
    decreases s.len(),
{
    if s.len() > 0 && s[0] == '/' {
        skip_slashes(s.drop_first())
    } else {
        s
    }
}

pub proof fn lemma_skip_slashes(s: Seq<char>)
    ensures
        skip_slashes(s).len() <= s.len(),
        skip_slashes(s).len() > 0 ==> skip_slashes(s)[0] != '/',
        skip_slashes(s) == s.skip(s.len() - skip_slashes(s).len()),
    decreases s.len(),
{
    if s.len() > 0 && s[0] == '/' {
        lemma_skip_slashes(s.drop_first());
        assert(s.drop_first().skip(s.drop_first().len() - skip_slashes(s).len()) =~= s.skip(
            s.len() - skip_slashes(s).len(),
        ));
    } else {
        assert(s.skip(0) =~= s);
    }
}

pub proof fn lemma_seg_len(s: Seq<char>)
    ensures
        seg_len(s) <= s.len(),
        s.len() > 0 && s[0] != '/' ==> seg_len(s) > 0,
    decreases s.len(),
{
    if s.len() > 0 && s[0] != '/' {
        lemma_seg_len(s.drop_first());
    }
}

proof fn lemma_seg_len_at(s: Seq<char>, k: int)
    requires
        0 <= k <= s.len(),
        k < s.len() ==> s[k] == '/',
        forall|i: int| 0 <= i < k ==> s[i] != '/',
    ensures
        seg_len(s) == k,
    decreases k,
{
    if k > 0 {
        lemma_seg_len_at(s.drop_first(), k - 1);
    }
}

/// The named components of a path, in order: the pieces between `/`
/// separators, without empty pieces and without `.`.
pub open spec fn components(s: Seq<char>) -> Seq<Seq<char>>
    decreases s.len(),
{
    let t = skip_slashes(s);
    if t.len() == 0 {
        seq![]
    } else {
        proof {
            lemma_skip_slashes(s);
            lemma_seg_len(t);
        }
        let n = seg_len(t);
        let w = t.take(n as int);
        let rest = components(t.skip(n as int));
        if w == seq!['.'] {
            rest
        } else {
            seq![w] + rest
        }
    }
}

proof fn lemma_seg_no_slash(s: Seq<char>)
    ensures
        forall|j: int| 0 <= j < seg_len(s) ==> s[j] != '/',
    decreases s.len(),
{
    lemma_seg_len(s);
    if s.len() > 0 && s[0] != '/' {
        lemma_seg_no_slash(s.drop_first());
        assert forall|j: int| 0 <= j < seg_len(s) implies s[j] != '/' by {
            if j > 0 {
                assert(s[j] == s.drop_first()[j - 1]);
            }
        }
    }
}

/// No component holds a `/`.
pub proof fn lemma_components_no_slash(s: Seq<char>)
    ensures
        forall|i: int| 0 <= i < components(s).len() ==> !(#[trigger] components(s)[i]).contains('/'),
    decreases s.len(),
{
    let t = skip_slashes(s);
    lemma_skip_slashes(s);
    if t.len() > 0 {
        lemma_seg_len(t);
        let n = seg_len(t);
        let w = t.take(n as int);
        let rest = components(t.skip(n as int));
        lemma_seg_no_slash(t);
        lemma_components_no_slash(t.skip(n as int));
        assert(!w.contains('/')) by {
            assert forall|j: int| 0 <= j < w.len() implies w[j] != '/' by {
                assert(w[j] == t[j]);
            }
        }
        if w != seq!['.'] {
            assert(components(s) == seq![w] + rest);
            assert forall|i: int| 0 <= i < components(s).len() implies !(#[trigger] components(s)[i]).contains('/') by {
                if i > 0 {
                    assert(components(s)[i] == rest[i - 1]);
                }
            }
        }
    }
}

proof fn lemma_skip_slashes_concat(a: Seq<char>, y: Seq<char>)
    ensures
        skip_slashes(a).len() > 0 ==> skip_slashes(a + y) == skip_slashes(a) + y,
        skip_slashes(a).len() == 0 ==> skip_slashes(a + y) == skip_slashes(y),
    decreases a.len(),
{
    if a.len() > 0 && a[0] == '/' {
        assert((a + y).drop_first() =~= a.drop_first() + y);
        lemma_skip_slashes_concat(a.drop_first(), y);
    } else if a.len() == 0 {
        assert(a + y =~= y);
    }
}

proof fn lemma_seg_len_ends(t: Seq<char>)
    ensures
        seg_len(t) < t.len() ==> t[seg_len(t) as int] == '/',
    decreases t.len(),
{
    if t.len() > 0 && t[0] != '/' {
        lemma_seg_len_ends(t.drop_first());
    }
}

/// Joining two paths with a `/` joins their components.
pub proof fn lemma_components_concat(a: Seq<char>, b: Seq<char>)
    ensures
        components(a + (seq!['/'] + b)) == components(a) + components(b),
    decreases a.len(),
{
    let y = seq!['/'] + b;
    let x = a + y;
    let sa = skip_slashes(a);
    lemma_skip_slashes(a);
    lemma_skip_slashes_concat(a, y);
    assert(y.drop_first() =~= b);
    assert(skip_slashes(y) == skip_slashes(b));
    if sa.len() == 0 {
        assert(components(a) =~= Seq::<Seq<char>>::empty());
        assert(skip_slashes(x) == skip_slashes(b));
        assert(components(x) =~= components(b));
        assert(components(a) + components(b) =~= components(b));
    } else {
        let t = sa + y;
        assert(skip_slashes(x) == t);
        lemma_seg_len(sa);
        lemma_seg_no_slash(sa);
        lemma_seg_len_ends(sa);
        let n = seg_len(sa);
        assert forall|i: int| 0 <= i < n implies t[i] != '/' by {
            assert(t[i] == sa[i]);
        }
        if n < sa.len() {
            assert(t[n as int] == sa[n as int]);
        } else {
            assert(t[n as int] == y[0]);
        }
        lemma_seg_len_at(t, n as int);
        assert(t.take(n as int) =~= sa.take(n as int));
        assert(t.skip(n as int) =~= sa.skip(n as int) + y);
        lemma_components_concat(sa.skip(n as int), b);
        let w = sa.take(n as int);
        if w == seq!['.'] {
            assert(components(x) == components(sa.skip(n as int) + y));
            assert(components(a) == components(sa.skip(n as int)));
        } else {
            assert(components(x) == seq![w] + components(sa.skip(n as int) + y));
            assert(components(a) == seq![w] + components(sa.skip(n as int)));
            assert(components(x) =~= components(a) + components(b));
        }
    }
}

/// A file name holds no `/`.
pub proof fn lemma_file_name_no_slash(p: Seq<char>)
    ensures
        file_name(p) matches Some(n) ==> !n.contains('/'),
{
    lemma_components_no_slash(p);
    if components(p).len() > 0 {
        assert(components(p).last() == components(p)[components(p).len() - 1]);
    }
}

/// `Path::file_name`: the last component, unless it is `..`.
pub open spec fn file_name(p: Seq<char>) -> Option<Seq<char>> {
    let c = components(p);
    if c.len() > 0 && c.last() != seq!['.', '.'] {
        Some(c.last())
    } else {
        None
    }
}

/// The stem/extension split of a file name at its last `.`; a name whose only
/// dot leads it (`.bashrc`) has no extension.
pub open spec fn split_ext(name: Seq<char>) -> (Seq<char>, Option<Seq<char>>) {
    let k = rfind_char(name, '.');
    if k <= 0 {
        (name, None)
    } else {
        (name.take(k), Some(name.skip(k + 1)))
    }
}

/// `Path::file_stem`.
pub open spec fn file_stem(p: Seq<char>) -> Option<Seq<char>> {
    match file_name(p) {
        Some(n) => Some(split_ext(n).0),
        None => None,
    }
}

/// `Path::extension`.
pub open spec fn extension(p: Seq<char>) -> Option<Seq<char>> {
    match file_name(p) {
        Some(n) => split_ext(n).1,
        None => None,
    }
}

/// The text of `Path::parent` (empty when there is none), as std computes it.
pub uninterp spec fn std_parent_text(p: Seq<char>) -> Seq<char>;

/// `std::path::Path::parent`, rendered as text, or the empty string when the
/// path has no parent. The contract only names the result as a function of the
/// path; std's component rules are not restated.
#[verifier::external_body]
pub(crate) fn parent_text(p: &str) -> (r: String)
    ensures
        r@ == std_parent_text(p@),
{
    std::path::Path::new(p).parent().map(|d| d.to_string_lossy().into_owned()).unwrap_or_default()
}

fn skip_slashes_from(s: &Vec<char>, from: usize) -> (r: usize)
    requires
        from <= s.len(),
    ensures
        from <= r <= s.len(),
        skip_slashes(s@.skip(from as int)) == s@.skip(r as int),
{
    let mut i = from;
    while i < s.len() && s[i] == '/'
        invariant
            from <= i <= s.len(),
            skip_slashes(s@.skip(from as int)) == skip_slashes(s@.skip(i as int)),
        decreases s.len() - i,
    {
        proof {
            assert(s@.skip(i as int).drop_first() =~= s@.skip(i + 1));
        }
        i += 1;
    }
    i
}

/// The named components of a path.
pub fn components_vec(s: &Vec<char>) -> (r: Vec<Vec<char>>)
    ensures
        views(r@) == components(s@),
{
    let mut out: Vec<Vec<char>> = Vec::new();
    let mut pos: usize = 0;
    proof {
        assert(s@.skip(0) =~= s@);
    }
    while pos < s.len()
        invariant
            pos <= s.len(),
            components(s@) == views(out@) + components(s@.skip(pos as int)),
        decreases s.len() - pos,
    {
        let ghost u = s@.skip(pos as int);
        let start = skip_slashes_from(s, pos);
        let ghost t = s@.skip(start as int);
        if start == s.len() {
            proof {
                assert(t =~= Seq::<char>::empty());
                assert(components(u) == Seq::<Seq<char>>::empty());
            }
            pos = start;
        } else {
            let mut end = start;
            while end < s.len() && s[end] != '/'
                invariant
                    start <= end <= s.len(),
                    forall|j: int| start <= j < end ==> s@[j] != '/',
                decreases s.len() - end,
            {
                end += 1;
            }
            proof {
                lemma_seg_len_at(t, end - start);
                assert(t.take(end - start) =~= s@.subrange(start as int, end as int));
                assert(t.skip(end - start) =~= s@.skip(end as int));
            }
            let w = slice_of(s, start, end);
            let ghost before = views(out@);
            if w.len() == 1 && w[0] == '.' {
                proof {
                    assert(w@ =~= seq!['.']);
                    assert(components(u) == components(s@.skip(end as int)));
                }
            } else {
                proof {
                    assert(w@ != seq!['.']) by {
                        if w@ == seq!['.'] {
                            assert(w@.len() == 1 && w@[0] == '.');
                        }
                    }
                }
                out.push(w);
                proof {
                    assert(views(out@) =~= before.push(w@));
                    assert(components(u) == seq![w@] + components(s@.skip(end as int)));
                    assert(views(out@) + components(s@.skip(end as int)) =~= before + components(u));
                }
            }
            pos = end;
        }
    }
    proof {
        assert(s@.skip(pos as int) =~= Seq::<char>::empty());
        assert(views(out@) + Seq::<Seq<char>>::empty() =~= views(out@));
    }
    out
}

/// `Path::file_name`.
pub fn file_name_vec(p: &Vec<char>) -> (r: Option<Vec<char>>)
    ensures
        match r {
            Some(v) => file_name(p@) == Some(v@),
            None => file_name(p@) is None,
        },
{
    let mut c = components_vec(p);
    let n = c.len();
    if n == 0 {
        return None;
    }
    proof {
        assert(views(c@).last() == c@[n - 1]@);
    }
    let last = c.pop().unwrap();
    if last.len() == 2 && last[0] == '.' && last[1] == '.' {
        proof {
            assert(last@ =~= seq!['.', '.']);
        }
        None
    } else {
        proof {
            assert(last@ != seq!['.', '.']) by {
                if last@ == seq!['.', '.'] {
                    assert(last@.len() == 2);
                }
            }
        }
        Some(last)
    }
}

/// The stem/extension split of a file name.
pub fn split_ext_vec(name: &Vec<char>) -> (r: (Vec<char>, Option<Vec<char>>))
    ensures
        r.0@ == split_ext(name@).0,
        match r.1 {
            Some(e) => split_ext(name@).1 == Some(e@),
            None => split_ext(name@).1 is None,
        },
{
    match rfind_char_vec(name, '.') {
        Some(k) => {
            if k == 0 {
                (slice_of(name, 0, name.len()), None)
            } else {
                (slice_of(name, 0, k), Some(slice_of(name, k + 1, name.len())))
            }
        },
        None => (slice_of(name, 0, name.len()), None),
    }
}

/// `Path::file_stem`.
pub fn file_stem_vec(p: &Vec<char>) -> (r: Option<Vec<char>>)
    ensures
        match r {
            Some(v) => file_stem(p@) == Some(v@),
            None => file_stem(p@) is None,
        },
{
    match file_name_vec(p) {
        Some(n) => Some(split_ext_vec(&n).0),
        None => None,
    }
}

/// `Path::extension`.
pub fn extension_vec(p: &Vec<char>) -> (r: Option<Vec<char>>)
    ensures
        match r {
            Some(v) => extension(p@) == Some(v@),
            None => extension(p@) is None,
        },
{
    match file_name_vec(p) {
        Some(n) => split_ext_vec(&n).1,
        None => None,
    }
}

} // verus!

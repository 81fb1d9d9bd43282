//! Sandbox path validator: a directory whitelist with defense against
//! parent-directory traversal.
//!
//! Paths are treated as strings of characters separated by `/`.  The
//! validator works lexically: a path is first screened for parent-traversal
//! components on its raw text, then normalized (empty and `.` components
//! dropped), then checked against the whitelist component-wise.  Resolution
//! of symbolic links needs the filesystem and is therefore driven by the
//! embedding layer, which feeds the chain of discovered link targets to
//! [`SandboxConfig::check_symlink_chain`] for the verified policy decision.

use vstd::prelude::*;

use crate::strutil::to_chars;

verus! {

/// A terminal rejection of a path; none of these is retried.
#[derive(Debug, Clone)]
pub enum SandboxError {
    /// The path is outside every whitelisted directory.
    PathNotAllowed(String),
    /// The raw path text holds a parent-traversal indicator.
    PathTraversalDetected(String),
    /// A symbolic link on the path escapes the whitelist or the follow
    /// depth bound.
    SymlinkAttack(String),
    /// The path could not be resolved.
    PathResolutionFailed(String),
    /// The path failed validation for another reason.
    ValidationFailed(String),
}

/// A parent-traversal indicator starts at position `i` of `s`: the two
/// characters `..` either open a path component or are followed by a
/// separator.
pub open spec fn traversal_at(s: Seq<char>, i: int) -> bool {
    &&& 0 <= i
    &&& i + 1 < s.len()
    &&& s[i] == '.'
    &&& s[i + 1] == '.'
    &&& {
        ||| i == 0
        ||| s[i - 1] == '/'
        ||| (i + 2 < s.len() && (s[i + 2] == '/' || s[i + 2] == '\\'))
    }
}

/// The raw path text holds a parent-traversal indicator somewhere.
pub open spec fn has_traversal(s: Seq<char>) -> bool {
    exists|i: int| traversal_at(s, i)
}

/// Any path with a component that opens with `..` holds a traversal
/// indicator, wherever that component stands.
pub proof fn lemma_traversal_component_detected(s: Seq<char>, i: int)
    requires
        0 <= i,
        i + 1 < s.len(),
        s[i] == '.',
        s[i + 1] == '.',
        i == 0 || s[i - 1] == '/',
    ensures
        has_traversal(s),
{
    assert(traversal_at(s, i));
}

/// Scan of the raw text for a traversal indicator.
pub fn has_traversal_exec(s: &Vec<char>) -> (r: bool)
    ensures
        r == has_traversal(s@),
{
    if s.len() < 2 {
        proof {
            assert(!has_traversal(s@)) by {
                if has_traversal(s@) {
                    let i = choose|i: int| traversal_at(s@, i);
                }
            }
        }
        return false;
    }
    let mut i: usize = 0;
    while i + 1 < s.len()
        invariant
            0 <= i,
            i + 1 <= s@.len(),
            2 <= s@.len() <= usize::MAX,
            forall|j: int| 0 <= j < i ==> !traversal_at(s@, j),
        decreases s@.len() - i,
    {
        if s[i] == '.' && s[i + 1] == '.' {
            let opens = i == 0 || s[i - 1] == '/';
            let closed = i + 2 < s.len() && (s[i + 2] == '/' || s[i + 2] == '\\');
            if opens || closed {
                proof {
                    assert(traversal_at(s@, i as int));
                }
                return true;
            }
        }
        i += 1;
    }
    proof {
        assert(!has_traversal(s@)) by {
            if has_traversal(s@) {
                let j = choose|j: int| traversal_at(s@, j);
                assert(!traversal_at(s@, j));
            }
        }
    }
    false
}

/// Close the currently open component: it joins the component list unless
/// it is empty or the trivial `.` component.
pub open spec fn close_comp(comps: Seq<Seq<char>>, cur: Seq<char>) -> Seq<Seq<char>> {
    if cur.len() > 0 && cur != seq!['.'] {
        comps.push(cur)
    } else {
        comps
    }
}

/// Left-to-right scan of the first `i` characters: the closed components
/// so far, and the currently open component.
pub open spec fn scan_pair(s: Seq<char>, i: int) -> (Seq<Seq<char>>, Seq<char>)
    decreases i,
{
    if i <= 0 {
        (Seq::empty(), Seq::empty())
    } else {
        let prev = scan_pair(s, i - 1);
        if s[i - 1] == '/' {
            (close_comp(prev.0, prev.1), Seq::empty())
        } else {
            (prev.0, prev.1.push(s[i - 1]))
        }
    }
}

/// The meaningful components of a path: the `/`-separated pieces, with
/// empty and `.` pieces dropped.
pub open spec fn components(s: Seq<char>) -> Seq<Seq<char>> {
    let full = scan_pair(s, s.len() as int);
    close_comp(full.0, full.1)
}

/// Join components below the root: `/a/b` for `[a, b]`, empty for no
/// components.
pub open spec fn join_abs(cs: Seq<Seq<char>>) -> Seq<char>
    decreases cs.len(),
{
    if cs.len() == 0 {
        Seq::empty()
    } else {
        join_abs(cs.drop_last()) + seq!['/'] + cs.last()
    }
}

/// Join components of a relative path: `a/b` for `[a, b]`.
pub open spec fn join_rel(cs: Seq<Seq<char>>) -> Seq<char> {
    if cs.len() == 0 {
        Seq::empty()
    } else {
        cs.first() + join_abs(cs.drop_first())
    }
}

/// The lexical normal form of a path: duplicate separators and `.`
/// components are dropped; a bare root stays `/`.
pub open spec fn normalize_spec(s: Seq<char>) -> Seq<char> {
    if s.len() > 0 && s[0] == '/' {
        if components(s).len() == 0 {
            seq!['/']
        } else {
            join_abs(components(s))
        }
    } else {
        join_rel(components(s))
    }
}

/// `p` lies at or below directory `d` (both in normal form), compared
/// component-wise: `d` is a character prefix of `p` that ends at a
/// component boundary.
pub open spec fn is_descendant(p: Seq<char>, d: Seq<char>) -> bool {
    ||| (d == seq!['/'] && p.len() > 0 && p[0] == '/')
    ||| (d.len() <= p.len() && p.take(d.len() as int) == d && (p.len() == d.len() || p[d.len()
        as int] == '/'))
}

/// Component boundaries of the meaningful components of `s`, as index
/// ranges into `s`.
fn split_components(chars: &Vec<char>) -> (ranges: Vec<(usize, usize)>)
    ensures
        ranges@.map_values(|r: (usize, usize)| chars@.subrange(r.0 as int, r.1 as int))
            == components(chars@),
        forall|k: int| 0 <= k < ranges@.len() ==> 0 <= #[trigger] ranges@[k].0 < ranges@[k].1
            <= chars@.len(),
{
    let ghost s = chars@;
    let n = chars.len();
    let mut ranges: Vec<(usize, usize)> = Vec::new();
    let mut start: Option<usize> = None;
    let mut i: usize = 0;
    while i < n
        invariant
            0 <= i <= n,
            n == s.len(),
            s == chars@,
            match start {
                Some(st) => {
                    &&& st < i
                    &&& scan_pair(s, i as int).1 == s.subrange(st as int, i as int)
                },
                None => scan_pair(s, i as int).1 == Seq::<char>::empty(),
            },
            ranges@.map_values(|r: (usize, usize)| s.subrange(r.0 as int, r.1 as int))
                == scan_pair(s, i as int).0,
            forall|k: int| 0 <= k < ranges@.len() ==> 0 <= #[trigger] ranges@[k].0 < ranges@[k].1
                <= s.len(),
        decreases n - i,
    {
        let c = chars[i];
        if c == '/' {
            match start {
                Some(st) => {
                    let trivial = i == st + 1 && chars[st] == '.';
                    let ghost cur = s.subrange(st as int, i as int);
                    proof {
                        if trivial {
                            assert(cur =~= seq!['.']);
                        } else {
                            if cur == seq!['.'] {
                                assert(cur.len() == 1);
                                assert(i == st + 1);
                                assert(cur[0] == seq!['.'][0]);
                                assert(cur[0] == s[st as int]);
                                assert(false);
                            }
                        }
                    }
                    if !trivial {
                        ranges.push((st, i));
                        proof {
                            assert(ranges@.map_values(
                                |r: (usize, usize)| s.subrange(r.0 as int, r.1 as int),
                            ) =~= scan_pair(s, i as int).0.push(cur));
                        }
                    }
                    start = None;
                },
                None => {},
            }
        } else {
            match start {
                Some(st) => {
                    proof {
                        assert(s.subrange(st as int, i + 1) =~= s.subrange(st as int, i as int)
                            .push(s[i as int]));
                    }
                },
                None => {
                    start = Some(i);
                    proof {
                        assert(s.subrange(i as int, i + 1) =~= Seq::<char>::empty().push(
                            s[i as int],
                        ));
                    }
                },
            }
        }
        i += 1;
    }
    match start {
        Some(st) => {
            let trivial = st + 1 == n && chars[st] == '.';
            let ghost cur = s.subrange(st as int, n as int);
            proof {
                if trivial {
                    assert(cur =~= seq!['.']);
                } else {
                    if cur == seq!['.'] {
                        assert(cur.len() == 1);
                        assert(st + 1 == n);
                        assert(cur[0] == seq!['.'][0]);
                        assert(cur[0] == s[st as int]);
                        assert(false);
                    }
                }
            }
            if !trivial {
                ranges.push((st, n));
                proof {
                    assert(ranges@.map_values(
                        |r: (usize, usize)| s.subrange(r.0 as int, r.1 as int),
                    ) =~= scan_pair(s, n as int).0.push(cur));
                }
            }
        },
        None => {},
    }
    ranges
}

/// Rebuild a path from the meaningful components of `s`, yielding its
/// lexical normal form.
pub fn normalize_path(path: &str) -> (r: String)
    ensures
        r@ == normalize_spec(path@),
{
    let chars = to_chars(path);
    let ranges = split_components(&chars);
    let ghost cs = components(path@);
    let absolute = chars.len() > 0 && chars[0] == '/';
    proof {
        reveal_strlit("/");
    }
    if absolute {
        if ranges.len() == 0 {
            let r = String::from_str("/");
            proof {
                assert(r@ =~= seq!['/']);
            }
            return r;
        }
        let mut out = String::new();
        let mut k: usize = 0;
        while k < ranges.len()
            invariant
                0 <= k <= ranges@.len(),
                ranges@.map_values(|r: (usize, usize)| path@.subrange(r.0 as int, r.1 as int))
                    == cs,
                forall|j: int| 0 <= j < ranges@.len() ==> 0 <= #[trigger] ranges@[j].0
                    < ranges@[j].1 <= path@.len(),
                out@ == join_abs(cs.take(k as int)),
                "/"@ == seq!['/'],
            decreases ranges@.len() - k,
        {
            let (a, b) = (ranges[k].0, ranges[k].1);
            out.append("/");
            let piece = path.substring_char(a, b);
            out.append(piece);
            proof {
                assert(cs.take(k + 1).drop_last() =~= cs.take(k as int));
                assert(cs.take(k + 1).last() == cs[k as int]);
                assert(out@ =~= join_abs(cs.take(k + 1)));
            }
            k += 1;
        }
        proof {
            assert(cs.take(cs.len() as int) =~= cs);
        }
        out
    } else {
        if ranges.len() == 0 {
            let r = String::new();
            return r;
        }
        let (a0, b0) = (ranges[0].0, ranges[0].1);
        let mut out = String::from_str(path.substring_char(a0, b0));
        let mut k: usize = 1;
        while k < ranges.len()
            invariant
                1 <= k <= ranges@.len(),
                1 <= ranges@.len(),
                ranges@.map_values(|r: (usize, usize)| path@.subrange(r.0 as int, r.1 as int))
                    == cs,
                forall|j: int| 0 <= j < ranges@.len() ==> 0 <= #[trigger] ranges@[j].0
                    < ranges@[j].1 <= path@.len(),
                out@ == cs.first() + join_abs(cs.subrange(1, k as int)),
                "/"@ == seq!['/'],
            decreases ranges@.len() - k,
        {
            let (a, b) = (ranges[k].0, ranges[k].1);
            out.append("/");
            out.append(path.substring_char(a, b));
            proof {
                assert(cs.subrange(1, k + 1).drop_last() =~= cs.subrange(1, k as int));
                assert(cs.subrange(1, k + 1).last() == cs[k as int]);
                assert(out@ =~= cs.first() + join_abs(cs.subrange(1, k + 1)));
            }
            k += 1;
        }
        proof {
            assert(cs.subrange(1, cs.len() as int) =~= cs.drop_first());
            assert(out@ =~= join_rel(cs));
        }
        out
    }
}

/// A well-formed component: non-empty, free of separators, and not the
/// trivial `.`.
pub open spec fn wf_comp(c: Seq<char>) -> bool {
    c.len() > 0 && c != seq!['.'] && forall|k: int| 0 <= k < c.len() ==> c[k] != '/'
}

/// Scanning reads only the prefix processed so far.
proof fn lemma_scan_prefix(s1: Seq<char>, s2: Seq<char>, i: int)
    requires
        0 <= i <= s1.len(),
    ensures
        scan_pair(s1 + s2, i) == scan_pair(s1, i),
    decreases i,
{
    if i > 0 {
        lemma_scan_prefix(s1, s2, i - 1);
        assert((s1 + s2)[i - 1] == s1[i - 1]);
    }
}

/// Every closed component of a scan is well formed, and the open one is
/// free of separators.
proof fn lemma_scan_wf(s: Seq<char>, i: int)
    requires
        0 <= i <= s.len(),
    ensures
        forall|m: int| 0 <= m < scan_pair(s, i).0.len() ==> wf_comp(
            #[trigger] scan_pair(s, i).0[m],
        ),
        forall|k: int| 0 <= k < scan_pair(s, i).1.len() ==> scan_pair(s, i).1[k] != '/',
    decreases i,
{
    if i > 0 {
        lemma_scan_wf(s, i - 1);
        let prev = scan_pair(s, i - 1);
        let here = scan_pair(s, i);
        if s[i - 1] == '/' {
            assert forall|m: int| 0 <= m < here.0.len() implies wf_comp(
                #[trigger] here.0[m],
            ) by {
                if m < prev.0.len() {
                    assert(here.0[m] == prev.0[m]);
                } else {
                    assert(here.0[m] == prev.1);
                }
            }
        } else {
            assert forall|k: int| 0 <= k < here.1.len() implies here.1[k] != '/' by {
                if k < prev.1.len() {
                    assert(here.1[k] == prev.1[k]);
                } else {
                    assert(here.1[k] == s[i - 1]);
                }
            }
        }
    }
}

/// Every component of a path is well formed.
pub proof fn lemma_components_wf(s: Seq<char>)
    ensures
        forall|m: int| 0 <= m < components(s).len() ==> wf_comp(#[trigger] components(s)[m]),
{
    lemma_scan_wf(s, s.len() as int);
    let full = scan_pair(s, s.len() as int);
    assert forall|m: int| 0 <= m < components(s).len() implies wf_comp(
        #[trigger] components(s)[m],
    ) by {
        if m < full.0.len() {
            assert(components(s)[m] == full.0[m]);
        } else {
            assert(components(s)[m] == full.1);
        }
    }
}

/// Scanning a separator-free run extends the open component and closes
/// nothing.
proof fn lemma_scan_run(j: Seq<char>, base: int, comps: Seq<Seq<char>>, c: Seq<char>, k: int)
    requires
        0 <= k <= c.len(),
        0 <= base,
        base + c.len() <= j.len(),
        scan_pair(j, base) == (comps, Seq::<char>::empty()),
        forall|t: int| 0 <= t < c.len() ==> j[base + t] == c[t],
        forall|t: int| 0 <= t < c.len() ==> c[t] != '/',
    ensures
        scan_pair(j, base + k) == (comps, c.take(k)),
    decreases k,
{
    if k == 0 {
        assert(c.take(0) =~= Seq::<char>::empty());
    } else {
        lemma_scan_run(j, base, comps, c, k - 1);
        assert(j[base + k - 1] == c[k - 1]);
        assert(c.take(k) =~= c.take(k - 1).push(c[k - 1]));
    }
}

/// Appending `/c` to a path appends the component `c`.
proof fn lemma_components_append(a: Seq<char>, c: Seq<char>)
    requires
        wf_comp(c),
    ensures
        components(a + seq!['/'] + c) == components(a).push(c),
{
    let j = a + seq!['/'] + c;
    assert(j =~= a + (seq!['/'] + c));
    lemma_scan_prefix(a, seq!['/'] + c, a.len() as int);
    assert(scan_pair(j, a.len() as int) == scan_pair(a, a.len() as int));
    assert(j[a.len() as int] == '/');
    let comps = components(a);
    assert(scan_pair(j, a.len() as int + 1) == (comps, Seq::<char>::empty()));
    assert forall|t: int| 0 <= t < c.len() implies j[a.len() as int + 1 + t] == c[t] by {}
    lemma_scan_run(j, a.len() as int + 1, comps, c, c.len() as int);
    assert(c.take(c.len() as int) =~= c);
    assert(scan_pair(j, j.len() as int) == (comps, c));
    assert(components(j) =~= comps.push(c));
}

/// Joining well-formed components below any prefix appends exactly those
/// components.
proof fn lemma_components_of_join_from(a: Seq<char>, cs: Seq<Seq<char>>)
    requires
        forall|m: int| 0 <= m < cs.len() ==> wf_comp(#[trigger] cs[m]),
    ensures
        components(a + join_abs(cs)) == components(a) + cs,
    decreases cs.len(),
{
    if cs.len() == 0 {
        assert(a + join_abs(cs) =~= a);
        assert(components(a) + cs =~= components(a));
    } else {
        let dl = cs.drop_last();
        assert(forall|m: int| 0 <= m < dl.len() ==> wf_comp(#[trigger] dl[m]));
        lemma_components_of_join_from(a, dl);
        assert(a + join_abs(cs) =~= (a + join_abs(dl)) + seq!['/'] + cs.last());
        lemma_components_append(a + join_abs(dl), cs.last());
        assert(components(a + join_abs(cs)) =~= (components(a) + dl).push(cs.last()));
        assert((components(a) + dl).push(cs.last()) =~= components(a) + cs);
    }
}

/// Normalization is a fixpoint: normalizing a normal form changes
/// nothing, so validation verdicts are idempotent.
pub proof fn lemma_normalize_idempotent(s: Seq<char>)
    ensures
        normalize_spec(normalize_spec(s)) == normalize_spec(s),
{
    let cs = components(s);
    let n = normalize_spec(s);
    lemma_components_wf(s);
    if s.len() > 0 && s[0] == '/' {
        if cs.len() == 0 {
            // the bare root normalizes to itself
            assert(n =~= seq!['/']);
            assert(scan_pair(n, 0) == (Seq::<Seq<char>>::empty(), Seq::<char>::empty()));
            assert(n[0] == '/');
            assert(scan_pair(n, 1) == (
                Seq::<Seq<char>>::empty(),
                Seq::<char>::empty(),
            ));
            assert(components(n).len() == 0);
            assert(normalize_spec(n) == seq!['/']);
        } else {
            assert(n == join_abs(cs));
            lemma_components_of_join_from(Seq::empty(), cs);
            assert(Seq::<char>::empty() + join_abs(cs) =~= join_abs(cs));
            assert(components(Seq::<char>::empty()).len() == 0);
            assert(components(n) =~= cs);
            // the join opens with the separator
            assert(n =~= join_abs(cs.drop_last()) + seq!['/'] + cs.last());
            assert(n.len() > 0);
            if cs.len() == 1 {
                assert(join_abs(cs.drop_last()).len() == 0);
                assert(n[0] == '/');
            } else {
                lemma_join_abs_head(cs.drop_last());
                assert(n[0] == join_abs(cs.drop_last())[0]);
            }
            assert(normalize_spec(n) == join_abs(components(n)));
            assert(join_abs(components(n)) == n);
        }
    } else {
        if cs.len() == 0 {
            assert(n =~= Seq::<char>::empty());
            assert(components(n).len() == 0);
            assert(normalize_spec(n) =~= Seq::<char>::empty());
        } else {
            let c0 = cs.first();
            let rest = cs.drop_first();
            assert(wf_comp(c0));
            assert(n == c0 + join_abs(rest));
            // the first component alone scans to itself
            assert(scan_pair(c0, 0) == (Seq::<Seq<char>>::empty(), Seq::<char>::empty()));
            lemma_scan_run(c0, 0, Seq::empty(), c0, c0.len() as int);
            assert(c0.take(c0.len() as int) =~= c0);
            assert(components(c0) =~= seq![c0]);
            assert(forall|m: int| 0 <= m < rest.len() ==> wf_comp(#[trigger] rest[m]));
            lemma_components_of_join_from(c0, rest);
            assert(components(n) =~= seq![c0] + rest);
            assert(seq![c0] + rest =~= cs);
            // the normal form of a relative path stays relative
            assert(n.len() > 0);
            assert(n[0] == c0[0]);
            assert(c0[0] != '/');
            assert(normalize_spec(n) == join_rel(components(n)));
            assert(join_rel(cs) == n);
        }
    }
}

/// Lying below a directory is transitive: a path below a directory that
/// itself lies below a whitelisted root lies below that root.  In strict
/// mode a safe sub-path of a validated base can therefore never escape
/// the whitelist.
pub proof fn lemma_descendant_transitive(p: Seq<char>, b: Seq<char>, d: Seq<char>)
    requires
        is_descendant(p, b),
        is_descendant(b, d),
    ensures
        is_descendant(p, d),
{
    if d == seq!['/'] {
        if b == seq!['/'] {
        } else {
            assert(b.len() > 0 && b[0] == '/') by {
                if !(b.len() > 0 && b[0] == '/') {
                    assert(b.take(d.len() as int) == d);
                    assert(b.take(1)[0] == d[0]);
                    assert(d[0] == '/');
                }
            }
            assert(b.len() <= p.len() && p.take(b.len() as int) == b);
            assert(p.take(b.len() as int)[0] == b[0]);
            assert(p[0] == '/');
        }
    } else {
        assert(d.len() <= b.len() && b.take(d.len() as int) == d);
        if b == seq!['/'] {
            // below the root, a shorter prefix of `/` can only be empty
            assert(d.len() <= 1);
            if d.len() == 1 {
                assert(d[0] == b.take(1)[0]);
                assert(d =~= seq!['/']);
            } else {
                assert(p.take(0) =~= d);
                assert(p.len() > 0 && p[0] == '/');
            }
        } else {
            assert(b.len() <= p.len() && p.take(b.len() as int) == b);
            assert(p.take(d.len() as int) =~= d) by {
                assert forall|k: int| 0 <= k < d.len() implies p.take(d.len() as int)[k]
                    == d[k] by {
                    assert(p.take(b.len() as int)[k] == b[k]);
                    assert(b.take(d.len() as int)[k] == d[k]);
                }
            }
            if p.len() != d.len() {
                if b.len() == d.len() {
                    assert(p.len() != b.len());
                    assert(p[b.len() as int] == '/');
                } else {
                    assert(b[d.len() as int] == '/');
                    assert(p.take(b.len() as int)[d.len() as int] == b[d.len() as int]);
                }
            }
        }
    }
}

/// A non-empty join opens with the separator.
proof fn lemma_join_abs_head(cs: Seq<Seq<char>>)
    requires
        cs.len() > 0,
    ensures
        join_abs(cs).len() > 0,
        join_abs(cs)[0] == '/',
    decreases cs.len(),
{
    if cs.len() == 1 {
        assert(join_abs(cs) =~= Seq::<char>::empty() + seq!['/'] + cs.last());
        assert(join_abs(cs)[0] == '/');
    } else {
        lemma_join_abs_head(cs.drop_last());
        assert(join_abs(cs)[0] == join_abs(cs.drop_last())[0]);
    }
}

/// Component-wise prefix test on character vectors.
pub fn is_descendant_exec(p: &Vec<char>, d: &Vec<char>) -> (r: bool)
    ensures
        r == is_descendant(p@, d@),
{
    if d.len() == 1 && d[0] == '/' {
        let r = p.len() > 0 && p[0] == '/';
        proof {
            assert(d@ =~= seq!['/']);
            if !r && d@.len() <= p@.len() && p@.take(1) == d@ {
                assert(p@.take(1)[0] == '/');
            }
        }
        return r;
    }
    proof {
        assert(d@ != seq!['/']) by {
            if d@ =~= seq!['/'] {
                assert(d@.len() == 1 && d@[0] == '/');
            }
        }
    }
    if d.len() > p.len() {
        proof {
            if is_descendant(p@, d@) {
                assert(d@ == seq!['/'] || d@.len() <= p@.len());
            }
        }
        return false;
    }
    let mut i: usize = 0;
    while i < d.len()
        invariant
            0 <= i <= d@.len(),
            d@.len() <= p@.len(),
            d@ != seq!['/'],
            forall|j: int| 0 <= j < i ==> p@[j] == d@[j],
        decreases d@.len() - i,
    {
        if p[i] != d[i] {
            proof {
                if is_descendant(p@, d@) {
                    assert(p@.take(d@.len() as int)[i as int] == d@[i as int]);
                }
            }
            return false;
        }
        i += 1;
    }
    proof {
        assert(p@.take(d@.len() as int) =~= d@);
    }
    if p.len() == d.len() {
        true
    } else {
        let r = p[d.len()] == '/';
        r
    }
}

/// `p` lies at or below one of the whitelisted directories.
pub open spec fn spec_allowed(dirs: Seq<Seq<char>>, p: Seq<char>) -> bool {
    exists|k: int| 0 <= k < dirs.len() && is_descendant(p, dirs[k])
}

/// A character that may not occur in a bare filename.
pub open spec fn forbidden_filename_char(c: char) -> bool {
    c == '/' || c == '\\' || c == '~' || c == '$' || c == '?' || c == '\u{0}'
}

/// A bare filename is safe when it holds no separator and no forbidden
/// character, and is neither of the special components `.` and `..`.
pub open spec fn spec_is_safe_filename(s: Seq<char>) -> bool {
    &&& forall|i: int| 0 <= i < s.len() ==> !forbidden_filename_char(s[i])
    &&& s != seq!['.']
    &&& s != seq!['.', '.']
}

/// Sandbox policy: the directory whitelist, strict mode, and the symlink
/// policy.
#[derive(Debug, Clone)]
pub struct SandboxConfig {
    /// Whitelisted directories, kept in lexical normal form.
    pub allowed_dirs: Vec<String>,
    /// In strict mode every path outside the whitelist is rejected.
    pub strict_mode: bool,
    /// Whether symbolic links may be followed at all.
    pub allow_symlinks: bool,
    /// Bound on the length of a followed symlink chain.
    pub max_symlink_depth: usize,
}

/// Summary of a sandbox configuration.
#[derive(Debug, Clone)]
pub struct SandboxSummary {
    pub allowed_dirs_count: usize,
    pub strict_mode: bool,
    pub allow_symlinks: bool,
    pub max_symlink_depth: usize,
}

impl SandboxConfig {
    /// The whitelist as a sequence of character sequences.
    pub open spec fn dirs_view(self) -> Seq<Seq<char>> {
        self.allowed_dirs@.map_values(|d: String| d@)
    }

    /// The verdict of [`Self::validate_path`] is acceptance.
    pub open spec fn path_verdict_ok(self, path: Seq<char>) -> bool {
        !has_traversal(path) && (!self.strict_mode || spec_allowed(
            self.dirs_view(),
            normalize_spec(path),
        ))
    }

    /// A fresh configuration: empty whitelist, strict mode on, symlinks
    /// refused, follow depth bounded at 8.
    pub fn new() -> (c: Self)
        ensures
            c.allowed_dirs@.len() == 0,
            c.strict_mode,
            !c.allow_symlinks,
            c.max_symlink_depth == 8,
    {
        SandboxConfig {
            allowed_dirs: Vec::new(),
            strict_mode: true,
            allow_symlinks: false,
            max_symlink_depth: 8,
        }
    }

    /// A fresh configuration whose whitelist holds the given directories,
    /// each in normal form.
    pub fn with_allowed_dirs(allowed_dirs: Vec<String>) -> (c: Self)
        ensures
            c.dirs_view() == allowed_dirs@.map_values(|d: String| normalize_spec(d@)),
            c.strict_mode,
            !c.allow_symlinks,
            c.max_symlink_depth == 8,
    {
        let mut config = Self::new();
        let mut i: usize = 0;
        while i < allowed_dirs.len()
            invariant
                0 <= i <= allowed_dirs@.len(),
                config.dirs_view() == allowed_dirs@.take(i as int).map_values(
                    |d: String| normalize_spec(d@),
                ),
                config.strict_mode,
                !config.allow_symlinks,
                config.max_symlink_depth == 8,
            decreases allowed_dirs@.len() - i,
        {
            config.add_allowed_dir(allowed_dirs[i].as_str());
            proof {
                assert(allowed_dirs@.take(i + 1).map_values(|d: String| normalize_spec(d@))
                    =~= allowed_dirs@.take(i as int).map_values(
                    |d: String| normalize_spec(d@),
                ).push(normalize_spec(allowed_dirs@[i as int]@)));
            }
            i += 1;
        }
        proof {
            assert(allowed_dirs@.take(allowed_dirs@.len() as int) =~= allowed_dirs@);
        }
        config
    }

    /// Add a directory to the whitelist; it is stored in normal form.
    pub fn add_allowed_dir(&mut self, dir: &str)
        ensures
            final(self).allowed_dirs@ == old(self).allowed_dirs@.push(
                final(self).allowed_dirs@.last(),
            ),
            final(self).dirs_view() == old(self).dirs_view().push(normalize_spec(dir@)),
            final(self).strict_mode == old(self).strict_mode,
            final(self).allow_symlinks == old(self).allow_symlinks,
            final(self).max_symlink_depth == old(self).max_symlink_depth,
    {
        let normalized = normalize_path(dir);
        self.allowed_dirs.push(normalized);
        proof {
            assert(final(self).dirs_view() =~= old(self).dirs_view().push(normalize_spec(dir@)));
        }
    }

    /// Remove every whitelist entry whose normal form matches the given
    /// directory.
    pub fn remove_allowed_dir(&mut self, dir: &str)
        ensures
            final(self).dirs_view() == old(self).dirs_view().filter(
                |d: Seq<char>| d != normalize_spec(dir@),
            ),
            final(self).strict_mode == old(self).strict_mode,
            final(self).allow_symlinks == old(self).allow_symlinks,
            final(self).max_symlink_depth == old(self).max_symlink_depth,
    {
        let normalized = normalize_path(dir);
        let mut kept: Vec<String> = Vec::new();
        let mut i: usize = 0;
        while i < self.allowed_dirs.len()
            invariant
                0 <= i <= self.allowed_dirs@.len(),
                normalized@ == normalize_spec(dir@),
                kept@.map_values(|d: String| d@) == self.allowed_dirs@.take(i as int).map_values(
                    |d: String| d@,
                ).filter(|d: Seq<char>| d != normalize_spec(dir@)),
            decreases self.allowed_dirs@.len() - i,
        {
            proof {
                let prev = self.allowed_dirs@.take(i as int).map_values(|d: String| d@);
                let cur = self.allowed_dirs@[i as int]@;
                assert(self.allowed_dirs@.take(i + 1).map_values(|d: String| d@) =~= prev.push(
                    cur,
                ));
                reveal(Seq::filter);
                assert(prev.push(cur).drop_last() =~= prev);
                assert(prev.push(cur).last() == cur);
            }
            let entry = self.allowed_dirs[i].clone();
            if !crate::strutil::str_eq(entry.as_str(), normalized.as_str()) {
                kept.push(entry);
                proof {
                    assert(kept@.map_values(|d: String| d@) =~= self.allowed_dirs@.take(
                        i as int,
                    ).map_values(|d: String| d@).filter(
                        |d: Seq<char>| d != normalize_spec(dir@),
                    ).push(self.allowed_dirs@[i as int]@));
                }
            }
            i += 1;
        }
        proof {
            assert(self.allowed_dirs@.take(self.allowed_dirs@.len() as int) =~= self
                .allowed_dirs@);
        }
        self.allowed_dirs = kept;
    }

    /// Switch strict mode.
    pub fn set_strict_mode(&mut self, strict: bool)
        ensures
            final(self).strict_mode == strict,
            final(self).allowed_dirs == old(self).allowed_dirs,
            final(self).allow_symlinks == old(self).allow_symlinks,
            final(self).max_symlink_depth == old(self).max_symlink_depth,
    {
        self.strict_mode = strict;
    }

    /// Switch whether symbolic links may be followed.
    pub fn set_allow_symlinks(&mut self, allow: bool)
        ensures
            final(self).allow_symlinks == allow,
            final(self).allowed_dirs == old(self).allowed_dirs,
            final(self).strict_mode == old(self).strict_mode,
            final(self).max_symlink_depth == old(self).max_symlink_depth,
    {
        self.allow_symlinks = allow;
    }

    /// Set the bound on the length of a followed symlink chain.
    pub fn set_max_symlink_depth(&mut self, depth: usize)
        ensures
            final(self).max_symlink_depth == depth,
            final(self).allowed_dirs == old(self).allowed_dirs,
            final(self).strict_mode == old(self).strict_mode,
            final(self).allow_symlinks == old(self).allow_symlinks,
    {
        self.max_symlink_depth = depth;
    }

    /// The whitelist, in normal form.
    pub fn allowed_dirs(&self) -> (dirs: &Vec<String>)
        ensures
            dirs == &self.allowed_dirs,
    {
        &self.allowed_dirs
    }

    /// Whether a path (in normal form) lies below a whitelisted directory.
    pub fn is_path_allowed(&self, path: &str) -> (r: bool)
        ensures
            r == spec_allowed(self.dirs_view(), path@),
    {
        let pchars = to_chars(path);
        let mut k: usize = 0;
        while k < self.allowed_dirs.len()
            invariant
                0 <= k <= self.allowed_dirs@.len(),
                pchars@ == path@,
                forall|j: int| 0 <= j < k ==> !is_descendant(path@, self.dirs_view()[j]),
            decreases self.allowed_dirs@.len() - k,
        {
            let dchars = to_chars(self.allowed_dirs[k].as_str());
            if is_descendant_exec(&pchars, &dchars) {
                proof {
                    assert(is_descendant(path@, self.dirs_view()[k as int]));
                }
                return true;
            }
            k += 1;
        }
        proof {
            assert(!spec_allowed(self.dirs_view(), path@)) by {
                if spec_allowed(self.dirs_view(), path@) {
                    let j = choose|j: int| 0 <= j < self.dirs_view().len() && is_descendant(
                        path@,
                        self.dirs_view()[j],
                    );
                    assert(!is_descendant(path@, self.dirs_view()[j]));
                }
            }
        }
        false
    }

    /// Validate a path against the sandbox policy.
    ///
    /// The raw text is screened for parent-traversal indicators before any
    /// normalization, so the intent to traverse is rejected even when the
    /// resolved path would land inside an allowed root.  In strict mode the
    /// normal form must then lie below a whitelisted directory.  On
    /// acceptance the normal form is returned.
    pub fn validate_path(&self, path: &str) -> (r: Result<String, SandboxError>)
        ensures
            r is Ok <==> self.path_verdict_ok(path@),
            r matches Ok(n) ==> n@ == normalize_spec(path@),
            has_traversal(path@) ==> (r matches Err(e) && e matches
                SandboxError::PathTraversalDetected(p) && p@ == path@),
            !has_traversal(path@) && !(r is Ok) ==> (r matches Err(e) && e matches
                SandboxError::PathNotAllowed(p) && p@ == normalize_spec(path@)
                && self.strict_mode && !spec_allowed(self.dirs_view(), normalize_spec(path@))),
    {
        let chars = to_chars(path);
        if has_traversal_exec(&chars) {
            return Err(SandboxError::PathTraversalDetected(String::from_str(path)));
        }
        let normalized = normalize_path(path);
        if self.strict_mode {
            if !self.is_path_allowed(normalized.as_str()) {
                return Err(SandboxError::PathNotAllowed(normalized));
            }
        }
        Ok(normalized)
    }

    /// Validate several paths; the first rejection is returned.
    pub fn validate_paths(&self, paths: &Vec<String>) -> (r: Result<(), SandboxError>)
        ensures
            r is Ok <==> forall|k: int| 0 <= k < paths@.len() ==> self.path_verdict_ok(
                #[trigger] paths@[k]@,
            ),
            r matches Err(e) ==> exists|k: int|
                {
                    &&& 0 <= k < paths@.len()
                    &&& !self.path_verdict_ok(#[trigger] paths@[k]@)
                    &&& forall|j: int| 0 <= j < k ==> self.path_verdict_ok(
                        #[trigger] paths@[j]@,
                    )
                    &&& (has_traversal(paths@[k]@) ==> e is PathTraversalDetected)
                    &&& (!has_traversal(paths@[k]@) ==> e is PathNotAllowed)
                },
    {
        let mut k: usize = 0;
        while k < paths.len()
            invariant
                0 <= k <= paths@.len(),
                forall|j: int| 0 <= j < k ==> self.path_verdict_ok(#[trigger] paths@[j]@),
            decreases paths@.len() - k,
        {
            match self.validate_path(paths[k].as_str()) {
                Ok(_) => {},
                Err(e) => {
                    proof {
                        assert(!self.path_verdict_ok(paths@[k as int]@));
                    }
                    return Err(e);
                },
            }
            k += 1;
        }
        Ok(())
    }

    /// Policy decision for a chain of symlink targets discovered by the
    /// embedding layer while walking a path: the chain must stay within
    /// the follow depth bound and every target's normal form must lie
    /// below a whitelisted directory.
    pub fn check_symlink_chain(&self, targets: &Vec<String>) -> (r: Result<(), SandboxError>)
        ensures
            r is Ok <==> (targets@.len() <= self.max_symlink_depth && forall|k: int|
                0 <= k < targets@.len() ==> spec_allowed(
                    self.dirs_view(),
                    normalize_spec(#[trigger] targets@[k]@),
                )),
            !(r is Ok) ==> (r matches Err(e) && e is SymlinkAttack),
    {
        if targets.len() > self.max_symlink_depth {
            return Err(
                SandboxError::SymlinkAttack(String::from_str("symlink chain exceeds depth bound")),
            );
        }
        let mut k: usize = 0;
        while k < targets.len()
            invariant
                0 <= k <= targets@.len(),
                forall|j: int| 0 <= j < k ==> spec_allowed(
                    self.dirs_view(),
                    normalize_spec(#[trigger] targets@[j]@),
                ),
            decreases targets@.len() - k,
        {
            let normalized = normalize_path(targets[k].as_str());
            if !self.is_path_allowed(normalized.as_str()) {
                return Err(SandboxError::SymlinkAttack(normalized));
            }
            k += 1;
        }
        Ok(())
    }

    /// A summary of this configuration.
    pub fn summary(&self) -> (s: SandboxSummary)
        ensures
            s.allowed_dirs_count == self.allowed_dirs@.len(),
            s.strict_mode == self.strict_mode,
            s.allow_symlinks == self.allow_symlinks,
            s.max_symlink_depth == self.max_symlink_depth,
    {
        SandboxSummary {
            allowed_dirs_count: self.allowed_dirs.len(),
            strict_mode: self.strict_mode,
            allow_symlinks: self.allow_symlinks,
            max_symlink_depth: self.max_symlink_depth,
        }
    }

    /// Whether the raw path text holds a parent-traversal indicator.
    pub fn contains_path_traversal(path: &str) -> (r: bool)
        ensures
            r == has_traversal(path@),
    {
        let chars = to_chars(path);
        has_traversal_exec(&chars)
    }

    /// Whether a bare filename is safe: no separators, no forbidden
    /// characters, and not a special component.
    pub fn is_safe_filename(filename: &str) -> (r: bool)
        ensures
            r == spec_is_safe_filename(filename@),
    {
        let chars = to_chars(filename);
        let mut i: usize = 0;
        while i < chars.len()
            invariant
                0 <= i <= chars@.len(),
                chars@ == filename@,
                forall|j: int| 0 <= j < i ==> !forbidden_filename_char(filename@[j]),
            decreases chars@.len() - i,
        {
            let c = chars[i];
            if c == '/' || c == '\\' || c == '~' || c == '$' || c == '?' || c == '\u{0}' {
                return false;
            }
            i += 1;
        }
        if chars.len() == 1 && chars[0] == '.' {
            proof {
                assert(filename@ =~= seq!['.']);
            }
            return false;
        }
        if chars.len() == 2 && chars[0] == '.' && chars[1] == '.' {
            proof {
                assert(filename@ =~= seq!['.', '.']);
            }
            return false;
        }
        proof {
            assert(filename@ != seq!['.']) by {
                if filename@ =~= seq!['.'] {
                    assert(filename@.len() == 1 && filename@[0] == '.');
                }
            }
            assert(filename@ != seq!['.', '.']) by {
                if filename@ =~= seq!['.', '.'] {
                    assert(filename@.len() == 2 && filename@[0] == '.' && filename@[1] == '.');
                }
            }
        }
        true
    }
}

impl Default for SandboxConfig {
    fn default() -> (c: Self)
        ensures
            c.allowed_dirs@.len() == 0,
            c.strict_mode,
            !c.allow_symlinks,
            c.max_symlink_depth == 8,
    {
        Self::new()
    }
}

/// Join a sub-path onto a base directory; an absolute sub-path stands for
/// itself.
pub open spec fn join_sub(base: Seq<char>, sub: Seq<char>) -> Seq<char> {
    if sub.len() > 0 && sub[0] == '/' {
        sub
    } else {
        base + seq!['/'] + sub
    }
}

/// A traversal indicator in a relative sub-path survives joining onto any
/// base directory.
pub proof fn lemma_sub_traversal_joined(base: Seq<char>, sub: Seq<char>, i: int)
    requires
        traversal_at(sub, i),
        !(sub.len() > 0 && sub[0] == '/'),
    ensures
        has_traversal(join_sub(base, sub)),
{
    let full = base + seq!['/'] + sub;
    let j = base.len() + 1 + i;
    assert(full[j] == sub[i]);
    assert(full[j + 1] == sub[i + 1]);
    if i == 0 {
        assert(full[j - 1] == '/');
    } else {
        assert(full[j - 1] == sub[i - 1]);
    }
    if i + 2 < sub.len() {
        assert(full[j + 2] == sub[i + 2]);
    }
    assert(traversal_at(full, j));
}

impl SandboxConfig {
    /// Build a path below a validated base directory.
    ///
    /// The base must pass validation; the joined path must be free of
    /// traversal indicators and its normal form must still lie below the
    /// base's normal form, so that no relative component escapes the base,
    /// not even into a different whitelisted root.
    pub fn create_safe_path(&self, base_dir: &str, sub_path: &str) -> (r: Result<
        String,
        SandboxError,
    >)
        ensures
            r is Ok <==> (self.path_verdict_ok(base_dir@) && !has_traversal(
                join_sub(base_dir@, sub_path@),
            ) && is_descendant(
                normalize_spec(join_sub(base_dir@, sub_path@)),
                normalize_spec(base_dir@),
            ) && (!self.strict_mode || spec_allowed(
                self.dirs_view(),
                normalize_spec(join_sub(base_dir@, sub_path@)),
            ))),
            r matches Ok(p) ==> p@ == normalize_spec(join_sub(base_dir@, sub_path@)),
            has_traversal(base_dir@) ==> (r matches Err(e) && e is PathTraversalDetected),
            self.path_verdict_ok(base_dir@) && has_traversal(join_sub(base_dir@, sub_path@))
                ==> (r matches Err(e) && e is PathTraversalDetected),
            self.path_verdict_ok(base_dir@) && !has_traversal(join_sub(base_dir@, sub_path@))
                && !is_descendant(
                normalize_spec(join_sub(base_dir@, sub_path@)),
                normalize_spec(base_dir@),
            ) ==> (r matches Err(e) && e is PathTraversalDetected),
            // a valid base and a non-escaping sub-path always succeed:
            // the whitelist cannot refuse a descendant of a valid base
            self.path_verdict_ok(base_dir@) && !has_traversal(join_sub(base_dir@, sub_path@))
                && is_descendant(
                normalize_spec(join_sub(base_dir@, sub_path@)),
                normalize_spec(base_dir@),
            ) ==> r is Ok,
    {
        match self.validate_path(base_dir) {
            Ok(_) => {},
            Err(e) => {
                return Err(e);
            },
        }
        let sub_chars = to_chars(sub_path);
        let full: String = if sub_chars.len() > 0 && sub_chars[0] == '/' {
            String::from_str(sub_path)
        } else {
            proof {
                reveal_strlit("/");
            }
            let joined = String::from_str(base_dir).concat("/").concat(sub_path);
            proof {
                assert(joined@ =~= base_dir@ + seq!['/'] + sub_path@);
            }
            joined
        };
        proof {
            assert(full@ == join_sub(base_dir@, sub_path@));
        }
        let full_chars = to_chars(full.as_str());
        if has_traversal_exec(&full_chars) {
            return Err(SandboxError::PathTraversalDetected(full));
        }
        let normalized = normalize_path(full.as_str());
        let normalized_base = normalize_path(base_dir);
        let nchars = to_chars(normalized.as_str());
        let nbchars = to_chars(normalized_base.as_str());
        if !is_descendant_exec(&nchars, &nbchars) {
            return Err(SandboxError::PathTraversalDetected(normalized));
        }
        if self.strict_mode {
            if !self.is_path_allowed(normalized.as_str()) {
                proof {
                    // unreachable: the base passed validation, so its
                    // normal form lies below some whitelisted root, and
                    // lying below a directory is transitive
                    let nb = normalize_spec(base_dir@);
                    let nf = normalize_spec(join_sub(base_dir@, sub_path@));
                    assert(spec_allowed(self.dirs_view(), nb));
                    let k = choose|k: int|
                        0 <= k < self.dirs_view().len() && is_descendant(
                            nb,
                            self.dirs_view()[k],
                        );
                    lemma_descendant_transitive(nf, nb, self.dirs_view()[k]);
                    assert(false);
                }
                return Err(SandboxError::PathNotAllowed(normalized));
            }
        }
        Ok(normalized)
    }
}

} // verus!

use vstd::prelude::*;

verus! {

/// `parts` joined with `sep` between consecutive parts.
pub open spec fn join_with(parts: Seq<Seq<char>>, sep: Seq<char>) -> Seq<char>
    decreases parts.len(),
{
    if parts.len() == 0 {
        Seq::empty()
    } else if parts.len() == 1 {
        parts[0]
    } else {
        join_with(parts.drop_last(), sep) + sep + parts.last()
    }
}

/// The pieces of `s` between occurrences of `d`, read left to right; there is
/// always at least one piece.
pub open spec fn split_on(s: Seq<char>, d: char) -> Seq<Seq<char>>
    decreases s.len(),
{
    if s.len() == 0 {
        seq![Seq::empty()]
    } else {
        let r = split_on(s.drop_last(), d);
        if s.last() == d {
            r.push(Seq::empty())
        } else {
            r.update(r.len() - 1, r.last().push(s.last()))
        }
    }
}

/// `c` occurs in `s`.
pub open spec fn has_char(s: Seq<char>, c: char) -> bool {
    exists|i: int| 0 <= i < s.len() && s[i] == c
}

pub proof fn lemma_split_nonempty(s: Seq<char>, d: char)
    ensures
        split_on(s, d).len() >= 1,
    decreases s.len(),
{
    if s.len() > 0 {
        lemma_split_nonempty(s.drop_last(), d);
    }
}

/// Appending text without the delimiter extends the last piece.
pub proof fn lemma_split_append_plain(p: Seq<char>, b: Seq<char>, d: char)
    requires
        !has_char(b, d),
    ensures
        split_on(p + b, d).len() == split_on(p, d).len(),
        split_on(p + b, d) == split_on(p, d).update(
            split_on(p, d).len() - 1,
            split_on(p, d).last() + b,
        ),
    decreases b.len(),
{
    lemma_split_nonempty(p, d);
    if b.len() == 0 {
        assert(p + b =~= p);
        let r = split_on(p, d);
        assert(r.last() + b =~= r.last());
        assert(r.update(r.len() - 1, r.last() + b) =~= r);
    } else {
        let b0 = b.drop_last();
        assert(!has_char(b0, d)) by {
            if has_char(b0, d) {
                let i = choose|i: int| 0 <= i < b0.len() && b0[i] == d;
                assert(b[i] == d);
            }
        }
        lemma_split_append_plain(p, b0, d);
        assert((p + b).drop_last() =~= p + b0);
        assert((p + b).last() == b.last());
        assert(b.last() != d) by {
            assert(b[b.len() - 1] == b.last());
        }
        let r = split_on(p, d);
        let r0 = split_on(p + b0, d);
        assert(r0 == r.update(r.len() - 1, r.last() + b0));
        assert(r0.last() == r.last() + b0);
        assert(r0.last().push(b.last()) =~= r.last() + b);
        assert(split_on(p + b, d) =~= r.update(r.len() - 1, r.last() + b));
    }
}

/// Appending the delimiter starts a new, empty piece.
pub proof fn lemma_split_append_delim(p: Seq<char>, d: char)
    ensures
        split_on(p.push(d), d) == split_on(p, d).push(Seq::empty()),
{
    assert(p.push(d).drop_last() =~= p);
}

/// Splitting undoes joining when no part holds the delimiter.
pub proof fn lemma_split_join(parts: Seq<Seq<char>>, d: char)
    requires
        parts.len() >= 1,
        forall|i: int| 0 <= i < parts.len() ==> !has_char(#[trigger] parts[i], d),
    ensures
        split_on(join_with(parts, seq![d]), d) == parts,
    decreases parts.len(),
{
    if parts.len() == 1 {
        let e = Seq::<char>::empty();
        assert(e + parts[0] =~= parts[0]);
        lemma_split_append_plain(e, parts[0], d);
        assert(split_on(e, d) == seq![e]);
        assert(split_on(parts[0], d) =~= seq![parts[0]]) by {
            assert(seq![e].update(0, e + parts[0]) =~= seq![parts[0]]);
        }
        assert(split_on(join_with(parts, seq![d]), d) =~= parts);
    } else {
        let init = parts.drop_last();
        assert forall|i: int| 0 <= i < init.len() implies !has_char(#[trigger] init[i], d) by {
            assert(init[i] == parts[i]);
        }
        lemma_split_join(init, d);
        let j = join_with(init, seq![d]);
        assert(j + seq![d] =~= j.push(d));
        lemma_split_append_delim(j, d);
        assert(!has_char(parts.last(), d)) by {
            assert(parts[parts.len() - 1] == parts.last());
        }
        lemma_split_append_plain(j.push(d), parts.last(), d);
        let r = split_on(j.push(d), d);
        assert(r == init.push(Seq::empty()));
        assert(Seq::<char>::empty() + parts.last() =~= parts.last());
        assert(r.update(r.len() - 1, r.last() + parts.last()) =~= parts);
    }
}

/// Joins the parts with the separator.
pub fn join_strings(parts: &Vec<String>, sep: &str) -> (r: String)
    ensures
        r@ == join_with(parts.deep_view(), sep@),
{
    let mut out = String::new();
    let n = parts.len();
    let mut i: usize = 0;
    while i < n
        invariant
            n == parts@.len(),
            i <= n,
            out@ == join_with(parts.deep_view().take(i as int), sep@),
        decreases n - i,
    {
        let ghost before = out@;
        if i > 0 {
            out.append(sep);
        }
        out.append(parts[i].as_str());
        proof {
            let dv = parts.deep_view();
            let t = dv.take(i as int + 1);
            assert(t.drop_last() =~= dv.take(i as int));
            assert(t.last() == parts@[i as int]@);
            if i == 0 {
                assert(before =~= Seq::<char>::empty());
                assert(out@ =~= t[0]);
            } else {
                assert(out@ =~= before + sep@ + t.last());
            }
        }
        i += 1;
    }
    proof {
        assert(parts.deep_view().take(n as int) =~= parts.deep_view());
    }
    out
}

/// Splits the text on every occurrence of `d`.
pub fn split_str(s: &str, d: char) -> (r: Vec<String>)
    ensures
        r.deep_view() == split_on(s@, d),
{
    let n = s.unicode_len();
    let mut pieces: Vec<String> = Vec::new();
    let mut start: usize = 0;
    let mut i: usize = 0;
    proof {
        assert(s@.take(0) =~= Seq::<char>::empty());
        assert(pieces.deep_view().push(s@.subrange(0, 0)) =~= seq![Seq::<char>::empty()]);
    }
    while i < n
        invariant
            n == s@.len(),
            start <= i <= n,
            pieces.deep_view().push(s@.subrange(start as int, i as int)) == split_on(
                s@.take(i as int),
                d,
            ),
        decreases n - i,
    {
        let c = s.get_char(i);
        let ghost prev = s@.take(i as int);
        let ghost old_pieces = pieces.deep_view();
        let ghost old_cur = s@.subrange(start as int, i as int);
        proof {
            assert(s@.take(i as int + 1).drop_last() =~= prev);
            assert(s@.take(i as int + 1).last() == c);
        }
        if c == d {
            let piece = String::from_str(s.substring_char(start, i));
            pieces.push(piece);
            start = i + 1;
            proof {
                assert(pieces.deep_view() =~= old_pieces.push(old_cur));
                assert(s@.subrange(start as int, i as int + 1) =~= Seq::<char>::empty());
                assert(pieces.deep_view().push(s@.subrange(start as int, i as int + 1))
                    =~= split_on(s@.take(i as int + 1), d));
            }
        } else {
            proof {
                let r = split_on(prev, d);
                assert(r == old_pieces.push(old_cur));
                assert(s@.subrange(start as int, i as int + 1) =~= old_cur.push(c));
                assert(pieces.deep_view().push(s@.subrange(start as int, i as int + 1))
                    =~= r.update(r.len() - 1, r.last().push(c)));
            }
        }
        i += 1;
    }
    let last = String::from_str(s.substring_char(start, n));
    let ghost before = pieces.deep_view();
    pieces.push(last);
    proof {
        assert(s@.take(n as int) =~= s@);
        assert(pieces.deep_view() =~= before.push(s@.subrange(start as int, n as int)));
    }
    pieces
}

} // verus!

use vstd::prelude::*;
use crate::error::opt_view;
use crate::schema::{pairs_view, Attr, AttrValue, DateRead};

verus! {

/// A cached document: its path (the key), the last known modification time
/// (RFC 3339), the body when it was read, and its attributes by name.
///
/// When two attributes share a name, the later one counts.
#[derive(Clone, Debug, PartialEq, Eq)]
pub struct BookFromDb {
    pub path: Option<String>,
    pub modified: Option<String>,
    pub markdown: Option<String>,
    pub attrs: Vec<(String, AttrValue)>,
}

pub struct DocView {
    pub path: Option<Seq<char>>,
    pub modified: Option<Seq<char>>,
    pub markdown: Option<Seq<char>>,
    pub attrs: Seq<(Seq<char>, Attr)>,
}

pub open spec fn attrs_view(v: Seq<(String, AttrValue)>) -> Seq<(Seq<char>, Attr)> {
    Seq::new(v.len(), |i: int| (v[i].0@, v[i].1@))
}

impl View for BookFromDb {
    type V = DocView;

    open spec fn view(&self) -> DocView {
        DocView {
            path: opt_view(self.path),
            modified: opt_view(self.modified),
            markdown: opt_view(self.markdown),
            attrs: attrs_view(self.attrs@),
        }
    }
}

/// The attribute named `k`; the last one where several share the name.
pub open spec fn attr_lookup(attrs: Seq<(Seq<char>, Attr)>, k: Seq<char>) -> Option<Attr>
    decreases attrs.len(),
{
    if attrs.len() == 0 {
        None
    } else if attrs.last().0 == k {
        Some(attrs.last().1)
    } else {
        attr_lookup(attrs.drop_last(), k)
    }
}

impl BookFromDb {
    /// A document with nothing set.
    pub fn empty() -> (r: Self)
        ensures
            r@.path is None,
            r@.modified is None,
            r@.markdown is None,
            r@.attrs.len() == 0,
    {
        BookFromDb { path: None, modified: None, markdown: None, attrs: Vec::new() }
    }

    /// The attribute named `name`.
    pub fn get(&self, name: &str) -> (r: Option<&AttrValue>)
        ensures
            match r {
                Some(v) => attr_lookup(self@.attrs, name@) == Some(v@),
                None => attr_lookup(self@.attrs, name@) is None,
            },
    {
        let mut found: Option<&AttrValue> = None;
        let n = self.attrs.len();
        let mut i: usize = 0;
        while i < n
            invariant
                n == self.attrs@.len(),
                i <= n,
                match found {
                    Some(v) => attr_lookup(attrs_view(self.attrs@).take(i as int), name@) == Some(
                        v@,
                    ),
                    None => attr_lookup(attrs_view(self.attrs@).take(i as int), name@) is None,
                },
            decreases n - i,
        {
            proof {
                let a = attrs_view(self.attrs@);
                assert(a.take(i as int + 1).drop_last() =~= a.take(i as int));
                assert(a.take(i as int + 1).last() == a[i as int]);
            }
            if str_eq(self.attrs[i].0.as_str(), name) {
                found = Some(&self.attrs[i].1);
            }
            i += 1;
        }
        proof {
            assert(attrs_view(self.attrs@).take(n as int) =~= attrs_view(self.attrs@));
        }
        found
    }

    /// Sets the attribute `name`, replacing every earlier one of that name.
    pub fn insert(&mut self, name: String, value: AttrValue)
        ensures
            final(self)@.path == old(self)@.path,
            final(self)@.modified == old(self)@.modified,
            final(self)@.markdown == old(self)@.markdown,
            final(self)@.attrs == old(self)@.attrs.push((name@, value@)),
    {
        self.attrs.push((name, value));
        proof {
            assert(attrs_view(self.attrs@) =~= attrs_view(old(self).attrs@).push((name@, value@)));
        }
    }
}

/// Whether two texts are equal.
pub fn str_eq(a: &str, b: &str) -> (r: bool)
    ensures
        r == (a@ == b@),
{
    let n = a.unicode_len();
    let m = b.unicode_len();
    if n != m {
        return false;
    }
    let mut i: usize = 0;
    while i < n
        invariant
            n == a@.len(),
            m == b@.len(),
            n == m,
            i <= n,
            a@.take(i as int) == b@.take(i as int),
        decreases n - i,
    {
        if a.get_char(i) != b.get_char(i) {
            return false;
        }
        proof {
            assert(a@.take(i as int + 1) =~= a@.take(i as int).push(a@[i as int]));
            assert(b@.take(i as int + 1) =~= b@.take(i as int).push(b@[i as int]));
        }
        i += 1;
    }
    proof {
        assert(a@.take(n as int) =~= a@);
        assert(b@.take(n as int) =~= b@);
    }
    true
}

/// A copy of the text.
pub fn copy_text(s: &String) -> (r: String)
    ensures
        r@ == s@,
{
    s.clone()
}

/// A copy of an optional text.
pub fn copy_opt(s: &Option<String>) -> (r: Option<String>)
    ensures
        opt_view(r) == opt_view(*s),
{
    match s {
        Some(t) => Some(t.clone()),
        None => None,
    }
}

/// A copy of a list of texts.
pub fn copy_texts(v: &Vec<String>) -> (r: Vec<String>)
    ensures
        r.deep_view() == v.deep_view(),
{
    let mut out: Vec<String> = Vec::new();
    let n = v.len();
    let mut i: usize = 0;
    while i < n
        invariant
            n == v@.len(),
            i <= n,
            out.deep_view() == v.deep_view().take(i as int),
        decreases n - i,
    {
        let ghost old_out = out.deep_view();
        assert(old_out.len() == i);
        let c = copy_text(&v[i]);
        out.push(c);
        proof {
            assert(out@[i as int]@ == v@[i as int]@);
            assert(out.deep_view() =~= old_out.push(v@[i as int]@));
            assert(out.deep_view() =~= v.deep_view().take(i as int + 1));
        }
        i += 1;
    }
    proof {
        assert(v.deep_view().take(n as int) =~= v.deep_view());
    }
    out
}

/// A copy of a reading.
pub fn copy_date_read(d: &DateRead) -> (r: DateRead)
    ensures
        r@ == d@,
{
    DateRead { started: copy_opt(&d.started), finished: copy_opt(&d.finished) }
}

/// A copy of a list of readings.
pub fn copy_date_reads(v: &Vec<DateRead>) -> (r: Vec<DateRead>)
    ensures
        pairs_view(r@) == pairs_view(v@),
{
    let mut out: Vec<DateRead> = Vec::new();
    let n = v.len();
    let mut i: usize = 0;
    while i < n
        invariant
            n == v@.len(),
            i <= n,
            pairs_view(out@) == pairs_view(v@).take(i as int),
        decreases n - i,
    {
        let ghost old_out = pairs_view(out@);
        out.push(copy_date_read(&v[i]));
        proof {
            assert(pairs_view(out@) =~= old_out.push(v@[i as int]@));
            assert(pairs_view(out@) =~= pairs_view(v@).take(i as int + 1));
        }
        i += 1;
    }
    proof {
        assert(pairs_view(v@).take(n as int) =~= pairs_view(v@));
    }
    out
}

} // verus!

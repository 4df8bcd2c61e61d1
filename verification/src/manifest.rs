//! The change-tracking manifest: for each backed-up directory name, the
//! modification time (seconds since the epoch) it had when last backed up.
//! On disk it is text, one `name=seconds` line per directory, sorted by name.
use vstd::prelude::*;
use crate::number::{decimal, format_u64, parse_u64, parse_u64_spec, lemma_decimal_digits, is_digit};
use crate::sorted_map::{SortedMap, keys_ascending, map_of_pairs};
use crate::text::{
    chars_of, string_from_chars, concat, trim_chars, split_lines, split_once_at, trim, lines, views,
    split_once, is_first_index, lemma_index_of_first, strip_cr, lemma_lines_concat,
    lemma_lines_single, trim_start, trim_end,
};

verus! {

/// The manifest: directory name to recorded modification time.
pub struct Manifest {
    map: SortedMap<u64>,
}

/// The text of one manifest entry: `name=seconds` and a line break.
pub open spec fn manifest_line(name: Seq<char>, mtime: u64) -> Seq<char> {
    name + seq!['='] + decimal(mtime as nat) + seq!['\n']
}

/// The text of the given entries, in their order.
pub open spec fn render_pairs(p: Seq<(Seq<char>, u64)>) -> Seq<char>
    decreases p.len(),
{
    if p.len() == 0 {
        Seq::empty()
    } else {
        render_pairs(p.drop_last()) + manifest_line(p.last().0, p.last().1)
    }
}

/// What one line of manifest text records: the trimmed text before its first
/// `=` as the name, and the trimmed text after it read as a number; a line
/// without `=`, or whose number does not read, records nothing.
pub open spec fn parse_line(l: Seq<char>) -> Option<(Seq<char>, u64)> {
    match split_once(l, '=') {
        Some((k, v)) => match parse_u64_spec(trim(v)) {
            Some(t) => Some((trim(k), t)),
            None => None,
        },
        None => None,
    }
}

/// `m` with what each line records put in, in order (a later line wins).
pub open spec fn apply_lines(m: Map<Seq<char>, u64>, ls: Seq<Seq<char>>) -> Map<Seq<char>, u64>
    decreases ls.len(),
{
    if ls.len() == 0 {
        m
    } else {
        let m2 = apply_lines(m, ls.drop_last());
        match parse_line(ls.last()) {
            Some((k, t)) => m2.insert(k, t),
            None => m2,
        }
    }
}

/// The manifest that a text describes.
pub open spec fn manifest_of_text(s: Seq<char>) -> Map<Seq<char>, u64> {
    apply_lines(Map::empty(), lines(s))
}

/// A name that survives a write and a read of the manifest text: no `=`, no
/// line break, and no white space at either end.
pub open spec fn storable_name(k: Seq<char>) -> bool {
    &&& !k.contains('=')
    &&& !k.contains('\n')
    &&& trim(k) == k
}

impl View for Manifest {
    type V = Map<Seq<char>, u64>;

    /// The recorded times.
    closed spec fn view(&self) -> Map<Seq<char>, u64> {
        self.map.view()
    }
}

impl Manifest {
    /// The entries by ascending name.
    pub closed spec fn sorted_pairs(self) -> Seq<(Seq<char>, u64)> {
        self.map.sorted_pairs()
    }

    /// The manifest is well formed (every manifest this library builds is).
    pub closed spec fn wf(self) -> bool {
        self.map.wf()
    }

    /// The entries ascend strictly by name and hold exactly the manifest.
    pub proof fn lemma_sorted_pairs(&self)
        requires
            self.wf(),
        ensures
            keys_ascending(self.sorted_pairs()),
            map_of_pairs(self.sorted_pairs()) == self@,
            self@.dom().finite(),
    {
        self.map.lemma_sorted_pairs();
    }

    /// An empty manifest (what a full backup starts from).
    pub fn new() -> (m: Self)
        ensures
            m.wf(),
            m@ == Map::<Seq<char>, u64>::empty(),
    {
        Manifest { map: SortedMap::new() }
    }

    /// The time recorded for `name`.
    pub fn get(&self, name: &[char]) -> (r: Option<u64>)
        requires
            self.wf(),
        ensures
            r == (if self@.contains_key(name@) {
                Some(self@[name@])
            } else {
                None
            }),
    {
        match self.map.get(name) {
            Some(v) => Some(*v),
            None => None,
        }
    }

    /// Records `mtime` for `name`.
    pub fn insert(&mut self, name: &[char], mtime: u64)
        requires
            old(self).wf(),
        ensures
            final(self).wf(),
            final(self)@ == old(self)@.insert(name@, mtime),
    {
        let key = crate::text::copy_range(name, 0, name.len());
        assert(key@ =~= name@);
        self.map.insert(key, mtime);
    }

    /// The number of entries.
    pub fn len(&self) -> (n: usize)
        requires
            self.wf(),
        ensures
            n == self@.len(),
    {
        self.map.len()
    }

    /// Reads manifest text: every line
    /// `name=seconds` records the time; other lines are ignored.
    pub fn parse(content: &str) -> (m: Self)
        ensures
            m.wf(),
            m@ == manifest_of_text(content@),
    {
        let chars = chars_of(content);
        let ls = split_lines(chars.as_slice());
        let mut m = Manifest::new();
        let mut i: usize = 0;
        while i < ls.len()
            invariant
                i <= ls@.len(),
                views(ls@) == lines(content@),
                m.wf(),
                m@ == apply_lines(Map::empty(), views(ls@).take(i as int)),
            decreases ls@.len() - i,
        {
            let ghost pre = views(ls@).take(i as int);
            let ghost next = views(ls@).take(i + 1);
            assert(next.drop_last() =~= pre);
            assert(next.last() == ls@[i as int]@);
            match split_once_at(ls[i].as_slice(), '=') {
                Some((k, v)) => {
                    let tv = trim_chars(v.as_slice());
                    match parse_u64(tv.as_slice()) {
                        Some(t) => {
                            let tk = trim_chars(k.as_slice());
                            m.insert(tk.as_slice(), t);
                        },
                        None => {},
                    }
                },
                None => {},
            }
            i = i + 1;
        }
        assert(views(ls@).take(ls@.len() as int) =~= views(ls@));
        m
    }

    /// Writes manifest text (`save_manifest`'s formatting): one
    /// `name=seconds` line per entry, by ascending name.
    pub fn render(&self) -> (s: String)
        requires
            self.wf(),
        ensures
            s@ == render_pairs(self.sorted_pairs()),
    {
        let mut out: Vec<char> = Vec::new();
        let n = self.map.len();
        let mut i: usize = 0;
        while i < n
            invariant
                self.wf(),
                n == self.sorted_pairs().len(),
                i <= n,
                out@ == render_pairs(self.sorted_pairs().take(i as int)),
            decreases n - i,
        {
            let ghost p = self.sorted_pairs();
            let k = self.map.key_at(i);
            let v = *self.map.value_at(i);
            let mut line = concat(out.as_slice(), k.as_slice());
            line.push('=');
            let digits = format_u64(v);
            let mut line = concat(line.as_slice(), digits.as_slice());
            line.push('\n');
            proof {
                assert(p.take(i + 1).drop_last() =~= p.take(i as int));
                assert(line@ =~= render_pairs(p.take(i as int)) + manifest_line(p[i as int].0, p[i as int].1));
            }
            out = line;
            i = i + 1;
        }
        assert(self.sorted_pairs().take(n as int) =~= self.sorted_pairs());
        string_from_chars(out.as_slice())
    }
}

/// The lines of rendered entries are the entries' lines, without the breaks.
proof fn lemma_render_lines(p: Seq<(Seq<char>, u64)>)
    requires
        forall|i: int| 0 <= i < p.len() ==> storable_name(#[trigger] p[i].0),
    ensures
        lines(render_pairs(p)) == p.map_values(
            |e: (Seq<char>, u64)| e.0 + seq!['='] + decimal(e.1 as nat),
        ),
    decreases p.len(),
{
    let f = |e: (Seq<char>, u64)| e.0 + seq!['='] + decimal(e.1 as nat);
    if p.len() == 0 {
        assert(lines(Seq::<char>::empty()) =~= Seq::<Seq<char>>::empty());
        assert(p.map_values(f) =~= Seq::<Seq<char>>::empty());
    } else {
        let q = p.drop_last();
        assert forall|i: int| 0 <= i < q.len() implies storable_name(#[trigger] q[i].0) by {
            assert(q[i] == p[i]);
        }
        lemma_render_lines(q);
        let last = p.last();
        assert(storable_name(p[p.len() - 1].0));
        let body = f(last);
        lemma_decimal_digits(last.1 as nat);
        let d = decimal(last.1 as nat);
        assert(!body.contains('\n')) by {
            if body.contains('\n') {
                let j = choose|j: int| 0 <= j < body.len() && body[j] == '\n';
                if j < last.0.len() {
                    assert(last.0[j] == '\n');
                } else if j > last.0.len() {
                    assert(body[j] == d[j - last.0.len() - 1]);
                    assert(is_digit(d[j - last.0.len() - 1]));
                }
            }
        }
        assert(body.last() == d.last());
        assert(is_digit(d[d.len() - 1]));
        assert(strip_cr(body) == body);
        lemma_lines_single(body);
        assert(manifest_line(last.0, last.1) =~= body.push('\n'));
        if q.len() == 0 {
            assert(render_pairs(p) =~= manifest_line(last.0, last.1));
            assert(p.map_values(f) =~= seq![body]);
        } else {
            let rq = render_pairs(q);
            assert(rq.last() == '\n') by {
                assert(rq =~= render_pairs(q.drop_last()) + manifest_line(q.last().0, q.last().1));
            }
            lemma_lines_concat(rq, manifest_line(last.0, last.1));
            assert(p.map_values(f) =~= q.map_values(f).push(body));
        }
    }
}

/// A storable name reads back as itself from `name=` at the start of a line.
proof fn lemma_parse_entry_line(k: Seq<char>, t: u64)
    requires
        storable_name(k),
    ensures
        parse_line(k + seq!['='] + decimal(t as nat)) == Some((k, t)),
{
    let d = decimal(t as nat);
    let l = k + seq!['='] + d;
    lemma_decimal_digits(t as nat);
    assert(is_first_index(l, '=', k.len() as int)) by {
        assert forall|j: int| 0 <= j < k.len() implies l[j] != '=' by {
            assert(l[j] == k[j]);
        }
    }
    lemma_index_of_first(l, '=', k.len() as int);
    assert(l.take(k.len() as int) =~= k);
    assert(l.skip(k.len() as int + 1) =~= d);
    assert(trim_start(d) == d);
    assert(d.last() == d[d.len() - 1]);
    assert(is_digit(d[d.len() - 1]));
    assert(trim_end(d) == d);
    crate::number::lemma_parse_decimal(t);
}

/// Writing a manifest as text and reading the text back gives the same
/// manifest, for names that hold no `=` or line break and no white space at
/// either end.
pub proof fn lemma_manifest_roundtrip(m: Manifest)
    requires
        m.wf(),
        forall|k: Seq<char>| #[trigger] m@.contains_key(k) ==> storable_name(k),
    ensures
        manifest_of_text(render_pairs(m.sorted_pairs())) == m@,
{
    m.lemma_sorted_pairs();
    let p = m.sorted_pairs();
    m.map.lemma_sorted_pairs();
    assert forall|i: int| 0 <= i < p.len() implies storable_name(#[trigger] p[i].0) by {
        assert(m@.contains_key(p[i].0));
    }
    lemma_render_lines(p);
    lemma_apply_entry_lines(p);
}

/// Reading the lines of entries puts in each entry, in order.
proof fn lemma_apply_entry_lines(p: Seq<(Seq<char>, u64)>)
    requires
        forall|i: int| 0 <= i < p.len() ==> storable_name(#[trigger] p[i].0),
    ensures
        apply_lines(
            Map::empty(),
            p.map_values(|e: (Seq<char>, u64)| e.0 + seq!['='] + decimal(e.1 as nat)),
        ) == map_of_pairs(p),
    decreases p.len(),
{
    let f = |e: (Seq<char>, u64)| e.0 + seq!['='] + decimal(e.1 as nat);
    if p.len() > 0 {
        let q = p.drop_last();
        assert forall|i: int| 0 <= i < q.len() implies storable_name(#[trigger] q[i].0) by {
            assert(q[i] == p[i]);
        }
        lemma_apply_entry_lines(q);
        assert(p.map_values(f).drop_last() =~= q.map_values(f));
        assert(storable_name(p[p.len() - 1].0));
        lemma_parse_entry_line(p.last().0, p.last().1);
    } else {
        assert(p.map_values(f) =~= Seq::<Seq<char>>::empty());
    }
}

} // verus!

//! Character-level text handling: the model of `str` that the rest of the
//! library is specified over, with verified counterparts of the few `str`
//! operations it needs (trimming, prefixes, searching, splitting into lines).
use vstd::prelude::*;

verus! {

/// Copies the characters of `s` into a vector.
pub fn chars_of(s: &str) -> (v: Vec<char>)
    ensures
        v@ == s@,
{
    let mut v: Vec<char> = Vec::new();
    for c in it: s.chars()
        invariant
            it.seq() == s@,
            v@ == it.seq().take(it.index() as int),
    {
        v.push(c);
    }
    v
}

/// `String`'s `FromIterator<char>` (`collect`): the new string holds the
/// characters of `chars`, in order.
#[verifier::external_body]
pub fn string_from_chars(chars: &[char]) -> (s: String)
    ensures
        s@ == chars@,
{
    chars.iter().collect()
}

/// The characters `s[from..to]`, copied.
pub fn copy_range(s: &[char], from: usize, to: usize) -> (r: Vec<char>)
    requires
        from <= to <= s@.len(),
    ensures
        r@ == s@.subrange(from as int, to as int),
{
    let mut r: Vec<char> = Vec::new();
    let mut i = from;
    while i < to
        invariant
            from <= i <= to <= s@.len(),
            r@ == s@.subrange(from as int, i as int),
        decreases to - i,
    {
        r.push(s[i]);
        i = i + 1;
    }
    r
}

/// `a` followed by `b`, copied.
pub fn concat(a: &[char], b: &[char]) -> (r: Vec<char>)
    ensures
        r@ == a@ + b@,
{
    let mut r = copy_range(a, 0, a.len());
    let mut i: usize = 0;
    while i < b.len()
        invariant
            i <= b@.len(),
            r@ == a@ + b@.take(i as int),
        decreases b@.len() - i,
    {
        r.push(b[i]);
        i = i + 1;
    }
    r
}

/// Whether two character sequences are equal.
pub fn chars_eq(a: &[char], b: &[char]) -> (r: bool)
    ensures
        r == (a@ == b@),
{
    if a.len() != b.len() {
        return false;
    }
    let mut i: usize = 0;
    while i < a.len()
        invariant
            a@.len() == b@.len(),
            i <= a@.len(),
            forall|j: int| 0 <= j < i ==> a@[j] == b@[j],
        decreases a@.len() - i,
    {
        if a[i] != b[i] {
            return false;
        }
        i = i + 1;
    }
    assert(a@ =~= b@);
    true
}

/// Unicode `White_Space`: the characters `char::is_whitespace` accepts.
pub open spec fn is_whitespace(c: char) -> bool {
    let u = c as u32;
    ||| 0x09 <= u <= 0x0D
    ||| u == 0x20
    ||| u == 0x85
    ||| u == 0xA0
    ||| u == 0x1680
    ||| 0x2000 <= u <= 0x200A
    ||| u == 0x2028
    ||| u == 0x2029
    ||| u == 0x202F
    ||| u == 0x205F
    ||| u == 0x3000
}

/// Whether `c` is Unicode white space.
pub fn is_ws(c: char) -> (r: bool)
    ensures
        r == is_whitespace(c),
{
    let u = c as u32;
    (0x09 <= u && u <= 0x0D) || u == 0x20 || u == 0x85 || u == 0xA0 || u == 0x1680 || (0x2000
        <= u && u <= 0x200A) || u == 0x2028 || u == 0x2029 || u == 0x202F || u == 0x205F || u
        == 0x3000
}

/// `s` without its leading white space.
pub open spec fn trim_start(s: Seq<char>) -> Seq<char>
    decreases s.len(),
{
    if s.len() > 0 && is_whitespace(s[0]) {
        trim_start(s.drop_first())
    } else {
        s
    }
}

/// `s` without its trailing white space.
pub open spec fn trim_end(s: Seq<char>) -> Seq<char>
    decreases s.len(),
{
    if s.len() > 0 && is_whitespace(s.last()) {
        trim_end(s.drop_last())
    } else {
        s
    }
}

/// `s` without leading and trailing white space (`str::trim`).
pub open spec fn trim(s: Seq<char>) -> Seq<char> {
    trim_end(trim_start(s))
}

/// `str::trim` on characters.
pub fn trim_chars(s: &[char]) -> (r: Vec<char>)
    ensures
        r@ == trim(s@),
{
    let n = s.len();
    let mut i: usize = 0;
    assert(s@.skip(0) =~= s@);
    while i < n && is_ws(s[i])
        invariant
            i <= n == s@.len(),
            trim_start(s@) == trim_start(s@.skip(i as int)),
        decreases n - i,
    {
        assert(s@.skip(i as int).drop_first() =~= s@.skip(i + 1));
        i = i + 1;
    }
    assert(trim_start(s@) == s@.skip(i as int));
    let mut j: usize = n;
    while j > i && is_ws(s[j - 1])
        invariant
            i <= j <= n == s@.len(),
            trim(s@) == trim_end(s@.subrange(i as int, j as int)),
        decreases j,
    {
        assert(s@.subrange(i as int, j as int).drop_last() =~= s@.subrange(i as int, j - 1));
        j = j - 1;
    }
    copy_range(s, i, j)
}

/// Whether `s` begins with `p`.
pub open spec fn has_prefix(s: Seq<char>, p: Seq<char>) -> bool {
    p.len() <= s.len() && s.take(p.len() as int) == p
}

/// Whether `s` ends with `p`.
pub open spec fn has_suffix(s: Seq<char>, p: Seq<char>) -> bool {
    p.len() <= s.len() && s.skip(s.len() - p.len()) == p
}

/// `str::starts_with` on characters.
pub fn starts_with(s: &[char], p: &[char]) -> (r: bool)
    ensures
        r == has_prefix(s@, p@),
{
    if p.len() > s.len() {
        return false;
    }
    let mut i: usize = 0;
    while i < p.len()
        invariant
            p@.len() <= s@.len(),
            i <= p@.len(),
            forall|j: int| 0 <= j < i ==> s@[j] == p@[j],
        decreases p@.len() - i,
    {
        if s[i] != p[i] {
            return false;
        }
        i = i + 1;
    }
    assert(s@.take(p@.len() as int) =~= p@);
    true
}

/// `str::ends_with` on characters.
pub fn ends_with(s: &[char], p: &[char]) -> (r: bool)
    ensures
        r == has_suffix(s@, p@),
{
    if p.len() > s.len() {
        return false;
    }
    let off = s.len() - p.len();
    let mut i: usize = 0;
    while i < p.len()
        invariant
            off + p@.len() == s@.len(),
            s@.len() == s.len(),
            i <= p@.len(),
            forall|j: int| 0 <= j < i ==> s@[off + j] == p@[j],
        decreases p@.len() - i,
    {
        if s[off + i] != p[i] {
            return false;
        }
        i = i + 1;
    }
    assert(s@.skip(off as int) =~= p@);
    true
}

/// `s` with every leading repetition of the pattern `p` removed
/// (`str::trim_start_matches`); an empty pattern removes nothing.
pub open spec fn trim_start_matches(s: Seq<char>, p: Seq<char>) -> Seq<char>
    decreases s.len(),
{
    if p.len() > 0 && has_prefix(s, p) {
        trim_start_matches(s.skip(p.len() as int), p)
    } else {
        s
    }
}

/// `s` with every trailing repetition of the pattern `p` removed
/// (`str::trim_end_matches`); an empty pattern removes nothing.
pub open spec fn trim_end_matches(s: Seq<char>, p: Seq<char>) -> Seq<char>
    decreases s.len(),
{
    if p.len() > 0 && has_suffix(s, p) {
        trim_end_matches(s.take(s.len() - p.len()), p)
    } else {
        s
    }
}

/// `str::trim_start_matches` on characters.
pub fn trim_start_matching(s: &[char], p: &[char]) -> (r: Vec<char>)
    ensures
        r@ == trim_start_matches(s@, p@),
{
    let mut rest = copy_range(s, 0, s.len());
    assert(rest@ =~= s@);
    if p.len() == 0 {
        return rest;
    }
    while starts_with(rest.as_slice(), p)
        invariant
            p@.len() > 0,
            trim_start_matches(s@, p@) == trim_start_matches(rest@, p@),
        decreases rest@.len(),
    {
        rest = copy_range(rest.as_slice(), p.len(), rest.len());
    }
    rest
}

/// `str::trim_end_matches` on characters.
pub fn trim_end_matching(s: &[char], p: &[char]) -> (r: Vec<char>)
    ensures
        r@ == trim_end_matches(s@, p@),
{
    let mut rest = copy_range(s, 0, s.len());
    assert(rest@ =~= s@);
    if p.len() == 0 {
        return rest;
    }
    while ends_with(rest.as_slice(), p)
        invariant
            p@.len() > 0,
            trim_end_matches(s@, p@) == trim_end_matches(rest@, p@),
        decreases rest@.len(),
    {
        rest = copy_range(rest.as_slice(), 0, rest.len() - p.len());
    }
    rest
}

/// Position of the first `c` in `s`, if any.
pub open spec fn index_of(s: Seq<char>, c: char) -> Option<int>
    decreases s.len(),
{
    if s.len() == 0 {
        None
    } else if s[0] == c {
        Some(0)
    } else {
        match index_of(s.drop_first(), c) {
            Some(k) => Some(k + 1),
            None => None,
        }
    }
}

/// `k` is the position of the first `c` in `s`.
pub open spec fn is_first_index(s: Seq<char>, c: char, k: int) -> bool {
    &&& 0 <= k < s.len()
    &&& s[k] == c
    &&& forall|j: int| 0 <= j < k ==> s[j] != c
}

/// What `index_of` means.
pub proof fn lemma_index_of(s: Seq<char>, c: char)
    ensures
        match index_of(s, c) {
            Some(k) => is_first_index(s, c, k),
            None => forall|j: int| 0 <= j < s.len() ==> s[j] != c,
        },
    decreases s.len(),
{
    if s.len() > 0 && s[0] != c {
        lemma_index_of(s.drop_first(), c);
        match index_of(s.drop_first(), c) {
            Some(k) => {
                assert forall|j: int| 0 <= j < k + 1 implies s[j] != c by {
                    if j > 0 {
                        assert(s[j] == s.drop_first()[j - 1]);
                    }
                }
            },
            None => {
                assert forall|j: int| 0 <= j < s.len() implies s[j] != c by {
                    if j > 0 {
                        assert(s[j] == s.drop_first()[j - 1]);
                    }
                }
            },
        }
    }
}

/// A first position determines `index_of`.
pub proof fn lemma_index_of_first(s: Seq<char>, c: char, k: int)
    requires
        is_first_index(s, c, k),
    ensures
        index_of(s, c) == Some(k),
{
    lemma_index_of(s, c);
    match index_of(s, c) {
        Some(k2) => {
            if k2 < k {
                assert(s[k2] != c);
            } else if k < k2 {
                assert(s[k] != c);
            }
        },
        None => {
            assert(s[k] != c);
        },
    }
}

/// Position of the first `c` in `s` at or after `from`.
pub fn find_char(s: &[char], c: char, from: usize) -> (r: Option<usize>)
    requires
        from <= s@.len(),
    ensures
        match r {
            Some(k) => from <= k < s.len() && index_of(s@.skip(from as int), c) == Some(
                k - from,
            ),
            None => index_of(s@.skip(from as int), c) == None::<int>,
        },
{
    let mut i = from;
    while i < s.len()
        invariant
            from <= i <= s@.len(),
            forall|j: int| from <= j < i ==> s@[j] != c,
        decreases s@.len() - i,
    {
        if s[i] == c {
            proof {
                lemma_index_of_first(s@.skip(from as int), c, i - from);
            }
            return Some(i);
        }
        i = i + 1;
    }
    proof {
        lemma_index_of(s@.skip(from as int), c);
        if index_of(s@.skip(from as int), c) is Some {
            let k = index_of(s@.skip(from as int), c)->0;
            assert(s@[from + k] == c);
        }
    }
    None
}

/// `l` without one trailing carriage return.
pub open spec fn strip_cr(l: Seq<char>) -> Seq<char> {
    if l.len() > 0 && l.last() == '\r' {
        l.drop_last()
    } else {
        l
    }
}

/// The lines of `s` (`str::lines`): split at each `\n`, a `\r` right
/// before it dropped, with no empty last line for a final line ending.
pub open spec fn lines(s: Seq<char>) -> Seq<Seq<char>>
    decreases s.len(),
{
    if s.len() == 0 {
        seq![]
    } else {
        match index_of(s, '\n') {
            None => seq![s],
            Some(k) => {
                proof {
                    lemma_index_of(s, '\n');
                }
                seq![strip_cr(s.take(k))] + lines(s.skip(k + 1))
            },
        }
    }
}

/// The views of a sequence of character vectors.
pub open spec fn views(v: Seq<Vec<char>>) -> Seq<Seq<char>> {
    v.map_values(|x: Vec<char>| x@)
}

/// `str::lines` on characters.
pub fn split_lines(s: &[char]) -> (r: Vec<Vec<char>>)
    ensures
        views(r@) == lines(s@),
{
    let mut r: Vec<Vec<char>> = Vec::new();
    let mut start: usize = 0;
    assert(s@.skip(0) =~= s@);
    while start < s.len()
        invariant
            start <= s@.len(),
            lines(s@) == views(r@) + lines(s@.skip(start as int)),
        decreases s@.len() - start,
    {
        let ghost rest = s@.skip(start as int);
        match find_char(s, '\n', start) {
            Some(k) => {
                let line = copy_range(s, start, k);
                let line = if line.len() > 0 && line[line.len() - 1] == '\r' {
                    copy_range(line.as_slice(), 0, line.len() - 1)
                } else {
                    line
                };
                proof {
                    assert(rest.take(k - start) =~= s@.subrange(start as int, k as int));
                    assert(rest.skip(k - start + 1) =~= s@.skip(k + 1));
                    assert(views(r@.push(line)) =~= views(r@).push(line@));
                }
                r.push(line);
                start = k + 1;
            },
            None => {
                let line = copy_range(s, start, s.len());
                proof {
                    assert(line@ =~= rest);
                    assert(views(r@.push(line)) =~= views(r@).push(line@));
                    assert(s@.skip(s@.len() as int) =~= Seq::<char>::empty());
                }
                r.push(line);
                start = s.len();
            },
        }
    }
    assert(s@.skip(start as int) =~= Seq::<char>::empty());
    assert(views(r@) + lines(Seq::<char>::empty()) =~= views(r@));
    r
}

/// The text before and after the first `c` in `s`, if `c` occurs
/// (`str::split_once` with a character pattern).
pub open spec fn split_once(s: Seq<char>, c: char) -> Option<(Seq<char>, Seq<char>)> {
    match index_of(s, c) {
        Some(k) => Some((s.take(k), s.skip(k + 1))),
        None => None,
    }
}

/// `str::split_once` on characters.
pub fn split_once_at(s: &[char], c: char) -> (r: Option<(Vec<char>, Vec<char>)>)
    ensures
        match r {
            Some((a, b)) => split_once(s@, c) == Some((a@, b@)),
            None => split_once(s@, c) is None,
        },
{
    assert(s@.skip(0) =~= s@);
    match find_char(s, c, 0) {
        Some(k) => {
            let a = copy_range(s, 0, k);
            let b = copy_range(s, k + 1, s.len());
            assert(a@ =~= s@.take(k as int));
            assert(b@ =~= s@.skip(k + 1));
            Some((a, b))
        },
        None => None,
    }
}

/// ASCII lower-casing of one character.
pub open spec fn ascii_lower(c: char) -> char {
    if 'A' <= c <= 'Z' {
        ((c as u32) + 32) as char
    } else {
        c
    }
}

/// `str::eq_ignore_ascii_case`.
pub open spec fn eq_ignore_ascii_case(a: Seq<char>, b: Seq<char>) -> bool {
    a.len() == b.len() && forall|i: int| 0 <= i < a.len() ==> ascii_lower(a[i]) == ascii_lower(b[i])
}

/// `str::eq_ignore_ascii_case` on characters.
pub fn chars_eq_ignore_ascii_case(a: &[char], b: &[char]) -> (r: bool)
    ensures
        r == eq_ignore_ascii_case(a@, b@),
{
    if a.len() != b.len() {
        return false;
    }
    let mut i: usize = 0;
    while i < a.len()
        invariant
            a@.len() == b@.len(),
            i <= a@.len(),
            forall|j: int| 0 <= j < i ==> ascii_lower(a@[j]) == ascii_lower(b@[j]),
        decreases a@.len() - i,
    {
        let x = a[i];
        let y = b[i];
        let lx = if 'A' <= x && x <= 'Z' { ((x as u32) + 32) as u8 as char } else { x };
        let ly = if 'A' <= y && y <= 'Z' { ((y as u32) + 32) as u8 as char } else { y };
        if lx != ly {
            return false;
        }
        i = i + 1;
    }
    true
}

/// Splitting text that ends a line into lines, then the rest: the lines of
/// a concatenation are the lines of its parts.
pub proof fn lemma_lines_concat(x: Seq<char>, y: Seq<char>)
    requires
        x.len() > 0,
        x.last() == '\n',
    ensures
        lines(x + y) == lines(x) + lines(y),
    decreases x.len(),
{
    let xy = x + y;
    lemma_index_of(x, '\n');
    let k = match index_of(x, '\n') {
        Some(k) => k,
        None => {
            assert(x[x.len() - 1] == '\n');
            0
        },
    };
    assert(is_first_index(xy, '\n', k));
    lemma_index_of_first(xy, '\n', k);
    assert(xy.take(k) =~= x.take(k));
    if k + 1 == x.len() {
        assert(xy.skip(k + 1) =~= y);
        assert(x.skip(k + 1) =~= Seq::<char>::empty());
        assert(lines(Seq::<char>::empty()) =~= Seq::<Seq<char>>::empty());
        assert(lines(x) == seq![strip_cr(x.take(k))] + lines(x.skip(k + 1)));
        assert(lines(x) =~= seq![strip_cr(x.take(k))]);
    } else {
        let x2 = x.skip(k + 1);
        assert(x2.last() == '\n');
        lemma_lines_concat(x2, y);
        assert(xy.skip(k + 1) =~= x2 + y);
        assert(lines(x) == seq![strip_cr(x.take(k))] + lines(x2));
        assert(lines(xy) == seq![strip_cr(x.take(k))] + lines(x2 + y));
        assert(lines(xy) =~= lines(x) + lines(y));
    }
}

/// A line without line breaks, ended by `\n`, is that one line.
pub proof fn lemma_lines_single(l: Seq<char>)
    requires
        !l.contains('\n'),
    ensures
        lines(l.push('\n')) == seq![strip_cr(l)],
{
    let s = l.push('\n');
    assert(is_first_index(s, '\n', l.len() as int)) by {
        assert forall|j: int| 0 <= j < l.len() implies s[j] != '\n' by {
            assert(s[j] == l[j]);
        }
    }
    lemma_index_of_first(s, '\n', l.len() as int);
    assert(s.take(l.len() as int) =~= l);
    assert(s.skip(l.len() as int + 1) =~= Seq::<char>::empty());
    assert(lines(Seq::<char>::empty()) =~= Seq::<Seq<char>>::empty());
    assert(lines(s) == seq![strip_cr(s.take(l.len() as int))] + lines(s.skip(l.len() as int + 1)));
    assert(lines(s) =~= seq![strip_cr(l)]);
}

/// The views of a sequence of strings.
pub open spec fn string_views(v: Seq<String>) -> Seq<Seq<char>> {
    v.map_values(|x: String| x@)
}

/// A copy of a list of strings.
pub fn clone_strings(v: &[String]) -> (r: Vec<String>)
    ensures
        r@ == v@,
{
    let mut r: Vec<String> = Vec::new();
    let mut i: usize = 0;
    while i < v.len()
        invariant
            i <= v@.len(),
            r@ == v@.take(i as int),
        decreases v@.len() - i,
    {
        r.push(v[i].clone());
        assert(r@ =~= v@.take(i + 1));
        i = i + 1;
    }
    assert(v@.take(v@.len() as int) =~= v@);
    r
}

/// A string holding a string literal's text.
pub fn lit(s: &str) -> (r: String)
    ensures
        r@ == s@,
{
    s.to_owned()
}

/// The items of `list` with `sep` between each two (`[String]::join`).
pub open spec fn seq_join(list: Seq<Seq<char>>, sep: Seq<char>) -> Seq<char>
    decreases list.len(),
{
    if list.len() == 0 {
        Seq::empty()
    } else if list.len() == 1 {
        list[0]
    } else {
        seq_join(list.drop_last(), sep) + sep + list.last()
    }
}

/// `[String]::join` on characters.
pub fn join_strings(list: &[String], sep: &str) -> (r: Vec<char>)
    ensures
        r@ == seq_join(string_views(list@), sep@),
{
    let s = chars_of(sep);
    let mut r: Vec<char> = Vec::new();
    let mut i: usize = 0;
    while i < list.len()
        invariant
            i <= list@.len(),
            s@ == sep@,
            r@ == seq_join(string_views(list@).take(i as int), sep@),
        decreases list@.len() - i,
    {
        let item = chars_of(list[i].as_str());
        let ghost pre = string_views(list@).take(i as int);
        let ghost next = string_views(list@).take(i + 1);
        assert(next.drop_last() =~= pre);
        if i == 0 {
            assert(next =~= seq![item@]);
            r = item;
        } else {
            let t = concat(r.as_slice(), s.as_slice());
            r = concat(t.as_slice(), item.as_slice());
        }
        i = i + 1;
    }
    assert(string_views(list@).take(list@.len() as int) =~= string_views(list@));
    r
}

/// The lines of `ls` that are not empty, in order.
pub open spec fn non_empty(ls: Seq<Seq<char>>) -> Seq<Seq<char>>
    decreases ls.len(),
{
    if ls.len() == 0 {
        Seq::empty()
    } else if ls.last().len() == 0 {
        non_empty(ls.drop_last())
    } else {
        non_empty(ls.drop_last()).push(ls.last())
    }
}

/// A non-empty item at `i` is kept: at least one item remains.
pub proof fn lemma_non_empty_keeps_one(ls: Seq<Seq<char>>, i: int)
    requires
        0 <= i < ls.len(),
        ls[i].len() > 0,
    ensures
        non_empty(ls).len() >= 1,
    decreases ls.len(),
{
    if i < ls.len() - 1 {
        lemma_non_empty_keeps_one(ls.drop_last(), i);
    }
}

/// Two non-empty items are both kept: at least two items remain.
pub proof fn lemma_non_empty_keeps_two(ls: Seq<Seq<char>>, i: int, j: int)
    requires
        0 <= i < j < ls.len(),
        ls[i].len() > 0,
        ls[j].len() > 0,
    ensures
        non_empty(ls).len() >= 2,
    decreases ls.len(),
{
    if j < ls.len() - 1 {
        lemma_non_empty_keeps_two(ls.drop_last(), i, j);
        if ls.last().len() > 0 {
        }
    } else {
        lemma_non_empty_keeps_one(ls.drop_last(), i);
    }
}

/// Without a non-empty item nothing remains.
pub proof fn lemma_non_empty_of_blanks(ls: Seq<Seq<char>>)
    requires
        forall|i: int| 0 <= i < ls.len() ==> (#[trigger] ls[i]).len() == 0,
    ensures
        non_empty(ls).len() == 0,
    decreases ls.len(),
{
    if ls.len() > 0 {
        assert(ls.last().len() == 0);
        lemma_non_empty_of_blanks(ls.drop_last());
    }
}

/// With exactly one non-empty item, at `i`, that item alone remains.
pub proof fn lemma_non_empty_single(ls: Seq<Seq<char>>, i: int)
    requires
        0 <= i < ls.len(),
        ls[i].len() > 0,
        forall|j: int| 0 <= j < ls.len() && j != i ==> (#[trigger] ls[j]).len() == 0,
    ensures
        non_empty(ls) == seq![ls[i]],
    decreases ls.len(),
{
    let d = ls.drop_last();
    if i == ls.len() - 1 {
        assert forall|j: int| 0 <= j < d.len() implies (#[trigger] d[j]).len() == 0 by {
            assert(d[j] == ls[j]);
        }
        lemma_non_empty_of_blanks(d);
        assert(non_empty(d) =~= Seq::<Seq<char>>::empty());
        assert(non_empty(ls) =~= seq![ls[i]]);
    } else {
        assert(ls.last().len() == 0);
        assert forall|j: int| 0 <= j < d.len() && j != i implies (#[trigger] d[j]).len() == 0 by {
            assert(d[j] == ls[j]);
        }
        assert(d[i] == ls[i]);
        lemma_non_empty_single(d, i);
    }
}

/// The non-empty lines of `text` (`lines().filter(|l| !l.is_empty())`).
pub fn non_empty_lines(text: &str) -> (r: Vec<String>)
    ensures
        string_views(r@) == non_empty(lines(text@)),
{
    let ls = split_lines(chars_of(text).as_slice());
    let mut r: Vec<String> = Vec::new();
    let mut i: usize = 0;
    while i < ls.len()
        invariant
            i <= ls@.len(),
            views(ls@) == lines(text@),
            string_views(r@) == non_empty(views(ls@).take(i as int)),
        decreases ls@.len() - i,
    {
        let ghost pre = views(ls@).take(i as int);
        assert(views(ls@).take(i + 1).drop_last() =~= pre);
        assert(views(ls@).take(i + 1).last() == ls@[i as int]@);
        if ls[i].len() > 0 {
            let ghost old_r = r@;
            let line = string_from_chars(ls[i].as_slice());
            r.push(line);
            assert(string_views(r@) =~= string_views(old_r).push(ls@[i as int]@));
        }
        i = i + 1;
    }
    assert(views(ls@).take(ls@.len() as int) =~= views(ls@));
    r
}

/// The pieces of `s` between commas (`str::split(',')`): always at least one.
pub open spec fn comma_pieces(s: Seq<char>) -> Seq<Seq<char>>
    decreases s.len(),
{
    match index_of(s, ',') {
        None => seq![s],
        Some(k) => {
            proof {
                lemma_index_of(s, ',');
            }
            seq![s.take(k)] + comma_pieces(s.skip(k + 1))
        },
    }
}

/// The items of a comma-separated list: the pieces trimmed, empty ones left out.
pub open spec fn comma_list(s: Seq<char>) -> Seq<Seq<char>> {
    non_empty(comma_pieces(s).map_values(|p: Seq<char>| trim(p)))
}

/// The items of a comma-separated list, trimmed, without empty ones.
pub fn split_comma_list(s: &str) -> (r: Vec<String>)
    ensures
        string_views(r@) == comma_list(s@),
{
    let c = chars_of(s);
    let mut pieces: Vec<Vec<char>> = Vec::new();
    let mut start: usize = 0;
    assert(c@.skip(0) =~= c@);
    loop
        invariant_except_break
            start <= c@.len(),
            comma_pieces(s@) == views(pieces@) + comma_pieces(c@.skip(start as int)),
        invariant
            c@ == s@,
        ensures
            comma_pieces(s@) == views(pieces@),
        decreases c@.len() - start,
    {
        let ghost rest = c@.skip(start as int);
        match find_char(c.as_slice(), ',', start) {
            Some(k) => {
                let piece = copy_range(c.as_slice(), start, k);
                proof {
                    assert(rest.take(k - start) =~= piece@);
                    assert(rest.skip(k - start + 1) =~= c@.skip(k + 1));
                    assert(views(pieces@.push(piece)) =~= views(pieces@).push(piece@));
                }
                pieces.push(piece);
                start = k + 1;
            },
            None => {
                let piece = copy_range(c.as_slice(), start, c.len());
                proof {
                    assert(piece@ =~= rest);
                    assert(views(pieces@.push(piece)) =~= views(pieces@).push(piece@));
                    assert(comma_pieces(rest) == seq![rest]);
                    assert(views(pieces@) + seq![rest] =~= views(pieces@).push(piece@));
                }
                pieces.push(piece);
                break;
            },
        }
    }
    let ghost all = views(pieces@);
    assert(comma_pieces(s@) =~= all);
    let mut r: Vec<String> = Vec::new();
    let mut i: usize = 0;
    while i < pieces.len()
        invariant
            i <= pieces@.len(),
            all == views(pieces@),
            string_views(r@) == non_empty(all.take(i as int).map_values(|p: Seq<char>| trim(p))),
        decreases pieces@.len() - i,
    {
        let t = trim_chars(pieces[i].as_slice());
        let ghost pre = all.take(i as int).map_values(|p: Seq<char>| trim(p));
        let ghost next = all.take(i + 1).map_values(|p: Seq<char>| trim(p));
        assert(next.drop_last() =~= pre);
        assert(next.last() == t@);
        if t.len() > 0 {
            let ghost old_r = r@;
            r.push(string_from_chars(t.as_slice()));
            assert(string_views(r@) =~= string_views(old_r).push(t@));
        }
        i = i + 1;
    }
    assert(all.take(all.len() as int) =~= all);
    r
}

} // verus!

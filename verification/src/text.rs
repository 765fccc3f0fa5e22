//! Character-level string operations with their specifications over `Seq<char>`.
use vstd::prelude::*;

verus! {

/// Appends one character to a string (`String::push`).
#[verifier::external_body]
pub(crate) fn push_char(s: &mut String, c: char)
    ensures
        final(s)@ == old(s)@.push(c),
{
    s.push(c);
}

/// The characters of a string slice, in order.
pub fn chars_of(s: &str) -> (r: Vec<char>)
    ensures
        r@ == s@,
{
    let mut r: Vec<char> = Vec::new();
    for c in it: s.chars()
        invariant
            r@ == it.seq().take(it.index() as int),
    {
        r.push(c);
    }
    r
}

/// A string made of the given characters, in order.
pub fn from_chars(cs: &[char]) -> (r: String)
    ensures
        r@ == cs@,
{
    let mut r = String::new();
    let n = cs.len();
    for i in 0..n
        invariant
            n == cs@.len(),
            r@ == cs@.take(i as int),
    {
        push_char(&mut r, cs[i]);
        assert(cs@.take(i + 1) =~= cs@.take(i as int).push(cs@[i as int]));
    }
    assert(cs@.take(n as int) =~= cs@);
    r
}

/// An owned copy of a string slice.
pub fn owned(s: &str) -> (r: String)
    ensures
        r@ == s@,
{
    s.to_owned()
}

/// The concatenation of two string slices.
pub fn concat(a: &str, b: &str) -> (r: String)
    ensures
        r@ == a@ + b@,
{
    let mut r = a.to_owned();
    r.append(b);
    r
}

/// The concatenation of three string slices.
pub fn concat3(a: &str, b: &str, c: &str) -> (r: String)
    ensures
        r@ == a@ + b@ + c@,
{
    let mut r = a.to_owned();
    r.append(b);
    r.append(c);
    r
}

/// Whether two string slices hold the same characters.
pub fn str_eq(a: &str, b: &str) -> (r: bool)
    ensures
        r == (a@ == b@),
{
    let x = chars_of(a);
    let y = chars_of(b);
    if x.len() != y.len() {
        return false;
    }
    let n = x.len();
    for i in 0..n
        invariant
            n == x@.len(),
            n == y@.len(),
            x@ == a@,
            y@ == b@,
            forall|j: int| 0 <= j < i ==> x@[j] == y@[j],
    {
        if x[i] != y[i] {
            assert(x@[i as int] != y@[i as int]);
            return false;
        }
    }
    assert(x@ =~= y@);
    true
}

/// `p` is a prefix of `s`.
pub open spec fn has_prefix(s: Seq<char>, p: Seq<char>) -> bool {
    p.len() <= s.len() && s.subrange(0, p.len() as int) == p
}

/// `p` is a suffix of `s`.
pub open spec fn has_suffix(s: Seq<char>, p: Seq<char>) -> bool {
    p.len() <= s.len() && s.subrange(s.len() - p.len(), s.len() as int) == p
}

/// `p` occurs somewhere in `s`.
pub open spec fn occurs_in(s: Seq<char>, p: Seq<char>) -> bool {
    exists|i: int| 0 <= i && i + p.len() <= s.len() && #[trigger] s.subrange(i, i + p.len()) == p
}

/// Whether the characters of `p` stand in `x` from position `at` on.
fn matches_at(x: &Vec<char>, p: &Vec<char>, at: usize) -> (r: bool)
    requires
        at + p@.len() <= x@.len(),
    ensures
        r == (x@.subrange(at as int, at + p@.len()) == p@),
{
    let n = p.len();
    for j in 0..n
        invariant
            n == p@.len(),
            at + n <= x.len(),
            forall|k: int| 0 <= k < j ==> x@[at + k] == p@[k],
    {
        if x[at + j] != p[j] {
            assert(x@.subrange(at as int, at + p@.len())[j as int] != p@[j as int]);
            return false;
        }
    }
    assert(x@.subrange(at as int, at + p@.len()) =~= p@);
    true
}

/// Whether `s` begins with `p` (`str::starts_with`).
pub fn starts_with(s: &str, p: &str) -> (r: bool)
    ensures
        r == has_prefix(s@, p@),
{
    let x = chars_of(s);
    let y = chars_of(p);
    if y.len() > x.len() {
        return false;
    }
    matches_at(&x, &y, 0)
}

/// Whether `s` ends with `p` (`str::ends_with`).
pub fn ends_with(s: &str, p: &str) -> (r: bool)
    ensures
        r == has_suffix(s@, p@),
{
    let x = chars_of(s);
    let y = chars_of(p);
    if y.len() > x.len() {
        return false;
    }
    matches_at(&x, &y, x.len() - y.len())
}

/// `s` without the prefix `p`, when `s` begins with it (`str::strip_prefix`).
pub fn strip_prefix(s: &str, p: &str) -> (r: Option<String>)
    ensures
        r is Some <==> has_prefix(s@, p@),
        r matches Some(rest) ==> rest@ == s@.skip(p@.len() as int),
{
    if starts_with(s, p) {
        let x = chars_of(s);
        let k = chars_of(p).len();
        let rest = from_chars(slice_skip(x.as_slice(), k).as_slice());
        Some(rest)
    } else {
        None
    }
}

/// The elements of a slice from position `k` on.
fn slice_skip(x: &[char], k: usize) -> (r: Vec<char>)
    requires
        k <= x@.len(),
    ensures
        r@ == x@.skip(k as int),
{
    let mut r: Vec<char> = Vec::new();
    let n = x.len();
    let mut i = k;
    while i < n
        invariant
            k <= i <= n,
            n == x@.len(),
            r@ == x@.subrange(k as int, i as int),
        decreases n - i,
    {
        r.push(x[i]);
        assert(x@.subrange(k as int, i + 1) =~= x@.subrange(k as int, i as int).push(x@[i as int]));
        i = i + 1;
    }
    assert(x@.subrange(k as int, n as int) =~= x@.skip(k as int));
    r
}

/// The characters of `x` from position `a` up to position `b`.
pub fn slice_range(x: &[char], a: usize, b: usize) -> (r: Vec<char>)
    requires
        a <= b <= x@.len(),
    ensures
        r@ == x@.subrange(a as int, b as int),
{
    let mut r: Vec<char> = Vec::new();
    let mut i = a;
    while i < b
        invariant
            a <= i <= b,
            b <= x@.len(),
            r@ == x@.subrange(a as int, i as int),
        decreases b - i,
    {
        r.push(x[i]);
        assert(x@.subrange(a as int, i + 1) =~= x@.subrange(a as int, i as int).push(x@[i as int]));
        i = i + 1;
    }
    r
}

/// Whether `p` occurs in `s` (`str::contains` with a string pattern).
pub fn contains(s: &str, p: &str) -> (r: bool)
    ensures
        r == occurs_in(s@, p@),
{
    let x = chars_of(s);
    let y = chars_of(p);
    if y.len() > x.len() {
        assert forall|i: int| 0 <= i && i + y@.len() <= x@.len() implies #[trigger] x@.subrange(i, i + y@.len()) != y@ by {}
        return false;
    }
    let last = x.len() - y.len();
    let mut i: usize = 0;
    loop
        invariant
            i <= last,
            last + y@.len() == x@.len(),
            x@ == s@,
            y@ == p@,
            forall|j: int| 0 <= j < i ==> #[trigger] x@.subrange(j, j + y@.len()) != y@,
        decreases last - i,
    {
        if matches_at(&x, &y, i) {
            return true;
        }
        if i == last {
            return false;
        }
        i = i + 1;
    }
}

/// Unicode white space, as `char::is_whitespace` decides it.
pub open spec fn is_space(c: char) -> bool {
    let u = c as u32;
    ||| 0x09 <= u <= 0x0D
    ||| u == 0x20
    ||| u == 0x85
    ||| u == 0xA0
    ||| u == 0x1680
    ||| 0x2000 <= u <= 0x200A
    ||| u == 0x2028
    ||| u == 0x2029
    ||| u == 0x202F
    ||| u == 0x205F
    ||| u == 0x3000
}

/// Whether `c` is white space.
pub fn is_space_char(c: char) -> (r: bool)
    ensures
        r == is_space(c),
{
    let u = c as u32;
    (0x09 <= u && u <= 0x0D) || u == 0x20 || u == 0x85 || u == 0xA0 || u == 0x1680 || (0x2000
        <= u && u <= 0x200A) || u == 0x2028 || u == 0x2029 || u == 0x202F || u == 0x205F || u
        == 0x3000
}

/// `s` without its leading white space.
pub open spec fn trim_start_spec(s: Seq<char>) -> Seq<char>
    decreases s.len(),
{
    if s.len() > 0 && is_space(s[0]) {
        trim_start_spec(s.drop_first())
    } else {
        s
    }
}

/// `s` without its trailing white space.
pub open spec fn trim_end_spec(s: Seq<char>) -> Seq<char>
    decreases s.len(),
{
    if s.len() > 0 && is_space(s.last()) {
        trim_end_spec(s.drop_last())
    } else {
        s
    }
}

/// `s` without leading and trailing white space (`str::trim`).
pub open spec fn trim_spec(s: Seq<char>) -> Seq<char> {
    trim_end_spec(trim_start_spec(s))
}

proof fn lemma_trim_start_skip(s: Seq<char>, i: int)
    requires
        0 <= i <= s.len(),
        forall|j: int| 0 <= j < i ==> is_space(#[trigger] s[j]),
    ensures
        trim_start_spec(s) == trim_start_spec(s.skip(i)),
    decreases i,
{
    if i > 0 {
        assert(s.skip(i) =~= s.drop_first().skip(i - 1));
        lemma_trim_start_skip(s.drop_first(), i - 1);
    } else {
        assert(s.skip(0) =~= s);
    }
}

proof fn lemma_trim_end_take(s: Seq<char>, i: int)
    requires
        0 <= i <= s.len(),
        forall|j: int| i <= j < s.len() ==> is_space(#[trigger] s[j]),
    ensures
        trim_end_spec(s) == trim_end_spec(s.take(i)),
    decreases s.len() - i,
{
    if i < s.len() {
        assert(s.drop_last().take(i) =~= s.take(i));
        lemma_trim_end_take(s.drop_last(), i);
    } else {
        assert(s.take(i) =~= s);
    }
}

/// `s` without leading and trailing white space (`str::trim`).
pub fn trim(s: &str) -> (r: String)
    ensures
        r@ == trim_spec(s@),
{
    let x = chars_of(s);
    let n = x.len();
    let mut a: usize = 0;
    while a < n && is_space_char(x[a])
        invariant
            a <= n,
            n == x@.len(),
            forall|j: int| 0 <= j < a ==> is_space(#[trigger] x@[j]),
        decreases n - a,
    {
        a = a + 1;
    }
    proof {
        lemma_trim_start_skip(x@, a as int);
    }
    let mut b: usize = n;
    while b > a && is_space_char(x[b - 1])
        invariant
            a <= b <= n,
            n == x@.len(),
            forall|j: int| b <= j < n ==> is_space(#[trigger] x@[j]),
        decreases b,
    {
        b = b - 1;
    }
    proof {
        let t = x@.skip(a as int);
        assert(a == n || !is_space(t[0]));
        assert(trim_start_spec(t) == t);
        assert forall|j: int| b - a <= j < t.len() implies is_space(#[trigger] t[j]) by {
            assert(t[j] == x@[a + j]);
        }
        lemma_trim_end_take(t, b - a);
        assert(t.take(b - a) =~= x@.subrange(a as int, b as int));
        let u = x@.subrange(a as int, b as int);
        if u.len() > 0 {
            assert(u.last() == x@[b - 1]);
        }
    }
    from_chars(slice_range(x.as_slice(), a, b).as_slice())
}

/// `s` without trailing occurrences of `c` (`str::trim_end_matches` with a char).
pub open spec fn trim_end_char_spec(s: Seq<char>, c: char) -> Seq<char>
    decreases s.len(),
{
    if s.len() > 0 && s.last() == c {
        trim_end_char_spec(s.drop_last(), c)
    } else {
        s
    }
}

proof fn lemma_trim_end_char_take(s: Seq<char>, c: char, i: int)
    requires
        0 <= i <= s.len(),
        forall|j: int| i <= j < s.len() ==> #[trigger] s[j] == c,
    ensures
        trim_end_char_spec(s, c) == trim_end_char_spec(s.take(i), c),
    decreases s.len() - i,
{
    if i < s.len() {
        assert(s.drop_last().take(i) =~= s.take(i));
        lemma_trim_end_char_take(s.drop_last(), c, i);
    } else {
        assert(s.take(i) =~= s);
    }
}

/// `s` without trailing occurrences of `c` (`str::trim_end_matches` with a char).
pub fn trim_end_char(s: &str, c: char) -> (r: String)
    ensures
        r@ == trim_end_char_spec(s@, c),
{
    let x = chars_of(s);
    let n = x.len();
    let mut b: usize = n;
    while b > 0 && x[b - 1] == c
        invariant
            b <= n,
            n == x@.len(),
            forall|j: int| b <= j < n ==> #[trigger] x@[j] == c,
        decreases b,
    {
        b = b - 1;
    }
    proof {
        lemma_trim_end_char_take(x@, c, b as int);
        let t = x@.take(b as int);
        if t.len() > 0 {
            assert(t.last() == x@[b - 1]);
        }
        assert(x@.subrange(0, b as int) =~= t);
    }
    from_chars(slice_range(x.as_slice(), 0, b).as_slice())
}

/// `s` with every trailing occurrence of the nonempty pattern `p` removed
/// (`str::trim_end_matches` with a string pattern).
pub open spec fn trim_end_str_spec(s: Seq<char>, p: Seq<char>) -> Seq<char>
    decreases s.len(),
{
    if p.len() > 0 && has_suffix(s, p) {
        trim_end_str_spec(s.subrange(0, s.len() - p.len()), p)
    } else {
        s
    }
}

/// `s` with every trailing occurrence of the nonempty pattern `p` removed
/// (`str::trim_end_matches` with a string pattern).
pub fn trim_end_str(s: &str, p: &str) -> (r: String)
    ensures
        r@ == trim_end_str_spec(s@, p@),
{
    let x = chars_of(s);
    let y = chars_of(p);
    let k = y.len();
    let mut b: usize = x.len();
    if k == 0 {
        return from_chars(x.as_slice());
    }
    assert(x@.take(b as int) =~= x@);
    while b >= k && matches_at(&x, &y, b - k)
        invariant
            b <= x@.len(),
            k == y@.len(),
            k > 0,
            y@ == p@,
            trim_end_str_spec(s@, p@) == trim_end_str_spec(x@.take(b as int), p@),
        decreases b,
    {
        proof {
            let t = x@.take(b as int);
            assert(t.subrange(t.len() - k, t.len() as int) =~= x@.subrange(b - k, b as int));
            assert(t.subrange(0, t.len() - k) =~= x@.take(b - k));
        }
        b = b - k;
    }
    proof {
        let t = x@.take(b as int);
        if b >= k {
            assert(t.subrange(t.len() - k, t.len() as int) =~= x@.subrange(b - k, b as int));
        }
        assert(x@.take(x@.len() as int) =~= x@);
        assert(x@.subrange(0, b as int) =~= t);
    }
    from_chars(slice_range(x.as_slice(), 0, b).as_slice())
}

/// `s` with every `from` replaced by `to` (`str::replace` with one char for another).
pub open spec fn replace_char_spec(s: Seq<char>, from: char, to: char) -> Seq<char> {
    s.map_values(|c: char| if c == from { to } else { c })
}

/// `s` with every `from` replaced by `to` (`str::replace` with one char for another).
pub fn replace_char(s: &str, from: char, to: char) -> (r: String)
    ensures
        r@ == replace_char_spec(s@, from, to),
{
    let x = chars_of(s);
    let mut r = String::new();
    let n = x.len();
    for i in 0..n
        invariant
            n == x@.len(),
            x@ == s@,
            r@ == replace_char_spec(x@.take(i as int), from, to),
    {
        let c = if x[i] == from {
            to
        } else {
            x[i]
        };
        push_char(&mut r, c);
        assert(replace_char_spec(x@.take(i + 1), from, to) =~= replace_char_spec(
            x@.take(i as int),
            from,
            to,
        ).push(c));
    }
    assert(x@.take(n as int) =~= x@);
    r
}

/// The pieces of `s` between occurrences of `c` (`str::split` with a char);
/// there is always at least one piece.
pub open spec fn split_spec(s: Seq<char>, c: char) -> Seq<Seq<char>>
    decreases s.len(),
{
    if s.len() == 0 {
        seq![Seq::<char>::empty()]
    } else {
        let r = split_spec(s.drop_last(), c);
        if s.last() == c {
            r.push(Seq::<char>::empty())
        } else {
            r.update(r.len() - 1, r.last().push(s.last()))
        }
    }
}

proof fn lemma_split_len(s: Seq<char>, c: char)
    ensures
        split_spec(s, c).len() >= 1,
    decreases s.len(),
{
    if s.len() > 0 {
        lemma_split_len(s.drop_last(), c);
    }
}

/// The views of a sequence of strings.
pub open spec fn views(v: Seq<String>) -> Seq<Seq<char>> {
    v.map_values(|x: String| x@)
}

/// The pieces of `s` between occurrences of `c` (`str::split` with a char).
pub fn split(s: &str, c: char) -> (r: Vec<String>)
    ensures
        views(r@) == split_spec(s@, c),
{
    let x = chars_of(s);
    let n = x.len();
    let mut done: Vec<String> = Vec::new();
    let mut cur: Vec<char> = Vec::new();
    for i in 0..n
        invariant
            n == x@.len(),
            x@ == s@,
            views(done@).push(cur@) == split_spec(x@.take(i as int), c),
    {
        proof {
            lemma_split_len(x@.take(i as int), c);
            assert(x@.take(i + 1).drop_last() =~= x@.take(i as int));
        }
        let ghost prev = views(done@);
        let ghost prev_cur = cur@;
        if x[i] == c {
            let piece = from_chars(cur.as_slice());
            done.push(piece);
            cur = Vec::new();
            assert(views(done@) =~= prev.push(prev_cur));
        } else {
            cur.push(x[i]);
        }
        proof {
            let t = x@.take(i + 1);
            assert(t.last() == x@[i as int]);
            assert(views(done@).push(cur@) =~= split_spec(t, c));
        }
    }
    let piece = from_chars(cur.as_slice());
    done.push(piece);
    assert(x@.take(n as int) =~= x@);
    assert(views(done@) =~= split_spec(x@, c));
    done
}

/// The nonempty pieces of `s` between occurrences of `c`
/// (`str::split` followed by dropping the empty pieces).
pub open spec fn segments_spec(s: Seq<char>, c: char) -> Seq<Seq<char>> {
    split_spec(s, c).filter(|p: Seq<char>| p.len() > 0)
}

/// The nonempty pieces of `s` between occurrences of `c`.
pub fn segments(s: &str, c: char) -> (r: Vec<String>)
    ensures
        views(r@) == segments_spec(s@, c),
{
    let parts = split(s, c);
    let ghost all = views(parts@);
    let mut r: Vec<String> = Vec::new();
    let n = parts.len();
    for i in 0..n
        invariant
            n == parts@.len(),
            all == views(parts@),
            views(r@) == all.take(i as int).filter(|p: Seq<char>| p.len() > 0),
    {
        proof {
            reveal_with_fuel(Seq::filter, 1);
            assert(all.take(i + 1).drop_last() =~= all.take(i as int));
        }
        let ghost prev = views(r@);
        if parts[i].as_str().unicode_len() > 0 {
            r.push(parts[i].clone());
            assert(views(r@) =~= prev.push(all[i as int]));
        }
    }
    assert(all.take(n as int) =~= all);
    r
}

/// `p` without one trailing carriage return.
pub open spec fn strip_cr(p: Seq<char>) -> Seq<char> {
    if p.len() > 0 && p.last() == '\r' {
        p.drop_last()
    } else {
        p
    }
}

/// The lines of `s` as `str::lines` yields them: split at `\n`, a `\r` right before
/// a `\n` dropped, and no empty line after a final `\n`.
pub open spec fn lines_spec(s: Seq<char>) -> Seq<Seq<char>> {
    let parts = split_spec(s, '\n');
    let body = parts.drop_last().map_values(|p: Seq<char>| strip_cr(p));
    if parts.last().len() == 0 {
        body
    } else {
        body.push(parts.last())
    }
}

/// `p` without one trailing carriage return.
fn strip_cr_exec(p: &str) -> (r: String)
    ensures
        r@ == strip_cr(p@),
{
    let x = chars_of(p);
    let n = x.len();
    if n > 0 && x[n - 1] == '\r' {
        assert(x@.subrange(0, n - 1) =~= x@.drop_last());
        from_chars(slice_range(x.as_slice(), 0, n - 1).as_slice())
    } else {
        from_chars(x.as_slice())
    }
}

/// The lines of `s` (`str::lines`).
pub fn lines(s: &str) -> (r: Vec<String>)
    ensures
        views(r@) == lines_spec(s@),
{
    let parts = split(s, '\n');
    proof {
        lemma_split_len(s@, '\n');
    }
    let ghost all = views(parts@);
    let n = parts.len();
    let mut r: Vec<String> = Vec::new();
    for i in 0..n - 1
        invariant
            n == parts@.len(),
            n >= 1,
            all == views(parts@),
            views(r@) == all.take(i as int).map_values(|p: Seq<char>| strip_cr(p)),
    {
        let line = strip_cr_exec(parts[i].as_str());
        assert(all[i as int] == parts@[i as int]@);
        let ghost prev = views(r@);
        r.push(line);
        assert(views(r@) =~= prev.push(strip_cr(all[i as int])));
        assert(all.take(i + 1).map_values(|p: Seq<char>| strip_cr(p)) =~= all.take(i as int).map_values(|p: Seq<char>| strip_cr(p)).push(strip_cr(all[i as int])));
        assert(views(r@) =~= all.take(i + 1).map_values(|p: Seq<char>| strip_cr(p)));
    }
    assert(all.take(n - 1) =~= all.drop_last());
    let last = &parts[n - 1];
    if last.as_str().unicode_len() > 0 {
        let ghost prev = views(r@);
        r.push(last.clone());
        assert(views(r@) =~= prev.push(all.last()));
    }
    r
}

/// The pieces joined with `sep` between each two.
pub open spec fn join_spec(parts: Seq<Seq<char>>, sep: Seq<char>) -> Seq<char>
    decreases parts.len(),
{
    if parts.len() == 0 {
        Seq::<char>::empty()
    } else if parts.len() == 1 {
        parts[0]
    } else {
        join_spec(parts.drop_last(), sep) + sep + parts.last()
    }
}

/// The pieces joined with `sep` between each two (`[String]::join`).
pub fn join(parts: &[String], sep: &str) -> (r: String)
    ensures
        r@ == join_spec(views(parts@), sep@),
{
    let ghost all = views(parts@);
    let mut r = String::new();
    let n = parts.len();
    for i in 0..n
        invariant
            n == parts@.len(),
            all == views(parts@),
            r@ == join_spec(all.take(i as int), sep@),
    {
        assert(all.take(i + 1).drop_last() =~= all.take(i as int));
        if i > 0 {
            r.append(sep);
        }
        r.append(parts[i].as_str());
    }
    assert(all.take(n as int) =~= all);
    r
}

/// A copy of a list of strings.
pub fn clone_strings(v: &Vec<String>) -> (r: Vec<String>)
    ensures
        views(r@) == views(v@),
{
    let mut r: Vec<String> = Vec::new();
    let n = v.len();
    for i in 0..n
        invariant
            n == v@.len(),
            views(r@) == views(v@.take(i as int)),
    {
        let ghost prev = r@;
        let x = v[i].clone();
        r.push(x);
        assert(views(r@) =~= views(prev).push(v@[i as int]@));
        assert(views(v@.take(i + 1)) =~= views(v@.take(i as int)).push(v@[i as int]@));
    }
    assert(v@.take(n as int) =~= v@);
    r
}

/// `c` does not occur in `s`.
pub open spec fn free_of(s: Seq<char>, c: char) -> bool {
    forall|i: int| 0 <= i < s.len() ==> #[trigger] s[i] != c
}

/// Appending text without the separator extends the last piece.
pub proof fn lemma_split_append_plain(a: Seq<char>, b: Seq<char>, c: char)
    requires
        free_of(b, c),
    ensures
        split_spec(a + b, c) == split_spec(a, c).update(
            split_spec(a, c).len() - 1,
            split_spec(a, c).last() + b,
        ),
    decreases b.len(),
{
    lemma_split_len(a, c);
    if b.len() == 0 {
        assert(a + b =~= a);
        assert(split_spec(a, c).last() + b =~= split_spec(a, c).last());
        assert(split_spec(a, c).update(split_spec(a, c).len() - 1, split_spec(a, c).last())
            =~= split_spec(a, c));
    } else {
        let b0 = b.drop_last();
        assert(free_of(b0, c)) by {
            assert forall|i: int| 0 <= i < b0.len() implies #[trigger] b0[i] != c by {
                assert(b0[i] == b[i]);
            }
        }
        lemma_split_append_plain(a, b0, c);
        assert((a + b).drop_last() =~= a + b0);
        assert((a + b).last() == b.last());
        assert(b.last() != c);
        let r = split_spec(a, c);
        let r2 = split_spec(a + b0, c);
        assert(r2.len() == r.len());
        assert(r2.last() == r.last() + b0);
        assert(split_spec(a + b, c) == r2.update(r2.len() - 1, r2.last().push(b.last())));
        assert(r.last() + b0 + seq![b.last()] =~= r.last() + b);
        assert((r.last() + b0).push(b.last()) =~= r.last() + b);
        assert(split_spec(a + b, c) =~= r.update(r.len() - 1, r.last() + b));
    }
}

/// Appending the separator starts a new, empty piece.
pub proof fn lemma_split_push_sep(a: Seq<char>, c: char)
    ensures
        split_spec(a.push(c), c) == split_spec(a, c).push(Seq::<char>::empty()),
{
    assert(a.push(c).drop_last() =~= a);
}

} // verus!

use vstd::prelude::*;
use vstd::string::*;

verus! {

/// The characters that `char::is_whitespace` accepts (Unicode White_Space).
pub open spec fn is_ws(c: char) -> bool {
    let u = c as u32;
    ||| u == 0x20
    ||| 0x09 <= u <= 0x0D
    ||| u == 0x85
    ||| u == 0xA0
    ||| u == 0x1680
    ||| 0x2000 <= u <= 0x200A
    ||| u == 0x2028
    ||| u == 0x2029
    ||| u == 0x202F
    ||| u == 0x205F
    ||| u == 0x3000
}

/// The whitespace-separated words of `s` from position `i` on, where a word
/// under way began at `start` (`start == i` when none is).
pub open spec fn words_from(s: Seq<char>, i: int, start: int) -> Seq<Seq<char>>
    decreases s.len() - i,
{
    if i >= s.len() {
        if start < s.len() {
            seq![s.subrange(start, s.len() as int)]
        } else {
            seq![]
        }
    } else if is_ws(s[i]) {
        if start < i {
            seq![s.subrange(start, i)] + words_from(s, i + 1, i + 1)
        } else {
            words_from(s, i + 1, i + 1)
        }
    } else {
        words_from(s, i + 1, start)
    }
}

/// The words of `s`, as `str::split_whitespace` yields them.
pub open spec fn words(s: Seq<char>) -> Seq<Seq<char>> {
    words_from(s, 0, 0)
}

/// The pieces of `s` between occurrences of `sep` from position `i` on,
/// the current piece having begun at `start`.
pub open spec fn pieces_from(s: Seq<char>, sep: char, i: int, start: int) -> Seq<Seq<char>>
    decreases s.len() - i,
{
    if i >= s.len() {
        seq![s.subrange(start, s.len() as int)]
    } else if s[i] == sep {
        seq![s.subrange(start, i)] + pieces_from(s, sep, i + 1, i + 1)
    } else {
        pieces_from(s, sep, i + 1, start)
    }
}

/// The pieces of `s` around `sep`, as `str::split` with one character yields them.
pub open spec fn pieces(s: Seq<char>, sep: char) -> Seq<Seq<char>> {
    pieces_from(s, sep, 0, 0)
}

/// A line without the carriage return that may close it.
pub open spec fn strip_cr(l: Seq<char>) -> Seq<char> {
    if l.len() > 0 && l.last() == '\r' {
        l.drop_last()
    } else {
        l
    }
}

/// The lines of `s`, as `str::lines` yields them: the pieces between line
/// breaks, each without a carriage return just before its line break; the
/// text after the last line break is a line unless it is empty, and keeps
/// what it holds.
pub open spec fn lines(s: Seq<char>) -> Seq<Seq<char>> {
    let p = pieces(s, '\n');
    let body = p.drop_last().map_values(|l: Seq<char>| strip_cr(l));
    if p.last().len() == 0 {
        body
    } else {
        body.push(p.last())
    }
}

/// Whether `t` occurs in `s` as a contiguous run.
pub open spec fn contains(s: Seq<char>, t: Seq<char>) -> bool {
    exists|i: int| 0 <= i <= s.len() - t.len() && #[trigger] s.subrange(i, i + t.len()) == t
}

/// Whether `s` begins with `t`.
pub open spec fn starts_with(s: Seq<char>, t: Seq<char>) -> bool {
    t.len() <= s.len() && s.subrange(0, t.len() as int) == t
}

/// The position of the first element of `ws` equal to `t`, if any.
pub open spec fn position_from(ws: Seq<Seq<char>>, t: Seq<char>, k: int) -> Option<int>
    decreases ws.len() - k,
{
    if k >= ws.len() {
        None
    } else if ws[k] == t {
        Some(k)
    } else {
        position_from(ws, t, k + 1)
    }
}

pub open spec fn position(ws: Seq<Seq<char>>, t: Seq<char>) -> Option<int> {
    position_from(ws, t, 0)
}

/// What `s` holds once leading and trailing whitespace is gone.
pub open spec fn trim_end_from(s: Seq<char>, j: int) -> int
    decreases j,
{
    if j > 0 && is_ws(s[j - 1]) {
        trim_end_from(s, j - 1)
    } else {
        j
    }
}

pub open spec fn trim_start_from(s: Seq<char>, i: int) -> int
    decreases s.len() - i,
{
    if i < s.len() && is_ws(s[i]) {
        trim_start_from(s, i + 1)
    } else {
        i
    }
}

pub open spec fn trim(s: Seq<char>) -> Seq<char> {
    let i = trim_start_from(s, 0);
    if i >= s.len() {
        seq![]
    } else {
        s.subrange(i, trim_end_from(s, s.len() as int))
    }
}

/// The views of a sequence of strings.
pub open spec fn views(v: Seq<String>) -> Seq<Seq<char>> {
    v.map_values(|w: String| w@)
}

/// The view of an optional string.
pub open spec fn opt_view(o: Option<String>) -> Option<Seq<char>> {
    match o {
        Some(s) => Some(s@),
        None => None,
    }
}

/// What follows the first `n` characters of `s`.
pub open spec fn after(s: Seq<char>, n: int) -> Seq<char> {
    s.subrange(n, s.len() as int)
}

/// Whether `c` is whitespace in the sense of `char::is_whitespace`.
pub fn is_whitespace(c: char) -> (r: bool)
    ensures
        r == is_ws(c),
{
    let u = c as u32;
    u == 0x20 || (0x09 <= u && u <= 0x0D) || u == 0x85 || u == 0xA0 || u == 0x1680 || (0x2000
        <= u && u <= 0x200A) || u == 0x2028 || u == 0x2029 || u == 0x202F || u == 0x205F || u
        == 0x3000
}

/// The characters of `s`, in order.
pub fn chars_of(s: &str) -> (r: Vec<char>)
    ensures
        r@ == s@,
{
    let n = s.unicode_len();
    let mut v: Vec<char> = Vec::new();
    let mut i: usize = 0;
    while i < n
        invariant
            n == s@.len(),
            i <= n,
            v@ == s@.subrange(0, i as int),
        decreases n - i,
    {
        v.push(s.get_char(i));
        i += 1;
        assert(v@ =~= s@.subrange(0, i as int));
    }
    assert(v@ =~= s@);
    v
}

/// A new string holding the characters `from..to` of `s`.
pub fn substring(s: &str, from: usize, to: usize) -> (r: String)
    requires
        from <= to <= s@.len(),
    ensures
        r@ == s@.subrange(from as int, to as int),
{
    String::from_str(s.substring_char(from, to))
}

proof fn lemma_push_then_rest(
    done: Seq<Seq<char>>,
    w: Seq<char>,
    rest: Seq<Seq<char>>,
)
    ensures
        done + (seq![w] + rest) == done.push(w) + rest,
{
    assert(done + (seq![w] + rest) =~= done.push(w) + rest);
}

/// The whitespace-separated words of `s`.
pub fn split_words(s: &str) -> (r: Vec<String>)
    ensures
        views(r@) == words(s@),
{
    let cs = chars_of(s);
    let n = cs.len();
    let mut out: Vec<String> = Vec::new();
    let mut start: usize = 0;
    let mut i: usize = 0;
    while i < n
        invariant
            n == s@.len(),
            cs@ == s@,
            start <= i <= n,
            words(s@) == views(out@) + words_from(s@, i as int, start as int),
        decreases n - i,
    {
        if is_whitespace(cs[i]) {
            if start < i {
                let w = substring(s, start, i);
                proof {
                    lemma_push_then_rest(
                        views(out@),
                        w@,
                        words_from(s@, i + 1, i + 1),
                    );
                }
                let ghost before = views(out@);
                out.push(w);
                assert(views(out@) =~= before.push(w@));
            }
            i += 1;
            start = i;
        } else {
            i += 1;
        }
    }
    if start < n {
        let w = substring(s, start, n);
        out.push(w);
    }
    assert(words(s@) =~= views(out@));
    out
}

/// The pieces of `s` between occurrences of `sep`.
pub fn split_char(s: &str, sep: char) -> (r: Vec<String>)
    ensures
        views(r@) == pieces(s@, sep),
        r@.len() >= 1,
{
    let cs = chars_of(s);
    let n = cs.len();
    let mut out: Vec<String> = Vec::new();
    let mut start: usize = 0;
    let mut i: usize = 0;
    while i < n
        invariant
            n == s@.len(),
            cs@ == s@,
            start <= i <= n,
            pieces(s@, sep) == views(out@) + pieces_from(s@, sep, i as int, start as int),
        decreases n - i,
    {
        if cs[i] == sep {
            let w = substring(s, start, i);
            proof {
                lemma_push_then_rest(views(out@), w@, pieces_from(s@, sep, i + 1, i + 1));
            }
            let ghost before = views(out@);
            out.push(w);
            assert(views(out@) =~= before.push(w@));
            i += 1;
            start = i;
        } else {
            i += 1;
        }
    }
    let w = substring(s, start, n);
    out.push(w);
    assert(pieces(s@, sep) =~= views(out@));
    out
}

/// `l` without a closing carriage return.
pub fn strip_cr_string(l: &String) -> (r: String)
    ensures
        r@ == strip_cr(l@),
{
    let s = l.as_str();
    let n = s.unicode_len();
    if n > 0 && s.get_char(n - 1) == '\r' {
        substring(s, 0, n - 1)
    } else {
        substring(s, 0, n)
    }
}

/// The lines of `s`.
pub fn lines_of(s: &str) -> (r: Vec<String>)
    ensures
        views(r@) == lines(s@),
{
    let p = split_char(s, '\n');
    let ghost ps = views(p@);
    let n = p.len();
    assert(ps.len() == n);
    let mut out: Vec<String> = Vec::new();
    let mut k: usize = 0;
    while k < n - 1
        invariant
            ps == views(p@),
            ps.len() == n,
            n >= 1,
            k <= n - 1,
            views(out@) == ps.drop_last().subrange(0, k as int).map_values(
                |l: Seq<char>| strip_cr(l),
            ),
        decreases n - 1 - k,
    {
        let l = strip_cr_string(&p[k]);
        let ghost before = views(out@);
        assert(ps.drop_last()[k as int] == p@[k as int]@);
        out.push(l);
        assert(views(out@) =~= before.push(l@));
        k += 1;
        assert(views(out@) =~= ps.drop_last().subrange(0, k as int).map_values(
            |l: Seq<char>| strip_cr(l),
        ));
    }
    assert(ps.drop_last().subrange(0, k as int) =~= ps.drop_last());
    assert(ps.last() == p@[n - 1]@);
    let last = p[n - 1].as_str();
    if last.unicode_len() > 0 {
        let ghost before = views(out@);
        out.push(p[n - 1].clone());
        assert(views(out@) =~= before.push(ps.last()));
    }
    out
}

/// Whether `t` occurs in `s`.
pub fn contains_str(s: &str, t: &str) -> (r: bool)
    ensures
        r == contains(s@, t@),
{
    let a = chars_of(s);
    let b = chars_of(t);
    if b.len() > a.len() {
        return false;
    }
    let last = a.len() - b.len();
    let mut i: usize = 0;
    loop
        invariant
            a@ == s@,
            b@ == t@,
            last == a.len() - b.len(),
            i <= last,
            forall|k: int| 0 <= k < i ==> #[trigger] s@.subrange(k, k + t@.len()) != t@,
        decreases last - i,
    {
        if matches_at(&a, &b, i) {
            return true;
        }
        if i == last {
            return false;
        }
        i += 1;
    }
}

/// Whether `b` occurs in `a` at position `i`.
fn matches_at(a: &Vec<char>, b: &Vec<char>, i: usize) -> (r: bool)
    requires
        i + b.len() <= a.len(),
    ensures
        r == (a@.subrange(i as int, i + b.len()) == b@),
{
    let mut j: usize = 0;
    while j < b.len()
        invariant
            i + b.len() <= a.len(),
            j <= b.len(),
            forall|k: int| 0 <= k < j ==> a@[i + k] == b@[k],
        decreases b.len() - j,
    {
        if a[i + j] != b[j] {
            assert(a@.subrange(i as int, i + b.len())[j as int] != b@[j as int]);
            return false;
        }
        j += 1;
    }
    assert(a@.subrange(i as int, i + b.len()) =~= b@);
    true
}

/// Whether `s` begins with `t`.
pub fn starts_with_str(s: &str, t: &str) -> (r: bool)
    ensures
        r == starts_with(s@, t@),
{
    let a = chars_of(s);
    let b = chars_of(t);
    if b.len() > a.len() {
        return false;
    }
    matches_at(&a, &b, 0)
}

/// Whether the two strings hold the same characters.
pub fn str_eq(s: &str, t: &str) -> (r: bool)
    ensures
        r == (s@ == t@),
{
    let a = chars_of(s);
    let b = chars_of(t);
    if a.len() != b.len() {
        return false;
    }
    let r = matches_at(&a, &b, 0);
    assert(a@.subrange(0, b.len() as int) =~= a@);
    r
}

/// The position of the first of `ws` that equals `t`.
pub fn find_word(ws: &Vec<String>, t: &str) -> (r: Option<usize>)
    ensures
        match r {
            Some(k) => k < ws@.len() && position(views(ws@), t@) == Some(k as int),
            None => position(views(ws@), t@) is None,
        },
{
    let mut k: usize = 0;
    while k < ws.len()
        invariant
            k <= ws.len(),
            position(views(ws@), t@) == position_from(views(ws@), t@, k as int),
        decreases ws.len() - k,
    {
        if str_eq(ws[k].as_str(), t) {
            return Some(k);
        }
        k += 1;
    }
    None
}

/// `s` without leading and trailing whitespace.
pub fn trim_str(s: &str) -> (r: String)
    ensures
        r@ == trim(s@),
{
    let cs = chars_of(s);
    let n = cs.len();
    let mut i: usize = 0;
    while i < n && is_whitespace(cs[i])
        invariant
            n == s@.len(),
            cs@ == s@,
            i <= n,
            trim_start_from(s@, 0) == trim_start_from(s@, i as int),
        decreases n - i,
    {
        i += 1;
    }
    if i >= n {
        return String::new();
    }
    let mut j: usize = n;
    while j > 0 && is_whitespace(cs[j - 1])
        invariant
            n == s@.len(),
            cs@ == s@,
            j <= n,
            i < n,
            !is_ws(s@[i as int]),
            i < j,
            trim_end_from(s@, n as int) == trim_end_from(s@, j as int),
        decreases j,
    {
        j -= 1;
    }
    substring(s, i, j)
}

} // verus!

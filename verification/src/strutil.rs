//! Character-level string helpers: trimming, searching, splitting and
//! joining, with exact sequence-level specifications.
use vstd::prelude::*;
use vstd::string::*;

verus! {

/// The Unicode White_Space class, the class `str::trim` trims; trimming
/// around keys, values and tags uses it.
pub open spec fn is_ws(c: char) -> bool {
    let u = c as u32;
    ||| u == 0x09
    ||| u == 0x0A
    ||| u == 0x0B
    ||| u == 0x0C
    ||| u == 0x0D
    ||| u == 0x20
    ||| u == 0x85
    ||| u == 0xA0
    ||| u == 0x1680
    ||| (0x2000 <= u && u <= 0x200A)
    ||| u == 0x2028
    ||| u == 0x2029
    ||| u == 0x202F
    ||| u == 0x205F
    ||| u == 0x3000
}

/// `s` without its leading whitespace characters.
pub open spec fn spec_trim_front(s: Seq<char>) -> Seq<char>
    decreases s.len(),
{
    if s.len() > 0 && is_ws(s[0]) {
        spec_trim_front(s.drop_first())
    } else {
        s
    }
}

/// `s` without its trailing whitespace characters.
pub open spec fn spec_trim_back(s: Seq<char>) -> Seq<char>
    decreases s.len(),
{
    if s.len() > 0 && is_ws(s.last()) {
        spec_trim_back(s.drop_last())
    } else {
        s
    }
}

/// `s` without leading and trailing whitespace.
pub open spec fn spec_trim(s: Seq<char>) -> Seq<char> {
    spec_trim_back(spec_trim_front(s))
}

proof fn lemma_trim_front_at(s: Seq<char>, i: int)
    requires
        0 <= i <= s.len(),
        forall|k: int| 0 <= k < i ==> is_ws(s[k]),
        i < s.len() ==> !is_ws(s[i]),
    ensures
        spec_trim_front(s) =~= s.subrange(i, s.len() as int),
    decreases i,
{
    if i == 0 {
        if s.len() > 0 && is_ws(s[0]) {
        } else {
            assert(spec_trim_front(s) == s);
            assert(s.subrange(0, s.len() as int) =~= s);
        }
    } else {
        assert(is_ws(s[0]));
        let t = s.drop_first();
        assert(forall|k: int| 0 <= k < i - 1 ==> is_ws(t[k]));
        lemma_trim_front_at(t, i - 1);
        assert(t.subrange(i - 1, t.len() as int) =~= s.subrange(i, s.len() as int));
    }
}

proof fn lemma_trim_back_at(s: Seq<char>, j: int)
    requires
        0 <= j <= s.len(),
        forall|k: int| j <= k < s.len() ==> is_ws(s[k]),
        j > 0 ==> !is_ws(s[j - 1]),
    ensures
        spec_trim_back(s) =~= s.subrange(0, j),
    decreases s.len() - j,
{
    if j == s.len() {
        if s.len() > 0 && is_ws(s.last()) {
        } else {
            assert(spec_trim_back(s) == s);
            assert(s.subrange(0, s.len() as int) =~= s);
        }
    } else {
        assert(is_ws(s.last()));
        let t = s.drop_last();
        assert(forall|k: int| j <= k < t.len() ==> is_ws(t[k]));
        lemma_trim_back_at(t, j);
    }
}

/// Removes leading and trailing whitespace from `s`.
pub fn trim_str(s: &str) -> (r: String)
    ensures
        r@ == spec_trim(s@),
{
    let len: usize = s.unicode_len();
    let mut i: usize = 0;
    while i < len && is_ws_char(s.get_char(i))
        invariant
            0 <= i <= len,
            len == s@.len(),
            forall|k: int| 0 <= k < i ==> is_ws(s@[k]),
        decreases len - i,
    {
        i = i + 1;
    }
    proof {
        lemma_trim_front_at(s@, i as int);
    }
    let mut j: usize = len;
    while j > i && is_ws_char(s.get_char(j - 1))
        invariant
            i <= j <= len,
            len == s@.len(),
            forall|k: int| j <= k < len ==> is_ws(s@[k]),
        decreases j,
    {
        j = j - 1;
    }
    proof {
        let front = s@.subrange(i as int, s@.len() as int);
        lemma_trim_back_at(front, j - i);
        assert(front.subrange(0, j - i) =~= s@.subrange(i as int, j as int));
    }
    let r = s.substring_char(i, j);
    r.to_owned()
}

/// Executable test for the whitespace class used by `spec_trim`.
pub fn is_ws_char(c: char) -> (r: bool)
    ensures
        r == is_ws(c),
{
    let u = c as u32;
    u == 0x09 || u == 0x0A || u == 0x0B || u == 0x0C || u == 0x0D || u == 0x20 || u == 0x85
        || u == 0xA0 || u == 0x1680 || (0x2000 <= u && u <= 0x200A) || u == 0x2028 || u == 0x2029
        || u == 0x202F || u == 0x205F || u == 0x3000
}

/// Index of the first occurrence of `c` in `s`, if any.
pub open spec fn spec_find_char(s: Seq<char>, c: char) -> Option<int>
    decreases s.len(),
{
    if s.len() == 0 {
        None
    } else if s[0] == c {
        Some(0)
    } else {
        match spec_find_char(s.drop_first(), c) {
            Some(i) => Some(i + 1),
            None => None,
        }
    }
}

proof fn lemma_find_char_at(s: Seq<char>, c: char, i: int)
    requires
        0 <= i <= s.len(),
        forall|k: int| 0 <= k < i ==> s[k] != c,
        i < s.len() ==> s[i] == c,
    ensures
        i < s.len() ==> spec_find_char(s, c) == Some(i),
        i == s.len() ==> spec_find_char(s, c) is None,
    decreases i,
{
    if s.len() == 0 {
    } else if i == 0 {
    } else {
        assert(s[0] != c);
        let t = s.drop_first();
        assert(forall|k: int| 0 <= k < i - 1 ==> t[k] != c);
        lemma_find_char_at(t, c, i - 1);
    }
}

/// A found index is in bounds and holds the sought character.
pub proof fn lemma_find_char_some(s: Seq<char>, c: char)
    ensures
        spec_find_char(s, c) matches Some(i) ==> 0 <= i < s.len() && s[i] == c,
    decreases s.len(),
{
    if s.len() > 0 && s[0] != c {
        lemma_find_char_some(s.drop_first(), c);
    }
}

/// Finds the first occurrence of `c` in `s`.
pub fn find_char(s: &str, c: char) -> (r: Option<usize>)
    ensures
        match r {
            Some(i) => spec_find_char(s@, c) == Some(i as int) && i < s@.len() && s@[i as int]
                == c,
            None => spec_find_char(s@, c) is None,
        },
{
    let len: usize = s.unicode_len();
    let mut i: usize = 0;
    while i < len && s.get_char(i) != c
        invariant
            0 <= i <= len,
            len == s@.len(),
            forall|k: int| 0 <= k < i ==> s@[k] != c,
        decreases len - i,
    {
        i = i + 1;
    }
    proof {
        lemma_find_char_at(s@, c, i as int);
    }
    if i < len {
        Some(i)
    } else {
        None
    }
}

/// The two halves of `s` around the first occurrence of `c`, if `c` occurs.
pub open spec fn spec_split_once(s: Seq<char>, c: char) -> Option<(Seq<char>, Seq<char>)> {
    match spec_find_char(s, c) {
        Some(i) => Some((s.subrange(0, i), s.subrange(i + 1, s.len() as int))),
        None => None,
    }
}

/// Splits `s` at the first occurrence of `c`; the separator is dropped.
pub fn split_once_char(s: &str, c: char) -> (r: Option<(String, String)>)
    ensures
        match r {
            Some(p) => spec_split_once(s@, c) == Some((p.0@, p.1@)) && p.1@.len() < s@.len(),
            None => spec_split_once(s@, c) is None,
        },
{
    match find_char(s, c) {
        Some(i) => {
            let len: usize = s.unicode_len();
            let left = s.substring_char(0, i).to_owned();
            let right = s.substring_char(i + 1, len).to_owned();
            Some((left, right))
        },
        None => None,
    }
}

/// `s` split on every occurrence of `c`; separators dropped, empty parts kept.
pub open spec fn spec_split_char(s: Seq<char>, c: char) -> Seq<Seq<char>>
    decreases s.len(),
    via spec_split_char_decreases
{
    match spec_find_char(s, c) {
        Some(i) => seq![s.subrange(0, i)] + spec_split_char(
            s.subrange(i + 1, s.len() as int),
            c,
        ),
        None => seq![s],
    }
}

#[via_fn]
proof fn spec_split_char_decreases(s: Seq<char>, c: char) {
    lemma_find_char_some(s, c);
}

/// Splits `s` on every occurrence of `c`.
pub fn split_char(s: &str, c: char) -> (r: Vec<String>)
    ensures
        r@.map_values(|p: String| p@) == spec_split_char(s@, c),
{
    let mut out: Vec<String> = Vec::new();
    let mut rest: String = s.to_owned();
    loop
        invariant_except_break
            out@.map_values(|p: String| p@) + spec_split_char(rest@, c) =~= spec_split_char(
                s@,
                c,
            ),
        ensures
            out@.map_values(|p: String| p@) =~= spec_split_char(s@, c),
        decreases rest@.len(),
    {
        let ghost prev = out@.map_values(|p: String| p@);
        match split_once_char(rest.as_str(), c) {
            Some(p) => {
                let (left, right) = p;
                proof {
                    lemma_find_char_some(rest@, c);
                    let i = spec_find_char(rest@, c)->Some_0;
                    assert(spec_split_char(rest@, c) =~= seq![left@] + spec_split_char(
                        right@,
                        c,
                    ));
                }
                out.push(left);
                proof {
                    assert(out@.map_values(|q: String| q@) =~= prev.push(out@.last()@));
                }
                rest = right;
            },
            None => {
                let ghost rv = rest@;
                assert(spec_split_char(rv, c) =~= seq![rv]);
                out.push(rest);
                proof {
                    assert(out@.map_values(|q: String| q@) =~= prev.push(out@.last()@));
                }
                break ;
            },
        }
    }
    out
}

/// Index of the last occurrence of `c` in `s`, if any.
pub open spec fn spec_rfind_char(s: Seq<char>, c: char) -> Option<int>
    decreases s.len(),
{
    if s.len() == 0 {
        None
    } else if s.last() == c {
        Some(s.len() - 1)
    } else {
        spec_rfind_char(s.drop_last(), c)
    }
}

proof fn lemma_rfind_char_at(s: Seq<char>, c: char, j: int)
    requires
        0 <= j <= s.len(),
        forall|k: int| j <= k < s.len() ==> s[k] != c,
        j > 0 ==> s[j - 1] == c,
    ensures
        j > 0 ==> spec_rfind_char(s, c) == Some(j - 1),
        j == 0 ==> spec_rfind_char(s, c) is None,
    decreases s.len(),
{
    if s.len() == 0 {
    } else if j == s.len() {
    } else {
        assert(s.last() != c);
        let t = s.drop_last();
        lemma_rfind_char_at(t, c, j);
    }
}

/// Finds the last occurrence of `c` in `s`.
pub fn rfind_char(s: &str, c: char) -> (r: Option<usize>)
    ensures
        match r {
            Some(j) => spec_rfind_char(s@, c) == Some(j as int) && j < s@.len() && s@[j as int]
                == c,
            None => spec_rfind_char(s@, c) is None,
        },
{
    let len: usize = s.unicode_len();
    let mut j: usize = len;
    while j > 0 && s.get_char(j - 1) != c
        invariant
            0 <= j <= len,
            len == s@.len(),
            forall|k: int| j <= k < len ==> s@[k] != c,
        decreases j,
    {
        j = j - 1;
    }
    proof {
        lemma_rfind_char_at(s@, c, j as int);
    }
    if j > 0 {
        Some(j - 1)
    } else {
        None
    }
}

/// Returns a copy of the characters of `s` from `from` to `to`.
pub fn substring(s: &str, from: usize, to: usize) -> (r: String)
    requires
        from <= to <= s@.len(),
    ensures
        r@ == s@.subrange(from as int, to as int),
{
    s.substring_char(from, to).to_owned()
}

/// The lines joined by a single newline character.
pub open spec fn spec_join_lines(lines: Seq<Seq<char>>) -> Seq<char>
    decreases lines.len(),
{
    if lines.len() == 0 {
        Seq::empty()
    } else if lines.len() == 1 {
        lines[0]
    } else {
        lines[0] + seq!['\n'] + spec_join_lines(lines.drop_first())
    }
}

proof fn lemma_join_lines_push(lines: Seq<Seq<char>>, x: Seq<char>)
    requires
        lines.len() > 0,
    ensures
        spec_join_lines(lines.push(x)) =~= spec_join_lines(lines) + seq!['\n'] + x,
    decreases lines.len(),
{
    if lines.len() == 1 {
        assert(lines.push(x).drop_first() =~= seq![x]);
        assert(spec_join_lines(seq![x]) == x);
        assert(lines.push(x)[0] == lines[0]);
        assert(spec_join_lines(lines.push(x)) =~= lines[0] + seq!['\n'] + x);
    } else {
        lemma_join_lines_push(lines.drop_first(), x);
        assert(lines.push(x).drop_first() =~= lines.drop_first().push(x));
    }
}

/// Joins `lines` with single newline characters.
pub fn join_lines(lines: &Vec<String>) -> (r: String)
    ensures
        r@ == spec_join_lines(lines@.map_values(|l: String| l@)),
{
    let ghost lview = lines@.map_values(|l: String| l@);
    let mut out = String::new();
    let mut i: usize = 0;
    while i < lines.len()
        invariant
            0 <= i <= lines.len(),
            lview == lines@.map_values(|l: String| l@),
            out@ =~= spec_join_lines(lview.take(i as int)),
        decreases lines.len() - i,
    {
        let ghost prefix = lview.take(i as int);
        proof {
            reveal_strlit("\n");
        }
        if i > 0 {
            out.append("\n");
        }
        out.append(lines[i].as_str());
        proof {
            assert(lview.take(i + 1) =~= prefix.push(lview[i as int]));
            if i > 0 {
                lemma_join_lines_push(prefix, lview[i as int]);
            } else {
                assert(spec_join_lines(seq![lview[0]]) == lview[0]);
            }
        }
        i = i + 1;
    }
    proof {
        assert(lview.take(lines@.len() as int) =~= lview);
    }
    out
}

/// The character for the decimal digit `d`.
pub open spec fn spec_digit(d: int) -> char {
    if d == 0 {
        '0'
    } else if d == 1 {
        '1'
    } else if d == 2 {
        '2'
    } else if d == 3 {
        '3'
    } else if d == 4 {
        '4'
    } else if d == 5 {
        '5'
    } else if d == 6 {
        '6'
    } else if d == 7 {
        '7'
    } else if d == 8 {
        '8'
    } else {
        '9'
    }
}

/// The decimal digits of `n`, most significant first, no sign and no padding.
pub open spec fn spec_dec(n: int) -> Seq<char>
    decreases n,
{
    if n < 10 {
        seq![spec_digit(n)]
    } else {
        spec_dec(n / 10).push(spec_digit(n % 10))
    }
}

fn digit_str(d: u32) -> (r: &'static str)
    requires
        d < 10,
    ensures
        r@ =~= seq![spec_digit(d as int)],
{
    proof {
        reveal_strlit("0");
        reveal_strlit("1");
        reveal_strlit("2");
        reveal_strlit("3");
        reveal_strlit("4");
        reveal_strlit("5");
        reveal_strlit("6");
        reveal_strlit("7");
        reveal_strlit("8");
        reveal_strlit("9");
    }
    if d == 0 {
        "0"
    } else if d == 1 {
        "1"
    } else if d == 2 {
        "2"
    } else if d == 3 {
        "3"
    } else if d == 4 {
        "4"
    } else if d == 5 {
        "5"
    } else if d == 6 {
        "6"
    } else if d == 7 {
        "7"
    } else if d == 8 {
        "8"
    } else {
        "9"
    }
}

/// Writes `n` in decimal, no padding.
pub fn u32_dec(n: u32) -> (r: String)
    ensures
        r@ == spec_dec(n as int),
    decreases n,
{
    if n < 10 {
        digit_str(n).to_owned()
    } else {
        let high = u32_dec(n / 10);
        high.concat(digit_str(n % 10))
    }
}

/// `s` left-padded with zeros to width `w`.
pub open spec fn spec_pad_zeros(s: Seq<char>, w: int) -> Seq<char> {
    if s.len() >= w {
        s
    } else {
        Seq::new((w - s.len()) as nat, |i: int| '0') + s
    }
}

/// Left-pads the decimal form of `n` with zeros to width `w`.
pub fn u32_dec_pad(n: u32, w: usize) -> (r: String)
    ensures
        r@ == spec_pad_zeros(spec_dec(n as int), w as int),
{
    let digits = u32_dec(n);
    let dlen = digits.as_str().unicode_len();
    if dlen >= w {
        proof {
            assert(spec_pad_zeros(digits@, w as int) == digits@);
        }
        digits
    } else {
        let mut out = String::new();
        let mut k: usize = 0;
        while k < w - dlen
            invariant
                0 <= k <= w - dlen,
                dlen == digits@.len(),
                out@ =~= Seq::new(k as nat, |i: int| '0'),
            decreases w - dlen - k,
        {
            proof {
                reveal_strlit("0");
            }
            out.append("0");
            k = k + 1;
        }
        let r = out.concat(digits.as_str());
        proof {
            assert(r@ =~= spec_pad_zeros(digits@, w as int));
        }
        r
    }
}

/// Whether `p` is a prefix of `s`.
pub open spec fn spec_starts_with(s: Seq<char>, p: Seq<char>) -> bool {
    p.len() <= s.len() && s.subrange(0, p.len() as int) == p
}

/// Tests whether `s` starts with `p`.
pub fn starts_with_str(s: &str, p: &str) -> (r: bool)
    ensures
        r == spec_starts_with(s@, p@),
{
    let slen: usize = s.unicode_len();
    let plen: usize = p.unicode_len();
    if plen > slen {
        proof {
            assert(!spec_starts_with(s@, p@));
        }
        return false;
    }
    let mut i: usize = 0;
    while i < plen && s.get_char(i) == p.get_char(i)
        invariant
            0 <= i <= plen <= slen,
            slen == s@.len(),
            plen == p@.len(),
            forall|k: int| 0 <= k < i ==> s@[k] == p@[k],
        decreases plen - i,
    {
        i = i + 1;
    }
    if i == plen {
        proof {
            assert(s@.subrange(0, p@.len() as int) =~= p@);
        }
        true
    } else {
        proof {
            assert(s@[i as int] != p@[i as int]);
            assert(s@.subrange(0, p@.len() as int)[i as int] == s@[i as int]);
        }
        false
    }
}

} // verus!
